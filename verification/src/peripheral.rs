//! The life of the service.
//!
//! [`run_peripheral`] decides how one connection follows another: the device advertises, a peer
//! connects, the attribute server is bound to the connection, the BTP engine starts afresh, and the
//! connection is handled until it ends. Then the device advertises again.

use crate::advertising::{
    advertise, advertised, can_advertise, Advertisement, SERVICE_PAYLOAD_SIZE,
};
use crate::error::{to_matter_err, ServiceError};
use vstd::prelude::*;
use vstd::utf8::encode_utf8;

verus! {

/// What the next input of the service will be about.
#[derive(Clone, Copy, Debug, PartialEq, Eq)]
pub enum PeripheralState {
    /// That the service is to start.
    Starting,
    /// Whether the advertisement is on the air.
    Advertising,
    /// Whether a peer connected.
    Accepting,
    /// Whether the attribute server is bound to the connection.
    Binding,
    /// That the BTP engine was reset.
    Resetting,
    /// How the connection ended.
    Connected,
    /// Nothing any more.
    Finished,
}

/// What [`run_peripheral`] is told.
#[derive(Debug, PartialEq, Eq)]
pub enum PeripheralInput<E> {
    /// The service is to start.
    Start,
    /// The advertisement is on the air, or could not be started.
    Advertised(bool),
    /// A peer connected, or waiting for one failed.
    Accepted(bool),
    /// The attribute server is bound to the connection, or could not be.
    Bound(bool),
    /// The BTP engine was reset.
    Reset,
    /// The connection ended with this outcome.
    Closed(Result<(), ServiceError<E>>),
}

/// What [`run_peripheral`] wants done.
#[derive(Debug, PartialEq, Eq)]
pub enum PeripheralAction<E> {
    /// Send out the advertisement.
    Advertise(Advertisement),
    /// Wait for a peer to connect.
    Accept,
    /// Bind the attribute server to the connection.
    Bind,
    /// Reset the BTP engine.
    ResetBtp,
    /// Handle the events and the indications of the connection until either ends.
    HandleConnection,
    /// Return the failure.
    Finish(ServiceError<E>),
}

/// What a [`PeripheralAction`] asks for, with the bytes of the advertisement and of what a scanning
/// peer gets.
pub ghost enum PeripheralStep<E> {
    Advertise { adv_data: Seq<u8>, scan_data: Seq<u8> },
    Accept,
    Bind,
    ResetBtp,
    HandleConnection,
    Finish(ServiceError<E>),
}

impl<E> View for PeripheralAction<E> {
    type V = PeripheralStep<E>;

    open spec fn view(&self) -> PeripheralStep<E> {
        match *self {
            PeripheralAction::Advertise(sent) => PeripheralStep::Advertise {
                adv_data: sent.adv_data@,
                scan_data: sent.scan_data@,
            },
            PeripheralAction::Accept => PeripheralStep::Accept,
            PeripheralAction::Bind => PeripheralStep::Bind,
            PeripheralAction::ResetBtp => PeripheralStep::ResetBtp,
            PeripheralAction::HandleConnection => PeripheralStep::HandleConnection,
            PeripheralAction::Finish(error) => PeripheralStep::Finish(error),
        }
    }
}

/// Ends the service with `error`.
pub open spec fn give_up<E>(error: ServiceError<E>) -> (PeripheralState, PeripheralStep<E>) {
    (PeripheralState::Finished, PeripheralStep::Finish(error))
}

/// Goes on the air, or gives up if the name is too long to be advertised.
pub open spec fn go_on_air<E>(service_name: Seq<char>, service_payload: Seq<u8>) -> (
    PeripheralState,
    PeripheralStep<E>,
) {
    if can_advertise(service_name, service_payload) {
        (
            PeripheralState::Advertising,
            PeripheralStep::Advertise {
                adv_data: advertised(service_name, service_payload),
                scan_data: Seq::empty(),
            },
        )
    } else {
        give_up(ServiceError::BtpError)
    }
}

/// The state that follows an input, and what is done on the way.
pub open spec fn peripheral_step<E>(
    service_name: Seq<char>,
    service_payload: Seq<u8>,
    input: PeripheralInput<E>,
) -> (PeripheralState, PeripheralStep<E>) {
    match input {
        PeripheralInput::Start => go_on_air(service_name, service_payload),
        PeripheralInput::Advertised(true) => (PeripheralState::Accepting, PeripheralStep::Accept),
        PeripheralInput::Accepted(true) => (PeripheralState::Binding, PeripheralStep::Bind),
        PeripheralInput::Bound(true) => (PeripheralState::Resetting, PeripheralStep::ResetBtp),
        PeripheralInput::Reset => (PeripheralState::Connected, PeripheralStep::HandleConnection),
        PeripheralInput::Closed(Ok(_)) => go_on_air(service_name, service_payload),
        PeripheralInput::Closed(Err(error)) => give_up(error),
        PeripheralInput::Advertised(false)
        | PeripheralInput::Accepted(false)
        | PeripheralInput::Bound(false) => give_up(ServiceError::BtpError),
    }
}

impl PeripheralState {
    /// Whether `input` is what the service waits for.
    pub open spec fn expects<E>(self, input: PeripheralInput<E>) -> bool {
        match input {
            PeripheralInput::Start => self is Starting,
            PeripheralInput::Advertised(_) => self is Advertising,
            PeripheralInput::Accepted(_) => self is Accepting,
            PeripheralInput::Bound(_) => self is Binding,
            PeripheralInput::Reset => self is Resetting,
            PeripheralInput::Closed(_) => self is Connected,
        }
    }

    /// A service that has not started.
    pub fn new() -> (state: Self)
        ensures
            state is Starting,
    {
        PeripheralState::Starting
    }
}

/// Takes the service one step further.
pub fn run_peripheral<E>(
    state: &mut PeripheralState,
    service_name: &str,
    service_payload: &[u8],
    input: PeripheralInput<E>,
) -> (action: PeripheralAction<E>)
    requires
        old(state).expects(input),
        service_payload@.len() <= SERVICE_PAYLOAD_SIZE,
    ensures
        (*final(state), action@) == peripheral_step(service_name@, service_payload@, input),
{
    match input {
        PeripheralInput::Start | PeripheralInput::Closed(Ok(_)) => {
            match advertise(service_name, service_payload) {
                Ok(advertisement) => {
                    *state = PeripheralState::Advertising;
                    PeripheralAction::Advertise(advertisement)
                },
                Err(error) => {
                    *state = PeripheralState::Finished;
                    PeripheralAction::Finish(error)
                },
            }
        },
        PeripheralInput::Advertised(true) => {
            *state = PeripheralState::Accepting;
            PeripheralAction::Accept
        },
        PeripheralInput::Accepted(true) => {
            *state = PeripheralState::Binding;
            PeripheralAction::Bind
        },
        PeripheralInput::Bound(true) => {
            *state = PeripheralState::Resetting;
            PeripheralAction::ResetBtp
        },
        PeripheralInput::Reset => {
            *state = PeripheralState::Connected;
            PeripheralAction::HandleConnection
        },
        PeripheralInput::Closed(Err(error)) => {
            *state = PeripheralState::Finished;
            PeripheralAction::Finish(error)
        },
        PeripheralInput::Advertised(false)
        | PeripheralInput::Accepted(false)
        | PeripheralInput::Bound(false) => {
            *state = PeripheralState::Finished;
            PeripheralAction::Finish(to_matter_err(()))
        },
    }
}

/// The state of a service that took `inputs`.
pub open spec fn peripheral_after<E>(
    service_name: Seq<char>,
    service_payload: Seq<u8>,
    inputs: Seq<PeripheralInput<E>>,
) -> PeripheralState {
    if inputs.len() == 0 {
        PeripheralState::Starting
    } else {
        peripheral_step(service_name, service_payload, inputs.last()).0
    }
}

/// Whether the input at position `i` of `inputs` comes when it is expected.
pub open spec fn peripheral_expected_at<E>(
    service_name: Seq<char>,
    service_payload: Seq<u8>,
    inputs: Seq<PeripheralInput<E>>,
    i: int,
) -> bool {
    peripheral_after(service_name, service_payload, inputs.take(i)).expects(inputs[i])
}

/// Whether a service can take `inputs`: every input comes when it is expected.
pub open spec fn is_peripheral_run<E>(
    service_name: Seq<char>,
    service_payload: Seq<u8>,
    inputs: Seq<PeripheralInput<E>>,
) -> bool {
    forall|i: int|
        0 <= i < inputs.len() ==> #[trigger] peripheral_expected_at(
            service_name,
            service_payload,
            inputs,
            i,
        )
}

/// The state in which position `i` of a run finds the service, by the position before it.
proof fn lemma_state_at<E>(
    service_name: Seq<char>,
    service_payload: Seq<u8>,
    inputs: Seq<PeripheralInput<E>>,
    i: int,
)
    requires
        0 <= i < inputs.len(),
        is_peripheral_run(service_name, service_payload, inputs),
    ensures
        i == 0 ==> PeripheralState::Starting.expects(inputs[i]),
        i > 0 ==> peripheral_step(service_name, service_payload, inputs[i - 1]).0.expects(
            inputs[i],
        ),
{
    assert(peripheral_expected_at(service_name, service_payload, inputs, i));
    if i > 0 {
        assert(inputs.take(i).last() == inputs[i - 1]);
    }
}

/// No connection is handled before the device advertised for it, a peer took the advertisement up,
/// the attribute server was bound to the connection and the BTP engine was reset, in this order and
/// with nothing in between.
pub proof fn law_connection_is_prepared<E>(
    service_name: Seq<char>,
    service_payload: Seq<u8>,
    inputs: Seq<PeripheralInput<E>>,
    i: int,
)
    requires
        is_peripheral_run(service_name, service_payload, inputs),
        0 <= i < inputs.len(),
        peripheral_step(service_name, service_payload, inputs[i]).1 is HandleConnection,
    ensures
        i >= 4,
        peripheral_step(service_name, service_payload, inputs[i - 4]).1 == (PeripheralStep::<
            E,
        >::Advertise {
            adv_data: advertised(service_name, service_payload),
            scan_data: Seq::empty(),
        }),
        peripheral_step(service_name, service_payload, inputs[i - 3]).1 is Accept,
        peripheral_step(service_name, service_payload, inputs[i - 2]).1 is Bind,
        peripheral_step(service_name, service_payload, inputs[i - 1]).1 is ResetBtp,
{
    lemma_state_at(service_name, service_payload, inputs, i);
    lemma_state_at(service_name, service_payload, inputs, i - 1);
    lemma_state_at(service_name, service_payload, inputs, i - 2);
    lemma_state_at(service_name, service_payload, inputs, i - 3);
    lemma_state_at(service_name, service_payload, inputs, i - 4);
}

/// When a connection ends well, the device advertises again, and the same as before it.
pub proof fn law_advertises_again<E>(
    service_name: Seq<char>,
    service_payload: Seq<u8>,
    inputs: Seq<PeripheralInput<E>>,
    i: int,
)
    requires
        is_peripheral_run(service_name, service_payload, inputs),
        0 <= i < inputs.len(),
        inputs[i] matches PeripheralInput::Closed(Ok(_)),
    ensures
        peripheral_step(service_name, service_payload, inputs[i]).1 == (PeripheralStep::<
            E,
        >::Advertise {
            adv_data: advertised(service_name, service_payload),
            scan_data: Seq::empty(),
        }),
        i >= 5,
        peripheral_step(service_name, service_payload, inputs[i - 5]).1 == peripheral_step(
            service_name,
            service_payload,
            inputs[i],
        ).1,
{
    lemma_state_at(service_name, service_payload, inputs, i);
    lemma_state_at(service_name, service_payload, inputs, i - 1);
    law_connection_is_prepared(service_name, service_payload, inputs, i - 1);
}

/// A service whose name is too long to be advertised fails at once and does nothing else.
pub proof fn law_long_name_fails<E>(
    service_name: Seq<char>,
    service_payload: Seq<u8>,
    inputs: Seq<PeripheralInput<E>>,
)
    requires
        is_peripheral_run(service_name, service_payload, inputs),
        inputs.len() > 0,
        !can_advertise(service_name, service_payload),
    ensures
        inputs.len() == 1,
        peripheral_step(service_name, service_payload, inputs[0]).1 == PeripheralStep::<E>::Finish(
            ServiceError::BtpError,
        ),
{
    lemma_state_at(service_name, service_payload, inputs, 0);
    if inputs.len() > 1 {
        lemma_state_at(service_name, service_payload, inputs, 1);
    }
}

/// The service ends only in a failure, and nothing follows it. The failure is the one of the last
/// connection, or the general BTP failure where the host failed or the name is too long.
pub proof fn law_service_fails<E>(
    service_name: Seq<char>,
    service_payload: Seq<u8>,
    inputs: Seq<PeripheralInput<E>>,
    i: int,
    error: ServiceError<E>,
)
    requires
        is_peripheral_run(service_name, service_payload, inputs),
        0 <= i < inputs.len(),
        peripheral_step(service_name, service_payload, inputs[i]).1 == PeripheralStep::Finish(
            error,
        ),
    ensures
        i == inputs.len() - 1,
        match inputs[i] {
            PeripheralInput::Closed(outcome) => outcome == Err::<(), ServiceError<E>>(error),
            PeripheralInput::Start => error is BtpError && !can_advertise(
                service_name,
                service_payload,
            ),
            PeripheralInput::Advertised(ok) => error is BtpError && !ok,
            PeripheralInput::Accepted(ok) => error is BtpError && !ok,
            PeripheralInput::Bound(ok) => error is BtpError && !ok,
            PeripheralInput::Reset => false,
        },
{
    lemma_state_at(service_name, service_payload, inputs, i);
    if i + 1 < inputs.len() {
        lemma_state_at(service_name, service_payload, inputs, i + 1);
    }
    if inputs[i] matches PeripheralInput::Closed(Ok(_)) {
        law_advertises_again(service_name, service_payload, inputs, i);
    }
}

/// The device goes on the air when the service starts and whenever a connection ended well, always
/// with the same advertisement. Only where name and service data take more than the 22 bytes that
/// are left for them does it fail instead.
pub proof fn law_goes_on_the_air<E>(
    service_name: Seq<char>,
    service_payload: Seq<u8>,
    inputs: Seq<PeripheralInput<E>>,
    i: int,
)
    requires
        is_peripheral_run(service_name, service_payload, inputs),
        0 <= i < inputs.len(),
        inputs[i] is Start || inputs[i] == PeripheralInput::<E>::Closed(Ok(())),
    ensures
        encode_utf8(service_name).len() + service_payload.len() <= 22 ==> peripheral_step(
            service_name,
            service_payload,
            inputs[i],
        ).1 == (PeripheralStep::<E>::Advertise {
            adv_data: advertised(service_name, service_payload),
            scan_data: Seq::empty(),
        }),
        encode_utf8(service_name).len() + service_payload.len() > 22 ==> peripheral_step(
            service_name,
            service_payload,
            inputs[i],
        ).1 == PeripheralStep::<E>::Finish(ServiceError::BtpError),
{
}

/// What worked is followed by what comes next on the way to a connection, whatever the name and the
/// service data: a peer is awaited once the device advertises, the attribute server is bound once a
/// peer connected, the BTP engine is reset once the server is bound, and the connection is handled
/// once the engine was reset. None of this is done at any other time.
pub proof fn law_leads_to_a_connection<E>(
    service_name: Seq<char>,
    service_payload: Seq<u8>,
    inputs: Seq<PeripheralInput<E>>,
    i: int,
)
    requires
        is_peripheral_run(service_name, service_payload, inputs),
        0 <= i < inputs.len(),
    ensures
        ({
            let step = peripheral_step(service_name, service_payload, inputs[i]).1;
            &&& step is Accept <==> inputs[i] == PeripheralInput::<E>::Advertised(true)
            &&& step is Bind <==> inputs[i] == PeripheralInput::<E>::Accepted(true)
            &&& step is ResetBtp <==> inputs[i] == PeripheralInput::<E>::Bound(true)
            &&& step is HandleConnection <==> inputs[i] is Reset
        }),
{
}

/// A failure ends the service, whatever the name and the service data: that of a connection,
/// unchanged, and that of the host as the general BTP failure.
pub proof fn law_failure_ends_the_service<E>(
    service_name: Seq<char>,
    service_payload: Seq<u8>,
    inputs: Seq<PeripheralInput<E>>,
    i: int,
)
    requires
        is_peripheral_run(service_name, service_payload, inputs),
        0 <= i < inputs.len(),
    ensures
        ({
            let step = peripheral_step(service_name, service_payload, inputs[i]).1;
            &&& inputs[i] matches PeripheralInput::Closed(Err(error)) ==> step
                == PeripheralStep::Finish(error)
            &&& inputs[i] == PeripheralInput::<E>::Advertised(false) || inputs[i]
                == PeripheralInput::<E>::Accepted(false) || inputs[i] == PeripheralInput::<
                E,
            >::Bound(false) ==> step == PeripheralStep::<E>::Finish(ServiceError::BtpError)
        }),
{
}

/// The service takes what comes of the action that it asked for, and nothing else, and nothing
/// after its end.
pub proof fn law_action_is_followed_up<E>(
    service_name: Seq<char>,
    service_payload: Seq<u8>,
    inputs: Seq<PeripheralInput<E>>,
    i: int,
    input: PeripheralInput<E>,
)
    requires
        is_peripheral_run(service_name, service_payload, inputs),
        0 <= i < inputs.len(),
    ensures
        ({
            let step = peripheral_step(service_name, service_payload, inputs[i]).1;
            let next = peripheral_after(service_name, service_payload, inputs.take(i + 1));
            next.expects(input) <==> match input {
                PeripheralInput::Start => false,
                PeripheralInput::Advertised(_) => step is Advertise,
                PeripheralInput::Accepted(_) => step is Accept,
                PeripheralInput::Bound(_) => step is Bind,
                PeripheralInput::Reset => step is ResetBtp,
                PeripheralInput::Closed(_) => step is HandleConnection,
            }
        }),
{
    assert(inputs.take(i + 1).last() == inputs[i]);
}

/// An action shows as what it is, with the bytes of its advertisement.
pub proof fn law_action_shows<E>(action: PeripheralAction<E>)
    ensures
        match action {
            PeripheralAction::Advertise(sent) => action@ == (PeripheralStep::<E>::Advertise {
                adv_data: sent.adv_data@,
                scan_data: sent.scan_data@,
            }),
            PeripheralAction::Accept => action@ is Accept,
            PeripheralAction::Bind => action@ is Bind,
            PeripheralAction::ResetBtp => action@ is ResetBtp,
            PeripheralAction::HandleConnection => action@ is HandleConnection,
            PeripheralAction::Finish(error) => action@ == PeripheralStep::Finish(error),
        },
{
}

/// A service waits to be started, and for nothing else.
pub proof fn law_starts_with_the_start<E>(
    service_name: Seq<char>,
    service_payload: Seq<u8>,
    input: PeripheralInput<E>,
)
    ensures
        peripheral_after(
            service_name,
            service_payload,
            Seq::<PeripheralInput<E>>::empty(),
        ).expects(input) <==> input is Start,
{
}

} // verus!
