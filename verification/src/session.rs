//! A service and its connections.
//!
//! The service handles one connection after the other. Each of them starts afresh, and what it ends
//! with is what the service hears of it.

use crate::advertising::advertised;
use crate::connection::{
    admitted_at, connection_after, connection_outcome, event_inputs, fresh_connection,
    is_connection_run, law_connection_ends_well, law_connection_fails,
    law_disconnection_ends_the_connection, law_indicates_on_request_only, ConnectionInput,
    ConnectionState,
};
use crate::error::ServiceError;
use crate::events::{requests, EventInput, MatterService};
use crate::host::{is_side_run, law_side_failure, service_inputs, side_after, SideInput};
use crate::indications::IndicationInput;
use crate::peripheral::{
    is_peripheral_run, law_advertises_again, law_failure_ends_the_service, law_service_fails,
    peripheral_after, peripheral_expected_at, peripheral_step, PeripheralInput, PeripheralState,
    PeripheralStep,
};
use vstd::prelude::*;

verus! {

/// What a service is offered under: its name, its service data and its attribute handles.
pub ghost struct Offer {
    pub name: Seq<char>,
    pub payload: Seq<u8>,
    pub handles: MatterService,
}

/// An input of the service, or of the connection that it handles.
pub ghost enum SessionInput<'a, E> {
    Service(PeripheralInput<E>),
    Connection(ConnectionInput<'a, E>),
}

/// How far a service and its last connection have come.
pub ghost struct SessionState<E> {
    pub service: PeripheralState,
    pub connection: ConnectionState,
    /// What the connection ended with, if it did.
    pub outcome: Option<Result<(), ServiceError<E>>>,
}

/// What the service does on `input`.
pub open spec fn service_does<E>(offer: Offer, input: PeripheralInput<E>) -> PeripheralStep<E> {
    peripheral_step(offer.name, offer.payload, input).1
}

impl<E> SessionState<E> {
    /// A service that has not started.
    pub open spec fn new() -> Self {
        SessionState {
            service: PeripheralState::Starting,
            connection: fresh_connection(),
            outcome: None,
        }
    }

    /// Whether `input` can come: a connection goes on while the service handles it and until it
    /// ends, and the service hears of the end of a connection what that connection ended with.
    pub open spec fn admits(self, offer: Offer, input: SessionInput<E>) -> bool {
        match input {
            SessionInput::Service(input) => {
                &&& self.service.expects(input)
                &&& input matches PeripheralInput::Closed(outcome) ==> self.outcome == Some(outcome)
            },
            SessionInput::Connection(input) => {
                &&& self.service is Connected
                &&& self.outcome is None
                &&& self.connection.admits(offer.handles, input)
            },
        }
    }

    /// The state that follows. To handle a connection is to start with a fresh one.
    pub open spec fn after(self, offer: Offer, input: SessionInput<E>) -> Self {
        match input {
            SessionInput::Service(input) => {
                let (service, step) = peripheral_step(offer.name, offer.payload, input);
                if step is HandleConnection {
                    SessionState { service, connection: fresh_connection(), outcome: None }
                } else {
                    SessionState { service, ..self }
                }
            },
            SessionInput::Connection(input) => SessionState {
                connection: self.connection.after(offer.handles, input),
                outcome: connection_outcome(self.connection, offer.handles, input),
                ..self
            },
        }
    }
}

/// The state of a service and its last connection that took `inputs`.
pub open spec fn session_after<E>(offer: Offer, inputs: Seq<SessionInput<E>>) -> SessionState<E>
    decreases inputs.len(),
{
    if inputs.len() == 0 {
        SessionState::new()
    } else {
        session_after(offer, inputs.drop_last()).after(offer, inputs.last())
    }
}

/// Whether the input at position `i` of `inputs` can come there.
pub open spec fn session_admitted_at<E>(
    offer: Offer,
    inputs: Seq<SessionInput<E>>,
    i: int,
) -> bool {
    session_after(offer, inputs.take(i)).admits(offer, inputs[i])
}

/// Whether a service and its connections can take `inputs`.
pub open spec fn is_session<E>(offer: Offer, inputs: Seq<SessionInput<E>>) -> bool {
    forall|i: int| 0 <= i < inputs.len() ==> #[trigger] session_admitted_at(offer, inputs, i)
}

/// What the service itself is told in the course of `inputs`.
pub open spec fn service_part<E>(inputs: Seq<SessionInput<E>>) -> Seq<PeripheralInput<E>>
    decreases inputs.len(),
{
    if inputs.len() == 0 {
        Seq::empty()
    } else {
        match inputs.last() {
            SessionInput::Service(input) => service_part(inputs.drop_last()).push(input),
            SessionInput::Connection(_) => service_part(inputs.drop_last()),
        }
    }
}

/// What the last connection that was handled in the course of `inputs` took.
pub open spec fn last_connection<'a, E>(offer: Offer, inputs: Seq<SessionInput<'a, E>>) -> Seq<
    ConnectionInput<'a, E>,
>
    decreases inputs.len(),
{
    if inputs.len() == 0 {
        Seq::empty()
    } else {
        match inputs.last() {
            SessionInput::Service(input) => if service_does(offer, input) is HandleConnection {
                Seq::empty()
            } else {
                last_connection(offer, inputs.drop_last())
            },
            SessionInput::Connection(input) => last_connection(offer, inputs.drop_last()).push(
                input,
            ),
        }
    }
}

/// The outcome that a connection that took `run` ended with, if its last input ended it.
pub open spec fn outcome_of<E>(handles: MatterService, run: Seq<ConnectionInput<E>>) -> Option<
    Result<(), ServiceError<E>>,
> {
    if run.len() == 0 {
        None
    } else {
        connection_outcome(connection_after(handles, run.drop_last()), handles, run.last())
    }
}

proof fn lemma_session_prefix<E>(offer: Offer, inputs: Seq<SessionInput<E>>, n: int)
    requires
        is_session(offer, inputs),
        0 <= n <= inputs.len(),
    ensures
        is_session(offer, inputs.take(n)),
{
    assert forall|i: int| 0 <= i < n implies #[trigger] session_admitted_at(
        offer,
        inputs.take(n),
        i,
    ) by {
        assert(session_admitted_at(offer, inputs, i));
        assert(inputs.take(n).take(i) =~= inputs.take(i));
    }
}

/// What a service is told while its connections come and go is a run of the service.
pub proof fn law_connections_do_not_disturb_the_service<E>(
    offer: Offer,
    inputs: Seq<SessionInput<E>>,
)
    requires
        is_session(offer, inputs),
    ensures
        is_peripheral_run(offer.name, offer.payload, service_part(inputs)),
        session_after(offer, inputs).service == peripheral_after(
            offer.name,
            offer.payload,
            service_part(inputs),
        ),
    decreases inputs.len(),
{
    if inputs.len() > 0 {
        let n = inputs.len() - 1;
        let before = inputs.drop_last();
        assert(before =~= inputs.take(n));
        lemma_session_prefix(offer, inputs, n);
        law_connections_do_not_disturb_the_service(offer, before);
        assert(session_admitted_at(offer, inputs, n));
        if let SessionInput::Service(input) = inputs.last() {
            let told = service_part(before);
            let longer = told.push(input);
            assert forall|i: int| 0 <= i < longer.len() implies #[trigger] peripheral_expected_at(
                offer.name,
                offer.payload,
                longer,
                i,
            ) by {
                assert(longer.take(i) =~= told.take(i));
                if i < told.len() {
                    assert(peripheral_expected_at(offer.name, offer.payload, told, i));
                } else {
                    assert(told.take(i) =~= told);
                }
            }
        }
    }
}

/// What a connection of a service takes is a run of a connection from its start, whatever the
/// connections before it went through.
pub proof fn law_connection_is_a_run_of_its_own<E>(offer: Offer, inputs: Seq<SessionInput<E>>)
    requires
        is_session(offer, inputs),
    ensures
        ({
            let run = last_connection(offer, inputs);
            let state = session_after(offer, inputs);
            &&& is_connection_run(offer.handles, run)
            &&& state.connection == connection_after(offer.handles, run)
            &&& state.outcome == outcome_of(offer.handles, run)
        }),
    decreases inputs.len(),
{
    if inputs.len() > 0 {
        let n = inputs.len() - 1;
        let before = inputs.drop_last();
        assert(before =~= inputs.take(n));
        lemma_session_prefix(offer, inputs, n);
        law_connection_is_a_run_of_its_own(offer, before);
        assert(session_admitted_at(offer, inputs, n));
        if let SessionInput::Connection(input) = inputs.last() {
            let run = last_connection(offer, before);
            let longer = run.push(input);
            assert(longer.drop_last() =~= run);
            assert forall|i: int| 0 <= i < longer.len() implies #[trigger] admitted_at(
                offer.handles,
                longer,
                i,
            ) by {
                assert(longer.take(i) =~= run.take(i));
                if i < run.len() {
                    assert(admitted_at(offer.handles, run, i));
                } else {
                    assert(run.take(i) =~= run);
                }
            }
        }
    }
}

/// While a connection is handled, all that happened since the BTP engine was reset for it is what
/// the connection took.
proof fn lemma_connection_since_reset<E>(offer: Offer, inputs: Seq<SessionInput<E>>)
    requires
        is_session(offer, inputs),
        session_after(offer, inputs).service is Connected,
    ensures
        ({
            let run = last_connection(offer, inputs);
            let start = inputs.len() - run.len();
            &&& start > 0
            &&& inputs[start - 1] == SessionInput::<E>::Service(PeripheralInput::Reset)
            &&& forall|k: int|
                start <= k < inputs.len() ==> #[trigger] inputs[k] == SessionInput::Connection(
                    run[k - start],
                )
        }),
    decreases inputs.len(),
{
    let n = inputs.len() - 1;
    let before = inputs.drop_last();
    assert(before =~= inputs.take(n));
    lemma_session_prefix(offer, inputs, n);
    assert(session_admitted_at(offer, inputs, n));
    if inputs.last() is Connection {
        lemma_connection_since_reset(offer, before);
        let start = before.len() - last_connection(offer, before).len();
        assert forall|k: int| start <= k < inputs.len() implies #[trigger] inputs[k]
            == SessionInput::Connection(last_connection(offer, inputs)[k - start]) by {
            if k < n {
                assert(inputs[k] == before[k]);
            }
        }
    }
}

/// The outcome that the service hears of is that of the connection it handled: a run that starts
/// with a fresh connection, right after the BTP engine was reset for it, whose last input ended it
/// with this outcome.
pub proof fn law_service_hears_of_its_connection<E>(
    offer: Offer,
    inputs: Seq<SessionInput<E>>,
    i: int,
    outcome: Result<(), ServiceError<E>>,
)
    requires
        is_session(offer, inputs),
        0 <= i < inputs.len(),
        inputs[i] == SessionInput::Service(PeripheralInput::Closed(outcome)),
    ensures
        ({
            let run = last_connection(offer, inputs.take(i));
            let start = i - run.len();
            &&& is_connection_run(offer.handles, run)
            &&& run.len() > 0
            &&& outcome_of(offer.handles, run) == Some(outcome)
            &&& start > 0
            &&& inputs[start - 1] == SessionInput::<E>::Service(PeripheralInput::Reset)
            &&& forall|k: int|
                start <= k < i ==> #[trigger] inputs[k] == SessionInput::Connection(run[k - start])
        }),
{
    let before = inputs.take(i);
    lemma_session_prefix(offer, inputs, i);
    assert(session_admitted_at(offer, inputs, i));
    law_connection_is_a_run_of_its_own(offer, before);
    lemma_connection_since_reset(offer, before);
    let run = last_connection(offer, before);
    assert forall|k: int| i - run.len() <= k < i implies #[trigger] inputs[k]
        == SessionInput::Connection(run[k - (i - run.len())]) by {
        assert(inputs[k] == before[k]);
    }
}

/// A subscription does not carry over to the next connection: when the service turns to a
/// connection, its peer has not subscribed, the notification is down and the indications wait.
pub proof fn law_connection_starts_afresh<E>(
    offer: Offer,
    inputs: Seq<SessionInput<E>>,
    i: int,
    input: PeripheralInput<E>,
)
    requires
        is_session(offer, inputs),
        0 <= i < inputs.len(),
        inputs[i] == SessionInput::Service(input),
        service_does(offer, input) is HandleConnection,
    ensures
        session_after(offer, inputs.take(i + 1)).connection == fresh_connection(),
        session_after(offer, inputs.take(i + 1)).outcome is None,
        last_connection(offer, inputs.take(i + 1)).len() == 0,
{
    assert(inputs.take(i + 1).last() == inputs[i]);
}

/// The BTP engine is asked for a frame and a frame is indicated only where the peer of this very
/// connection asked to subscribe, whatever the peers before it did.
pub proof fn law_each_peer_subscribes_for_itself<E>(
    offer: Offer,
    inputs: Seq<SessionInput<E>>,
    i: int,
)
    requires
        is_session(offer, inputs),
        0 <= i < inputs.len(),
        inputs[i] matches SessionInput::Connection(ConnectionInput::Indication(_, _, _)),
    ensures
        ({
            let events = event_inputs(last_connection(offer, inputs.take(i)));
            exists|k: int|
                0 <= k < events.len() && #[trigger] requests(offer.handles, events[k].1, true)
        }),
{
    let upto = inputs.take(i + 1);
    assert(upto.drop_last() =~= inputs.take(i));
    assert(upto.last() == inputs[i]);
    lemma_session_prefix(offer, inputs, i + 1);
    law_connection_is_a_run_of_its_own(offer, upto);
    let run = last_connection(offer, upto);
    let n = run.len() - 1;
    assert(run.take(n) =~= last_connection(offer, inputs.take(i)));
    law_indicates_on_request_only(offer.handles, run, n);
}

/// The service goes on after a connection only if its peer is gone, or unsubscribed after it had
/// subscribed.
pub proof fn law_service_goes_on<E>(offer: Offer, inputs: Seq<SessionInput<E>>, i: int)
    requires
        is_session(offer, inputs),
        0 <= i < inputs.len(),
        inputs[i] == SessionInput::<E>::Service(PeripheralInput::Closed(Ok(()))),
    ensures
        ({
            let run = last_connection(offer, inputs.take(i));
            let events = connection_after(offer.handles, run.drop_last()).events;
            &&& run.len() > 0
            &&& run.last() matches ConnectionInput::Event(_, event) && (event is Disconnected || (
            events.request() == Some(false) && events.subscribed))
        }),
{
    law_service_hears_of_its_connection(offer, inputs, i, Ok(()));
    let run = last_connection(offer, inputs.take(i));
    let n = run.len() - 1;
    assert(run.take(n) =~= run.drop_last());
    law_connection_ends_well(offer.handles, run, n);
}

/// What a failure of the service comes from: where the last connection failed, from what it was
/// told last, and else from the host or from a name that is too long. The service ends with a
/// failure of the BTP engine only where the engine reported that very failure in the last
/// connection.
pub proof fn law_failure_of_a_service<E>(
    offer: Offer,
    inputs: Seq<SessionInput<E>>,
    i: int,
    input: PeripheralInput<E>,
    error: ServiceError<E>,
)
    requires
        is_session(offer, inputs),
        0 <= i < inputs.len(),
        inputs[i] == SessionInput::Service(input),
        service_does(offer, input) == PeripheralStep::Finish(error),
    ensures
        i == inputs.len() - 1,
        input is Closed ==> {
            let run = last_connection(offer, inputs.take(i));
            &&& input == PeripheralInput::Closed(Err(error))
            &&& run.len() > 0
            &&& match run.last() {
                ConnectionInput::Event(_, event) => error is BtpError && (event
                    == EventInput::Delivered(false) || event == EventInput::Replied(false)),
                ConnectionInput::Indication(_, _, indication) => match error {
                    ServiceError::BtpError => indication == IndicationInput::<E>::Indicated(false),
                    ServiceError::Engine(reported) => indication == IndicationInput::Prepared(
                        Err(reported),
                    ),
                },
            }
        },
        !(input is Closed) ==> error is BtpError,
        error is Engine ==> input is Closed,
{
    let upto = inputs.take(i + 1);
    assert(upto.drop_last() =~= inputs.take(i));
    assert(upto.last() == inputs[i]);
    lemma_session_prefix(offer, inputs, i + 1);
    law_connections_do_not_disturb_the_service(offer, upto);
    let told = service_part(upto);
    law_service_fails(offer.name, offer.payload, told, told.len() - 1, error);
    if i + 1 < inputs.len() {
        assert(session_admitted_at(offer, inputs, i + 1));
    }
    if input is Closed {
        law_service_hears_of_its_connection(offer, inputs, i, Err(error));
        let run = last_connection(offer, inputs.take(i));
        let n = run.len() - 1;
        assert(run.take(n) =~= run.drop_last());
        law_connection_fails(offer.handles, run, n, error);
    }
}

/// A peripheral that runs its host beside the service ends with a failure of the BTP engine only
/// where the engine reported that very failure in the last connection of the service.
pub proof fn law_engine_failure_of_a_peripheral<E>(
    offer: Offer,
    sides: Seq<SideInput<E>>,
    inputs: Seq<SessionInput<E>>,
    reported: E,
)
    requires
        is_side_run(offer.name, offer.payload, sides),
        is_session(offer, inputs),
        service_inputs(sides) == service_part(inputs),
        side_after(offer.name, offer.payload, sides).outcome == Some(
            ServiceError::Engine(reported),
        ),
    ensures
        ({
            let run = last_connection(offer, inputs);
            &&& run.len() > 0
            &&& run.last() matches ConnectionInput::Indication(_, _, indication) && indication
                == IndicationInput::Prepared(Err::<usize, E>(reported))
        }),
{
    let error = ServiceError::Engine(reported);
    let closed = PeripheralInput::Closed(Err(error));
    law_side_failure(offer.name, offer.payload, sides, error);
    assert(service_part(inputs).last() == closed);
    let n = inputs.len() - 1;
    let before = inputs.drop_last();
    assert(before =~= inputs.take(n));
    lemma_session_prefix(offer, inputs, n);
    assert(session_admitted_at(offer, inputs, n));
    if inputs.last() is Connection {
        // The service has ended, so no connection of it goes on.
        law_connections_do_not_disturb_the_service(offer, before);
    }
    assert(inputs[n] == SessionInput::Service(closed));
    law_failure_of_a_service(offer, inputs, n, closed, error);
}

/// Once a connection has ended, the service hears of it next. If it ended well, because the peer is
/// gone or unsubscribed, the device advertises again, and if it failed, the service ends with its
/// failure.
pub proof fn law_end_of_a_connection_is_followed_up<E>(
    offer: Offer,
    inputs: Seq<SessionInput<E>>,
    i: int,
    outcome: Result<(), ServiceError<E>>,
)
    requires
        is_session(offer, inputs),
        0 <= i,
        i + 1 < inputs.len(),
        inputs[i] is Connection,
        session_after(offer, inputs.take(i + 1)).outcome == Some(outcome),
    ensures
        inputs[i + 1] == SessionInput::Service(PeripheralInput::Closed(outcome)),
        outcome is Ok ==> service_does(offer, PeripheralInput::<E>::Closed(outcome)) == (
        PeripheralStep::<E>::Advertise {
            adv_data: advertised(offer.name, offer.payload),
            scan_data: Seq::empty(),
        }),
        outcome matches Err(error) ==> service_does(offer, PeripheralInput::<E>::Closed(outcome))
            == PeripheralStep::Finish(error),
{
    let upto = inputs.take(i + 1);
    assert(upto.drop_last() =~= inputs.take(i));
    assert(upto.last() == inputs[i]);
    assert(session_admitted_at(offer, inputs, i));
    assert(session_admitted_at(offer, inputs, i + 1));
    let after = inputs.take(i + 2);
    assert(after.drop_last() =~= upto);
    assert(after.last() == inputs[i + 1]);
    lemma_session_prefix(offer, inputs, i + 2);
    law_connections_do_not_disturb_the_service(offer, after);
    let told = service_part(after);
    let n = told.len() - 1;
    if outcome is Ok {
        law_advertises_again(offer.name, offer.payload, told, n);
    } else {
        law_failure_ends_the_service(offer.name, offer.payload, told, n);
    }
}

/// When the peer is gone, whether or not it had subscribed, the device advertises again.
pub proof fn law_advertises_after_a_disconnection<E>(
    offer: Offer,
    inputs: Seq<SessionInput<E>>,
    i: int,
)
    requires
        is_session(offer, inputs),
        0 <= i,
        i + 1 < inputs.len(),
        inputs[i] matches SessionInput::Connection(
            ConnectionInput::Event(_, EventInput::Disconnected),
        ),
    ensures
        inputs[i + 1] == SessionInput::<E>::Service(PeripheralInput::Closed(Ok(()))),
        service_does(offer, PeripheralInput::<E>::Closed(Ok(()))) == (PeripheralStep::<
            E,
        >::Advertise {
            adv_data: advertised(offer.name, offer.payload),
            scan_data: Seq::empty(),
        }),
{
    let upto = inputs.take(i + 1);
    assert(upto.drop_last() =~= inputs.take(i));
    assert(upto.last() == inputs[i]);
    lemma_session_prefix(offer, inputs, i + 1);
    law_connection_is_a_run_of_its_own(offer, upto);
    let run = last_connection(offer, upto);
    let n = run.len() - 1;
    assert(run.take(n) =~= run.drop_last());
    law_disconnection_ends_the_connection(offer.handles, run, n);
    law_end_of_a_connection_is_followed_up(offer, inputs, i, Ok(()));
}

} // verus!
