//! The two halves of one connection.
//!
//! The events and the indications of a connection are handled side by side, and whichever ends
//! first ends the connection. They share one notification, which the events raise and the
//! indications wait for.

use crate::error::ServiceError;
use crate::events::{
    delivered_frames, event_action_at, event_expected_at, event_step, events_after, is_event_run,
    law_disconnection_ends_the_handling, law_frames_are_delivered_in_order,
    law_notified_on_subscription, law_subscribed_iff_notified,
    requests, written_frames, EventAction, EventInput, EventPhase, EventState, EventTrace, Link,
    MatterService,
};
use crate::indications::{
    indicated_frames, indication_at, indication_expected_at, indication_step, indications_after,
    is_indication_run, law_frames_go_out_in_order, prepared_frames, IndicationInput,
    IndicationState, IndicationStep, IndicationTrace,
};
use vstd::prelude::*;

verus! {

/// How far both halves of a connection have come.
pub ghost struct ConnectionState {
    pub events: EventState,
    pub indications: IndicationState,
    /// Whether the notification is raised.
    pub notified: bool,
}

/// An input of either half. The one of the indications comes with the ATT MTU in force and what the
/// buffer holds.
pub ghost enum ConnectionInput<'a, E> {
    Event(Link, EventInput<'a>),
    Indication(u16, Seq<u8>, IndicationInput<E>),
}

/// A connection that was just established.
pub open spec fn fresh_connection() -> ConnectionState {
    ConnectionState {
        events: EventState { subscribed: false, phase: EventPhase::Waiting },
        indications: IndicationState::AwaitingSubscription,
        notified: false,
    }
}

impl ConnectionState {
    /// Whether `input` can come: its half expects it, neither half has ended, and the indications
    /// hear of a subscription only through the notification.
    pub open spec fn admits<E>(self, service: MatterService, input: ConnectionInput<E>) -> bool {
        &&& !(self.events.phase is Finished)
        &&& !(self.indications is Finished)
        &&& match input {
            ConnectionInput::Event(_, event) => self.events.expects(service, event),
            ConnectionInput::Indication(_, buffer, indication) => {
                &&& self.indications.expects(buffer.len(), indication)
                &&& indication is Subscribed ==> self.notified
            },
        }
    }

    /// The state that follows. The events raise the notification, and to hear of it takes it down.
    pub open spec fn after<E>(self, service: MatterService, input: ConnectionInput<E>) -> Self {
        match input {
            ConnectionInput::Event(link, event) => {
                let (events, action) = event_step::<E>(self.events, service, link, event);
                ConnectionState { events, notified: self.notified || action is Notify, ..self }
            },
            ConnectionInput::Indication(mtu, buffer, indication) => ConnectionState {
                indications: indication_step(mtu, buffer, indication).0,
                notified: self.notified && !(indication is Subscribed),
                ..self
            },
        }
    }

    /// Holds of every state that a connection goes through.
    pub open spec fn inv(self) -> bool {
        &&& self.notified ==> self.events.subscribed
        &&& !(self.indications is AwaitingSubscription) ==> self.events.subscribed
    }
}

/// The state of a connection that took `inputs`.
pub open spec fn connection_after<E>(
    service: MatterService,
    inputs: Seq<ConnectionInput<E>>,
) -> ConnectionState
    decreases inputs.len(),
{
    if inputs.len() == 0 {
        fresh_connection()
    } else {
        connection_after(service, inputs.drop_last()).after(service, inputs.last())
    }
}

/// Whether the input at position `i` of `inputs` can come there.
pub open spec fn admitted_at<E>(
    service: MatterService,
    inputs: Seq<ConnectionInput<E>>,
    i: int,
) -> bool {
    connection_after(service, inputs.take(i)).admits(service, inputs[i])
}

/// Whether a connection can take `inputs`.
pub open spec fn is_connection_run<E>(
    service: MatterService,
    inputs: Seq<ConnectionInput<E>>,
) -> bool {
    forall|i: int| 0 <= i < inputs.len() ==> #[trigger] admitted_at(service, inputs, i)
}

/// The outcome that `input` ends a connection in state `state` with, if it ends it.
pub open spec fn connection_outcome<E>(
    state: ConnectionState,
    service: MatterService,
    input: ConnectionInput<E>,
) -> Option<Result<(), ServiceError<E>>> {
    match input {
        ConnectionInput::Event(link, event) => match event_step::<E>(
            state.events,
            service,
            link,
            event,
        ).1 {
            EventAction::Finish(outcome) => Some(outcome),
            _ => None,
        },
        ConnectionInput::Indication(mtu, buffer, indication) => match indication_step(
            mtu,
            buffer,
            indication,
        ).1 {
            IndicationStep::Finish(error) => Some(Err(error)),
            _ => None,
        },
    }
}

/// What the events of a connection that took `inputs` went through.
pub open spec fn event_inputs<'a, E>(inputs: Seq<ConnectionInput<'a, E>>) -> EventTrace<'a>
    decreases inputs.len(),
{
    if inputs.len() == 0 {
        Seq::empty()
    } else {
        let earlier = event_inputs(inputs.drop_last());
        match inputs.last() {
            ConnectionInput::Event(link, event) => earlier.push((link, event)),
            _ => earlier,
        }
    }
}

/// What the indications of a connection that took `inputs` went through.
pub open spec fn indication_inputs<E>(inputs: Seq<ConnectionInput<E>>) -> IndicationTrace<E>
    decreases inputs.len(),
{
    if inputs.len() == 0 {
        Seq::empty()
    } else {
        let earlier = indication_inputs(inputs.drop_last());
        match inputs.last() {
            ConnectionInput::Indication(mtu, buffer, indication) => earlier.push(
                (mtu, buffer, indication),
            ),
            _ => earlier,
        }
    }
}

/// What a run of a connection begins with is a run too.
proof fn lemma_connection_prefix<E>(
    service: MatterService,
    inputs: Seq<ConnectionInput<E>>,
    n: int,
)
    requires
        is_connection_run(service, inputs),
        0 <= n <= inputs.len(),
    ensures
        is_connection_run(service, inputs.take(n)),
{
    assert forall|i: int| 0 <= i < n implies #[trigger] admitted_at(
        service,
        inputs.take(n),
        i,
    ) by {
        assert(admitted_at(service, inputs, i));
        assert(inputs.take(n).take(i) =~= inputs.take(i));
    }
}

/// However the two halves of a connection interleave, its events are a run of events and its
/// indications a run of indications, each in the state that it would be in on its own.
pub proof fn law_halves_run_on_their_own<E>(
    service: MatterService,
    inputs: Seq<ConnectionInput<E>>,
)
    requires
        is_connection_run(service, inputs),
    ensures
        is_event_run::<E>(service, event_inputs(inputs)),
        connection_after(service, inputs).events == events_after::<E>(
            service,
            event_inputs(inputs),
        ),
        is_indication_run(indication_inputs(inputs)),
        connection_after(service, inputs).indications == indications_after(
            indication_inputs(inputs),
        ),
    decreases inputs.len(),
{
    if inputs.len() > 0 {
        let n = inputs.len() - 1;
        let before = inputs.drop_last();
        assert(before =~= inputs.take(n));
        lemma_connection_prefix(service, inputs, n);
        law_halves_run_on_their_own(service, before);
        assert(admitted_at(service, inputs, n));
        let events = event_inputs(before);
        let indications = indication_inputs(before);
        match inputs.last() {
            ConnectionInput::Event(link, event) => {
                let longer = events.push((link, event));
                assert(longer.drop_last() =~= events);
                assert forall|i: int| 0 <= i < longer.len() implies #[trigger]
                event_expected_at::<E>(service, longer, i) by {
                    assert(longer.take(i) =~= events.take(i));
                    if i < events.len() {
                        assert(event_expected_at::<E>(service, events, i));
                    } else {
                        assert(events.take(i) =~= events);
                    }
                }
            },
            ConnectionInput::Indication(mtu, buffer, indication) => {
                let longer = indications.push((mtu, buffer, indication));
                assert forall|i: int| 0 <= i < longer.len() implies #[trigger]
                indication_expected_at(longer, i) by {
                    assert(longer.take(i) =~= indications.take(i));
                    if i < indications.len() {
                        assert(indication_expected_at(indications, i));
                    } else {
                        assert(indications.take(i) =~= indications);
                    }
                }
            },
        }
    }
}

/// The halves of what `inputs` begin with are what the halves of `inputs` begin with.
proof fn lemma_halves_of_prefix<E>(inputs: Seq<ConnectionInput<E>>, n: int)
    requires
        0 <= n <= inputs.len(),
    ensures
        event_inputs(inputs.take(n)).len() <= event_inputs(inputs).len(),
        event_inputs(inputs.take(n)) == event_inputs(inputs).take(
            event_inputs(inputs.take(n)).len() as int,
        ),
        indication_inputs(inputs.take(n)).len() <= indication_inputs(inputs).len(),
        indication_inputs(inputs.take(n)) == indication_inputs(inputs).take(
            indication_inputs(inputs.take(n)).len() as int,
        ),
    decreases inputs.len(),
{
    if n == inputs.len() {
        assert(inputs.take(n) =~= inputs);
    } else {
        let before = inputs.drop_last();
        assert(before.take(n) =~= inputs.take(n));
        lemma_halves_of_prefix(before, n);
    }
}

/// What is done on an input of a connection is what its half does on its own, at the place that the
/// input has in the run of that half.
pub proof fn law_halves_act_on_their_own<E>(
    service: MatterService,
    inputs: Seq<ConnectionInput<E>>,
    i: int,
)
    requires
        is_connection_run(service, inputs),
        0 <= i < inputs.len(),
    ensures
        ({
            let state = connection_after(service, inputs.take(i));
            match inputs[i] {
                ConnectionInput::Event(link, event) => {
                    let events = event_inputs(inputs);
                    let k = event_inputs(inputs.take(i)).len() as int;
                    &&& 0 <= k < events.len()
                    &&& events[k] == (link, event)
                    &&& event_action_at::<E>(service, events, k) == event_step::<E>(
                        state.events,
                        service,
                        link,
                        event,
                    ).1
                },
                ConnectionInput::Indication(mtu, buffer, indication) => {
                    let indications = indication_inputs(inputs);
                    let k = indication_inputs(inputs.take(i)).len() as int;
                    &&& 0 <= k < indications.len()
                    &&& indications[k] == (mtu, buffer, indication)
                    &&& indication_at(indications, k) == indication_step(
                        mtu,
                        buffer,
                        indication,
                    ).1
                },
            }
        }),
{
    lemma_connection_prefix(service, inputs, i);
    law_halves_run_on_their_own(service, inputs.take(i));
    lemma_halves_of_prefix(inputs, i);
    lemma_halves_of_prefix(inputs, i + 1);
    let upto = inputs.take(i + 1);
    assert(upto.drop_last() =~= inputs.take(i));
    assert(upto.last() == inputs[i]);
    match inputs[i] {
        ConnectionInput::Event(_, _) => {
            let k = event_inputs(inputs.take(i)).len() as int;
            assert(event_inputs(inputs)[k] == event_inputs(upto)[k]);
        },
        ConnectionInput::Indication(_, _, _) => {
            let k = indication_inputs(inputs.take(i)).len() as int;
            assert(indication_inputs(inputs)[k] == indication_inputs(upto)[k]);
        },
    }
}

/// However the two halves of a connection interleave, what the peer writes to C1 goes to the BTP
/// engine and what the BTP engine prepares is indicated, whole, once and in order.
pub proof fn law_connection_carries_frames<E>(
    service: MatterService,
    inputs: Seq<ConnectionInput<E>>,
)
    ensures
        delivered_frames::<E>(service, event_inputs(inputs)) == written_frames(
            service,
            event_inputs(inputs),
        ),
        indicated_frames(indication_inputs(inputs)) == prepared_frames(indication_inputs(inputs)),
{
    law_frames_are_delivered_in_order::<E>(service, event_inputs(inputs));
    law_frames_go_out_in_order(indication_inputs(inputs));
}

/// The indications of a connection come to work only after its peer asked, in this connection, to
/// subscribe.
pub proof fn law_indicates_on_request_only<E>(
    service: MatterService,
    inputs: Seq<ConnectionInput<E>>,
    i: int,
)
    requires
        is_connection_run(service, inputs),
        0 <= i < inputs.len(),
        inputs[i] matches ConnectionInput::Indication(_, _, _),
    ensures
        exists|k: int|
            0 <= k < event_inputs(inputs.take(i)).len() && #[trigger] requests(
                service,
                event_inputs(inputs.take(i))[k].1,
                true,
            ),
{
    let events = event_inputs(inputs.take(i));
    lemma_connection_prefix(service, inputs, i);
    law_halves_run_on_their_own(service, inputs.take(i));
    law_indicates_to_subscribers_only(service, inputs, i);
    law_subscribed_iff_notified::<E>(service, events);
    let notified = choose|n: int|
        0 <= n < events.len() && #[trigger] event_action_at::<E>(service, events, n) is Notify;
    law_notified_on_subscription::<E>(service, events, notified);
    let k = choose|k: int|
        0 <= k < notified && #[trigger] requests(service, events[k].1, true)
            && event_action_at::<E>(service, events, k) is Accept;
    assert(requests(service, events[k].1, true));
}

proof fn lemma_inv<E>(service: MatterService, inputs: Seq<ConnectionInput<E>>, n: int)
    requires
        is_connection_run(service, inputs),
        0 <= n <= inputs.len(),
    ensures
        connection_after(service, inputs.take(n)).inv(),
    decreases n,
{
    if n > 0 {
        lemma_inv(service, inputs, n - 1);
        assert(admitted_at(service, inputs, n - 1));
        assert(inputs.take(n).drop_last() =~= inputs.take(n - 1));
        assert(inputs.take(n).last() == inputs[n - 1]);
    }
}

/// However the two halves interleave, the BTP engine is asked for a frame and a frame is indicated
/// only once the peer has subscribed.
pub proof fn law_indicates_to_subscribers_only<E>(
    service: MatterService,
    inputs: Seq<ConnectionInput<E>>,
    i: int,
)
    requires
        is_connection_run(service, inputs),
        0 <= i < inputs.len(),
        inputs[i] matches ConnectionInput::Indication(_, _, _),
    ensures
        connection_after(service, inputs.take(i)).events.subscribed,
{
    lemma_inv(service, inputs, i);
    assert(admitted_at(service, inputs, i));
}

/// A connection ends well only when its peer is gone or unsubscribed after it had subscribed; the
/// indications alone never end it well.
pub proof fn law_connection_ends_well<E>(
    service: MatterService,
    inputs: Seq<ConnectionInput<E>>,
    i: int,
)
    requires
        is_connection_run(service, inputs),
        0 <= i < inputs.len(),
        connection_outcome(connection_after(service, inputs.take(i)), service, inputs[i]) == Some(
            Ok::<(), ServiceError<E>>(()),
        ),
    ensures
        inputs[i] matches ConnectionInput::Event(_, event) && (event is Disconnected || (
        connection_after(service, inputs.take(i)).events.request() == Some(false)
            && connection_after(service, inputs.take(i)).events.subscribed)),
        i == inputs.len() - 1,
{
    assert(admitted_at(service, inputs, i));
    if i + 1 < inputs.len() {
        assert(inputs.take(i + 1).drop_last() =~= inputs.take(i));
        assert(inputs.take(i + 1).last() == inputs[i]);
        assert(admitted_at(service, inputs, i + 1));
    }
}

/// A connection fails in three ways only: the BTP engine refuses a frame, or an answer or an
/// indication cannot be sent, which are the general BTP failure; or the BTP engine fails to prepare
/// a frame, and that failure is handed on as it is.
pub proof fn law_connection_fails<E>(
    service: MatterService,
    inputs: Seq<ConnectionInput<E>>,
    i: int,
    error: ServiceError<E>,
)
    requires
        is_connection_run(service, inputs),
        0 <= i < inputs.len(),
        connection_outcome(connection_after(service, inputs.take(i)), service, inputs[i]) == Some(
            Err::<(), ServiceError<E>>(error),
        ),
    ensures
        i == inputs.len() - 1,
        match inputs[i] {
            ConnectionInput::Event(_, event) => error is BtpError && (event
                == EventInput::Delivered(false) || event == EventInput::Replied(false)),
            ConnectionInput::Indication(_, _, indication) => match error {
                ServiceError::BtpError => indication == IndicationInput::<E>::Indicated(false),
                ServiceError::Engine(reported) => indication == IndicationInput::Prepared(
                    Err(reported),
                ),
            },
        },
{
    assert(admitted_at(service, inputs, i));
    if i + 1 < inputs.len() {
        assert(inputs.take(i + 1).drop_last() =~= inputs.take(i));
        assert(inputs.take(i + 1).last() == inputs[i]);
        assert(admitted_at(service, inputs, i + 1));
    }
}

/// A peer that is gone ends the connection, well, whatever it had done and whatever the indications
/// are at; nothing comes after it.
pub proof fn law_disconnection_ends_the_connection<E>(
    service: MatterService,
    inputs: Seq<ConnectionInput<E>>,
    i: int,
)
    requires
        is_connection_run(service, inputs),
        0 <= i < inputs.len(),
        inputs[i] matches ConnectionInput::Event(_, EventInput::Disconnected),
    ensures
        connection_outcome(connection_after(service, inputs.take(i)), service, inputs[i]) == Some(
            Ok::<(), ServiceError<E>>(()),
        ),
        i == inputs.len() - 1,
{
    law_halves_act_on_their_own(service, inputs, i);
    law_halves_run_on_their_own(service, inputs);
    let k = event_inputs(inputs.take(i)).len() as int;
    law_disconnection_ends_the_handling::<E>(service, event_inputs(inputs), k);
    law_connection_ends_well(service, inputs, i);
}

/// A failure ends the connection: a frame that the BTP engine refuses, and an answer or an
/// indication that cannot be sent, with the general BTP failure, and a failure of the BTP engine to
/// prepare a frame with that failure.
pub proof fn law_failure_ends_the_connection<E>(
    service: MatterService,
    inputs: Seq<ConnectionInput<E>>,
    i: int,
)
    requires
        is_connection_run(service, inputs),
        0 <= i < inputs.len(),
    ensures
        ({
            let outcome = connection_outcome(
                connection_after(service, inputs.take(i)),
                service,
                inputs[i],
            );
            match inputs[i] {
                ConnectionInput::Event(_, EventInput::Delivered(false))
                | ConnectionInput::Event(_, EventInput::Replied(false))
                | ConnectionInput::Indication(_, _, IndicationInput::Indicated(false)) => outcome
                    == Some(Err::<(), ServiceError<E>>(ServiceError::BtpError)),
                ConnectionInput::Indication(_, _, IndicationInput::Prepared(Err(reported))) =>
                outcome == Some(Err::<(), ServiceError<E>>(ServiceError::Engine(reported))),
                _ => true,
            }
        }),
{
    law_halves_act_on_their_own(service, inputs, i);
    law_halves_run_on_their_own(service, inputs);
}

} // verus!
