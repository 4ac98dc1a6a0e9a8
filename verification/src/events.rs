//! The events of one connection.
//!
//! [`handle_events`] decides, event by event, what is done for a connected peer: a write to C1 goes
//! to the BTP engine and is then answered, everything else goes to the attribute server of the BLE
//! host, and what the peer writes to the configuration descriptor of C2 starts and ends the
//! indications.

use crate::address::BtAddr;
use crate::error::{to_matter_err, ServiceError};
use vstd::prelude::*;

verus! {

/// The attribute handles of the Matter service that the events are told apart by.
#[derive(Clone, Copy, Debug, PartialEq, Eq)]
pub struct MatterService {
    /// The value of C1, which the peer writes BTP frames to.
    pub c1: u16,
    /// The client configuration descriptor of C2, which the peer subscribes through.
    pub c2_cccd: Option<u16>,
}

impl MatterService {
    /// Whether a write to `handle` is a write to the configuration descriptor of C2.
    pub open spec fn is_subscription(&self, handle: u16) -> bool {
        handle != self.c1 && self.c2_cccd == Some(handle)
    }
}

/// What is known of the connection when an event arrives.
#[derive(Clone, Copy, Debug, PartialEq, Eq)]
pub struct Link {
    /// The ATT MTU in force.
    pub mtu: u16,
    /// The address of the peer.
    pub peer: BtAddr,
}

/// What [`handle_events`] is told: an event of the connection, or what came of its last action.
#[derive(Clone, Copy, Debug, PartialEq, Eq)]
pub enum EventInput<'a> {
    /// The connection is gone.
    Disconnected,
    /// The peer asks to write `data` to the attribute `handle`.
    WriteRequest { handle: u16, data: &'a [u8] },
    /// The peer sent any other GATT message.
    OtherGatt,
    /// Anything else happened on the connection.
    OtherEvent,
    /// The BTP engine took the frame, or refused it.
    Delivered(bool),
    /// The write response went out, or could not be sent.
    Replied(bool),
    /// The attribute server processed the message and has a reply, or failed to.
    Accepted(bool),
    /// The reply of the attribute server went out.
    Sent,
    /// The indications were told that the peer subscribed.
    Notified,
}

/// What [`handle_events`] wants done.
#[derive(Debug, PartialEq, Eq)]
pub enum EventAction<'a, E> {
    /// Wait for the next event of the connection.
    Next,
    /// Hand the BTP engine the frame `data` from `peer`.
    Deliver { mtu: Option<u16>, peer: BtAddr, data: &'a [u8] },
    /// Answer the pending write request with a write response.
    Reply,
    /// Let the attribute server process the pending message.
    Accept,
    /// Send the reply of the attribute server.
    Send,
    /// Tell the indications that the peer subscribed.
    Notify,
    /// Return the outcome.
    Finish(Result<(), ServiceError<E>>),
}

/// What the next input will be about.
#[derive(Clone, Copy, Debug, PartialEq, Eq)]
pub enum EventPhase {
    /// The next event of the connection.
    Waiting,
    /// What the BTP engine made of a frame.
    Delivering,
    /// Whether the write response went out.
    Replying,
    /// What the attribute server made of a message. A message that wrote to the configuration
    /// descriptor of C2 is remembered as a request to subscribe or to unsubscribe.
    Accepting(Option<bool>),
    /// That the reply of the attribute server went out, for a message remembered likewise.
    Sending(Option<bool>),
    /// That the indications were told.
    Notifying,
    /// Nothing any more.
    Finished,
}

/// How far the handling of a connection has come.
#[derive(Clone, Copy, Debug, PartialEq, Eq)]
pub struct EventState {
    /// Whether the peer has subscribed to C2.
    pub subscribed: bool,
    /// What the next input will be about.
    pub phase: EventPhase,
}

/// Waits for the next event.
pub open spec fn resume<'a, E>(state: EventState) -> (EventState, EventAction<'a, E>) {
    ((EventState { phase: EventPhase::Waiting, ..state }), EventAction::Next)
}

/// Ends the handling of the connection with `outcome`.
pub open spec fn conclude<'a, E>(state: EventState, outcome: Result<(), ServiceError<E>>) -> (
    EventState,
    EventAction<'a, E>,
) {
    ((EventState { phase: EventPhase::Finished, ..state }), EventAction::Finish(outcome))
}

/// What follows once the attribute server is done with a message. A first request to subscribe
/// starts the indications, a request to unsubscribe from a subscribed peer ends the handling.
pub open spec fn settle<'a, E>(state: EventState, request: Option<bool>) -> (
    EventState,
    EventAction<'a, E>,
) {
    if request == Some(true) && !state.subscribed {
        ((EventState { subscribed: true, phase: EventPhase::Notifying }), EventAction::Notify)
    } else if request == Some(false) && state.subscribed {
        conclude(state, Ok(()))
    } else {
        resume(state)
    }
}

/// The state that follows `state` on `input`, and what is done on the way.
pub open spec fn event_step<'a, E>(
    state: EventState,
    service: MatterService,
    link: Link,
    input: EventInput<'a>,
) -> (EventState, EventAction<'a, E>) {
    match input {
        EventInput::Disconnected => conclude(state, Ok(())),
        EventInput::WriteRequest { handle, data } => if handle == service.c1 {
            (
                (EventState { phase: EventPhase::Delivering, ..state }),
                EventAction::Deliver { mtu: Some(link.mtu), peer: link.peer, data },
            )
        } else {
            let request = if service.is_subscription(handle) {
                Some(data@[0] != 0)
            } else {
                None
            };
            ((EventState { phase: EventPhase::Accepting(request), ..state }), EventAction::Accept)
        },
        EventInput::OtherGatt => (
            (EventState { phase: EventPhase::Accepting(None), ..state }),
            EventAction::Accept,
        ),
        EventInput::OtherEvent => resume(state),
        EventInput::Delivered(taken) => if taken {
            ((EventState { phase: EventPhase::Replying, ..state }), EventAction::Reply)
        } else {
            conclude(state, Err(ServiceError::BtpError))
        },
        EventInput::Replied(sent) => if sent {
            resume(state)
        } else {
            conclude(state, Err(ServiceError::BtpError))
        },
        EventInput::Accepted(replies) => if replies {
            (
                (EventState { phase: EventPhase::Sending(state.request()), ..state }),
                EventAction::Send,
            )
        } else {
            settle(state, state.request())
        },
        EventInput::Sent => settle(state, state.request()),
        EventInput::Notified => resume(state),
    }
}

impl EventState {
    /// The subscription request that the attribute server is at work on.
    pub open spec fn request(self) -> Option<bool> {
        match self.phase {
            EventPhase::Accepting(request) => request,
            EventPhase::Sending(request) => request,
            _ => None,
        }
    }

    /// Whether `input` is what the handling waits for. A write to the configuration descriptor of
    /// C2 has to carry at least one byte.
    pub open spec fn expects(self, service: MatterService, input: EventInput) -> bool {
        match input {
            EventInput::Disconnected => self.phase is Waiting,
            EventInput::WriteRequest { handle, data } => {
                &&& self.phase is Waiting
                &&& service.is_subscription(handle) ==> data@.len() > 0
            },
            EventInput::OtherGatt => self.phase is Waiting,
            EventInput::OtherEvent => self.phase is Waiting,
            EventInput::Delivered(_) => self.phase is Delivering,
            EventInput::Replied(_) => self.phase is Replying,
            EventInput::Accepted(_) => self.phase is Accepting,
            EventInput::Sent => self.phase is Sending,
            EventInput::Notified => self.phase is Notifying,
        }
    }

    /// A fresh connection, whose peer has not subscribed.
    pub fn new() -> (state: Self)
        ensures
            state == (EventState { subscribed: false, phase: EventPhase::Waiting }),
    {
        EventState { subscribed: false, phase: EventPhase::Waiting }
    }
}

/// What follows once the attribute server is done with the message that carried `request`.
fn after_accept<'a, E>(state: &mut EventState, request: Option<bool>) -> (action: EventAction<'a, E>)
    ensures
        (*final(state), action) == settle::<E>(*old(state), request),
{
    match request {
        Some(true) if !state.subscribed => {
            state.subscribed = true;
            state.phase = EventPhase::Notifying;
            EventAction::Notify
        },
        Some(false) if state.subscribed => {
            state.phase = EventPhase::Finished;
            EventAction::Finish(Ok(()))
        },
        _ => {
            state.phase = EventPhase::Waiting;
            EventAction::Next
        },
    }
}

/// Takes the handling of a connection one step further.
pub fn handle_events<'a, E>(
    state: &mut EventState,
    service: &MatterService,
    link: &Link,
    input: EventInput<'a>,
) -> (action: EventAction<'a, E>)
    requires
        old(state).expects(*service, input),
    ensures
        (*final(state), action) == event_step::<E>(*old(state), *service, *link, input),
{
    match input {
        EventInput::Disconnected => {
            state.phase = EventPhase::Finished;
            EventAction::Finish(Ok(()))
        },
        EventInput::WriteRequest { handle, data } => {
            if handle == service.c1 {
                state.phase = EventPhase::Delivering;
                EventAction::Deliver { mtu: Some(link.mtu), peer: link.peer, data }
            } else {
                let request = match service.c2_cccd {
                    Some(cccd) if cccd == handle => Some(data[0] != 0),
                    _ => None,
                };
                state.phase = EventPhase::Accepting(request);
                EventAction::Accept
            }
        },
        EventInput::OtherGatt => {
            state.phase = EventPhase::Accepting(None);
            EventAction::Accept
        },
        EventInput::Delivered(true) => {
            state.phase = EventPhase::Replying;
            EventAction::Reply
        },
        EventInput::Delivered(false) | EventInput::Replied(false) => {
            state.phase = EventPhase::Finished;
            EventAction::Finish(Err(to_matter_err(())))
        },
        EventInput::OtherEvent | EventInput::Replied(true) | EventInput::Notified => {
            state.phase = EventPhase::Waiting;
            EventAction::Next
        },
        EventInput::Accepted(replies) => {
            let request = match state.phase {
                EventPhase::Accepting(request) => request,
                _ => None,
            };
            if replies {
                state.phase = EventPhase::Sending(request);
                EventAction::Send
            } else {
                after_accept(state, request)
            }
        },
        EventInput::Sent => {
            let request = match state.phase {
                EventPhase::Sending(request) => request,
                _ => None,
            };
            after_accept(state, request)
        },
    }
}

/// What a connection went through: each input with what was known of the link when it came.
pub type EventTrace<'a> = Seq<(Link, EventInput<'a>)>;

/// The state of a connection that went through `trace`.
pub open spec fn events_after<E>(service: MatterService, trace: EventTrace) -> EventState
    decreases trace.len(),
{
    if trace.len() == 0 {
        EventState { subscribed: false, phase: EventPhase::Waiting }
    } else {
        event_step::<E>(
            events_after::<E>(service, trace.drop_last()),
            service,
            trace.last().0,
            trace.last().1,
        ).0
    }
}

/// What is done on the input at position `i` of `trace`.
pub open spec fn event_action_at<'a, E>(
    service: MatterService,
    trace: EventTrace<'a>,
    i: int,
) -> EventAction<'a, E> {
    event_step::<E>(
        events_after::<E>(service, trace.take(i)),
        service,
        trace[i].0,
        trace[i].1,
    ).1
}

/// Whether the input at position `i` of `trace` comes when it is expected.
pub open spec fn event_expected_at<E>(service: MatterService, trace: EventTrace, i: int) -> bool {
    events_after::<E>(service, trace.take(i)).expects(service, trace[i].1)
}

/// Whether a connection can go through `trace`: every input comes when it is expected.
pub open spec fn is_event_run<E>(service: MatterService, trace: EventTrace) -> bool {
    forall|i: int| 0 <= i < trace.len() ==> #[trigger] event_expected_at::<E>(service, trace, i)
}

/// Whether `input` writes to the configuration descriptor of C2, to subscribe or to unsubscribe.
pub open spec fn requests(service: MatterService, input: EventInput, subscribe: bool) -> bool {
    input matches EventInput::WriteRequest { handle, data } && service.is_subscription(handle) && (
    data@[0] != 0) == subscribe
}

/// Where position `i` of a run leaves the handling: the state before it and what it does to it.
proof fn lemma_step_at<E>(service: MatterService, trace: EventTrace, i: int)
    requires
        0 <= i < trace.len(),
        is_event_run::<E>(service, trace),
    ensures
        events_after::<E>(service, trace.take(i)).expects(service, trace[i].1),
        events_after::<E>(service, trace.take(i + 1)) == event_step::<E>(
            events_after::<E>(service, trace.take(i)),
            service,
            trace[i].0,
            trace[i].1,
        ).0,
{
    assert(event_expected_at::<E>(service, trace, i));
    assert(trace.take(i + 1).drop_last() =~= trace.take(i));
    assert(trace.take(i + 1).last() == trace[i]);
}

/// Tells the peer's request apart by where it came from: while the attribute server is at work on
/// a message, that message was the last event of the connection, and it was handed to the server.
proof fn lemma_request_origin<E>(service: MatterService, trace: EventTrace, i: int) -> (origin: int)
    requires
        0 <= i < trace.len(),
        is_event_run::<E>(service, trace),
        trace[i].1 is Accepted || trace[i].1 is Sent,
    ensures
        0 <= origin < i,
        event_action_at::<E>(service, trace, origin) is Accept,
        forall|subscribe: bool|
            events_after::<E>(service, trace.take(i)).request() == Some(subscribe) <==> #[trigger]
                requests(service, trace[origin].1, subscribe),
        events_after::<E>(service, trace.take(i)).subscribed == events_after::<E>(
            service,
            trace.take(origin),
        ).subscribed,
    decreases i,
{
    lemma_step_at::<E>(service, trace, i);
    if i == 0 {
        assert(trace.take(0).len() == 0);
    } else {
        lemma_step_at::<E>(service, trace, i - 1);
    }
    if trace[i].1 is Sent {
        lemma_request_origin::<E>(service, trace, i - 1)
    } else {
        i - 1
    }
}

/// The subscription of a run never goes back.
proof fn lemma_subscribed_stays<E>(service: MatterService, trace: EventTrace, i: int, j: int)
    requires
        0 <= i <= j <= trace.len(),
        is_event_run::<E>(service, trace),
    ensures
        events_after::<E>(service, trace.take(i)).subscribed ==> events_after::<E>(
            service,
            trace.take(j),
        ).subscribed,
    decreases j - i,
{
    if i < j {
        lemma_step_at::<E>(service, trace, i);
        lemma_subscribed_stays::<E>(service, trace, i + 1, j);
    }
}

/// The indications of a connection are started at most once.
pub proof fn law_notified_at_most_once<E>(
    service: MatterService,
    trace: EventTrace,
    i: int,
    j: int,
)
    requires
        is_event_run::<E>(service, trace),
        0 <= i < trace.len(),
        0 <= j < trace.len(),
        event_action_at::<E>(service, trace, i) is Notify,
        event_action_at::<E>(service, trace, j) is Notify,
    ensures
        i == j,
{
    lemma_step_at::<E>(service, trace, i);
    lemma_step_at::<E>(service, trace, j);
    if i < j {
        lemma_subscribed_stays::<E>(service, trace, i + 1, j);
    }
    if j < i {
        lemma_subscribed_stays::<E>(service, trace, j + 1, i);
    }
}

/// A peer counts as subscribed exactly when the indications were started for it.
pub proof fn law_subscribed_iff_notified<E>(service: MatterService, trace: EventTrace)
    requires
        is_event_run::<E>(service, trace),
    ensures
        events_after::<E>(service, trace).subscribed <==> exists|i: int|
            0 <= i < trace.len() && #[trigger] event_action_at::<E>(service, trace, i) is Notify,
{
    let n = trace.len() as int;
    assert(trace.take(n) =~= trace);
    assert forall|i: int|
        0 <= i < n && #[trigger] event_action_at::<E>(service, trace, i) is Notify implies
        events_after::<E>(service, trace).subscribed by {
        lemma_step_at::<E>(service, trace, i);
        lemma_subscribed_stays::<E>(service, trace, i + 1, n);
    }
    if events_after::<E>(service, trace).subscribed {
        let i = lemma_subscribed_by::<E>(service, trace, n);
        assert(event_action_at::<E>(service, trace, i) is Notify);
    }
}

proof fn lemma_subscribed_by<E>(service: MatterService, trace: EventTrace, n: int) -> (i: int)
    requires
        is_event_run::<E>(service, trace),
        0 <= n <= trace.len(),
        events_after::<E>(service, trace.take(n)).subscribed,
    ensures
        0 <= i < n,
        event_action_at::<E>(service, trace, i) is Notify,
    decreases n,
{
    if n == 0 {
        assert(trace.take(0).len() == 0);
        0
    } else {
        lemma_step_at::<E>(service, trace, n - 1);
        if events_after::<E>(service, trace.take(n - 1)).subscribed {
            lemma_subscribed_by::<E>(service, trace, n - 1)
        } else {
            n - 1
        }
    }
}

/// The indications are started only on the peer's request to subscribe, and only after that
/// request went to the attribute server of the host.
pub proof fn law_notified_on_subscription<E>(service: MatterService, trace: EventTrace, i: int)
    requires
        is_event_run::<E>(service, trace),
        0 <= i < trace.len(),
        event_action_at::<E>(service, trace, i) is Notify,
    ensures
        exists|origin: int|
            0 <= origin < i && #[trigger] requests(service, trace[origin].1, true)
                && event_action_at::<E>(service, trace, origin) is Accept,
{
    lemma_step_at::<E>(service, trace, i);
    let origin = lemma_request_origin::<E>(service, trace, i);
    assert(requests(service, trace[origin].1, true));
}

/// The handling of a connection ends well only when the peer is gone, or when a peer that had
/// subscribed unsubscribes.
pub proof fn law_ends_well<E>(service: MatterService, trace: EventTrace, i: int)
    requires
        is_event_run::<E>(service, trace),
        0 <= i < trace.len(),
        event_action_at::<E>(service, trace, i) matches EventAction::Finish(Ok(_)),
    ensures
        trace[i].1 is Disconnected || exists|origin: int, notified: int|
            0 <= notified < origin < i && #[trigger] requests(service, trace[origin].1, false)
                && #[trigger] event_action_at::<E>(service, trace, notified) is Notify,
{
    lemma_step_at::<E>(service, trace, i);
    if !(trace[i].1 is Disconnected) {
        let origin = lemma_request_origin::<E>(service, trace, i);
        assert(requests(service, trace[origin].1, false));
        let notified = lemma_subscribed_by::<E>(service, trace, origin);
    }
}

/// The handling of a connection fails exactly when the BTP engine refuses a frame or a write
/// response cannot be sent, and the failure is the general BTP failure.
pub proof fn law_fails<E>(service: MatterService, trace: EventTrace, i: int)
    requires
        is_event_run::<E>(service, trace),
        0 <= i < trace.len(),
    ensures
        (event_action_at::<E>(service, trace, i) matches EventAction::Finish(Err(_))) <==> (
        trace[i].1 == EventInput::Delivered(false) || trace[i].1 == EventInput::Replied(false)),
        event_action_at::<E>(service, trace, i) matches EventAction::Finish(Err(error)) ==> error
            == ServiceError::<E>::BtpError,
{
}

/// A write request is answered with a write response exactly when it wrote to C1 and the BTP engine
/// took the very bytes that it wrote.
pub proof fn law_reply_follows_delivery<E>(service: MatterService, trace: EventTrace, i: int)
    requires
        is_event_run::<E>(service, trace),
        0 <= i < trace.len(),
    ensures
        event_action_at::<E>(service, trace, i) is Reply <==> {
            &&& i > 0
            &&& trace[i - 1].1 matches EventInput::WriteRequest { handle, data }
            &&& handle == service.c1
            &&& event_action_at::<E>(service, trace, i - 1) matches EventAction::Deliver {
                mtu,
                peer,
                data: frame,
            }
            &&& mtu == Some(trace[i - 1].0.mtu)
            &&& peer == trace[i - 1].0.peer
            &&& frame == data
            &&& trace[i].1 == EventInput::Delivered(true)
        },
{
    lemma_step_at::<E>(service, trace, i);
    if i == 0 {
        assert(trace.take(0).len() == 0);
    } else {
        lemma_step_at::<E>(service, trace, i - 1);
    }
}

/// What the peer writes to C1 in the course of `trace`: the bytes of each write, with the ATT MTU and
/// the address of the peer when it came.
pub open spec fn written_frames(service: MatterService, trace: EventTrace) -> Seq<
    (Option<u16>, BtAddr, Seq<u8>),
>
    decreases trace.len(),
{
    if trace.len() == 0 {
        Seq::empty()
    } else {
        let earlier = written_frames(service, trace.drop_last());
        let link = trace.last().0;
        match trace.last().1 {
            EventInput::WriteRequest { handle, data } if handle == service.c1 => earlier.push(
                (Some(link.mtu), link.peer, data@),
            ),
            _ => earlier,
        }
    }
}

/// What the BTP engine is handed in the course of `trace`: each frame, with the ATT MTU and the
/// address of the peer that it is handed along with.
pub open spec fn delivered_frames<E>(service: MatterService, trace: EventTrace) -> Seq<
    (Option<u16>, BtAddr, Seq<u8>),
>
    decreases trace.len(),
{
    if trace.len() == 0 {
        Seq::empty()
    } else {
        let earlier = delivered_frames::<E>(service, trace.drop_last());
        match event_action_at::<E>(service, trace, trace.len() - 1) {
            EventAction::Deliver { mtu, peer, data } => earlier.push((mtu, peer, data@)),
            _ => earlier,
        }
    }
}

/// Every write to C1 is handed to the BTP engine, whole, once and in the order of the writes, with
/// the ATT MTU and the address of the peer when it came; and nothing else is.
pub proof fn law_frames_are_delivered_in_order<E>(service: MatterService, trace: EventTrace)
    ensures
        delivered_frames::<E>(service, trace) == written_frames(service, trace),
    decreases trace.len(),
{
    if trace.len() > 0 {
        law_frames_are_delivered_in_order::<E>(service, trace.drop_last());
    }
}

/// There is one frame with the BTP engine at a time: nothing happens after a frame was handed to it
/// until the engine took the frame or refused it.
pub proof fn law_one_frame_at_a_time<E>(service: MatterService, trace: EventTrace, i: int)
    requires
        is_event_run::<E>(service, trace),
        0 <= i,
        i + 1 < trace.len(),
        event_action_at::<E>(service, trace, i) is Deliver,
    ensures
        trace[i + 1].1 is Delivered,
{
    lemma_step_at::<E>(service, trace, i);
    lemma_step_at::<E>(service, trace, i + 1);
}

/// What a write to the configuration descriptor of C2 leads to once the attribute server is done
/// with it. A request to subscribe starts the indications unless the peer had subscribed before, a
/// request to unsubscribe ends the handling if it had, and any other request changes nothing. Whether
/// the attribute server had a reply makes no difference.
pub proof fn law_request_takes_effect<E>(
    service: MatterService,
    trace: EventTrace,
    origin: int,
    subscribe: bool,
)
    requires
        is_event_run::<E>(service, trace),
        0 <= origin,
        origin + 1 < trace.len(),
        requests(service, trace[origin].1, subscribe),
        trace[origin + 1].1 == EventInput::Accepted(true) ==> origin + 2 < trace.len(),
    ensures
        ({
            let before = events_after::<E>(service, trace.take(origin)).subscribed;
            let done = if trace[origin + 1].1 == EventInput::Accepted(true) {
                origin + 2
            } else {
                origin + 1
            };
            let action = event_action_at::<E>(service, trace, done);
            &&& trace[origin + 1].1 is Accepted
            &&& done == origin + 2 ==> trace[done].1 is Sent
            &&& action is Notify <==> subscribe && !before
            &&& (action matches EventAction::Finish(Ok(_))) <==> !subscribe && before
            &&& action is Next <==> subscribe == before
        }),
{
    lemma_step_at::<E>(service, trace, origin);
    lemma_step_at::<E>(service, trace, origin + 1);
    if trace[origin + 1].1 == EventInput::Accepted(true) {
        lemma_step_at::<E>(service, trace, origin + 2);
    }
}

/// Nothing follows the end of the handling of a connection.
pub proof fn law_nothing_after_the_end<E>(
    service: MatterService,
    trace: EventTrace,
    i: int,
    outcome: Result<(), ServiceError<E>>,
)
    requires
        is_event_run::<E>(service, trace),
        0 <= i < trace.len(),
        event_action_at::<E>(service, trace, i) == EventAction::Finish(outcome),
    ensures
        i == trace.len() - 1,
{
    lemma_step_at::<E>(service, trace, i);
    if i + 1 < trace.len() {
        lemma_step_at::<E>(service, trace, i + 1);
    }
}

/// A connection that is closed is done with, well, whether or not its peer had subscribed.
pub proof fn law_disconnection_ends_the_handling<E>(
    service: MatterService,
    trace: EventTrace,
    i: int,
)
    requires
        is_event_run::<E>(service, trace),
        0 <= i < trace.len(),
        trace[i].1 is Disconnected,
    ensures
        event_action_at::<E>(service, trace, i) == EventAction::<E>::Finish(Ok(())),
{
}

/// Every message of the peer goes somewhere, whether or not the peer has subscribed: a write to C1
/// goes to the BTP engine, with the ATT MTU and the address of the peer, and any other message goes
/// to the attribute server. Nothing else goes to either.
pub proof fn law_every_message_is_handed_on<E>(service: MatterService, trace: EventTrace, i: int)
    requires
        is_event_run::<E>(service, trace),
        0 <= i < trace.len(),
    ensures
        match trace[i].1 {
            EventInput::WriteRequest { handle, data } if handle == service.c1 => {
                event_action_at::<E>(service, trace, i) matches EventAction::Deliver {
                    mtu,
                    peer,
                    data: frame,
                } && mtu == Some(trace[i].0.mtu) && peer == trace[i].0.peer && frame == data
            },
            EventInput::WriteRequest { .. } | EventInput::OtherGatt => event_action_at::<E>(
                service,
                trace,
                i,
            ) is Accept,
            _ => {
                &&& !(event_action_at::<E>(service, trace, i) is Deliver)
                &&& !(event_action_at::<E>(service, trace, i) is Accept)
            },
        },
{
}

/// Every answer goes out: a write response exactly when the BTP engine took a frame, and the reply
/// of the attribute server exactly when the server has one.
pub proof fn law_every_answer_is_sent<E>(service: MatterService, trace: EventTrace, i: int)
    requires
        is_event_run::<E>(service, trace),
        0 <= i < trace.len(),
    ensures
        event_action_at::<E>(service, trace, i) is Reply <==> trace[i].1 == EventInput::Delivered(
            true,
        ),
        event_action_at::<E>(service, trace, i) is Send <==> trace[i].1 == EventInput::Accepted(
            true,
        ),
{
}

/// The handling waits for the next event, with the subscription as it was, once a write response
/// went out, once the indications were told of a subscription, and after an event that is no
/// message of the peer.
pub proof fn law_handling_goes_on<E>(service: MatterService, trace: EventTrace, i: int)
    requires
        is_event_run::<E>(service, trace),
        0 <= i < trace.len(),
        trace[i].1 == EventInput::Replied(true) || trace[i].1 is Notified
            || trace[i].1 is OtherEvent,
    ensures
        event_action_at::<E>(service, trace, i) is Next,
        events_after::<E>(service, trace.take(i + 1)).subscribed == events_after::<E>(
            service,
            trace.take(i),
        ).subscribed,
{
    lemma_step_at::<E>(service, trace, i);
}

/// A message that does not write to the configuration descriptor of C2 leaves the subscription
/// alone: once the attribute server is done with it, the handling waits for the next event.
pub proof fn law_other_messages_change_nothing<E>(
    service: MatterService,
    trace: EventTrace,
    origin: int,
)
    requires
        is_event_run::<E>(service, trace),
        0 <= origin,
        origin + 1 < trace.len(),
        trace[origin + 1].1 == EventInput::Accepted(true) ==> origin + 2 < trace.len(),
        trace[origin].1 is OtherGatt || (trace[origin].1 matches EventInput::WriteRequest {
            handle,
            ..
        } && handle != service.c1 && service.c2_cccd != Some(handle)),
    ensures
        ({
            let done = if trace[origin + 1].1 == EventInput::Accepted(true) {
                origin + 2
            } else {
                origin + 1
            };
            &&& event_action_at::<E>(service, trace, done) is Next
            &&& events_after::<E>(service, trace.take(done + 1)).subscribed == events_after::<E>(
                service,
                trace.take(origin),
            ).subscribed
        }),
{
    lemma_step_at::<E>(service, trace, origin);
    lemma_step_at::<E>(service, trace, origin + 1);
    if trace[origin + 1].1 == EventInput::Accepted(true) {
        lemma_step_at::<E>(service, trace, origin + 2);
    }
}

/// Whether the peer has been told of as subscribed before position `n` of `trace`.
pub open spec fn notified_before<E>(service: MatterService, trace: EventTrace, n: int) -> bool {
    exists|i: int| 0 <= i < n && #[trigger] event_action_at::<E>(service, trace, i) is Notify
}

/// The first byte of what the peer writes to the configuration descriptor of C2 decides. Anything
/// but zero starts the indications, unless they were started before; zero ends the handling, well,
/// if they were started before. Whatever else it writes there, the handling waits for the next
/// event.
pub proof fn law_first_byte_decides<E>(
    service: MatterService,
    trace: EventTrace,
    origin: int,
    handle: u16,
    data: &[u8],
)
    requires
        is_event_run::<E>(service, trace),
        0 <= origin,
        origin + 1 < trace.len(),
        trace[origin + 1].1 == EventInput::Accepted(true) ==> origin + 2 < trace.len(),
        trace[origin].1 == (EventInput::WriteRequest { handle, data }),
        handle != service.c1,
        service.c2_cccd == Some(handle),
    ensures
        ({
            let before = notified_before::<E>(service, trace, origin);
            let done = if trace[origin + 1].1 == EventInput::Accepted(true) {
                origin + 2
            } else {
                origin + 1
            };
            let action = event_action_at::<E>(service, trace, done);
            &&& data@.len() > 0
            &&& data@[0] != 0 && !before ==> action is Notify
            &&& data@[0] == 0 && before ==> action == EventAction::<E>::Finish(Ok(()))
            &&& (data@[0] != 0) == before ==> action is Next
        }),
{
    let start = trace.take(origin);
    lemma_step_at::<E>(service, trace, origin);
    assert(is_event_run::<E>(service, start)) by {
        assert forall|i: int| 0 <= i < origin implies #[trigger] event_expected_at::<E>(
            service,
            start,
            i,
        ) by {
            assert(event_expected_at::<E>(service, trace, i));
            assert(start.take(i) =~= trace.take(i));
        }
    }
    law_subscribed_iff_notified::<E>(service, start);
    assert forall|i: int| 0 <= i < origin implies event_action_at::<E>(service, start, i)
        == #[trigger] event_action_at::<E>(service, trace, i) by {
        assert(start.take(i) =~= trace.take(i));
    }
    if events_after::<E>(service, start).subscribed {
        let i = choose|i: int|
            0 <= i < origin && #[trigger] event_action_at::<E>(service, start, i) is Notify;
        assert(event_action_at::<E>(service, trace, i) is Notify);
    }
    if notified_before::<E>(service, trace, origin) {
        let i = choose|i: int|
            0 <= i < origin && #[trigger] event_action_at::<E>(service, trace, i) is Notify;
        assert(event_action_at::<E>(service, start, i) is Notify);
    }
    assert(requests(service, trace[origin].1, data@[0] != 0));
    law_request_takes_effect::<E>(service, trace, origin, data@[0] != 0);
}

/// The handling takes what comes of the action that it asked for, and nothing else: any event after
/// it asked for the next one, but an empty write to the configuration descriptor of C2, which has no
/// first byte; and nothing after its end.
pub proof fn law_action_is_followed_up<E>(
    service: MatterService,
    trace: EventTrace,
    i: int,
    input: EventInput,
)
    requires
        is_event_run::<E>(service, trace),
        0 <= i < trace.len(),
    ensures
        events_after::<E>(service, trace.take(i + 1)).expects(service, input) <==> match input {
            EventInput::Delivered(_) => event_action_at::<E>(service, trace, i) is Deliver,
            EventInput::Replied(_) => event_action_at::<E>(service, trace, i) is Reply,
            EventInput::Accepted(_) => event_action_at::<E>(service, trace, i) is Accept,
            EventInput::Sent => event_action_at::<E>(service, trace, i) is Send,
            EventInput::Notified => event_action_at::<E>(service, trace, i) is Notify,
            EventInput::WriteRequest { handle, data } => {
                &&& event_action_at::<E>(service, trace, i) is Next
                &&& handle != service.c1 && service.c2_cccd == Some(handle) ==> data@.len() > 0
            },
            EventInput::Disconnected | EventInput::OtherGatt | EventInput::OtherEvent =>
                event_action_at::<E>(service, trace, i) is Next,
        },
{
    lemma_step_at::<E>(service, trace, i);
}

/// A fresh connection waits for an event, of any kind, and for nothing else.
pub proof fn law_starts_with_an_event<E>(service: MatterService, input: EventInput)
    ensures
        events_after::<E>(service, Seq::empty()).expects(service, input) <==> match input {
            EventInput::WriteRequest { handle, data } => handle != service.c1 && service.c2_cccd
                == Some(handle) ==> data@.len() > 0,
            EventInput::Disconnected | EventInput::OtherGatt | EventInput::OtherEvent => true,
            _ => false,
        },
        !events_after::<E>(service, Seq::empty()).subscribed,
{
}

} // verus!
