//! The indications of one connection.
//!
//! [`handle_indications`] decides what is done with what the BTP engine has to send: once the peer
//! has subscribed, the frames of the engine go out one by one as indications on C2, each after the
//! one before it was confirmed.

use crate::error::{to_matter_err, ServiceError};
use vstd::prelude::*;

verus! {

/// What the next input of the indications will be about.
#[derive(Clone, Copy, Debug, PartialEq, Eq)]
pub enum IndicationState {
    /// That the peer subscribed.
    AwaitingSubscription,
    /// What the BTP engine has to send.
    Preparing,
    /// What became of an indication.
    Indicating,
    /// That the BTP engine may have something to send.
    Idle,
    /// Nothing any more.
    Finished,
}

/// What [`handle_indications`] is told.
#[derive(Debug, PartialEq, Eq)]
pub enum IndicationInput<E> {
    /// The peer subscribed to C2.
    Subscribed,
    /// The BTP engine wrote a frame of so many bytes to the front of the buffer, nothing if that is
    /// zero; or it failed.
    Prepared(Result<usize, E>),
    /// The peer confirmed the indication, or it failed.
    Indicated(bool),
    /// The BTP engine may have something to send.
    Ready,
}

/// What [`handle_indications`] wants done.
#[derive(Debug, PartialEq, Eq)]
pub enum IndicationAction<'b, E> {
    /// Let the BTP engine write its next frame to the buffer.
    Prepare { mtu: Option<u16> },
    /// Indicate `frame` on C2 and wait for the confirmation. The value of the characteristic is not
    /// kept.
    Indicate { frame: &'b [u8], store: bool },
    /// Wait until the BTP engine may have something to send.
    AwaitOutgoing,
    /// Return the failure.
    Finish(ServiceError<E>),
}

/// What an [`IndicationAction`] asks for, with the bytes of the frame.
pub ghost enum IndicationStep<E> {
    Prepare { mtu: Option<u16> },
    Indicate { frame: Seq<u8>, store: bool },
    AwaitOutgoing,
    Finish(ServiceError<E>),
}

impl<'b, E> View for IndicationAction<'b, E> {
    type V = IndicationStep<E>;

    open spec fn view(&self) -> IndicationStep<E> {
        match *self {
            IndicationAction::Prepare { mtu } => IndicationStep::Prepare { mtu },
            IndicationAction::Indicate { frame, store } => IndicationStep::Indicate {
                frame: frame@,
                store,
            },
            IndicationAction::AwaitOutgoing => IndicationStep::AwaitOutgoing,
            IndicationAction::Finish(error) => IndicationStep::Finish(error),
        }
    }
}

/// The state that follows an input, and what is done on the way. `mtu` is the ATT MTU in force and
/// `buffer` what the buffer holds when the input comes.
pub open spec fn indication_step<E>(mtu: u16, buffer: Seq<u8>, input: IndicationInput<E>) -> (
    IndicationState,
    IndicationStep<E>,
) {
    match input {
        IndicationInput::Prepared(Ok(len)) => if len > 0 {
            (
                IndicationState::Indicating,
                IndicationStep::Indicate { frame: buffer.take(len as int), store: false },
            )
        } else {
            (IndicationState::Idle, IndicationStep::AwaitOutgoing)
        },
        IndicationInput::Prepared(Err(error)) => (
            IndicationState::Finished,
            IndicationStep::Finish(ServiceError::Engine(error)),
        ),
        IndicationInput::Indicated(false) => (
            IndicationState::Finished,
            IndicationStep::Finish(ServiceError::BtpError),
        ),
        IndicationInput::Subscribed | IndicationInput::Indicated(true) | IndicationInput::Ready => (
            IndicationState::Preparing,
            IndicationStep::Prepare { mtu: Some(mtu) },
        ),
    }
}

impl IndicationState {
    /// Whether `input` is what the indications wait for. A frame has to fit in the `room` bytes of
    /// the buffer that it was written to.
    pub open spec fn expects<E>(self, room: nat, input: IndicationInput<E>) -> bool {
        match input {
            IndicationInput::Subscribed => self is AwaitingSubscription,
            IndicationInput::Prepared(prepared) => {
                &&& self is Preparing
                &&& prepared matches Ok(len) ==> len <= room
            },
            IndicationInput::Indicated(_) => self is Indicating,
            IndicationInput::Ready => self is Idle,
        }
    }

    /// The indications of a fresh connection, which wait for the peer to subscribe.
    pub fn new() -> (state: Self)
        ensures
            state is AwaitingSubscription,
    {
        IndicationState::AwaitingSubscription
    }
}

/// Takes the indications one step further.
pub fn handle_indications<'b, E>(
    state: &mut IndicationState,
    mtu: u16,
    ind_buf: &'b [u8],
    input: IndicationInput<E>,
) -> (action: IndicationAction<'b, E>)
    requires
        old(state).expects(ind_buf@.len(), input),
    ensures
        (*final(state), action@) == indication_step(mtu, ind_buf@, input),
{
    match input {
        IndicationInput::Prepared(Ok(len)) => {
            if len > 0 {
                *state = IndicationState::Indicating;
                IndicationAction::Indicate { frame: &ind_buf[0..len], store: false }
            } else {
                *state = IndicationState::Idle;
                IndicationAction::AwaitOutgoing
            }
        },
        IndicationInput::Prepared(Err(error)) => {
            *state = IndicationState::Finished;
            IndicationAction::Finish(ServiceError::Engine(error))
        },
        IndicationInput::Indicated(false) => {
            *state = IndicationState::Finished;
            IndicationAction::Finish(to_matter_err(()))
        },
        IndicationInput::Subscribed | IndicationInput::Indicated(true) | IndicationInput::Ready => {
            *state = IndicationState::Preparing;
            IndicationAction::Prepare { mtu: Some(mtu) }
        },
    }
}

/// What the indications of a connection went through: each input with the ATT MTU and what the
/// buffer held when it came.
pub type IndicationTrace<E> = Seq<(u16, Seq<u8>, IndicationInput<E>)>;

/// The state of indications that went through `trace`.
pub open spec fn indications_after<E>(trace: IndicationTrace<E>) -> IndicationState {
    if trace.len() == 0 {
        IndicationState::AwaitingSubscription
    } else {
        indication_step(trace.last().0, trace.last().1, trace.last().2).0
    }
}

/// What is done on the input at position `i` of `trace`.
pub open spec fn indication_at<E>(trace: IndicationTrace<E>, i: int) -> IndicationStep<E> {
    indication_step(trace[i].0, trace[i].1, trace[i].2).1
}

/// Whether the input at position `i` of `trace` comes when it is expected.
pub open spec fn indication_expected_at<E>(trace: IndicationTrace<E>, i: int) -> bool {
    indications_after(trace.take(i)).expects(trace[i].1.len(), trace[i].2)
}

/// Whether indications can go through `trace`: every input comes when it is expected.
pub open spec fn is_indication_run<E>(trace: IndicationTrace<E>) -> bool {
    forall|i: int| 0 <= i < trace.len() ==> #[trigger] indication_expected_at(trace, i)
}

/// The frames that the BTP engine prepared in the course of `trace`.
pub open spec fn prepared_frames<E>(trace: IndicationTrace<E>) -> Seq<Seq<u8>>
    decreases trace.len(),
{
    if trace.len() == 0 {
        Seq::empty()
    } else {
        let earlier = prepared_frames(trace.drop_last());
        match trace.last().2 {
            IndicationInput::Prepared(Ok(len)) if len > 0 => earlier.push(
                trace.last().1.take(len as int),
            ),
            _ => earlier,
        }
    }
}

/// The frames that are indicated in the course of `trace`.
pub open spec fn indicated_frames<E>(trace: IndicationTrace<E>) -> Seq<Seq<u8>>
    decreases trace.len(),
{
    if trace.len() == 0 {
        Seq::empty()
    } else {
        let earlier = indicated_frames(trace.drop_last());
        match indication_at(trace, trace.len() - 1) {
            IndicationStep::Indicate { frame, .. } => earlier.push(frame),
            _ => earlier,
        }
    }
}

/// Every frame that the BTP engine prepares is indicated once, and in the order of preparation.
pub proof fn law_frames_go_out_in_order<E>(trace: IndicationTrace<E>)
    ensures
        indicated_frames(trace) == prepared_frames(trace),
    decreases trace.len(),
{
    if trace.len() > 0 {
        law_frames_go_out_in_order(trace.drop_last());
    }
}

/// The state in which position `i` of a run finds the indications, by the position before it.
proof fn lemma_state_at<E>(trace: IndicationTrace<E>, i: int)
    requires
        0 <= i < trace.len(),
        is_indication_run(trace),
    ensures
        indications_after(trace.take(i)).expects(trace[i].1.len(), trace[i].2),
        i == 0 ==> indications_after(trace.take(i)) is AwaitingSubscription,
        i > 0 ==> indications_after(trace.take(i)) == indication_step(
            trace[i - 1].0,
            trace[i - 1].1,
            trace[i - 1].2,
        ).0,
{
    assert(indication_expected_at(trace, i));
    if i > 0 {
        assert(trace.take(i).last() == trace[i - 1]);
    }
}

/// An indication carries at least one byte, and no more than the buffer holds.
pub proof fn law_frame_size<E>(trace: IndicationTrace<E>, i: int)
    requires
        is_indication_run(trace),
        0 <= i < trace.len(),
    ensures
        indication_at(trace, i) matches IndicationStep::Indicate { frame, .. } ==> 0 < frame.len()
            <= trace[i].1.len(),
{
    lemma_state_at(trace, i);
}

/// There is one indication under way at a time: nothing happens after an indication until the
/// peer confirmed it or it failed.
pub proof fn law_one_indication_at_a_time<E>(trace: IndicationTrace<E>, i: int)
    requires
        is_indication_run(trace),
        0 <= i,
        i + 1 < trace.len(),
        indication_at(trace, i) is Indicate,
    ensures
        trace[i + 1].2 is Indicated,
{
    lemma_state_at(trace, i + 1);
}

/// The BTP engine is not asked for a frame, and nothing is indicated, before the peer subscribed.
pub proof fn law_nothing_before_subscription<E>(trace: IndicationTrace<E>, i: int)
    requires
        is_indication_run(trace),
        0 <= i < trace.len(),
        indication_at(trace, i) is Prepare || indication_at(trace, i) is Indicate,
    ensures
        exists|j: int| 0 <= j <= i && (#[trigger] trace[j]).2 is Subscribed,
    decreases i,
{
    lemma_state_at(trace, i);
    if trace[i].2 is Subscribed {
    } else {
        lemma_state_at(trace, i - 1);
        if trace[i].2 is Ready {
            lemma_state_at(trace, i - 2);
            law_nothing_before_subscription(trace, i - 2);
        } else {
            law_nothing_before_subscription(trace, i - 1);
        }
    }
}

/// Indications end in a failure, and nothing follows it: one of the BTP engine is handed on as it
/// is, and an indication that fails is the general BTP failure.
pub proof fn law_indications_fail<E>(trace: IndicationTrace<E>, i: int, error: ServiceError<E>)
    requires
        is_indication_run(trace),
        0 <= i < trace.len(),
        indication_at(trace, i) == IndicationStep::Finish(error),
    ensures
        i == trace.len() - 1,
        match error {
            ServiceError::Engine(reported) => trace[i].2 == IndicationInput::Prepared(Err(reported)),
            ServiceError::BtpError => trace[i].2 == IndicationInput::<E>::Indicated(false),
        },
{
    if i + 1 < trace.len() {
        lemma_state_at(trace, i + 1);
    }
}

/// The BTP engine is asked for its next frame, with the ATT MTU in force, whenever it may have one:
/// once the peer subscribed, once an indication was confirmed, and once the engine told that it may
/// have something to send. It is not asked at any other time.
pub proof fn law_engine_is_asked<E>(trace: IndicationTrace<E>, i: int)
    requires
        is_indication_run(trace),
        0 <= i < trace.len(),
    ensures
        trace[i].2 is Subscribed || trace[i].2 is Ready || trace[i].2 == IndicationInput::<
            E,
        >::Indicated(true) ==> indication_at(trace, i) == (IndicationStep::<E>::Prepare {
            mtu: Some(trace[i].0),
        }),
        indication_at(trace, i) is Prepare ==> trace[i].2 is Subscribed || trace[i].2 is Ready
            || trace[i].2 == IndicationInput::<E>::Indicated(true),
{
}

/// What the BTP engine prepared is indicated: the bytes that it wrote to the front of the buffer,
/// all of them and no others, and without keeping them as the value of C2. If it has nothing to
/// send, it is waited for.
pub proof fn law_prepared_frame_is_indicated<E>(trace: IndicationTrace<E>, i: int, len: usize)
    requires
        is_indication_run(trace),
        0 <= i < trace.len(),
        trace[i].2 == IndicationInput::<E>::Prepared(Ok(len)),
    ensures
        len > 0 ==> indication_at(trace, i) == (IndicationStep::<E>::Indicate {
            frame: trace[i].1.take(len as int),
            store: false,
        }),
        len == 0 ==> indication_at(trace, i) is AwaitOutgoing,
{
}

/// A failure ends the indications: one that the BTP engine reported, unchanged, and that of an
/// indication as the general BTP failure.
pub proof fn law_failure_ends_the_indications<E>(trace: IndicationTrace<E>, i: int)
    requires
        is_indication_run(trace),
        0 <= i < trace.len(),
    ensures
        trace[i].2 matches IndicationInput::Prepared(Err(reported)) ==> indication_at(trace, i)
            == IndicationStep::Finish(ServiceError::Engine(reported)),
        trace[i].2 == IndicationInput::<E>::Indicated(false) ==> indication_at(trace, i)
            == IndicationStep::<E>::Finish(ServiceError::BtpError),
{
}

/// The indications take what comes of the action that they asked for, and nothing else, and nothing
/// after their end. A frame that the BTP engine prepared lies within the buffer.
pub proof fn law_action_is_followed_up<E>(
    trace: IndicationTrace<E>,
    i: int,
    room: nat,
    input: IndicationInput<E>,
)
    requires
        is_indication_run(trace),
        0 <= i < trace.len(),
    ensures
        indications_after(trace.take(i + 1)).expects(room, input) <==> match input {
            IndicationInput::Prepared(Ok(len)) => indication_at(trace, i) is Prepare && len
                <= room,
            IndicationInput::Prepared(Err(_)) => indication_at(trace, i) is Prepare,
            IndicationInput::Indicated(_) => indication_at(trace, i) is Indicate,
            IndicationInput::Ready => indication_at(trace, i) is AwaitOutgoing,
            IndicationInput::Subscribed => false,
        },
{
    assert(trace.take(i + 1).last() == trace[i]);
}

/// An action shows as what it is, with the bytes of its frame.
pub proof fn law_action_shows<'b, E>(action: IndicationAction<'b, E>)
    ensures
        match action {
            IndicationAction::Prepare { mtu } => action@ == (IndicationStep::<E>::Prepare { mtu }),
            IndicationAction::Indicate { frame, store } => action@ == (IndicationStep::<
                E,
            >::Indicate { frame: frame@, store }),
            IndicationAction::AwaitOutgoing => action@ is AwaitOutgoing,
            IndicationAction::Finish(error) => action@ == IndicationStep::Finish(error),
        },
{
}

/// The indications of a fresh connection wait for the peer to subscribe, and for nothing else.
pub proof fn law_starts_with_the_subscription<E>(room: nat, input: IndicationInput<E>)
    ensures
        indications_after(Seq::<(u16, Seq<u8>, IndicationInput<E>)>::empty()).expects(room, input)
            <==> input is Subscribed,
{
}

} // verus!
