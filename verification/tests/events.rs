use trouble_btp::address::BtAddr;
use trouble_btp::error::{report, to_matter_err, ServiceError};
use trouble_btp::events::{
    handle_events, EventAction, EventInput, EventPhase, EventState, Link, MatterService,
};

const SERVICE: MatterService = MatterService {
    c1: 12,
    c2_cccd: Some(15),
};

const LINK: Link = Link {
    mtu: 247,
    peer: BtAddr([1, 2, 3, 4, 5, 6]),
};

fn step<'a>(state: &mut EventState, input: EventInput<'a>) -> EventAction<'a, u8> {
    handle_events(state, &SERVICE, &LINK, input)
}

fn write(handle: u16, data: &[u8]) -> EventInput<'_> {
    EventInput::WriteRequest { handle, data }
}

/// Writes to the configuration descriptor, with an attribute server that replies.
fn configure<'a>(state: &mut EventState, data: &'a [u8]) -> EventAction<'a, u8> {
    assert_eq!(step(state, write(15, data)), EventAction::Accept);
    assert_eq!(step(state, EventInput::Accepted(true)), EventAction::Send);
    step(state, EventInput::Sent)
}

#[test]
fn frame_is_delivered_and_answered() {
    let mut state = EventState::new();
    assert_eq!(
        step(&mut state, write(12, &[9, 8, 7])),
        EventAction::Deliver {
            mtu: Some(247),
            peer: BtAddr([1, 2, 3, 4, 5, 6]),
            data: &[9, 8, 7],
        }
    );
    assert_eq!(
        step(&mut state, EventInput::Delivered(true)),
        EventAction::Reply
    );
    assert_eq!(step(&mut state, EventInput::Replied(true)), EventAction::Next);
    assert_eq!(state, EventState::new());
}

#[test]
fn refused_frame_is_not_answered() {
    let mut state = EventState::new();
    step(&mut state, write(12, &[]));
    assert_eq!(
        step(&mut state, EventInput::Delivered(false)),
        EventAction::Finish(Err(ServiceError::BtpError))
    );
    assert_eq!(state.phase, EventPhase::Finished);
}

#[test]
fn unsent_answer_ends_the_connection() {
    let mut state = EventState::new();
    step(&mut state, write(12, &[1]));
    step(&mut state, EventInput::Delivered(true));
    assert_eq!(
        step(&mut state, EventInput::Replied(false)),
        EventAction::Finish(Err(ServiceError::BtpError))
    );
}

#[test]
fn first_subscription_starts_the_indications() {
    let mut state = EventState::new();
    assert_eq!(configure(&mut state, &[2, 0]), EventAction::Notify);
    assert!(state.subscribed);
    assert_eq!(step(&mut state, EventInput::Notified), EventAction::Next);
    // Once is enough
    assert_eq!(configure(&mut state, &[2, 0]), EventAction::Next);
    assert!(state.subscribed);
}

#[test]
fn subscription_counts_without_a_reply_of_the_server() {
    let mut state = EventState::new();
    step(&mut state, write(15, &[1]));
    assert_eq!(
        step(&mut state, EventInput::Accepted(false)),
        EventAction::Notify
    );
}

#[test]
fn subscription_goes_by_the_first_byte() {
    let mut state = EventState::new();
    assert_eq!(configure(&mut state, &[0, 1]), EventAction::Next);
    assert!(!state.subscribed);
    assert_eq!(configure(&mut state, &[0xff]), EventAction::Notify);
}

#[test]
fn unsubscribing_ends_the_connection_of_a_subscriber() {
    let mut state = EventState::new();
    configure(&mut state, &[2, 0]);
    step(&mut state, EventInput::Notified);
    assert_eq!(
        configure(&mut state, &[0, 0]),
        EventAction::Finish(Ok(()))
    );
    assert_eq!(state.phase, EventPhase::Finished);
}

#[test]
fn unsubscribing_without_subscription_changes_nothing() {
    let mut state = EventState::new();
    assert_eq!(configure(&mut state, &[0, 0]), EventAction::Next);
    assert_eq!(state, EventState::new());
}

#[test]
fn disconnection_ends_the_connection_well() {
    let mut state = EventState::new();
    assert_eq!(
        step(&mut state, EventInput::Disconnected),
        EventAction::Finish(Ok(()))
    );
}

#[test]
fn other_messages_go_to_the_attribute_server() {
    let mut state = EventState::new();
    assert_eq!(step(&mut state, EventInput::OtherGatt), EventAction::Accept);
    assert_eq!(
        step(&mut state, EventInput::Accepted(false)),
        EventAction::Next
    );
    // So does a write to any other attribute, whatever it holds
    assert_eq!(step(&mut state, write(99, &[])), EventAction::Accept);
    assert_eq!(step(&mut state, EventInput::Accepted(true)), EventAction::Send);
    assert_eq!(step(&mut state, EventInput::Sent), EventAction::Next);
    assert_eq!(state, EventState::new());
}

#[test]
fn other_events_are_passed_over() {
    let mut state = EventState::new();
    assert_eq!(step(&mut state, EventInput::OtherEvent), EventAction::Next);
    assert_eq!(state, EventState::new());
}

#[test]
fn service_without_descriptor_has_no_subscribers() {
    let service = MatterService {
        c1: 12,
        c2_cccd: None,
    };
    let mut state = EventState::new();
    let input = write(15, &[1]);
    let action: EventAction<'_, u8> = handle_events(&mut state, &service, &LINK, input);
    assert_eq!(action, EventAction::Accept);
    assert_eq!(state.phase, EventPhase::Accepting(None));
}

#[test]
fn c1_comes_before_the_descriptor() {
    let service = MatterService {
        c1: 12,
        c2_cccd: Some(12),
    };
    let mut state = EventState::new();
    let input = write(12, &[]);
    let action: EventAction<'_, u8> = handle_events(&mut state, &service, &LINK, input);
    assert!(matches!(action, EventAction::Deliver { .. }));
}

#[test]
fn failures_are_reported() {
    let failure: ServiceError<u8> = to_matter_err("controller gone");
    assert_eq!(failure, ServiceError::BtpError);
    assert_eq!(report::<u8>(Ok(())), Ok(()));
    assert_eq!(
        report(Err(ServiceError::Engine(3u8))),
        Err(ServiceError::BtpError)
    );
    assert_eq!(
        report::<u8>(Err(ServiceError::BtpError)),
        Err(ServiceError::BtpError)
    );
}

#[test]
fn frames_are_delivered_whole_and_in_order() {
    let frames: [&[u8]; 3] = [&[1, 2, 3], &[], &[4]];
    let mut state = EventState::new();
    let mut delivered = Vec::new();
    for (mtu, frame) in [23u16, 100, 247].into_iter().zip(frames) {
        // Another message of the peer goes to the attribute server in between
        assert_eq!(step(&mut state, write(13, &[9])), EventAction::Accept);
        assert_eq!(
            step(&mut state, EventInput::Accepted(false)),
            EventAction::Next
        );
        let link = Link { mtu, ..LINK };
        match handle_events::<u8>(&mut state, &SERVICE, &link, write(12, frame)) {
            EventAction::Deliver { mtu, peer, data } => delivered.push((mtu, peer, data)),
            _ => panic!("not delivered"),
        }
        assert_eq!(state.phase, EventPhase::Delivering);
        step(&mut state, EventInput::Delivered(true));
        step(&mut state, EventInput::Replied(true));
    }
    assert_eq!(
        delivered,
        vec![
            (Some(23), LINK.peer, frames[0]),
            (Some(100), LINK.peer, frames[1]),
            (Some(247), LINK.peer, frames[2]),
        ]
    );
}
