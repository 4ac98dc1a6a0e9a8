use trouble_btp::address::BtAddr;
use trouble_btp::error::ServiceError;
use trouble_btp::events::{
    handle_events, EventAction, EventInput, EventState, Link, MatterService,
};
use trouble_btp::indications::{
    handle_indications, IndicationAction, IndicationInput, IndicationState,
};
use trouble_btp::peripheral::{
    run_peripheral, PeripheralAction, PeripheralInput, PeripheralState,
};

const SERVICE: MatterService = MatterService {
    c1: 3,
    c2_cccd: Some(6),
};

const LINK: Link = Link {
    mtu: 64,
    peer: BtAddr([6, 5, 4, 3, 2, 1]),
};

type Outcome = Result<(), ServiceError<u8>>;

fn advance(state: &mut PeripheralState, input: PeripheralInput<u8>) -> PeripheralAction<u8> {
    run_peripheral(state, "BT", &[1, 2, 3], input)
}

/// Takes a service from its advertisement to a connection that it handles.
fn connect(state: &mut PeripheralState) {
    advance(state, PeripheralInput::Advertised(true));
    advance(state, PeripheralInput::Accepted(true));
    advance(state, PeripheralInput::Bound(true));
    assert_eq!(
        advance(state, PeripheralInput::Reset),
        PeripheralAction::HandleConnection
    );
}

fn tell<'a>(state: &mut EventState, input: EventInput<'a>) -> EventAction<'a, u8> {
    handle_events(state, &SERVICE, &LINK, input)
}

/// Writes to the configuration descriptor of C2.
fn configure(state: &mut EventState, data: &[u8]) -> EventAction<'static, u8> {
    tell(state, EventInput::WriteRequest { handle: 6, data });
    tell(state, EventInput::Accepted(true));
    tell(state, EventInput::Sent)
}

/// A connection whose peer subscribes and unsubscribes.
fn subscribing_connection() -> Outcome {
    let mut events = EventState::new();
    assert_eq!(configure(&mut events, &[2, 0]), EventAction::Notify);
    tell(&mut events, EventInput::Notified);
    match configure(&mut events, &[0, 0]) {
        EventAction::Finish(outcome) => outcome,
        _ => panic!("the connection goes on"),
    }
}

#[test]
fn subscription_does_not_carry_over() {
    let mut service = PeripheralState::new();
    advance(&mut service, PeripheralInput::Start);
    for _ in 0..2 {
        connect(&mut service);
        let outcome = subscribing_connection();
        assert_eq!(outcome, Ok(()));
        assert!(matches!(
            advance(&mut service, PeripheralInput::Closed(outcome)),
            PeripheralAction::Advertise(_)
        ));
    }

    // To unsubscribe is nothing to a peer that did not subscribe in this connection
    connect(&mut service);
    let mut events = EventState::new();
    assert!(!events.subscribed);
    assert_eq!(configure(&mut events, &[0, 0]), EventAction::Next);
    assert_eq!(
        IndicationState::new(),
        IndicationState::AwaitingSubscription
    );
}

#[test]
fn failure_of_the_engine_ends_the_service_unchanged() {
    let mut service = PeripheralState::new();
    advance(&mut service, PeripheralInput::Start);
    connect(&mut service);

    let mut events = EventState::new();
    let mut indications = IndicationState::new();
    assert_eq!(configure(&mut events, &[2, 0]), EventAction::Notify);
    handle_indications::<u8>(&mut indications, 64, &[0; 8], IndicationInput::Subscribed);
    let input = IndicationInput::Prepared(Err(77));
    let failure = match handle_indications(&mut indications, 64, &[0; 8], input) {
        IndicationAction::Finish(failure) => failure,
        _ => panic!("the indications go on"),
    };

    assert_eq!(
        advance(&mut service, PeripheralInput::Closed(Err(failure))),
        PeripheralAction::Finish(ServiceError::Engine(77))
    );
    assert_eq!(service, PeripheralState::Finished);
}

#[test]
fn refused_frame_ends_the_service_in_the_general_failure() {
    let mut service = PeripheralState::new();
    advance(&mut service, PeripheralInput::Start);
    connect(&mut service);

    let mut events = EventState::new();
    let data: &[u8] = &[1];
    tell(&mut events, EventInput::WriteRequest { handle: 3, data });
    let outcome = match tell(&mut events, EventInput::Delivered(false)) {
        EventAction::Finish(outcome) => outcome,
        _ => panic!("the connection goes on"),
    };

    assert_eq!(
        advance(&mut service, PeripheralInput::Closed(outcome)),
        PeripheralAction::Finish(ServiceError::BtpError)
    );
}
