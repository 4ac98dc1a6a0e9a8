use trouble_btp::address::BtAddr;
use trouble_btp::events::{
    handle_events, EventAction, EventInput, EventState, Link, MatterService,
};
use trouble_btp::indications::{
    handle_indications, IndicationAction, IndicationInput, IndicationState,
};

#[test]
fn indications_start_with_the_subscription() {
    let service = MatterService {
        c1: 3,
        c2_cccd: Some(6),
    };
    let link = Link {
        mtu: 23,
        peer: BtAddr([0; 6]),
    };
    let mut events = EventState::new();
    let mut indications = IndicationState::new();
    let mut notified = false;

    for input in [
        EventInput::OtherEvent,
        EventInput::WriteRequest {
            handle: 6,
            data: &[2, 0],
        },
        EventInput::Accepted(true),
        EventInput::Sent,
    ] {
        assert!(!notified);
        let action: EventAction<'_, u8> = handle_events(&mut events, &service, &link, input);
        notified = action == EventAction::Notify;
    }
    assert!(notified && events.subscribed);

    let input: IndicationInput<u8> = IndicationInput::Subscribed;
    assert_eq!(
        handle_indications(&mut indications, link.mtu, &[], input),
        IndicationAction::Prepare { mtu: Some(23) }
    );
}
