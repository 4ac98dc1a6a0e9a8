use trouble_btp::error::ServiceError;
use trouble_btp::indications::{
    handle_indications, IndicationAction, IndicationInput, IndicationState,
};

fn step<'b>(
    state: &mut IndicationState,
    buffer: &'b [u8],
    input: IndicationInput<u8>,
) -> IndicationAction<'b, u8> {
    handle_indications(state, 100, buffer, input)
}

const PREPARE: IndicationAction<'static, u8> = IndicationAction::Prepare { mtu: Some(100) };

#[test]
fn frames_go_out_one_by_one() {
    let mut state = IndicationState::new();
    assert_eq!(state, IndicationState::AwaitingSubscription);
    assert_eq!(step(&mut state, &[], IndicationInput::Subscribed), PREPARE);

    let buffer = [5, 6, 7, 8];
    assert_eq!(
        step(&mut state, &buffer, IndicationInput::Prepared(Ok(3))),
        IndicationAction::Indicate {
            frame: &[5, 6, 7],
            store: false,
        }
    );
    assert_eq!(state, IndicationState::Indicating);
    assert_eq!(
        step(&mut state, &buffer, IndicationInput::Indicated(true)),
        PREPARE
    );
    assert_eq!(
        step(&mut state, &buffer, IndicationInput::Prepared(Ok(4))),
        IndicationAction::Indicate {
            frame: &[5, 6, 7, 8],
            store: false,
        }
    );
}

#[test]
fn empty_frame_is_not_sent() {
    let mut state = IndicationState::new();
    step(&mut state, &[], IndicationInput::Subscribed);
    assert_eq!(
        step(&mut state, &[1, 2], IndicationInput::Prepared(Ok(0))),
        IndicationAction::AwaitOutgoing
    );
    assert_eq!(state, IndicationState::Idle);
    assert_eq!(step(&mut state, &[1, 2], IndicationInput::Ready), PREPARE);
}

#[test]
fn failure_of_the_engine_is_handed_on() {
    let mut state = IndicationState::new();
    step(&mut state, &[], IndicationInput::Subscribed);
    assert_eq!(
        step(&mut state, &[], IndicationInput::Prepared(Err(42))),
        IndicationAction::Finish(ServiceError::Engine(42))
    );
    assert_eq!(state, IndicationState::Finished);
}

#[test]
fn failed_indication_is_a_btp_failure() {
    let mut state = IndicationState::new();
    step(&mut state, &[], IndicationInput::Subscribed);
    step(&mut state, &[1], IndicationInput::Prepared(Ok(1)));
    assert_eq!(
        step(&mut state, &[1], IndicationInput::Indicated(false)),
        IndicationAction::Finish(ServiceError::BtpError)
    );
}

#[test]
fn engine_hears_of_the_mtu_in_force() {
    let mut state = IndicationState::new();
    step(&mut state, &[], IndicationInput::Subscribed);
    step(&mut state, &[], IndicationInput::Prepared(Ok(0)));
    let input: IndicationInput<u8> = IndicationInput::Ready;
    assert_eq!(
        handle_indications(&mut state, 512, &[], input),
        IndicationAction::Prepare { mtu: Some(512) }
    );
}
