use trouble_btp::advertising::advertise;
use trouble_btp::error::ServiceError;
use trouble_btp::peripheral::{
    run_peripheral, PeripheralAction, PeripheralInput, PeripheralState,
};

const DEVICE: &[u8] = &[0x00, 0x00, 0x0f, 0xf1, 0xff, 0x01, 0x80, 0x00];

fn step(
    state: &mut PeripheralState,
    name: &str,
    input: PeripheralInput<u8>,
) -> PeripheralAction<u8> {
    run_peripheral(state, name, DEVICE, input)
}

fn connect(state: &mut PeripheralState) {
    assert_eq!(
        step(state, "BT", PeripheralInput::Advertised(true)),
        PeripheralAction::Accept
    );
    assert_eq!(
        step(state, "BT", PeripheralInput::Accepted(true)),
        PeripheralAction::Bind
    );
    assert_eq!(
        step(state, "BT", PeripheralInput::Bound(true)),
        PeripheralAction::ResetBtp
    );
    assert_eq!(
        step(state, "BT", PeripheralInput::Reset),
        PeripheralAction::HandleConnection
    );
}

#[test]
fn connection_follows_connection() {
    let advertisement = || PeripheralAction::Advertise(advertise::<u8>("BT", DEVICE).unwrap());
    let mut state = PeripheralState::new();
    assert_eq!(step(&mut state, "BT", PeripheralInput::Start), advertisement());
    for _ in 0..3 {
        connect(&mut state);
        assert_eq!(
            step(&mut state, "BT", PeripheralInput::Closed(Ok(()))),
            advertisement()
        );
    }
}

#[test]
fn failed_connection_ends_the_service() {
    let mut state = PeripheralState::new();
    step(&mut state, "BT", PeripheralInput::Start);
    connect(&mut state);
    assert_eq!(
        step(
            &mut state,
            "BT",
            PeripheralInput::Closed(Err(ServiceError::Engine(7)))
        ),
        PeripheralAction::Finish(ServiceError::Engine(7))
    );
    assert_eq!(state, PeripheralState::Finished);
}

#[test]
fn failure_of_the_host_ends_the_service() {
    let failed = PeripheralAction::Finish(ServiceError::BtpError);

    let mut state = PeripheralState::new();
    step(&mut state, "BT", PeripheralInput::Start);
    assert_eq!(step(&mut state, "BT", PeripheralInput::Advertised(false)), failed);

    let mut state = PeripheralState::new();
    step(&mut state, "BT", PeripheralInput::Start);
    step(&mut state, "BT", PeripheralInput::Advertised(true));
    assert_eq!(step(&mut state, "BT", PeripheralInput::Accepted(false)), failed);

    let mut state = PeripheralState::new();
    step(&mut state, "BT", PeripheralInput::Start);
    step(&mut state, "BT", PeripheralInput::Advertised(true));
    step(&mut state, "BT", PeripheralInput::Accepted(true));
    assert_eq!(step(&mut state, "BT", PeripheralInput::Bound(false)), failed);
    assert_eq!(state, PeripheralState::Finished);
}

#[test]
fn name_that_does_not_fit_ends_the_service_at_once() {
    let mut state = PeripheralState::new();
    assert_eq!(
        step(&mut state, "fifteen bytes ..", PeripheralInput::Start),
        PeripheralAction::Finish(ServiceError::BtpError)
    );
    assert_eq!(state, PeripheralState::Finished);
}
