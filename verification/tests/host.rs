use trouble_btp::error::ServiceError;
use trouble_btp::host::{
    run_ble, run_btp_gatt_service, ExternalAction, ExternalInput, ExternalState, HostAction,
    HostInput, HostState, ServiceAction, ServiceInput, ServiceState,
    TroubleBtpExternalGattPeripheral, TroubleBtpGattPeripheral,
};

fn finished(error: ServiceError<u8>) -> ServiceAction<u8> {
    ServiceAction::Finish(error)
}

#[test]
fn peripheral_draws_until_there_is_an_address() {
    let peripheral = TroubleBtpGattPeripheral::new("controller", Some("random"), "context");
    assert_eq!(peripheral.ble_ctl, "controller");
    assert_eq!(peripheral.rand, Some("random"));
    assert_eq!(peripheral.context, "context");

    let mut state = HostState::new();
    let mut step = |input: HostInput<u8>| peripheral.run(&mut state, input);
    assert_eq!(step(HostInput::Locked), HostAction::Resize);
    assert_eq!(step(HostInput::Resized), HostAction::Draw);
    assert_eq!(step(HostInput::Drawn(0)), HostAction::Draw);
    assert_eq!(step(HostInput::Drawn(u64::MAX)), HostAction::Draw);
    assert_eq!(
        step(HostInput::Drawn(0x0605_0403_0201)),
        HostAction::Build {
            address: Some([0x01, 0x02, 0x03, 0x04, 0x05, 0xc6]),
        }
    );
    assert_eq!(step(HostInput::Built), HostAction::BuildServer);
    assert_eq!(step(HostInput::ServerBuilt(true)), HostAction::RunBoth);
    assert_eq!(
        step(HostInput::ServiceEnded(ServiceError::Engine(5))),
        HostAction::Finish(ServiceError::Engine(5))
    );
    assert_eq!(state, HostState::Finished);
}

fn running() -> HostState {
    let peripheral = TroubleBtpGattPeripheral::new((), None::<()>, ());
    let mut state = HostState::new();
    peripheral.run::<u8>(&mut state, HostInput::Locked);
    peripheral.run::<u8>(&mut state, HostInput::Resized);
    peripheral.run::<u8>(&mut state, HostInput::Built);
    assert_eq!(
        peripheral.run::<u8>(&mut state, HostInput::ServerBuilt(true)),
        HostAction::RunBoth
    );
    state
}

#[test]
fn first_failure_ends_host_and_service() {
    let peripheral = TroubleBtpGattPeripheral::new((), None::<()>, ());

    let mut state = running();
    let mut step = |input: HostInput<u8>| peripheral.run(&mut state, input);
    assert_eq!(step(HostInput::HostStopped(true)), HostAction::RunHost);
    assert_eq!(step(HostInput::HostStopped(true)), HostAction::RunHost);
    assert_eq!(
        step(HostInput::HostStopped(false)),
        HostAction::Finish(ServiceError::BtpError)
    );
    assert_eq!(state, HostState::Finished);

    let mut state = running();
    let mut step = |input: HostInput<u8>| peripheral.run(&mut state, input);
    assert_eq!(step(HostInput::HostStopped(true)), HostAction::RunHost);
    assert_eq!(
        step(HostInput::ServiceEnded(ServiceError::Engine(9))),
        HostAction::Finish(ServiceError::Engine(9))
    );
    assert_eq!(state, HostState::Finished);
}

#[test]
fn peripheral_without_random_numbers_keeps_the_address_of_the_controller() {
    let peripheral = TroubleBtpGattPeripheral::new((), None::<()>, ());
    let mut state = HostState::new();
    let mut step = |input: HostInput<u8>| peripheral.run(&mut state, input);
    assert_eq!(step(HostInput::Locked), HostAction::Resize);
    assert_eq!(
        step(HostInput::Resized),
        HostAction::Build { address: None }
    );
    assert_eq!(step(HostInput::Built), HostAction::BuildServer);
    assert_eq!(
        step(HostInput::ServerBuilt(false)),
        HostAction::Finish(ServiceError::BtpError)
    );
    assert_eq!(state, HostState::Finished);
}

#[test]
fn server_that_cannot_be_built_ends_the_run() {
    let mut state = ServiceState::new();
    assert_eq!(
        run_btp_gatt_service::<u8>(&mut state, ServiceInput::Start),
        ServiceAction::BuildServer
    );
    assert_eq!(
        run_btp_gatt_service(&mut state, ServiceInput::ServerBuilt(false)),
        finished(ServiceError::BtpError)
    );
    assert_eq!(state, ServiceState::Finished);
}

#[test]
fn service_hands_its_failure_on() {
    for error in [ServiceError::BtpError, ServiceError::Engine(3)] {
        let expected = match &error {
            ServiceError::BtpError => ServiceError::BtpError,
            ServiceError::Engine(engine) => ServiceError::Engine(*engine),
        };
        let mut state = ServiceState::Serving;
        assert_eq!(
            run_btp_gatt_service::<u8>(&mut state, ServiceInput::Ended(error)),
            finished(expected)
        );
        assert_eq!(state, ServiceState::Finished);
    }
}

#[test]
fn external_peripheral_builds_no_host() {
    let peripheral = TroubleBtpExternalGattPeripheral::new(1, 2);
    assert_eq!((peripheral.peripheral, peripheral.context), (1, 2));

    let mut state = ExternalState::new();
    let mut step = |input: ExternalInput<u8>| peripheral.run(&mut state, input);
    assert_eq!(step(ExternalInput::Locked), ExternalAction::Resize);
    assert_eq!(
        step(ExternalInput::Resized),
        ExternalAction::Service(ServiceAction::BuildServer)
    );
    assert_eq!(
        step(ExternalInput::Service(ServiceInput::ServerBuilt(true))),
        ExternalAction::Service(ServiceAction::Serve)
    );
    assert_eq!(
        step(ExternalInput::Service(ServiceInput::Ended(
            ServiceError::Engine(4)
        ))),
        ExternalAction::Service(finished(ServiceError::Engine(4)))
    );
}

#[test]
fn host_is_run_again_until_it_fails() {
    assert_eq!(run_ble::<u8>(true), None);
    assert_eq!(run_ble::<u8>(false), Some(ServiceError::BtpError));
}

#[test]
fn external_run_ends_without_a_server() {
    let peripheral = TroubleBtpExternalGattPeripheral::new((), ());
    let mut state = ExternalState::new();
    peripheral.run::<u8>(&mut state, ExternalInput::Locked);
    peripheral.run::<u8>(&mut state, ExternalInput::Resized);
    assert_eq!(
        peripheral.run::<u8>(
            &mut state,
            ExternalInput::Service(ServiceInput::ServerBuilt(false))
        ),
        ExternalAction::Service(finished(ServiceError::BtpError))
    );
    assert_eq!(state, ExternalState::Service(ServiceState::Finished));
}
