//! The peripherals.
//!
//! There are two of them, and they differ in who owns the BLE host. [`TroubleBtpGattPeripheral`]
//! builds one and runs it beside the service. [`TroubleBtpExternalGattPeripheral`] borrows the
//! peripheral half of one that the caller built and runs. The service is the same on both.

use crate::address::{
    drawn_address, is_static_random, law_address_is_of_the_draw,
    law_drawn_address_is_static_random, le_value, static_random_address,
};
use crate::error::{to_matter_err, ServiceError};
use crate::peripheral::{
    is_peripheral_run, law_service_fails, peripheral_after, peripheral_expected_at,
    peripheral_step, PeripheralInput, PeripheralState, PeripheralStep,
};
use vstd::prelude::*;

verus! {

/// What follows once the BLE host stopped running: it is run again if it stopped of its own accord,
/// and a failure of it is the general BTP failure.
pub fn run_ble<E>(ran: bool) -> (failure: Option<ServiceError<E>>)
    ensures
        failure == if ran {
            None::<ServiceError<E>>
        } else {
            Some(ServiceError::BtpError)
        },
{
    if ran {
        None
    } else {
        Some(to_matter_err(()))
    }
}

/// What the next input of a service on a BLE host will be about.
#[derive(Clone, Copy, Debug, PartialEq, Eq)]
pub enum ServiceState {
    /// That the host is there.
    Starting,
    /// Whether the attribute server could be built.
    BuildingServer,
    /// How the service ended.
    Serving,
    /// Nothing any more.
    Finished,
}

/// What [`run_btp_gatt_service`] is told.
#[derive(Debug, PartialEq, Eq)]
pub enum ServiceInput<E> {
    /// The host is there.
    Start,
    /// The attribute server with C1 and C2 was built, or could not be.
    ServerBuilt(bool),
    /// The service ended with this failure. It does not end otherwise.
    Ended(ServiceError<E>),
}

/// What [`run_btp_gatt_service`] wants done.
#[derive(Debug, PartialEq, Eq)]
pub enum ServiceAction<E> {
    /// Build the attribute server with C1 and C2.
    BuildServer,
    /// Run the service until it ends.
    Serve,
    /// Return the failure.
    Finish(ServiceError<E>),
}

/// The state that follows an input, and what is done on the way.
pub open spec fn service_step<E>(input: ServiceInput<E>) -> (ServiceState, ServiceAction<E>) {
    match input {
        ServiceInput::Start => (ServiceState::BuildingServer, ServiceAction::BuildServer),
        ServiceInput::ServerBuilt(true) => (ServiceState::Serving, ServiceAction::Serve),
        ServiceInput::ServerBuilt(false) => (
            ServiceState::Finished,
            ServiceAction::Finish(ServiceError::BtpError),
        ),
        ServiceInput::Ended(error) => (ServiceState::Finished, ServiceAction::Finish(error)),
    }
}

impl ServiceState {
    /// Whether `input` is what the service waits for.
    pub open spec fn expects<E>(self, input: ServiceInput<E>) -> bool {
        match input {
            ServiceInput::Start => self is Starting,
            ServiceInput::ServerBuilt(_) => self is BuildingServer,
            ServiceInput::Ended(_) => self is Serving,
        }
    }

    /// A service that waits for its host.
    pub fn new() -> (state: Self)
        ensures
            state is Starting,
    {
        ServiceState::Starting
    }
}

/// Takes the service on a BLE host one step further. The host itself is run elsewhere.
pub fn run_btp_gatt_service<E>(state: &mut ServiceState, input: ServiceInput<E>) -> (action:
    ServiceAction<E>)
    requires
        old(state).expects(input),
    ensures
        (*final(state), action) == service_step(input),
{
    match input {
        ServiceInput::Start => {
            *state = ServiceState::BuildingServer;
            ServiceAction::BuildServer
        },
        ServiceInput::ServerBuilt(true) => {
            *state = ServiceState::Serving;
            ServiceAction::Serve
        },
        ServiceInput::ServerBuilt(false) => {
            *state = ServiceState::Finished;
            ServiceAction::Finish(to_matter_err(()))
        },
        ServiceInput::Ended(error) => {
            *state = ServiceState::Finished;
            ServiceAction::Finish(error)
        },
    }
}

/// What the next input of a peripheral will be about.
#[derive(Clone, Copy, Debug, PartialEq, Eq)]
pub enum HostState {
    /// That the context is held for this run.
    Locking,
    /// That the indication buffer was brought to its full size.
    Resizing,
    /// A random number.
    Drawing,
    /// That the host was built.
    Building,
    /// Whether the attribute server could be built.
    BuildingServer,
    /// Which of the host and the service stopped first.
    Running,
    /// Nothing any more.
    Finished,
}

/// What a peripheral is told.
#[derive(Debug, PartialEq, Eq)]
pub enum HostInput<E> {
    /// The context is held for this run.
    Locked,
    /// The indication buffer was brought to its full size.
    Resized,
    /// A random number was drawn.
    Drawn(u64),
    /// The host was built.
    Built,
    /// The attribute server with C1 and C2 was built, or could not be.
    ServerBuilt(bool),
    /// The host stopped of its own accord, or failed, and the service is still running.
    HostStopped(bool),
    /// The service ended with this failure, and the host is still running.
    ServiceEnded(ServiceError<E>),
}

/// What a peripheral wants done.
#[derive(Debug, PartialEq, Eq)]
pub enum HostAction<E> {
    /// Bring the indication buffer to its full size.
    Resize,
    /// Draw a random number.
    Draw,
    /// Build the host, with the given random address if there is one.
    Build { address: Option<[u8; 6]> },
    /// Build the attribute server with C1 and C2.
    BuildServer,
    /// Run the host and the service side by side until either stops.
    RunBoth,
    /// Run the host again, beside the service that is still running, until either stops.
    RunHost,
    /// Stop what is running and return the failure.
    Finish(ServiceError<E>),
}

/// What a [`HostAction`] asks for, with the bytes of the address.
pub ghost enum HostStep<E> {
    Resize,
    Draw,
    Build { address: Option<Seq<u8>> },
    BuildServer,
    RunBoth,
    RunHost,
    Finish(ServiceError<E>),
}

impl<E> View for HostAction<E> {
    type V = HostStep<E>;

    open spec fn view(&self) -> HostStep<E> {
        match *self {
            HostAction::Resize => HostStep::Resize,
            HostAction::Draw => HostStep::Draw,
            HostAction::Build { address: Some(bytes) } => HostStep::Build {
                address: Some(bytes@),
            },
            HostAction::Build { address: None } => HostStep::Build { address: None },
            HostAction::BuildServer => HostStep::BuildServer,
            HostAction::RunBoth => HostStep::RunBoth,
            HostAction::RunHost => HostStep::RunHost,
            HostAction::Finish(error) => HostStep::Finish(error),
        }
    }
}

/// The state that follows an input, and what is done on the way. A peripheral that has a source of
/// random numbers draws until a number makes an address. A host that stops of its own accord is run
/// again; whichever of the host and the service fails first ends both.
pub open spec fn host_step<E>(random: bool, input: HostInput<E>) -> (HostState, HostStep<E>) {
    match input {
        HostInput::Locked => (HostState::Resizing, HostStep::Resize),
        HostInput::Resized => if random {
            (HostState::Drawing, HostStep::Draw)
        } else {
            (HostState::Building, HostStep::Build { address: None })
        },
        HostInput::Drawn(draw) => match drawn_address(draw) {
            Some(address) => (HostState::Building, HostStep::Build { address: Some(address) }),
            None => (HostState::Drawing, HostStep::Draw),
        },
        HostInput::Built => (HostState::BuildingServer, HostStep::BuildServer),
        HostInput::ServerBuilt(true) => (HostState::Running, HostStep::RunBoth),
        HostInput::HostStopped(true) => (HostState::Running, HostStep::RunHost),
        HostInput::ServerBuilt(false) | HostInput::HostStopped(false) => (
            HostState::Finished,
            HostStep::Finish(ServiceError::BtpError),
        ),
        HostInput::ServiceEnded(error) => (HostState::Finished, HostStep::Finish(error)),
    }
}

impl HostState {
    /// Whether `input` is what a peripheral waits for.
    pub open spec fn expects<E>(self, input: HostInput<E>) -> bool {
        match input {
            HostInput::Locked => self is Locking,
            HostInput::Resized => self is Resizing,
            HostInput::Drawn(_) => self is Drawing,
            HostInput::Built => self is Building,
            HostInput::ServerBuilt(_) => self is BuildingServer,
            HostInput::HostStopped(_) | HostInput::ServiceEnded(_) => self is Running,
        }
    }

    /// A run that waits for its context.
    pub fn new() -> (state: Self)
        ensures
            state is Locking,
    {
        HostState::Locking
    }
}

/// A peripheral that builds and runs its own BLE host. It holds the controller of the host, a
/// source of random numbers if the device is to take a random address, and a way to its
/// [`TroubleBtpGattContext`](crate::context::TroubleBtpGattContext).
#[derive(Debug)]
pub struct TroubleBtpGattPeripheral<R, C, X> {
    pub ble_ctl: C,
    pub rand: Option<R>,
    pub context: X,
}

impl<R, C, X> TroubleBtpGattPeripheral<R, C, X> {
    /// A peripheral on the controller `ble_ctl`.
    pub fn new(ble_ctl: C, rand: Option<R>, context: X) -> (peripheral: Self)
        ensures
            peripheral.ble_ctl == ble_ctl,
            peripheral.rand == rand,
            peripheral.context == context,
    {
        TroubleBtpGattPeripheral { ble_ctl, rand, context }
    }

    /// Takes a run of the peripheral one step further.
    pub fn run<E>(&self, state: &mut HostState, input: HostInput<E>) -> (action: HostAction<E>)
        requires
            old(state).expects(input),
        ensures
            (*final(state), action@) == host_step(self.rand is Some, input),
    {
        match input {
            HostInput::Locked => {
                *state = HostState::Resizing;
                HostAction::Resize
            },
            HostInput::Resized => {
                if self.rand.is_some() {
                    *state = HostState::Drawing;
                    HostAction::Draw
                } else {
                    *state = HostState::Building;
                    HostAction::Build { address: None }
                }
            },
            HostInput::Drawn(draw) => {
                match static_random_address(draw) {
                    Some(address) => {
                        *state = HostState::Building;
                        HostAction::Build { address: Some(address) }
                    },
                    None => {
                        *state = HostState::Drawing;
                        HostAction::Draw
                    },
                }
            },
            HostInput::Built => {
                *state = HostState::BuildingServer;
                HostAction::BuildServer
            },
            HostInput::ServerBuilt(true) => {
                *state = HostState::Running;
                HostAction::RunBoth
            },
            HostInput::ServerBuilt(false) => {
                *state = HostState::Finished;
                HostAction::Finish(to_matter_err(()))
            },
            HostInput::HostStopped(ran) => {
                match run_ble(ran) {
                    None => {
                        *state = HostState::Running;
                        HostAction::RunHost
                    },
                    Some(error) => {
                        *state = HostState::Finished;
                        HostAction::Finish(error)
                    },
                }
            },
            HostInput::ServiceEnded(error) => {
                *state = HostState::Finished;
                HostAction::Finish(error)
            },
        }
    }
}

/// What the next input of a peripheral on a host of the caller will be about.
#[derive(Clone, Copy, Debug, PartialEq, Eq)]
pub enum ExternalState {
    /// That the context is held for this run.
    Locking,
    /// That the indication buffer was brought to its full size.
    Resizing,
    /// The service on the host.
    Service(ServiceState),
}

/// What a peripheral on a host of the caller is told.
#[derive(Debug, PartialEq, Eq)]
pub enum ExternalInput<E> {
    /// The context is held for this run.
    Locked,
    /// The indication buffer was brought to its full size.
    Resized,
    /// Something came of the service on the host.
    Service(ServiceInput<E>),
}

/// What a peripheral on a host of the caller wants done.
#[derive(Debug, PartialEq, Eq)]
pub enum ExternalAction<E> {
    /// Bring the indication buffer to its full size.
    Resize,
    /// Go on with the service on the host.
    Service(ServiceAction<E>),
}

/// The state that follows an input, and what is done on the way.
pub open spec fn external_step<E>(input: ExternalInput<E>) -> (ExternalState, ExternalAction<E>) {
    match input {
        ExternalInput::Locked => (ExternalState::Resizing, ExternalAction::Resize),
        ExternalInput::Resized => (
            ExternalState::Service(ServiceState::BuildingServer),
            ExternalAction::Service(ServiceAction::BuildServer),
        ),
        ExternalInput::Service(input) => {
            let (state, action) = service_step(input);
            (ExternalState::Service(state), ExternalAction::Service(action))
        },
    }
}

impl ExternalState {
    /// Whether `input` is what a peripheral waits for.
    pub open spec fn expects<E>(self, input: ExternalInput<E>) -> bool {
        match input {
            ExternalInput::Locked => self is Locking,
            ExternalInput::Resized => self is Resizing,
            ExternalInput::Service(input) => self matches ExternalState::Service(state)
                && state.expects(input),
        }
    }

    /// A run that waits for its context.
    pub fn new() -> (state: Self)
        ensures
            state is Locking,
    {
        ExternalState::Locking
    }
}

/// A peripheral that runs on a BLE host of the caller, who also runs the host. It holds the
/// peripheral half of the host and a way to its
/// [`TroubleBtpGattIndContext`](crate::context::TroubleBtpGattIndContext).
#[derive(Debug)]
pub struct TroubleBtpExternalGattPeripheral<P, X> {
    pub peripheral: P,
    pub context: X,
}

impl<P, X> TroubleBtpExternalGattPeripheral<P, X> {
    /// A peripheral on the given half of a host.
    pub fn new(peripheral: P, context: X) -> (external: Self)
        ensures
            external.peripheral == peripheral,
            external.context == context,
    {
        TroubleBtpExternalGattPeripheral { peripheral, context }
    }

    /// Takes a run of the peripheral one step further.
    pub fn run<E>(&self, state: &mut ExternalState, input: ExternalInput<E>) -> (action:
        ExternalAction<E>)
        requires
            old(state).expects(input),
        ensures
            (*final(state), action) == external_step(input),
    {
        match input {
            ExternalInput::Locked => {
                *state = ExternalState::Resizing;
                ExternalAction::Resize
            },
            ExternalInput::Resized => {
                let mut service = ServiceState::new();
                let action = run_btp_gatt_service(&mut service, ServiceInput::Start);
                *state = ExternalState::Service(service);
                ExternalAction::Service(action)
            },
            ExternalInput::Service(input) => {
                let mut service = match *state {
                    ExternalState::Service(service) => service,
                    _ => ServiceState::new(),
                };
                let action = run_btp_gatt_service(&mut service, input);
                *state = ExternalState::Service(service);
                ExternalAction::Service(action)
            },
        }
    }
}

/// The state of a peripheral that took `inputs`.
pub open spec fn host_after<E>(random: bool, inputs: Seq<HostInput<E>>) -> HostState {
    if inputs.len() == 0 {
        HostState::Locking
    } else {
        host_step(random, inputs.last()).0
    }
}

/// Whether the input at position `i` of `inputs` comes when it is expected.
pub open spec fn host_expected_at<E>(random: bool, inputs: Seq<HostInput<E>>, i: int) -> bool {
    host_after(random, inputs.take(i)).expects(inputs[i])
}

/// Whether a peripheral can take `inputs`: every input comes when it is expected.
pub open spec fn is_host_run<E>(random: bool, inputs: Seq<HostInput<E>>) -> bool {
    forall|i: int| 0 <= i < inputs.len() ==> #[trigger] host_expected_at(random, inputs, i)
}

/// The state in which position `i` of a run finds the peripheral, by the position before it.
proof fn lemma_host_at<E>(random: bool, inputs: Seq<HostInput<E>>, i: int)
    requires
        0 <= i < inputs.len(),
        is_host_run(random, inputs),
    ensures
        i == 0 ==> inputs[i] is Locked,
        i > 0 ==> host_step(random, inputs[i - 1]).0.expects(inputs[i]),
{
    assert(host_expected_at(random, inputs, i));
    if i > 0 {
        assert(inputs.take(i).last() == inputs[i - 1]);
    }
}

/// A run first takes its context and brings the indication buffer to its full size, and does either
/// only once.
pub proof fn law_buffer_is_resized_first<E>(random: bool, inputs: Seq<HostInput<E>>, i: int)
    requires
        is_host_run(random, inputs),
        0 <= i < inputs.len(),
    ensures
        host_step(random, inputs[i]).1 is Resize <==> i == 0,
{
    lemma_host_at(random, inputs, i);
    if i > 0 {
        lemma_host_at(random, inputs, i - 1);
    }
}

/// The host is built with a random address exactly when the peripheral has a source of random
/// numbers, and that address is a static random address.
pub proof fn law_host_address<E>(
    random: bool,
    inputs: Seq<HostInput<E>>,
    i: int,
    address: Option<Seq<u8>>,
)
    requires
        is_host_run(random, inputs),
        0 <= i < inputs.len(),
        host_step(random, inputs[i]).1 == (HostStep::<E>::Build { address }),
    ensures
        address is Some <==> random,
        address matches Some(bytes) ==> is_static_random(bytes),
{
    lemma_host_at(random, inputs, i);
    if let HostInput::Drawn(draw) = inputs[i] {
        lemma_drawing_is_random(random, inputs, i);
        law_drawn_address_is_static_random(draw, address->Some_0);
    }
}

proof fn lemma_drawing_is_random<E>(random: bool, inputs: Seq<HostInput<E>>, i: int)
    requires
        is_host_run(random, inputs),
        0 <= i < inputs.len(),
        inputs[i] is Drawn,
    ensures
        random,
    decreases i,
{
    lemma_host_at(random, inputs, i);
    if i > 0 && inputs[i - 1] is Drawn {
        lemma_drawing_is_random(random, inputs, i - 1);
    }
}

/// A number is drawn again only where the last one made no address, and the first one that makes an
/// address settles it.
pub proof fn law_first_usable_draw_counts<E>(
    random: bool,
    inputs: Seq<HostInput<E>>,
    i: int,
    draw: u64,
)
    requires
        is_host_run(random, inputs),
        0 <= i < inputs.len(),
        inputs[i] == HostInput::<E>::Drawn(draw),
    ensures
        host_step(random, inputs[i]).1 is Draw <==> drawn_address(draw) is None,
        drawn_address(draw) is Some ==> host_step(random, inputs[i]).1 == (HostStep::<E>::Build {
            address: drawn_address(draw),
        }) && forall|j: int| i < j < inputs.len() ==> !(#[trigger] inputs[j] is Drawn),
{
    if drawn_address(draw) is Some {
        assert forall|j: int| i < j < inputs.len() implies !(#[trigger] inputs[j] is Drawn) by {
            lemma_no_draw_after(random, inputs, i, j);
        }
    }
}

proof fn lemma_no_draw_after<E>(random: bool, inputs: Seq<HostInput<E>>, i: int, j: int)
    requires
        is_host_run(random, inputs),
        0 <= i < j < inputs.len(),
        host_step(random, inputs[i]).0 is Building,
    ensures
        !(inputs[j] is Locked || inputs[j] is Resized || inputs[j] is Drawn),
    decreases j,
{
    lemma_host_at(random, inputs, j);
    if j > i + 1 {
        lemma_no_draw_after(random, inputs, i, j - 1);
    }
}

/// The host and the service are started together, once the attribute server is there, and only
/// once. From then on a run is told of nothing but the end of either.
pub proof fn law_started_once<E>(random: bool, inputs: Seq<HostInput<E>>, i: int, j: int)
    requires
        is_host_run(random, inputs),
        0 <= i < j < inputs.len(),
        host_step(random, inputs[i]).1 is RunBoth,
    ensures
        inputs[i] == HostInput::<E>::ServerBuilt(true),
        inputs[j] is HostStopped || inputs[j] is ServiceEnded,
        !(host_step(random, inputs[j]).1 is RunBoth),
    decreases j,
{
    lemma_host_at(random, inputs, j);
    if j > i + 1 {
        law_started_once(random, inputs, i, j - 1);
    }
}

/// A run ends only in a failure, and nothing follows. The failure is the general BTP failure where
/// the attribute server could not be built or the host failed, and that of the service, unchanged,
/// where the service ended.
pub proof fn law_run_outcome<E>(
    random: bool,
    inputs: Seq<HostInput<E>>,
    i: int,
    error: ServiceError<E>,
)
    requires
        is_host_run(random, inputs),
        0 <= i < inputs.len(),
        host_step(random, inputs[i]).1 == HostStep::Finish(error),
    ensures
        i == inputs.len() - 1,
        match inputs[i] {
            HostInput::ServerBuilt(built) => !built && error is BtpError,
            HostInput::HostStopped(ran) => !ran && error is BtpError,
            HostInput::ServiceEnded(failure) => error == failure,
            _ => false,
        },
{
    if i + 1 < inputs.len() {
        lemma_host_at(random, inputs, i + 1);
    }
}

/// What is told of a host and a service that run side by side.
pub ghost enum SideInput<E> {
    /// The host stopped of its own accord, or failed.
    Host(bool),
    /// Something came of the service.
    Service(PeripheralInput<E>),
}

/// A host and a service that run side by side, and the failure that ended them, if one did.
pub ghost struct SideState<E> {
    pub service: PeripheralState,
    pub outcome: Option<ServiceError<E>>,
}

impl<E> SideState<E> {
    /// The host and the service just started.
    pub open spec fn started() -> Self {
        SideState { service: PeripheralState::Starting, outcome: None }
    }

    /// Whether `input` can come in this state. Once either ended, nothing can.
    pub open spec fn admits(self, input: SideInput<E>) -> bool {
        &&& self.outcome is None
        &&& input matches SideInput::Service(input) ==> self.service.expects(input)
    }

    /// The state that follows `input`: a host that stopped is run again, one that failed ends both,
    /// and so does a service that ended.
    pub open spec fn after(
        self,
        service_name: Seq<char>,
        service_payload: Seq<u8>,
        input: SideInput<E>,
    ) -> Self {
        match input {
            SideInput::Host(true) => self,
            SideInput::Host(false) => SideState { outcome: Some(ServiceError::BtpError), ..self },
            SideInput::Service(input) => {
                let (service, step) = peripheral_step(service_name, service_payload, input);
                SideState {
                    service,
                    outcome: match step {
                        PeripheralStep::Finish(error) => Some(error),
                        _ => None,
                    },
                }
            },
        }
    }
}

/// The state of a host and a service that took `inputs`.
pub open spec fn side_after<E>(
    service_name: Seq<char>,
    service_payload: Seq<u8>,
    inputs: Seq<SideInput<E>>,
) -> SideState<E>
    decreases inputs.len(),
{
    if inputs.len() == 0 {
        SideState::started()
    } else {
        side_after(service_name, service_payload, inputs.drop_last()).after(
            service_name,
            service_payload,
            inputs.last(),
        )
    }
}

/// Whether the input at position `i` of `inputs` can come when it does.
pub open spec fn side_admitted_at<E>(
    service_name: Seq<char>,
    service_payload: Seq<u8>,
    inputs: Seq<SideInput<E>>,
    i: int,
) -> bool {
    side_after(service_name, service_payload, inputs.take(i)).admits(inputs[i])
}

/// Whether a host and a service that run side by side can take `inputs`.
pub open spec fn is_side_run<E>(
    service_name: Seq<char>,
    service_payload: Seq<u8>,
    inputs: Seq<SideInput<E>>,
) -> bool {
    forall|i: int|
        0 <= i < inputs.len() ==> #[trigger] side_admitted_at(
            service_name,
            service_payload,
            inputs,
            i,
        )
}

/// What the service is told in a run of both.
pub open spec fn service_inputs<E>(inputs: Seq<SideInput<E>>) -> Seq<PeripheralInput<E>>
    decreases inputs.len(),
{
    if inputs.len() == 0 {
        Seq::empty()
    } else {
        match inputs.last() {
            SideInput::Host(_) => service_inputs(inputs.drop_last()),
            SideInput::Service(input) => service_inputs(inputs.drop_last()).push(input),
        }
    }
}

/// What the peripheral is told, if anything, when `input` comes of what it runs side by side.
pub open spec fn side_told<E>(
    service_name: Seq<char>,
    service_payload: Seq<u8>,
    input: SideInput<E>,
) -> Option<HostInput<E>> {
    match input {
        SideInput::Host(ran) => Some(HostInput::HostStopped(ran)),
        SideInput::Service(input) => match peripheral_step(
            service_name,
            service_payload,
            input,
        ).1 {
            PeripheralStep::Finish(error) => Some(HostInput::ServiceEnded(error)),
            _ => None,
        },
    }
}

/// What the peripheral is told in a run of what it runs side by side.
pub open spec fn host_inputs<E>(
    service_name: Seq<char>,
    service_payload: Seq<u8>,
    inputs: Seq<SideInput<E>>,
) -> Seq<HostInput<E>>
    decreases inputs.len(),
{
    if inputs.len() == 0 {
        Seq::empty()
    } else {
        let before = host_inputs(service_name, service_payload, inputs.drop_last());
        match side_told(service_name, service_payload, inputs.last()) {
            Some(input) => before.push(input),
            None => before,
        }
    }
}

proof fn lemma_side_prefix<E>(
    service_name: Seq<char>,
    service_payload: Seq<u8>,
    inputs: Seq<SideInput<E>>,
    n: int,
)
    requires
        is_side_run(service_name, service_payload, inputs),
        0 <= n <= inputs.len(),
    ensures
        is_side_run(service_name, service_payload, inputs.take(n)),
{
    assert forall|i: int| 0 <= i < n implies #[trigger] side_admitted_at(
        service_name,
        service_payload,
        inputs.take(n),
        i,
    ) by {
        assert(side_admitted_at(service_name, service_payload, inputs, i));
        assert(inputs.take(n).take(i) =~= inputs.take(i));
    }
}

/// The host that runs beside a service does not show in it: what the service is told, and what it
/// does, is a run of the service on its own.
pub proof fn law_host_does_not_disturb_the_service<E>(
    service_name: Seq<char>,
    service_payload: Seq<u8>,
    inputs: Seq<SideInput<E>>,
)
    requires
        is_side_run(service_name, service_payload, inputs),
    ensures
        is_peripheral_run(service_name, service_payload, service_inputs(inputs)),
        side_after(service_name, service_payload, inputs).service == peripheral_after(
            service_name,
            service_payload,
            service_inputs(inputs),
        ),
    decreases inputs.len(),
{
    if inputs.len() > 0 {
        let before = inputs.drop_last();
        let n = inputs.len() - 1;
        assert(before =~= inputs.take(n));
        lemma_side_prefix(service_name, service_payload, inputs, n);
        law_host_does_not_disturb_the_service(service_name, service_payload, before);
        if let SideInput::Service(input) = inputs.last() {
            assert(side_admitted_at(service_name, service_payload, inputs, n));
            let told = service_inputs(before);
            assert forall|i: int| 0 <= i < told.push(input).len() implies #[trigger]
            peripheral_expected_at(service_name, service_payload, told.push(input), i) by {
                assert(told.push(input).take(i) =~= told.take(i));
                if i < told.len() {
                    assert(peripheral_expected_at(service_name, service_payload, told, i));
                } else {
                    assert(told.take(i) =~= told);
                }
            }
        }
    }
}

/// Whichever of the host and the service fails first ends both, with its failure, and neither ever
/// ends well: a failed host gives the general BTP failure, the service its own, unchanged. The
/// peripheral returns that failure, and up to then it goes on.
pub proof fn law_first_failure_decides<E>(
    random: bool,
    service_name: Seq<char>,
    service_payload: Seq<u8>,
    inputs: Seq<SideInput<E>>,
    i: int,
)
    requires
        is_side_run(service_name, service_payload, inputs),
        0 <= i < inputs.len(),
    ensures
        ({
            let told = side_told(service_name, service_payload, inputs[i]);
            match side_after(service_name, service_payload, inputs.take(i + 1)).outcome {
                Some(error) => {
                    &&& i == inputs.len() - 1
                    &&& told is Some
                    &&& host_step(random, told->Some_0).1 == HostStep::Finish(error)
                    &&& match inputs[i] {
                        SideInput::Host(ran) => !ran && error is BtpError,
                        SideInput::Service(input) => peripheral_step(
                            service_name,
                            service_payload,
                            input,
                        ).1 == PeripheralStep::Finish(error),
                    }
                },
                None => {
                    &&& inputs[i] != SideInput::<E>::Host(false)
                    &&& told matches Some(input) ==> host_step(random, input).1 is RunHost
                },
            }
        }),
{
    let before = inputs.take(i);
    let upto = inputs.take(i + 1);
    assert(upto.drop_last() =~= before);
    assert(upto.last() == inputs[i]);
    assert(side_admitted_at(service_name, service_payload, inputs, i));
    if i + 1 < inputs.len() {
        assert(side_admitted_at(service_name, service_payload, inputs, i + 1));
    }
}

/// Whatever comes of a host and a service that run side by side is what a peripheral that started
/// both waits for, up to the first failure, which ends the run of the peripheral.
pub proof fn law_peripheral_follows_both<E>(
    random: bool,
    service_name: Seq<char>,
    service_payload: Seq<u8>,
    start: Seq<HostInput<E>>,
    inputs: Seq<SideInput<E>>,
)
    requires
        is_host_run(random, start),
        host_after(random, start) is Running,
        is_side_run(service_name, service_payload, inputs),
    ensures
        ({
            let run = start + host_inputs(service_name, service_payload, inputs);
            &&& is_host_run(random, run)
            &&& match side_after(service_name, service_payload, inputs).outcome {
                Some(error) => host_step(random, run.last()) == (
                    HostState::Finished,
                    HostStep::Finish(error),
                ),
                None => host_after(random, run) is Running,
            }
        }),
    decreases inputs.len(),
{
    if inputs.len() == 0 {
        assert(start + Seq::<HostInput<E>>::empty() =~= start);
    } else {
        let before = inputs.drop_last();
        let n = inputs.len() - 1;
        assert(before =~= inputs.take(n));
        lemma_side_prefix(service_name, service_payload, inputs, n);
        law_peripheral_follows_both(random, service_name, service_payload, start, before);
        assert(side_admitted_at(service_name, service_payload, inputs, n));
        if let Some(told) = side_told(service_name, service_payload, inputs.last()) {
            let earlier = start + host_inputs(service_name, service_payload, before);
            let run = start + host_inputs(service_name, service_payload, inputs);
            assert(run =~= earlier.push(told));
            assert forall|i: int| 0 <= i < run.len() implies #[trigger] host_expected_at(
                random,
                run,
                i,
            ) by {
                assert(run.take(i) =~= earlier.take(i));
                if i < earlier.len() {
                    assert(host_expected_at(random, earlier, i));
                } else {
                    assert(earlier.take(i) =~= earlier);
                }
            }
        }
    }
}

/// The failure that ends a host and a service that run side by side is the general BTP failure,
/// unless it is the failure that the last connection of the service ended with.
pub proof fn law_side_failure<E>(
    service_name: Seq<char>,
    service_payload: Seq<u8>,
    inputs: Seq<SideInput<E>>,
    error: ServiceError<E>,
)
    requires
        is_side_run(service_name, service_payload, inputs),
        side_after(service_name, service_payload, inputs).outcome == Some(error),
    ensures
        error is BtpError || inputs.last() == SideInput::Service(
            PeripheralInput::Closed(Err(error)),
        ),
{
    let n = inputs.len() - 1;
    assert(side_admitted_at(service_name, service_payload, inputs, n));
    assert(inputs.take(n) =~= inputs.drop_last());
    if let SideInput::Service(input) = inputs.last() {
        let told = service_inputs(inputs);
        law_host_does_not_disturb_the_service(service_name, service_payload, inputs);
        assert(told.last() == input);
        law_service_fails(service_name, service_payload, told, told.len() - 1, error);
    }
}

/// The state of a peripheral on a host of the caller that took `inputs`.
pub open spec fn external_after<E>(inputs: Seq<ExternalInput<E>>) -> ExternalState {
    if inputs.len() == 0 {
        ExternalState::Locking
    } else {
        external_step(inputs.last()).0
    }
}

/// Whether the input at position `i` of `inputs` comes when it is expected.
pub open spec fn external_expected_at<E>(inputs: Seq<ExternalInput<E>>, i: int) -> bool {
    external_after(inputs.take(i)).expects(inputs[i])
}

/// Whether a peripheral on a host of the caller can take `inputs`: every input comes when it is
/// expected.
pub open spec fn is_external_run<E>(inputs: Seq<ExternalInput<E>>) -> bool {
    forall|i: int| 0 <= i < inputs.len() ==> #[trigger] external_expected_at(inputs, i)
}

/// The state in which position `i` of a run finds the peripheral, by the position before it.
proof fn lemma_external_at<E>(inputs: Seq<ExternalInput<E>>, i: int)
    requires
        0 <= i < inputs.len(),
        is_external_run(inputs),
    ensures
        i == 0 ==> inputs[i] is Locked,
        i > 0 ==> external_step(inputs[i - 1]).0.expects(inputs[i]),
{
    assert(external_expected_at(inputs, i));
    if i > 0 {
        assert(inputs.take(i).last() == inputs[i - 1]);
    }
}

/// A run on a host of the caller, too, first takes its context and brings the indication buffer to
/// its full size, and does either only once.
pub proof fn law_external_buffer_is_resized_first<E>(inputs: Seq<ExternalInput<E>>, i: int)
    requires
        is_external_run(inputs),
        0 <= i < inputs.len(),
    ensures
        external_step(inputs[i]).1 is Resize <==> i == 0,
{
    lemma_external_at(inputs, i);
    if i > 0 {
        lemma_external_at(inputs, i - 1);
    }
}

/// A run on a host of the caller ends only in a failure, and nothing follows. The failure is the
/// general BTP failure where the attribute server could not be built, and that of the service,
/// unchanged, where the service ended.
pub proof fn law_external_run_outcome<E>(
    inputs: Seq<ExternalInput<E>>,
    i: int,
    error: ServiceError<E>,
)
    requires
        is_external_run(inputs),
        0 <= i < inputs.len(),
        external_step(inputs[i]).1 == ExternalAction::Service(ServiceAction::Finish(error)),
    ensures
        i == inputs.len() - 1,
        match inputs[i] {
            ExternalInput::Service(ServiceInput::ServerBuilt(built)) => !built
                && error is BtpError,
            ExternalInput::Service(ServiceInput::Ended(failure)) => error == failure,
            _ => false,
        },
{
    lemma_external_at(inputs, i);
    if i > 0 {
        lemma_external_at(inputs, i - 1);
    }
    if i + 1 < inputs.len() {
        lemma_external_at(inputs, i + 1);
    }
}

/// Once there is a host, a peripheral that owns it and one on a host of the caller offer the
/// service in the same way: both build the attribute server, start the service where that worked,
/// and return the failure of the service, or the general BTP failure where there is no server.
pub proof fn law_same_service_on_either_host<E>(random: bool, error: ServiceError<E>)
    ensures
        host_step(random, HostInput::<E>::Built).1 is BuildServer,
        external_step(ExternalInput::<E>::Resized).1 == ExternalAction::<E>::Service(
            ServiceAction::BuildServer,
        ),
        host_step(random, HostInput::<E>::ServerBuilt(true)).1 is RunBoth,
        external_step(ExternalInput::<E>::Service(ServiceInput::ServerBuilt(true))).1
            == ExternalAction::<E>::Service(ServiceAction::Serve),
        host_step(random, HostInput::<E>::ServerBuilt(false)).1 == HostStep::<E>::Finish(
            ServiceError::BtpError,
        ),
        external_step(ExternalInput::<E>::Service(ServiceInput::ServerBuilt(false))).1
            == ExternalAction::<E>::Service(ServiceAction::Finish(ServiceError::BtpError)),
        host_step(random, HostInput::ServiceEnded(error)).1 == HostStep::Finish(error),
        external_step(ExternalInput::Service(ServiceInput::Ended(error))).1
            == ExternalAction::Service(ServiceAction::Finish(error)),
{
}

/// A peripheral comes to its service step by step, whatever it was told before: the buffer is
/// resized once the context is held, the host is built, with an address of its own if there is a
/// source of random numbers, the attribute server is built once there is a host, and host and
/// service are started once there is a server.
pub proof fn law_leads_to_the_service<E>(random: bool, inputs: Seq<HostInput<E>>, i: int)
    requires
        is_host_run(random, inputs),
        0 <= i < inputs.len(),
    ensures
        ({
            let step = host_step(random, inputs[i]).1;
            &&& step is Resize <==> inputs[i] is Locked
            &&& inputs[i] is Resized && random ==> step is Draw
            &&& inputs[i] is Resized && !random ==> step == (HostStep::<E>::Build { address: None })
            &&& step is BuildServer <==> inputs[i] is Built
            &&& step is RunBoth <==> inputs[i] == HostInput::<E>::ServerBuilt(true)
            &&& step is RunHost <==> inputs[i] == HostInput::<E>::HostStopped(true)
        }),
{
}

/// A number that was drawn makes the address that the host is built with: its lower 46 bits, under
/// two bits that are ones. Only if those 46 bits are all zeros or all ones is another one drawn.
pub proof fn law_draw_makes_the_address<E>(
    random: bool,
    inputs: Seq<HostInput<E>>,
    i: int,
    draw: u64,
)
    requires
        is_host_run(random, inputs),
        0 <= i < inputs.len(),
        inputs[i] == HostInput::<E>::Drawn(draw),
    ensures
        ({
            let low = draw as nat % 0x4000_0000_0000;
            let step = host_step(random, inputs[i]).1;
            if low == 0 || low == 0x3fff_ffff_ffff {
                step is Draw
            } else {
                step matches HostStep::Build { address: Some(bytes) } && bytes.len() == 6
                    && le_value(bytes) == 0xc000_0000_0000 + low
            }
        }),
{
    law_address_is_of_the_draw(draw);
}

/// A failure ends the run: that of the service, unchanged, and that of the host, or of building the
/// attribute server, as the general BTP failure.
pub proof fn law_failure_ends_the_run<E>(random: bool, inputs: Seq<HostInput<E>>, i: int)
    requires
        is_host_run(random, inputs),
        0 <= i < inputs.len(),
    ensures
        ({
            let step = host_step(random, inputs[i]).1;
            &&& inputs[i] matches HostInput::ServiceEnded(error) ==> step == HostStep::Finish(error)
            &&& inputs[i] == HostInput::<E>::HostStopped(false) || inputs[i] == HostInput::<
                E,
            >::ServerBuilt(false) ==> step == HostStep::<E>::Finish(ServiceError::BtpError)
        }),
{
}

/// A peripheral takes what comes of the action that it asked for, and nothing else, and nothing
/// after its end. While host and service run, that is the end of either.
pub proof fn law_action_is_followed_up<E>(
    random: bool,
    inputs: Seq<HostInput<E>>,
    i: int,
    input: HostInput<E>,
)
    requires
        is_host_run(random, inputs),
        0 <= i < inputs.len(),
    ensures
        ({
            let step = host_step(random, inputs[i]).1;
            let next = host_after(random, inputs.take(i + 1));
            next.expects(input) <==> match input {
                HostInput::Locked => false,
                HostInput::Resized => step is Resize,
                HostInput::Drawn(_) => step is Draw,
                HostInput::Built => step is Build,
                HostInput::ServerBuilt(_) => step is BuildServer,
                HostInput::HostStopped(_) | HostInput::ServiceEnded(_) => step is RunBoth
                    || step is RunHost,
            }
        }),
{
    assert(inputs.take(i + 1).last() == inputs[i]);
}

/// An action shows as what it is, with the bytes of its address.
pub proof fn law_action_shows<E>(action: HostAction<E>)
    ensures
        match action {
            HostAction::Resize => action@ is Resize,
            HostAction::Draw => action@ is Draw,
            HostAction::Build { address } => action@ matches HostStep::Build { address: shown } && (
            address is Some <==> shown is Some) && (address matches Some(bytes) ==> shown == Some(
                bytes@,
            )),
            HostAction::BuildServer => action@ is BuildServer,
            HostAction::RunBoth => action@ is RunBoth,
            HostAction::RunHost => action@ is RunHost,
            HostAction::Finish(error) => action@ == HostStep::Finish(error),
        },
{
}

/// The state of a service on a BLE host that took `inputs`.
pub open spec fn service_after<E>(inputs: Seq<ServiceInput<E>>) -> ServiceState {
    if inputs.len() == 0 {
        ServiceState::Starting
    } else {
        service_step(inputs.last()).0
    }
}

/// Whether the input at position `i` of `inputs` comes when it is expected.
pub open spec fn service_expected_at<E>(inputs: Seq<ServiceInput<E>>, i: int) -> bool {
    service_after(inputs.take(i)).expects(inputs[i])
}

/// Whether a service on a BLE host can take `inputs`: every input comes when it is expected.
pub open spec fn is_service_run<E>(inputs: Seq<ServiceInput<E>>) -> bool {
    forall|i: int| 0 <= i < inputs.len() ==> #[trigger] service_expected_at(inputs, i)
}

/// A service on a BLE host builds the attribute server when there is a host and serves once there is
/// a server, and at no other time. It ends with the failure of what it served, unchanged, or with
/// the general BTP failure where there is no server.
pub proof fn law_service_on_a_host<E>(inputs: Seq<ServiceInput<E>>, i: int)
    requires
        is_service_run(inputs),
        0 <= i < inputs.len(),
    ensures
        ({
            let action = service_step(inputs[i]).1;
            &&& action is BuildServer <==> inputs[i] is Start
            &&& action is Serve <==> inputs[i] == ServiceInput::<E>::ServerBuilt(true)
            &&& inputs[i] == ServiceInput::<E>::ServerBuilt(false) ==> action == ServiceAction::<
                E,
            >::Finish(ServiceError::BtpError)
            &&& inputs[i] matches ServiceInput::Ended(error) ==> action == ServiceAction::Finish(
                error,
            )
        }),
{
}

/// A service on a BLE host takes what comes of the action that it asked for, and nothing else, and
/// nothing after its end.
pub proof fn law_service_action_is_followed_up<E>(
    inputs: Seq<ServiceInput<E>>,
    i: int,
    input: ServiceInput<E>,
)
    requires
        is_service_run(inputs),
        0 <= i < inputs.len(),
    ensures
        service_after(inputs.take(i + 1)).expects(input) <==> match input {
            ServiceInput::Start => false,
            ServiceInput::ServerBuilt(_) => service_step(inputs[i]).1 is BuildServer,
            ServiceInput::Ended(_) => service_step(inputs[i]).1 is Serve,
        },
{
    assert(inputs.take(i + 1).last() == inputs[i]);
}

/// A peripheral on a host of the caller resizes the buffer once the context is held, builds the
/// attribute server once the buffer is resized, and serves once there is a server, and at no other
/// time. It ends with the failure of what it served, unchanged, or with the general BTP failure
/// where there is no server.
pub proof fn law_service_on_a_host_of_the_caller<E>(inputs: Seq<ExternalInput<E>>, i: int)
    requires
        is_external_run(inputs),
        0 <= i < inputs.len(),
    ensures
        ({
            let action = external_step(inputs[i]).1;
            match inputs[i] {
                ExternalInput::Locked => action is Resize,
                ExternalInput::Resized => action == ExternalAction::<E>::Service(
                    ServiceAction::BuildServer,
                ),
                ExternalInput::Service(ServiceInput::Start) => false,
                ExternalInput::Service(ServiceInput::ServerBuilt(true)) => action
                    == ExternalAction::<E>::Service(ServiceAction::Serve),
                ExternalInput::Service(ServiceInput::ServerBuilt(false)) => action
                    == ExternalAction::<E>::Service(ServiceAction::Finish(ServiceError::BtpError)),
                ExternalInput::Service(ServiceInput::Ended(error)) => action
                    == ExternalAction::Service(ServiceAction::Finish(error)),
            }
        }),
{
    lemma_external_at(inputs, i);
    if i > 0 {
        lemma_external_at(inputs, i - 1);
    }
}

/// A peripheral on a host of the caller takes what comes of the action that it asked for, and
/// nothing else, and nothing after its end.
pub proof fn law_external_action_is_followed_up<E>(
    inputs: Seq<ExternalInput<E>>,
    i: int,
    input: ExternalInput<E>,
)
    requires
        is_external_run(inputs),
        0 <= i < inputs.len(),
    ensures
        ({
            let action = external_step(inputs[i]).1;
            external_after(inputs.take(i + 1)).expects(input) <==> match input {
                ExternalInput::Locked => false,
                ExternalInput::Resized => action is Resize,
                ExternalInput::Service(ServiceInput::Start) => false,
                ExternalInput::Service(ServiceInput::ServerBuilt(_)) => action
                    == ExternalAction::<E>::Service(ServiceAction::BuildServer),
                ExternalInput::Service(ServiceInput::Ended(_)) => action == ExternalAction::<
                    E,
                >::Service(ServiceAction::Serve),
            }
        }),
{
    assert(inputs.take(i + 1).last() == inputs[i]);
    lemma_external_at(inputs, i);
}

/// A run of either peripheral waits for its context, a service on a BLE host for the host, and none
/// of them for anything else.
pub proof fn law_starts_with_the_context<E>(
    random: bool,
    owned: HostInput<E>,
    external: ExternalInput<E>,
    service: ServiceInput<E>,
)
    ensures
        host_after(random, Seq::<HostInput<E>>::empty()).expects(owned) <==> owned is Locked,
        external_after(Seq::<ExternalInput<E>>::empty()).expects(external)
            <==> external is Locked,
        service_after(Seq::<ServiceInput<E>>::empty()).expects(service) <==> service is Start,
{
}

} // verus!
