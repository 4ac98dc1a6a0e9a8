//! What ends the service.

use vstd::prelude::*;

verus! {

/// Why a part of the service stopped. `E` is the error type of the BTP engine.
#[derive(Debug, PartialEq, Eq)]
pub enum ServiceError<E> {
    /// The general BTP failure, which stands for every failure of the BLE host.
    BtpError,
    /// A failure that the BTP engine reported while preparing a frame, handed on as it is.
    Engine(E),
}

/// The failure that a failed step of the BLE host is reported as, whatever went wrong in it.
pub fn to_matter_err<D, E>(err: D) -> (error: ServiceError<E>)
    ensures
        error == ServiceError::<E>::BtpError,
{
    ServiceError::BtpError
}

/// What a peripheral reports to the Matter stack of a run that came to an end: a failure of any
/// kind is the general BTP failure.
pub fn report<E>(outcome: Result<(), ServiceError<E>>) -> (reported: Result<(), ServiceError<E>>)
    ensures
        reported is Ok <==> outcome is Ok,
        reported is Err ==> reported == Err::<(), ServiceError<E>>(ServiceError::BtpError),
{
    match outcome {
        Ok(()) => Ok(()),
        Err(_) => Err(ServiceError::BtpError),
    }
}

} // verus!
