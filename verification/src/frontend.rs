//! The frontend gateway: it checks who calls, asks whether the call is
//! allowed, and passes the request on with what it has found.

use crate::address::Ipv4Addr;
use crate::management::RequestContext;
use vstd::prelude::*;

verus! {

/// The context of a request of `user` from `ip` at `microsecond`. The
/// request is authorized where the user's credential is valid and the
/// access-control service accepts the request.
pub fn gate(
    user: String,
    ip: Ipv4Addr,
    microsecond: i64,
    credential_valid: bool,
    accepted: bool,
) -> (context: RequestContext)
    ensures
        context.user == user,
        context.ip == ip,
        context.microsecond == microsecond,
        context.authorized == (credential_valid && accepted),
{
    RequestContext { user, ip, microsecond, authorized: credential_valid && accepted }
}

/// Why a command that was given to the service failed.
#[derive(Clone, Copy, Debug, PartialEq, Eq, Structural)]
pub enum TeeServiceError {
    /// The service could not do what it was told.
    ServiceError,
}

/// The answer to the command to start the service.
#[derive(Clone, Copy, Debug, PartialEq, Eq, Structural)]
pub struct StartServiceOutput;

/// The answer to the command to start the service, where `started` is what
/// starting it came to: a service that has run to its end answers with the
/// output, and any failure to start, whatever its cause, is answered as a
/// `ServiceError`.
pub fn handle_start_service(started: &Result<(), String>) -> (answer: Result<
    StartServiceOutput,
    TeeServiceError,
>)
    ensures
        started is Ok ==> answer == Ok::<StartServiceOutput, TeeServiceError>(StartServiceOutput),
        started is Err ==> answer == Err::<StartServiceOutput, TeeServiceError>(
            TeeServiceError::ServiceError,
        ),
{
    match started {
        Ok(_) => Ok(StartServiceOutput),
        Err(_) => Err(TeeServiceError::ServiceError),
    }
}

} // verus!
