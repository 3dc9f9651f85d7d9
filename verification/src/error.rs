//! The kinds of failure that the services report, and how the scheduler's
//! failures are worded for a caller.

use vstd::prelude::*;
use vstd::string::*;

verus! {

/// The kinds of domain error.
#[derive(Clone, Copy, Debug, PartialEq, Eq, Structural)]
pub enum ErrorKind {
    NotFound,
    PermissionDenied,
    InvalidTaskState,
    InvalidArgument,
    Stale,
    StorageUnavailable,
    SchedulerUnavailable,
    WorkerLost,
    LeaseExpired,
    AttestationFailed,
    Internal,
}

/// How a failure is shown to the caller of an RPC.
#[derive(Clone, Copy, Debug, PartialEq, Eq, Structural)]
pub enum Surface {
    /// The caller sees the kind of the failure.
    Direct,
    /// The caller sees a failed precondition.
    FailedPrecondition,
    /// The failure is retried inside the service.
    RetriedInternally,
}

impl ErrorKind {
    /// How failures of this kind are shown to a caller.
    pub open spec fn spec_surface(self) -> Surface {
        match self {
            ErrorKind::InvalidTaskState => Surface::FailedPrecondition,
            ErrorKind::Stale => Surface::RetriedInternally,
            _ => Surface::Direct,
        }
    }

    /// How failures of this kind are shown to a caller: a stale write is
    /// retried inside the service, an illegal transition is a failed
    /// precondition, every other kind is shown as it is.
    #[verifier::when_used_as_spec(spec_surface)]
    pub fn surface(self) -> (surface: Surface)
        ensures
            surface == self.spec_surface(),
    {
        match self {
            ErrorKind::InvalidTaskState => Surface::FailedPrecondition,
            ErrorKind::Stale => Surface::RetriedInternally,
            _ => Surface::Direct,
        }
    }
}

/// A failure of the scheduler service.
#[derive(Debug)]
pub enum SchedulerServiceError {
    /// A failure inside the service, with its description.
    Service(String),
    /// The task that would have been pulled has been canceled.
    TaskCanceled,
    /// No task is ready.
    TaskQueueEmpty,
    /// The storage service failed.
    StorageError,
}

/// The failure that an RPC answers with.
#[derive(Debug)]
pub enum ServiceResponseError {
    /// The request failed; the text says why.
    RequestError(String),
}

/// The wording of a scheduler failure.
pub open spec fn scheduler_error_text(error: SchedulerServiceError) -> Seq<char> {
    match error {
        SchedulerServiceError::Service(_) => "service internal error"@,
        SchedulerServiceError::TaskCanceled => "task to pull has been canceled"@,
        SchedulerServiceError::TaskQueueEmpty => "task queue is empty"@,
        SchedulerServiceError::StorageError => "storage service error"@,
    }
}

impl SchedulerServiceError {
    /// The wording of this failure. The description inside `Service` is not
    /// part of it.
    pub fn to_string(&self) -> (text: String)
        ensures
            text@ == scheduler_error_text(*self),
    {
        match self {
            SchedulerServiceError::Service(_) => String::from_str("service internal error"),
            SchedulerServiceError::TaskCanceled => String::from_str(
                "task to pull has been canceled",
            ),
            SchedulerServiceError::TaskQueueEmpty => String::from_str("task queue is empty"),
            SchedulerServiceError::StorageError => String::from_str("storage service error"),
        }
    }

    /// The answer of an RPC that failed with this failure: a request error
    /// that carries the wording.
    pub fn into_response(self) -> (response: ServiceResponseError)
        ensures
            response matches ServiceResponseError::RequestError(text) && text@
                == scheduler_error_text(self),
    {
        ServiceResponseError::RequestError(self.to_string())
    }
}

} // verus!
