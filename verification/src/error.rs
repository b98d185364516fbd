//! Errors reported by the job manager.

use vstd::prelude::*;

verus! {

/// Why the job manager refused an operation.
#[derive(Clone, Copy, Debug, PartialEq, Eq, Structural)]
pub enum JobManagerError {
    /// The operation names a job that is neither queued nor running.
    NotFound,
    /// The job exists, but the operation is not valid in its current status.
    InvalidState,
    /// A job with the same id is already queued or running.
    DuplicateId,
}

/// The result of a job manager operation.
pub type JobManagerResult<T> = Result<T, JobManagerError>;

impl JobManagerError {
    /// A short description of the error, for logs.
    pub fn message(&self) -> (text: &'static str)
        ensures
            text@ == (match *self {
                JobManagerError::NotFound => "job not found"@,
                JobManagerError::InvalidState => "job is in an invalid state for this operation"@,
                JobManagerError::DuplicateId => "a job with this id already exists"@,
            }),
    {
        match self {
            JobManagerError::NotFound => "job not found",
            JobManagerError::InvalidState => "job is in an invalid state for this operation",
            JobManagerError::DuplicateId => "a job with this id already exists",
        }
    }
}

} // verus!
