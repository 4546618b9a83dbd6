//! The error taxonomy of the service and its mapping to HTTP statuses.

use vstd::prelude::*;

verus! {

/// A failure surfaced to the client: a malformed path parameter or body,
/// a missing row, or any storage-side fault.
#[derive(Clone, Copy, Debug, PartialEq, Eq, Structural)]
pub enum UserError {
    ValidationError,
    NotFoundError,
    InternalError,
}

impl UserError {
    /// The HTTP status this error is surfaced as.
    pub fn status_code(&self) -> (code: u16)
        ensures
            code == match *self {
                UserError::ValidationError => 400u16,
                UserError::NotFoundError => 404u16,
                UserError::InternalError => 500u16,
            },
    {
        match self {
            UserError::ValidationError => 400,
            UserError::NotFoundError => 404,
            UserError::InternalError => 500,
        }
    }
}

/// How a storage call can fail, as the driver reports it: the row was not
/// found, or some other storage-side fault — a pool failure, a lost
/// connection, a failed offload.
#[derive(Clone, Copy, Debug, PartialEq, Eq, Structural)]
pub enum StorageError {
    NotFound,
    Other,
}

/// Map a storage failure to the error surfaced to the client: a missing row
/// is not-found; every other storage fault is internal. No storage failure
/// ever surfaces as a validation error.
pub fn map_storage_error(e: StorageError) -> (r: UserError)
    ensures
        r == match e {
            StorageError::NotFound => UserError::NotFoundError,
            StorageError::Other => UserError::InternalError,
        },
{
    match e {
        StorageError::NotFound => UserError::NotFoundError,
        StorageError::Other => UserError::InternalError,
    }
}

} // verus!
