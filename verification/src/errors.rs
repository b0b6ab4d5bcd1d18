//! The error taxonomy of the storage layer.
//!
//! Every failure falls in one of four categories, so callers can tell
//! protocol misuse apart from storage faults:
//! - a *precondition* error: the operation was invoked on a record whose
//!   storage unit was never created (`storage_path` unset);
//! - a *not-found* error: the record claims a unit that is absent from the
//!   backing store (tampering or double deletion, never masked as success);
//! - a *creation-conflict* error: an atomic create was rejected because a
//!   unit already exists for the id;
//! - a *backend-fault* error: an underlying storage failure, surfaced
//!   generically and never retried inside the storage layer.

use vstd::prelude::*;

verus! {

/// An error returned by a storage operation.
#[derive(Clone, Copy, Debug, PartialEq, Eq, Structural)]
pub enum StorageError {
    /// The record has no `storage_path`: the unit was never created.
    MissingStoragePath,
    /// The record has a `storage_path`, but no unit exists under it.
    UnitNotFound,
    /// A unit already exists for this id; the create was rejected.
    UnitAlreadyExists,
    /// The backend itself failed (an I/O fault, not a caller error).
    BackendFault,
}

impl StorageError {
    /// Whether this error reports caller misuse (an operation on a record
    /// whose unit was never created) rather than a storage-side condition.
    pub fn is_precondition(&self) -> (r: bool)
        ensures
            r == (*self == StorageError::MissingStoragePath),
    {
        match self {
            StorageError::MissingStoragePath => true,
            _ => false,
        }
    }

    /// A short stable name for the error category.
    pub fn name(&self) -> (r: &'static str)
        ensures
            *self == StorageError::MissingStoragePath ==> r@ == "missing storage path"@,
            *self == StorageError::UnitNotFound ==> r@ == "unit not found"@,
            *self == StorageError::UnitAlreadyExists ==> r@ == "unit already exists"@,
            *self == StorageError::BackendFault ==> r@ == "backend fault"@,
    {
        match self {
            StorageError::MissingStoragePath => "missing storage path",
            StorageError::UnitNotFound => "unit not found",
            StorageError::UnitAlreadyExists => "unit already exists",
            StorageError::BackendFault => "backend fault",
        }
    }
}

} // verus!
