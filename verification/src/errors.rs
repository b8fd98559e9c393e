//! The error taxonomy of the repository layer: the only domain failure is
//! the absence of a todo under a requested id.

use vstd::prelude::*;

verus! {

/// The domain error of the storage layer: no todo exists for the given id.
#[derive(Debug, Clone, PartialEq, Eq)]
pub enum RepositoryError {
    NotFound(i32),
}

/// The error type that repository operations return to their callers.
#[derive(Debug, Clone, PartialEq, Eq)]
pub enum ErrorKind {
    RepositoryError(RepositoryError),
}

/// The error value reported when no todo is stored under `id`.
pub open spec fn not_found(id: i32) -> ErrorKind {
    ErrorKind::RepositoryError(RepositoryError::NotFound(id))
}

} // verus!
