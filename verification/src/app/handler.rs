//! The adapter-facing wrapper for request bodies that have passed
//! deserialization and validation before they reach a handler.

use vstd::prelude::*;

verus! {

/// A request payload that has already been validated; handlers receive it
/// in this wrapper and hand the inner value to the repository.
#[derive(Debug)]
pub struct ValidatedJson<T>(pub T);

impl<T> ValidatedJson<T> {
    /// Unwraps the validated payload.
    pub fn into_inner(self) -> (r: T)
        ensures
            r == self.0,
    {
        self.0
    }
}

} // verus!
