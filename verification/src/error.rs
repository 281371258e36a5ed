//! The error a session ends with when its arguments are unusable.

use vstd::prelude::*;

verus! {

/// Why a session could not start.
#[derive(Debug, Clone, Copy, PartialEq, Eq, Structural)]
pub enum DummyError {
    /// A path among the arguments is missing or does not exist.
    InvalidArgument,
}

/// The failure reported for unusable arguments.
pub fn create_error() -> (outcome: Result<(), DummyError>)
    ensures
        outcome == Err::<(), DummyError>(DummyError::InvalidArgument),
{
    Err(DummyError::InvalidArgument)
}

} // verus!
