//! The ways in which an operation on the container can fail.

use vstd::prelude::*;

verus! {

/// Why an operation did not complete. A failed operation leaves the container
/// as it was.
#[derive(Clone, Copy, Debug, PartialEq, Eq, Structural)]
pub enum FVecError {
    /// The backing file could not be opened, extended or written back.
    Io,
    /// The mapping could not be established, or does not cover the extent that
    /// the container needs.
    Mapping,
    /// An element was addressed at or beyond the container's length.
    IndexOutOfBounds,
}

/// What the result of writing back to the file means to the container:
/// success stays success, and every failure is `Io`.
pub fn io_outcome(result: Result<(), std::io::Error>) -> (outcome: Result<(), FVecError>)
    ensures
        result is Ok ==> outcome == Ok::<(), FVecError>(()),
        result is Err ==> outcome == Err::<(), FVecError>(FVecError::Io),
{
    match result {
        Ok(()) => Ok(()),
        Err(_) => Err(FVecError::Io),
    }
}

} // verus!
