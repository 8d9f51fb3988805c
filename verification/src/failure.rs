//! The ways in which an operation of this crate can fail.

use vstd::prelude::*;

verus! {

/// Why an operation gave no result.
#[derive(Clone, Copy, Debug, PartialEq, Eq, Structural)]
pub enum Failure {
    /// A vector was asked for with neither data nor a size, or with data
    /// whose length is not the size given.
    ConstructionError,
    /// Two operands disagree in length, or an operand disagrees with the
    /// dimensions of the model.
    ShapeMismatch,
    /// An index lies beyond the end of a vector.
    IndexOutOfRange,
    /// A checkpoint whose rows and bias do not form a model.
    MalformedCheckpoint,
    /// Data that could not be read or decompressed.
    IOFailure,
}

} // verus!
