//! Error kinds shared by every set encoding, and the dimension guard.
use vstd::prelude::*;

use crate::hull::ConvexHullError;

verus! {

/// The error kinds of the set operations.
#[derive(Debug)]
pub enum SetOperationError {
    /// An operand's dimension disagrees with the receiver's.
    DimensionMismatch { expected: usize, got: usize },
    /// A case that lies outside what the operation covers.
    NotImplemented,
    /// Oracle output that could not be reshaped into a matrix or vector.
    DataConversionError { source: String },
    /// An operation that the receiver does not support.
    UnsupportedOperation { message: String },
    /// A linear program that failed where success was required.
    InfeasibleOptimization { source: String },
    /// A failure of the convex-hull oracle.
    QhullError(ConvexHullError),
    /// An operation that needs a non-empty set met an empty one.
    EmptySet,
}

impl From<ConvexHullError> for SetOperationError {
    fn from(e: ConvexHullError) -> (r: SetOperationError)
        ensures
            r == SetOperationError::QhullError(e),
    {
        SetOperationError::QhullError(e)
    }
}

impl vstd::std_specs::convert::FromSpecImpl<ConvexHullError> for SetOperationError {
    open spec fn obeys_from_spec() -> bool {
        true
    }

    open spec fn from_spec(e: ConvexHullError) -> SetOperationError {
        SetOperationError::QhullError(e)
    }
}

/// What the dimension guard answers for an operand of dimension `got`
/// offered to a set of dimension `expected`.
pub open spec fn operand_dim_result(expected: usize, got: usize) -> Result<(), SetOperationError> {
    if expected == got {
        Ok(())
    } else {
        Err(SetOperationError::DimensionMismatch { expected, got })
    }
}

/// The dimension guard run before every binary or linear operation: an
/// operand of dimension `got` is accepted by a set of dimension `expected`
/// exactly when the two agree.
pub fn check_operand_dim(expected: usize, got: usize) -> (r: Result<(), SetOperationError>)
    ensures
        r == operand_dim_result(expected, got),
        r is Ok <==> expected == got,
{
    if got != expected {
        return Err(SetOperationError::DimensionMismatch { expected, got });
    }
    Ok(())
}

} // verus!
