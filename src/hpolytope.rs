//! Half-space polytopes `{x : Ax ≤ b}`: shape and the affine-map rule.
use vstd::prelude::*;

use crate::errors::SetOperationError;

verus! {

/// Shape errors of a constraint system.
#[derive(Debug, Clone, Copy, PartialEq, Eq)]
pub enum HPolytopeError {
    /// `A` has `a_dim.0` rows but `b` has `b_dim` entries.
    DimensionMismatch { a_dim: (usize, usize), b_dim: usize },
}

/// Checks a constraint matrix of shape `a_dim` against a bound vector of
/// `b_dim` entries: one bound per constraint row.
pub fn check_constraint_shape(a_dim: (usize, usize), b_dim: usize) -> (r: Result<(), HPolytopeError>)
    ensures
        a_dim.0 == b_dim ==> r == Ok::<(), HPolytopeError>(()),
        a_dim.0 != b_dim ==> r == Err::<(), HPolytopeError>(
            HPolytopeError::DimensionMismatch { a_dim, b_dim },
        ),
{
    if a_dim.0 != b_dim {
        Err(HPolytopeError::DimensionMismatch { a_dim, b_dim })
    } else {
        Ok(())
    }
}

/// What the affine-map rule answers for a polytope in `dim` dimensions and
/// a matrix of shape `mat_dim` and rank `mat_rank`.
pub open spec fn matmul_result(dim: usize, mat_dim: (usize, usize), mat_rank: usize) -> Result<
    (),
    SetOperationError,
> {
    if mat_dim.0 != dim {
        Err(SetOperationError::DimensionMismatch { expected: dim, got: mat_dim.0 })
    } else if mat_dim.0 != mat_dim.1 || mat_rank < mat_dim.1 {
        Err(SetOperationError::NotImplemented)
    } else {
        Ok(())
    }
}

/// Decides whether a half-space polytope in `dim` dimensions can take the
/// linear map `M` of shape `mat_dim` and rank `mat_rank` (then `A ← A·M`):
/// the rows of `M` must match the dimension, else `DimensionMismatch`; a
/// map that is not square or not of full rank is out of scope,
/// `NotImplemented`.
pub fn check_matmul(dim: usize, mat_dim: (usize, usize), mat_rank: usize) -> (r: Result<
    (),
    SetOperationError,
>)
    ensures
        r == matmul_result(dim, mat_dim, mat_rank),
        r is Ok <==> mat_dim.0 == dim && mat_dim.1 == dim && mat_rank >= dim,
{
    let m: usize = mat_dim.0;
    let n: usize = mat_dim.1;
    if m != dim {
        return Err(SetOperationError::DimensionMismatch { expected: dim, got: m });
    }
    if m != n || mat_rank < n {
        return Err(SetOperationError::NotImplemented);
    }
    Ok(())
}

/// The identity map of the polytope's own dimension is always within the
/// affine-map rule: a square map of full rank whose rows match.
pub proof fn lemma_identity_map_accepted(dim: usize)
    ensures
        matmul_result(dim, (dim, dim), dim) == Ok::<(), SetOperationError>(()),
{
}

} // verus!
