//! Vertex polytopes (convex hulls of finite point sets): shape and
//! degeneracy.
use vstd::prelude::*;

verus! {

/// Shape errors of a vertex matrix.
#[derive(Debug, Clone, Copy, PartialEq, Eq, Structural)]
pub enum VPolytopeError {
    /// The vertex matrix holds no entry.
    EmptyVertices,
}

/// Checks a vertex matrix of shape `v_dim` (one vertex per row): it must
/// hold at least one entry.
pub fn check_vertices_shape(v_dim: (usize, usize)) -> (r: Result<(), VPolytopeError>)
    ensures
        v_dim.0 > 0 && v_dim.1 > 0 ==> r == Ok::<(), VPolytopeError>(()),
        v_dim.0 == 0 || v_dim.1 == 0 ==> r == Err::<(), VPolytopeError>(
            VPolytopeError::EmptyVertices,
        ),
{
    if v_dim.0 == 0 || v_dim.1 == 0 {
        Err(VPolytopeError::EmptyVertices)
    } else {
        Ok(())
    }
}

/// A vertex polytope in `dim` dimensions with `n_vertices` vertices, whose
/// vertex cloud centered at its mean has rank `centered_rank`, is
/// degenerate when it is a single point or its vertices span a
/// lower-dimensional affine subspace.
pub open spec fn degenerate(n_vertices: usize, centered_rank: usize, dim: usize) -> bool {
    n_vertices == 1 || centered_rank < dim
}

/// Degeneracy of a vertex polytope from its vertex count and the rank of
/// its mean-centered vertex cloud.
pub fn is_degenerate(n_vertices: usize, centered_rank: usize, dim: usize) -> (r: bool)
    ensures
        r == degenerate(n_vertices, centered_rank, dim),
{
    n_vertices == 1 || centered_rank < dim
}

} // verus!
