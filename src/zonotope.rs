//! Zonotopes `{c + Gᵗα : α ∈ [-1, 1]^m}`: shape, degeneracy and the
//! generator subsets of the volume formula.
use vstd::prelude::*;

use crate::combinatorics::{
    all_combinations, first_indices, index_combinations, lemma_single_full_subset,
};

verus! {

/// Shape errors of a zonotope's generator matrix and center.
#[derive(Debug, Clone, Copy, PartialEq, Eq)]
pub enum ZonotopeError {
    /// `G` has `g_dim.1` columns but `c` has `c_dim` entries.
    DimensionMismatch { g_dim: (usize, usize), c_dim: usize },
}

/// Checks a generator matrix of shape `g_dim` (rows are generators) against
/// a center of `c_dim` entries: the columns of `G` must match the center.
pub fn check_generator_shape(g_dim: (usize, usize), c_dim: usize) -> (r: Result<(), ZonotopeError>)
    ensures
        g_dim.1 == c_dim ==> r == Ok::<(), ZonotopeError>(()),
        g_dim.1 != c_dim ==> r == Err::<(), ZonotopeError>(
            ZonotopeError::DimensionMismatch { g_dim, c_dim },
        ),
{
    if g_dim.1 != c_dim {
        Err(ZonotopeError::DimensionMismatch { g_dim, c_dim })
    } else {
        Ok(())
    }
}

/// A zonotope in `dim` dimensions with `n_generators` generators whose
/// matrix has rank `rank` is degenerate when it has no generator or its
/// generators do not span the space.
pub open spec fn degenerate(n_generators: usize, rank: usize, dim: usize) -> bool {
    n_generators == 0 || rank < dim
}

/// Degeneracy of a zonotope from its generator count and the rank of its
/// generator matrix.
pub fn is_degenerate(n_generators: usize, rank: usize, dim: usize) -> (r: bool)
    ensures
        r == degenerate(n_generators, rank, dim),
        n_generators == 0 ==> r,
{
    n_generators == 0 || rank < dim
}

/// The terms of the zonotope volume formula: the volume is `2^dim` times
/// the sum, over the returned subsets of generator rows, of the absolute
/// determinant of the square submatrix they select. A degenerate zonotope
/// has no term (volume zero); any other has one term per `dim`-subset of
/// its generators, in lexicographic order. With exactly `dim` spanning
/// generators the one term is the whole generator matrix.
pub fn volume_terms(n_generators: usize, rank: usize, dim: usize) -> (r: Vec<Vec<usize>>)
    ensures
        degenerate(n_generators, rank, dim) ==> r@.len() == 0,
        !degenerate(n_generators, rank, dim) ==> all_combinations(
            r@.map_values(|v: Vec<usize>| v@),
            n_generators as nat,
            dim as nat,
        ),
        !degenerate(n_generators, rank, dim) && n_generators == dim ==> r@.len() == 1
            && r@[0]@ == first_indices(dim as nat),
{
    if is_degenerate(n_generators, rank, dim) {
        return Vec::new();
    }
    let r = index_combinations(n_generators, dim);
    proof {
        let views = r@.map_values(|v: Vec<usize>| v@);
        if n_generators == dim {
            lemma_single_full_subset(views, dim as nat);
            assert(views[0] == r@[0]@);
        }
    }
    r
}

} // verus!
