//! Input rules of the convex-hull oracle.
use vstd::prelude::*;

verus! {

/// Failures of the convex-hull oracle.
#[derive(Debug)]
pub enum ConvexHullError {
    /// The hull engine itself failed.
    QhullError { source: String },
    /// The engine's output could not be reshaped into a matrix.
    DataConversionError { source: String },
    /// Too few points for a full-dimensional hull.
    InsufficientPoints,
}

/// A cloud of `n_points` points in `dim` dimensions can span a
/// full-dimensional hull only if it holds more points than dimensions.
pub open spec fn enough_points(n_points: usize, dim: usize) -> bool {
    n_points > dim
}

/// Checks a point cloud's shape before it is handed to the hull engine:
/// `k` points in `n` dimensions need `k > n`, else `InsufficientPoints`.
pub fn check_hull_input(n_points: usize, dim: usize) -> (r: Result<(), ConvexHullError>)
    ensures
        enough_points(n_points, dim) ==> r == Ok::<(), ConvexHullError>(()),
        !enough_points(n_points, dim) ==> r == Err::<(), ConvexHullError>(ConvexHullError::InsufficientPoints),
{
    if n_points <= dim {
        return Err(ConvexHullError::InsufficientPoints);
    }
    Ok(())
}

} // verus!
