//! Planar vertex lists.
use vstd::prelude::*;

verus! {

/// Shape errors of planar vertex lists.
#[derive(Debug, Clone, Copy, PartialEq, Eq, Structural)]
pub enum GeometryError {
    /// The vertex matrix does not have two columns.
    InvalidShape,
}

/// Failures of hull reduction of planar vertex lists.
#[derive(Debug)]
pub enum ConvexHullError {
    /// The hull engine itself failed.
    QhullError { source: String },
    /// The engine's output could not be reshaped into a matrix.
    DataConversionError { source: String },
}

/// Checks a vertex matrix of shape `v_dim` before its rows are put in
/// clockwise order: it must have two columns, else `InvalidShape`. The
/// answer says whether there is an order to establish: fewer than three
/// vertices are returned as they are.
pub fn check_planar_vertices(v_dim: (usize, usize)) -> (r: Result<bool, GeometryError>)
    ensures
        v_dim.1 != 2 ==> r == Err::<bool, GeometryError>(GeometryError::InvalidShape),
        v_dim.1 == 2 ==> r == Ok::<bool, GeometryError>(v_dim.0 >= 3),
{
    if v_dim.1 != 2 {
        return Err(GeometryError::InvalidShape);
    }
    Ok(v_dim.0 >= 3)
}

} // verus!
