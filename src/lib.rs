//! Combinatorial and structural core of a library of convex sets in four
//! encodings: half-space polytopes, vertex polytopes, zonotopes and
//! axis-aligned intervals.
//!
//! Every decision that these encodings make on shapes, counts and indices
//! lives here and is proved: the dimension guard that precedes every binary
//! or linear operation, the shape checks of the constructors, the
//! degeneracy and affine-map rules, the enumeration of box corners and of
//! generator sign patterns, the generator subsets of the zonotope volume
//! formula and the vertex pairs of the V-polytope Minkowski sum. The
//! floating-point arithmetic and the numerical oracles (linear programs,
//! convex hulls, vertex enumeration) stay with the caller, which hands this
//! crate shapes, counts and ranks and takes back decisions and index tables.

pub mod combinatorics;
pub mod errors;
pub mod geometry;
pub mod hpolytope;
pub mod hull;
pub mod vpolytope;
pub mod zonotope;
