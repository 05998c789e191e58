use geosets_rs::errors::{check_operand_dim, SetOperationError};
use geosets_rs::geometry::{check_planar_vertices, GeometryError};
use geosets_rs::hpolytope::{check_constraint_shape, check_matmul, HPolytopeError};
use geosets_rs::hull::{check_hull_input, ConvexHullError};
use geosets_rs::vpolytope::{check_vertices_shape, VPolytopeError};
use geosets_rs::zonotope::{check_generator_shape, ZonotopeError};

#[test]
fn operand_dim_accepts_equal_dimensions() {
    assert!(check_operand_dim(3, 3).is_ok());
    assert!(check_operand_dim(0, 0).is_ok());
}

#[test]
fn operand_dim_reports_expected_and_got() {
    match check_operand_dim(3, 2) {
        Err(SetOperationError::DimensionMismatch { expected, got }) => {
            assert_eq!(expected, 3);
            assert_eq!(got, 2);
        }
        _ => panic!("Expected DimensionMismatch error"),
    }
}

#[test]
fn translate_with_wrong_length_is_a_dimension_mismatch() {
    let dim = 2;
    let wrong_len = 3;
    match check_operand_dim(dim, wrong_len) {
        Err(SetOperationError::DimensionMismatch { expected, got }) => {
            assert_eq!(expected, dim);
            assert_eq!(got, wrong_len);
        }
        _ => panic!("Expected DimensionMismatch error"),
    }
}

#[test]
fn test_dimension_mismatch() {
    // three constraint rows, two bounds
    let result = check_operand_dim(3, 2);
    assert!(result.is_err());
    match result.unwrap_err() {
        SetOperationError::DimensionMismatch { expected, got } => {
            assert_eq!(expected, 3);
            assert_eq!(got, 2);
        }
        _ => panic!("Expected DimensionMismatch error"),
    }
}

#[test]
fn hull_error_converts_into_set_error() {
    let e: SetOperationError = ConvexHullError::InsufficientPoints.into();
    assert!(matches!(
        e,
        SetOperationError::QhullError(ConvexHullError::InsufficientPoints)
    ));
}

#[test]
fn hpolytope_test_polytope_new() {
    assert!(check_constraint_shape((2, 2), 2).is_ok());
    assert!(check_constraint_shape((5, 2), 5).is_ok());
}

#[test]
fn hpolytope_shape_mismatch_reports_both_shapes() {
    assert_eq!(
        check_constraint_shape((3, 2), 2),
        Err(HPolytopeError::DimensionMismatch {
            a_dim: (3, 2),
            b_dim: 2
        })
    );
}

#[test]
fn vpolytope_test_polytope_new() {
    assert!(check_vertices_shape((2, 2)).is_ok());
    assert!(check_vertices_shape((2, 5)).is_ok());
}

#[test]
fn vpolytope_without_entries_is_refused() {
    assert_eq!(check_vertices_shape((0, 2)), Err(VPolytopeError::EmptyVertices));
    assert_eq!(check_vertices_shape((3, 0)), Err(VPolytopeError::EmptyVertices));
}

#[test]
fn test_zonotope_new() {
    assert!(check_generator_shape((5, 2), 2).is_ok());
    let zono = check_generator_shape((3, 3), 2);
    assert!(zono.is_err());
}

#[test]
fn zonotope_shape_mismatch_reports_both_shapes() {
    assert_eq!(
        check_generator_shape((3, 3), 2),
        Err(ZonotopeError::DimensionMismatch {
            g_dim: (3, 3),
            c_dim: 2
        })
    );
}

#[test]
fn test_convex_hull_insufficient_points() {
    // two points in the plane
    let result = check_hull_input(2, 2);
    assert!(matches!(result, Err(ConvexHullError::InsufficientPoints)));
}

#[test]
fn hull_accepts_more_points_than_dimensions() {
    assert!(check_hull_input(3, 2).is_ok());
    assert!(check_hull_input(8, 3).is_ok());
    assert!(matches!(
        check_hull_input(3, 3),
        Err(ConvexHullError::InsufficientPoints)
    ));
}

#[test]
fn planar_vertices_need_two_columns() {
    assert_eq!(check_planar_vertices((4, 3)), Err(GeometryError::InvalidShape));
    assert_eq!(check_planar_vertices((4, 2)), Ok(true));
    assert_eq!(check_planar_vertices((2, 2)), Ok(false));
}

#[test]
fn identity_map_is_accepted_by_hpolytope() {
    assert!(check_matmul(3, (3, 3), 3).is_ok());
}

#[test]
fn hpolytope_map_with_wrong_rows_is_a_dimension_mismatch() {
    assert!(matches!(
        check_matmul(2, (3, 3), 3),
        Err(SetOperationError::DimensionMismatch {
            expected: 2,
            got: 3
        })
    ));
}

#[test]
fn hpolytope_non_square_or_singular_map_is_not_implemented() {
    assert!(matches!(
        check_matmul(2, (2, 3), 2),
        Err(SetOperationError::NotImplemented)
    ));
    assert!(matches!(
        check_matmul(2, (2, 2), 1),
        Err(SetOperationError::NotImplemented)
    ));
}

#[test]
fn hpolytope_tests_test_polytope_new() {
    assert!(check_constraint_shape((2, 2), 2).is_ok());
    assert!(check_constraint_shape((5, 2), 5).is_ok());
}
