use geosets_rs::combinatorics::{
    box_corners, checked_factorial, corner_count, corner_pattern, vertex_pairs,
};
use geosets_rs::vpolytope::is_degenerate as vpolytope_degenerate;
use geosets_rs::zonotope::{is_degenerate, volume_terms};
use std::collections::HashSet;

#[test]
fn corners_of_the_square() {
    let r = corner_pattern(2);
    assert_eq!(
        r,
        vec![
            vec![false, false],
            vec![true, false],
            vec![false, true],
            vec![true, true]
        ]
    );
}

#[test]
fn corners_of_the_cube_are_eight_distinct_patterns() {
    let r = corner_pattern(3);
    assert_eq!(r.len(), 8);
    assert!(r.iter().all(|row| row.len() == 3));
    let distinct: HashSet<Vec<bool>> = r.iter().cloned().collect();
    assert_eq!(distinct.len(), 8);
    assert_eq!(r[5], vec![true, false, true]);
}

#[test]
fn unit_box_corners_in_two_and_three_dimensions() {
    for dim in 2..4usize {
        let corners = box_corners(&vec![-1.0_f64; dim], &vec![1.0_f64; dim]);
        assert_eq!(corners.len(), 1 << dim);
        assert!(corners
            .iter()
            .all(|c| c.len() == dim && c.iter().all(|&x| x == 1.0 || x == -1.0)));
        let distinct: HashSet<Vec<u64>> = corners
            .iter()
            .map(|c| c.iter().map(|x| x.to_bits()).collect())
            .collect();
        assert_eq!(distinct.len(), 1 << dim);
    }
}

#[test]
fn unit_cube_corners_match_the_expected_set() {
    let corners = box_corners(&vec![-1.0_f64; 3], &vec![1.0_f64; 3]);
    let expected = vec![
        vec![1.0, -1.0, -1.0],
        vec![1.0, -1.0, 1.0],
        vec![1.0, 1.0, 1.0],
        vec![1.0, 1.0, -1.0],
        vec![-1.0, 1.0, 1.0],
        vec![-1.0, 1.0, -1.0],
        vec![-1.0, -1.0, 1.0],
        vec![-1.0, -1.0, -1.0],
    ];
    let to_set = |rows: &Vec<Vec<f64>>| -> HashSet<Vec<u64>> {
        rows.iter()
            .map(|r| r.iter().map(|x| x.to_bits()).collect())
            .collect()
    };
    assert_eq!(to_set(&corners), to_set(&expected));
}

#[test]
fn box_corners_pick_lower_or_upper_bound_by_bit() {
    let corners = box_corners(&vec![0.5_f64, -2.0], &vec![1.5_f64, 3.0]);
    assert_eq!(
        corners,
        vec![
            vec![0.5, -2.0],
            vec![1.5, -2.0],
            vec![0.5, 3.0],
            vec![1.5, 3.0]
        ]
    );
}

#[test]
fn box_in_zero_dimensions_has_one_corner() {
    assert_eq!(corner_pattern(0), vec![Vec::<bool>::new()]);
    assert_eq!(corner_count(0), 1);
    assert_eq!(corner_count(10), 1024);
}

#[test]
fn vertex_pairs_follow_the_double_loop() {
    let r = vertex_pairs(2, 3);
    assert_eq!(r, vec![(0, 0), (0, 1), (0, 2), (1, 0), (1, 1), (1, 2)]);
    assert_eq!(vertex_pairs(0, 4), vec![]);
}

#[test]
fn factorials() {
    assert_eq!(checked_factorial(0), Some(1));
    assert_eq!(checked_factorial(1), Some(1));
    assert_eq!(checked_factorial(3), Some(6));
    assert_eq!(checked_factorial(5), Some(120));
    assert_eq!(checked_factorial(20), Some(2432902008176640000));
    assert_eq!(checked_factorial(21), None);
}

#[test]
fn volume_terms_list_generator_subsets_in_order() {
    let r = volume_terms(4, 2, 2);
    assert_eq!(
        r,
        vec![
            vec![0, 1],
            vec![0, 2],
            vec![0, 3],
            vec![1, 2],
            vec![1, 3],
            vec![2, 3]
        ]
    );
}

#[test]
fn unit_generator_zonotope_has_one_volume_term() {
    for n in 1..6usize {
        let r = volume_terms(n, n, n);
        assert_eq!(r.len(), 1);
        assert_eq!(r[0], (0..n).collect::<Vec<usize>>());
    }
}

#[test]
fn degenerate_zonotope_has_no_volume_term() {
    assert!(volume_terms(0, 0, 2).is_empty());
    assert!(volume_terms(3, 1, 2).is_empty());
}

#[test]
fn zonotope_without_generators_is_degenerate() {
    assert!(is_degenerate(0, 0, 2));
    assert!(is_degenerate(0, 0, 0));
    assert!(is_degenerate(3, 1, 2));
    assert!(!is_degenerate(2, 2, 2));
}

#[test]
fn vpolytope_degeneracy() {
    assert!(vpolytope_degenerate(1, 0, 2));
    assert!(vpolytope_degenerate(4, 1, 2));
    assert!(!vpolytope_degenerate(4, 2, 2));
}
