//! Membership-function shapes: exact degrees at characteristic points,
//! symmetry and monotonicity of the Gaussian, and construction failures on
//! ill-ordered parameters.

use fuzzy_logic_rs::errors::FuzzyError;
use fuzzy_logic_rs::fixed::SCALE;
use fuzzy_logic_rs::membership_functions::{
    Bell, Custom, DoubleGaussian, Gaussian, GetDegree, Kind, LinearS, LinearZ,
    MembershipFunction, StepDown, StepUp, Trapezoid, Triangle,
};

#[test]
fn triangle_vertices_and_flanks() {
    let t = Triangle::new(0, 1_000_000, 2_000_000).unwrap();
    assert_eq!(t.get_degree(-500_000), 0);
    assert_eq!(t.get_degree(0), 0);
    assert_eq!(t.get_degree(500_000), 500_000);
    assert_eq!(t.get_degree(1_000_000), SCALE);
    assert_eq!(t.get_degree(1_500_000), 500_000);
    assert_eq!(t.get_degree(2_000_000), 0);
    assert_eq!(t.get_degree(3_000_000), 0);
}

#[test]
fn triangle_monotone_on_flanks() {
    let t = Triangle::new(-1_000_000, 0, 3_000_000).unwrap();
    let mut prev = t.get_degree(-1_000_000);
    for k in 0..10 {
        let d = t.get_degree(-1_000_000 + k * 100_000);
        assert!(d >= prev);
        prev = d;
    }
    let mut prev = t.get_degree(0);
    for k in 0..10 {
        let d = t.get_degree(k * 300_000);
        assert!(d <= prev);
        prev = d;
    }
}

#[test]
fn triangle_quantizes_toward_zero() {
    // A flank whose width does not divide the scale: the degree is the
    // exact rational ramp rounded down to the fixed-point grid.
    let t = Triangle::new(0, 3, 6).unwrap();
    assert_eq!(t.get_degree(1), 333_333);
    assert_eq!(t.get_degree(2), 666_666);
    assert_eq!(t.get_degree(4), 666_666);
}

#[test]
fn triangle_rejects_bad_ordering() {
    assert!(matches!(
        Triangle::new(2_000_000, 1_000_000, 3_000_000),
        Err(FuzzyError::InvalidParameters)
    ));
    // The ordering is strict: a degenerate triangle fails construction.
    assert!(matches!(
        Triangle::new(0, 0, 1_000_000),
        Err(FuzzyError::InvalidParameters)
    ));
    assert!(matches!(
        Triangle::new(0, 1_000_000, 1_000_000),
        Err(FuzzyError::InvalidParameters)
    ));
}

#[test]
fn trapezoid_degrees() {
    let t = Trapezoid::new(0, 1_000_000, 2_000_000, 4_000_000).unwrap();
    assert_eq!(t.get_degree(0), 0);
    assert_eq!(t.get_degree(500_000), 500_000);
    assert_eq!(t.get_degree(1_000_000), SCALE);
    assert_eq!(t.get_degree(1_500_000), SCALE);
    assert_eq!(t.get_degree(2_000_000), SCALE);
    assert_eq!(t.get_degree(3_000_000), 500_000);
    assert_eq!(t.get_degree(4_000_000), 0);
    assert_eq!(t.get_degree(5_000_000), 0);
}

#[test]
fn trapezoid_with_a_above_d_fails_construction() {
    // a > d cannot satisfy a <= b <= c <= d, whatever stands between.
    assert!(matches!(
        Trapezoid::new(5_000_000, 1_000_000, 2_000_000, 3_000_000),
        Err(FuzzyError::InvalidParameters)
    ));
    assert!(matches!(
        Trapezoid::new(5_000_000, 5_000_000, 5_000_000, 3_000_000),
        Err(FuzzyError::InvalidParameters)
    ));
}

#[test]
fn ramps_and_steps() {
    let s = LinearS::new(0, 2_000_000).unwrap();
    assert_eq!(s.get_degree(-1), 0);
    assert_eq!(s.get_degree(1_000_000), 500_000);
    assert_eq!(s.get_degree(2_000_000), SCALE);
    let z = LinearZ::new(0, 2_000_000).unwrap();
    assert_eq!(z.get_degree(-1), SCALE);
    assert_eq!(z.get_degree(1_000_000), 500_000);
    assert_eq!(z.get_degree(2_000_000), 0);
    let up = StepUp::new(500_000).unwrap();
    assert_eq!(up.get_degree(500_000), 0);
    assert_eq!(up.get_degree(500_001), SCALE);
    let down = StepDown::new(500_000).unwrap();
    assert_eq!(down.get_degree(500_000), SCALE);
    assert_eq!(down.get_degree(500_001), 0);
}

#[test]
fn gaussian_peak_symmetry_monotonicity() {
    let g = Gaussian::new(250_000, 90_000).unwrap();
    assert_eq!(g.get_degree(250_000), SCALE);
    // Symmetric about the mean.
    assert_eq!(g.get_degree(250_000 + 77_000), g.get_degree(250_000 - 77_000));
    assert_eq!(g.get_degree(250_000 + 200_000), g.get_degree(250_000 - 200_000));
    // Never rises with the distance from the mean.
    let mut prev = g.get_degree(250_000);
    for k in 1..12 {
        let d = g.get_degree(250_000 + k * 50_000);
        assert!(d <= prev);
        prev = d;
    }
    // Far in the tail the fixed-point degree reaches zero.
    assert_eq!(g.get_degree(250_000 + 1_000_000), 0);
}

#[test]
fn gaussian_requires_positive_spread() {
    assert!(matches!(Gaussian::new(0, 0), Err(FuzzyError::InvalidParameters)));
    assert!(matches!(Gaussian::new(0, -1), Err(FuzzyError::InvalidParameters)));
}

#[test]
fn double_gaussian_plateau() {
    let g = DoubleGaussian::new(0, 100_000, 1_000_000, 100_000).unwrap();
    assert_eq!(g.get_degree(0), SCALE);
    assert_eq!(g.get_degree(500_000), SCALE);
    assert_eq!(g.get_degree(999_999), SCALE);
    assert_eq!(g.get_degree(1_000_000), SCALE);
    assert!(g.get_degree(1_200_000) < SCALE);
    assert!(g.get_degree(-200_000) < SCALE);
    assert!(matches!(
        DoubleGaussian::new(1_000_000, 100_000, 0, 100_000),
        Err(FuzzyError::InvalidParameters)
    ));
}

#[test]
fn bell_center_and_half_width() {
    let b = Bell::new(1_000_000, 1, 0).unwrap();
    assert_eq!(b.get_degree(0), SCALE);
    // At one width from the center the degree is exactly one half.
    assert_eq!(b.get_degree(1_000_000), 500_000);
    assert_eq!(b.get_degree(-1_000_000), 500_000);
    assert!(b.get_degree(3_000_000) < 200_000);
    assert!(matches!(Bell::new(0, 1, 0), Err(FuzzyError::InvalidParameters)));
    assert!(matches!(Bell::new(1_000_000, 0, 0), Err(FuzzyError::InvalidParameters)));
}

#[test]
fn custom_shape_reads_its_table() {
    // A table over [0, 4) with spacing 1.0: degrees 0.1, 0.9, 0.4, 1.0.
    let c = Custom::new(
        "tab".to_string(),
        0,
        1_000_000,
        vec![100_000, 900_000, 400_000, SCALE],
    )
    .unwrap();
    assert_eq!(c.get_name(), "tab");
    assert_eq!(c.get_degree(0), 100_000);
    assert_eq!(c.get_degree(999_999), 100_000);
    assert_eq!(c.get_degree(1_000_000), 900_000);
    assert_eq!(c.get_degree(2_500_000), 400_000);
    assert_eq!(c.get_degree(3_000_000), SCALE);
    // Constant extrapolation outside the grid.
    assert_eq!(c.get_degree(-5_000_000), 100_000);
    assert_eq!(c.get_degree(9_000_000), SCALE);
}

#[test]
fn custom_shape_validates_its_table() {
    assert!(matches!(
        Custom::new("t".to_string(), 0, 0, vec![0]),
        Err(FuzzyError::InvalidParameters)
    ));
    assert!(matches!(
        Custom::new("t".to_string(), 0, 1_000_000, vec![]),
        Err(FuzzyError::InvalidParameters)
    ));
    assert!(matches!(
        Custom::new("t".to_string(), 0, 1_000_000, vec![SCALE + 1]),
        Err(FuzzyError::InvalidParameters)
    ));
}

#[test]
fn membership_function_wraps_shape_and_name() {
    let t = Triangle::new(0, 1_000_000, 2_000_000).unwrap();
    let mf = MembershipFunction::new("warm".to_string(), Kind::Triangle(t));
    assert_eq!(mf.get_name(), "warm");
    assert_eq!(mf.get_degree(1_000_000), SCALE);
}
