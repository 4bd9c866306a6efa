//! Universe discretization and pre-sampled membership shapes.

use fuzzy_logic_rs::errors::FuzzyError;
use fuzzy_logic_rs::fixed::SCALE;
use fuzzy_logic_rs::implications::{min_implication, product_implication};
use fuzzy_logic_rs::membership_ranges::{MembershipRange, Universe};

#[test]
fn test1() {
    let u1 = Universe::new(0, 20_000_000, 50).unwrap();
    let r1 = MembershipRange::new_gaussian(&u1, String::from("L"), 10_000_000, 4_000_000).unwrap();

    println!("test 1");
    println!("{:#?}", min_implication(500_000, r1.get_mu()));
}

#[test]
fn test2() {
    let u1 = Universe::new(0, 20_000_000, 50).unwrap();
    let r1 = MembershipRange::new_gaussian(&u1, String::from("L"), 10_000_000, 4_000_000).unwrap();

    println!("test 1");
    println!("{:#?}", product_implication(500_000, r1.get_mu()));
}

#[test]
fn universe_sampling_is_even() {
    let u = Universe::new(0, 10_000_000, 10).unwrap();
    assert_eq!(u.len(), 10);
    let pts = u.samples();
    for i in 0..10 {
        assert_eq!(pts[i], (i as i64) * 1_000_000);
        assert_eq!(u.get(i), (i as i64) * 1_000_000);
    }
    let signed = Universe::new(-1_000_000, 1_000_000, 500).unwrap();
    assert_eq!(signed.len(), 500);
    assert_eq!(signed.get(0), -1_000_000);
    assert_eq!(signed.get(250), 0);
}

#[test]
fn universe_rejects_bad_parameters() {
    assert!(matches!(Universe::new(0, 10, 0), Err(FuzzyError::InvalidParameters)));
    assert!(matches!(Universe::new(0, 10, -5), Err(FuzzyError::InvalidParameters)));
    assert!(matches!(Universe::new(10, 0, 5), Err(FuzzyError::InvalidParameters)));
}

#[test]
fn triangle_range_samples_exactly() {
    let u = Universe::new(0, 4_000_000, 4).unwrap();
    // Samples at 0, 1.0, 2.0, 3.0 for a triangle with feet 0 and 4 and
    // peak 2.
    let r = MembershipRange::new_triangle(&u, "T".to_string(), 0, 2_000_000, 4_000_000).unwrap();
    assert_eq!(r.get_mu(), &vec![0, 500_000, SCALE, 500_000]);
    assert_eq!(r.get_name(), "T");
}

#[test]
fn range_constructors_validate_parameters() {
    let u = Universe::new(0, 4_000_000, 4).unwrap();
    assert!(matches!(
        MembershipRange::new_triangle(&u, "T".to_string(), 0, 0, 4_000_000),
        Err(FuzzyError::InvalidParameters)
    ));
    assert!(matches!(
        MembershipRange::new_gaussian(&u, "G".to_string(), 0, 0),
        Err(FuzzyError::InvalidParameters)
    ));
    assert!(matches!(
        MembershipRange::new_linears(&u, "S".to_string(), 2_000_000, 2_000_000),
        Err(FuzzyError::InvalidParameters)
    ));
}

#[test]
fn raw_range_accepts_degrees_only() {
    let ok = MembershipRange::new("raw".to_string(), vec![0, 500_000, SCALE]);
    assert!(ok.is_ok());
    assert!(matches!(
        MembershipRange::new("raw".to_string(), vec![0, SCALE + 1]),
        Err(FuzzyError::InvalidParameters)
    ));
    assert!(matches!(
        MembershipRange::new("raw".to_string(), vec![-1]),
        Err(FuzzyError::InvalidParameters)
    ));
}

#[test]
fn step_and_trapezoid_ranges() {
    let u = Universe::new(0, 4_000_000, 4).unwrap();
    let up = MembershipRange::new_step_up(&u, "U".to_string(), 1_000_000).unwrap();
    assert_eq!(up.get_mu(), &vec![0, 0, SCALE, SCALE]);
    let down = MembershipRange::new_step_down(&u, "D".to_string(), 1_000_000).unwrap();
    assert_eq!(down.get_mu(), &vec![SCALE, SCALE, 0, 0]);
    let trap =
        MembershipRange::new_trapezoid(&u, "P".to_string(), 0, 1_000_000, 2_000_000, 3_000_000)
            .unwrap();
    assert_eq!(trap.get_mu(), &vec![0, SCALE, SCALE, 0]);
}
