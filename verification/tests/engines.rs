//! End-to-end inference: the Mamdani and TSK pipelines, the complement
//! encoding, and the reportable error conditions.

use fuzzy_logic_rs::aggregations::Aggregations;
use fuzzy_logic_rs::defuzzifications::{Defuzzifiers, TSKDefuzzifiers};
use fuzzy_logic_rs::errors::FuzzyError;
use fuzzy_logic_rs::fixed::SCALE;
use fuzzy_logic_rs::fuzzy_inference_systems::{MamdaniFIS, TSKFIS};
use fuzzy_logic_rs::implications::Implications;
use fuzzy_logic_rs::membership_functions::{
    Custom, Gaussian, GetDegree, MFKind, Triangle, MF,
};
use fuzzy_logic_rs::membership_ranges::{MembershipRange, Universe};
use fuzzy_logic_rs::rules::{Rule, TSKRule, OutputRelation};
use fuzzy_logic_rs::s_norms::SNorms;
use fuzzy_logic_rs::t_norms::TNorms;
use fuzzy_logic_rs::variables::{InputVariable, OutputVariable, TSKOutputVariable};

fn speed_control_fis() -> MamdaniFIS {
    let mut v1 = InputVariable::new("speed".to_string(), (0, 140_000_000));
    v1.add_membership(MF::new(
        "S".to_string(),
        MFKind::Triangle(Triangle::new(-58_300_000, 0, 58_300_000).unwrap()),
    ));
    v1.add_membership(MF::new(
        "M".to_string(),
        MFKind::Triangle(Triangle::new(11_670_000, 70_000_000, 128_300_000).unwrap()),
    ));
    v1.add_membership(MF::new(
        "L".to_string(),
        MFKind::Triangle(Triangle::new(81_670_000, 140_000_000, 198_300_000).unwrap()),
    ));

    let mut v2 = InputVariable::new("distance".to_string(), (0, 50_000_000));
    v2.add_membership(MF::new(
        "S".to_string(),
        MFKind::Triangle(Triangle::new(-20_830_000, 0, 20_830_000).unwrap()),
    ));
    v2.add_membership(MF::new(
        "M".to_string(),
        MFKind::Triangle(Triangle::new(4_168_000, 25_000_000, 45_820_000).unwrap()),
    ));
    v2.add_membership(MF::new(
        "L".to_string(),
        MFKind::Triangle(Triangle::new(29_170_000, 50_000_000, 70_820_000).unwrap()),
    ));

    let mut o1 = OutputVariable::new("acceleration".to_string(), (-1_000_000, 1_000_000), 500)
        .unwrap();
    let u1 = Universe::new(-1_000_000, 1_000_000, 500).unwrap();
    for (name, mean) in [
        ("NB", -800_000i64),
        ("NS", -250_000),
        ("ZR", 0),
        ("PS", 250_000),
        ("PB", 800_000),
    ] {
        let r = MembershipRange::new_gaussian(&u1, name.to_string(), mean, 212_300).unwrap();
        o1.add_membership(r).unwrap();
    }

    let mut fis = MamdaniFIS::new(
        SNorms::Max,
        TNorms::Min,
        Implications::Min,
        Aggregations::Max,
        Defuzzifiers::Bisection,
    );
    fis.add_input(v1);
    fis.add_input(v2);
    fis.add_output(o1);

    fis.add_rule(Rule::new_and(vec![0, 0, 2], SCALE).unwrap());
    fis.add_rule(Rule::new_and(vec![0, 1, 3], SCALE).unwrap());
    fis.add_rule(Rule::new_and(vec![0, 2, 4], SCALE).unwrap());
    fis.add_rule(Rule::new_and(vec![1, 0, 1], SCALE).unwrap());
    fis.add_rule(Rule::new_and(vec![1, 1, 2], SCALE).unwrap());
    fis.add_rule(Rule::new_and(vec![1, 2, 3], SCALE).unwrap());
    fis.add_rule(Rule::new_and(vec![2, 0, 0], SCALE).unwrap());
    fis.add_rule(Rule::new_and(vec![2, 1, 1], SCALE).unwrap());
    fis.add_rule(Rule::new_and(vec![2, 2, 2], SCALE).unwrap());
    fis
}

#[test]
fn mamdani_speed_control_bisection() {
    let fis = speed_control_fis();
    let out = fis.compute_outputs(vec![40_000_000, 43_000_000]).unwrap();
    assert_eq!(out.len(), 1);
    assert!(-1_000_000 <= out[0] && out[0] <= 1_000_000);
}

#[test]
fn mamdani_engine_stays_usable_between_calls() {
    let mut fis = speed_control_fis();
    let out = fis.compute_outputs(vec![40_000_000, 43_000_000]).unwrap();
    assert!(-1_000_000 <= out[0] && out[0] <= 1_000_000);
    // Appending another rule between calls keeps the engine usable.
    fis.add_rule(Rule::new_and(vec![0, 0, 2], SCALE).unwrap());
    let again = fis.compute_outputs(vec![40_000_000, 43_000_000]).unwrap();
    assert_eq!(out, again);
}

#[test]
fn tsk_function_approximation() {
    let mut fis = TSKFIS::new(SNorms::Max, TNorms::Min, TSKDefuzzifiers::Mean);
    let mut x = InputVariable::new("X".to_string(), (0, 1_000_000));
    for mean in [0i64, 500_000, 1_000_000] {
        x.add_membership(MF::new(
            "g".to_string(),
            MFKind::Gaussian(Gaussian::new(mean, 90_000).unwrap()),
        ));
    }
    fis.add_input(x);
    let mut y = TSKOutputVariable::new("Y".to_string());
    y.add_constant_membership(0).unwrap();
    y.add_constant_membership(250_000).unwrap();
    y.add_constant_membership(0).unwrap();
    fis.add_output(y);
    fis.add_rule(Rule::new_and(vec![0, 0], SCALE).unwrap());
    fis.add_rule(Rule::new_and(vec![1, 1], SCALE).unwrap());
    fis.add_rule(Rule::new_and(vec![2, 2], SCALE).unwrap());

    let out = fis.compute_outputs(vec![500_000]).unwrap();
    assert_eq!(out.len(), 1);
    assert!((out[0] - 250_000).abs() <= 2_000);
}

#[test]
fn tsk_linear_consequent() {
    let mut fis = TSKFIS::new(SNorms::Max, TNorms::Min, TSKDefuzzifiers::Mean);
    let mut x = InputVariable::new("X".to_string(), (0, 1_000_000));
    x.add_membership(MF::new(
        "wide".to_string(),
        MFKind::Triangle(Triangle::new(-1_000_000, 300_000, 2_000_000).unwrap()),
    ));
    fis.add_input(x);
    let mut y = TSKOutputVariable::new("Y".to_string());
    // 2 * x + 0.1, as coefficients over the input plus an intercept.
    y.add_linear_membership(vec![2_000_000, 100_000]).unwrap();
    fis.add_output(y);
    fis.add_rule(Rule::new_and(vec![0, 0], SCALE).unwrap());
    let out = fis.compute_outputs(vec![300_000]).unwrap();
    assert_eq!(out, vec![700_000]);
}

#[test]
fn custom_shape_drives_an_engine() {
    // A user-supplied shape, tabulated: full degree on [1, 2), zero
    // elsewhere on the grid.
    let mut fis = TSKFIS::new(SNorms::Max, TNorms::Min, TSKDefuzzifiers::Mean);
    let mut x = InputVariable::new("X".to_string(), (0, 3_000_000));
    let table = Custom::new(
        "band".to_string(),
        0,
        1_000_000,
        vec![0, SCALE, 0],
    )
    .unwrap();
    x.add_membership(MF::new("band".to_string(), MFKind::Custom(table)));
    fis.add_input(x);
    let mut y = TSKOutputVariable::new("Y".to_string());
    y.add_constant_membership(314_159).unwrap();
    fis.add_output(y);
    fis.add_rule(Rule::new_and(vec![0, 0], SCALE).unwrap());
    // Inside the band the rule fires at full strength.
    assert_eq!(fis.compute_outputs(vec![1_500_000]), Ok(vec![314_159]));
    // Outside it nothing fires, which is reported.
    assert_eq!(
        fis.compute_outputs(vec![2_500_000]),
        Err(FuzzyError::ZeroFiringStrength)
    );
}

#[test]
fn complement_relation_uses_one_minus_degree() {
    let mut fis = TSKFIS::new(SNorms::Max, TNorms::Min, TSKDefuzzifiers::Mean);
    let mut x = InputVariable::new("X".to_string(), (0, 2_000_000));
    let tri = Triangle::new(0, 1_000_000, 2_000_000).unwrap();
    x.add_membership(MF::new("zero".to_string(), MFKind::Triangle(tri)));
    x.add_membership(MF::new("t".to_string(), MFKind::Triangle(tri)));
    fis.add_input(x);
    let mut y = TSKOutputVariable::new("Y".to_string());
    y.add_constant_membership(SCALE).unwrap();
    fis.add_output(y);
    fis.add_rule(Rule::new_and(vec![-1, 0], SCALE).unwrap());
    let crisp = 250_000i64;
    let expect = SCALE - tri.get_degree(crisp);
    let fuzzified = fis.fuzzification(vec![crisp]);
    assert_eq!(fuzzified, vec![vec![expect]]);
}

#[test]
fn zero_firing_rule_base_is_reported() {
    // Mamdani, centroid: the crisp input lies outside every antecedent
    // support, so every rule fires with strength zero.
    let mut fis = MamdaniFIS::new(
        SNorms::Max,
        TNorms::Min,
        Implications::Min,
        Aggregations::Max,
        Defuzzifiers::Centroid,
    );
    let mut x = InputVariable::new("X".to_string(), (0, 2_000_000));
    x.add_membership(MF::new(
        "t".to_string(),
        MFKind::Triangle(Triangle::new(0, 1_000_000, 2_000_000).unwrap()),
    ));
    fis.add_input(x);
    let mut o = OutputVariable::new("Y".to_string(), (0, 1_000_000), 100).unwrap();
    let u = Universe::new(0, 1_000_000, 100).unwrap();
    o.add_membership(
        MembershipRange::new_triangle(&u, "r".to_string(), 0, 500_000, 1_000_000).unwrap(),
    )
    .unwrap();
    fis.add_output(o);
    fis.add_rule(Rule::new_and(vec![0, 0], SCALE).unwrap());
    assert_eq!(
        fis.compute_outputs(vec![5_000_000]),
        Err(FuzzyError::ZeroFiringStrength)
    );

    // TSK, mean: same situation.
    let mut tsk = TSKFIS::new(SNorms::Max, TNorms::Min, TSKDefuzzifiers::Mean);
    let mut x = InputVariable::new("X".to_string(), (0, 2_000_000));
    x.add_membership(MF::new(
        "t".to_string(),
        MFKind::Triangle(Triangle::new(0, 1_000_000, 2_000_000).unwrap()),
    ));
    tsk.add_input(x);
    let mut y = TSKOutputVariable::new("Y".to_string());
    y.add_constant_membership(123_000).unwrap();
    tsk.add_output(y);
    tsk.add_rule(Rule::new_and(vec![0, 0], SCALE).unwrap());
    assert_eq!(
        tsk.compute_outputs(vec![5_000_000]),
        Err(FuzzyError::ZeroFiringStrength)
    );
}

#[test]
fn configuration_errors_are_reported() {
    // Nothing registered.
    let empty = MamdaniFIS::new(
        SNorms::Max,
        TNorms::Min,
        Implications::Min,
        Aggregations::Max,
        Defuzzifiers::Centroid,
    );
    assert_eq!(
        empty.compute_outputs(vec![0]),
        Err(FuzzyError::MissingComponents)
    );

    let mut fis = speed_control_fis();
    // Wrong input arity.
    assert_eq!(
        fis.compute_outputs(vec![40_000_000]),
        Err(FuzzyError::InvalidInput)
    );
    // An input value outside the representable range.
    assert_eq!(
        fis.compute_outputs(vec![40_000_000, 2_000_000_000_000]),
        Err(FuzzyError::InvalidInput)
    );
    // A rule of the wrong relation length.
    fis.add_rule(Rule::new_and(vec![0, 0], SCALE).unwrap());
    assert_eq!(
        fis.compute_outputs(vec![40_000_000, 43_000_000]),
        Err(FuzzyError::RelationLengthMismatch)
    );

    // A rule referencing a membership function that does not exist.
    let mut fis = speed_control_fis();
    fis.add_rule(Rule::new_and(vec![7, 0, 0], SCALE).unwrap());
    assert_eq!(
        fis.compute_outputs(vec![40_000_000, 43_000_000]),
        Err(FuzzyError::IndexOutOfRange)
    );

    // A weight outside [0, SCALE] never builds a rule.
    assert!(matches!(
        Rule::new_and(vec![0, 0, 0], SCALE + 1),
        Err(FuzzyError::InvalidWeight)
    ));
    assert!(matches!(Rule::new_or(vec![0], -1), Err(FuzzyError::InvalidWeight)));

    // A shape vector that does not match its universe in length.
    let mut o = OutputVariable::new("Y".to_string(), (0, 1_000_000), 100).unwrap();
    let other = Universe::new(0, 1_000_000, 7).unwrap();
    let short = MembershipRange::new_triangle(&other, "r".to_string(), 0, 500_000, 1_000_000)
        .unwrap();
    assert_eq!(o.add_membership(short), Err(FuzzyError::LengthMismatch));

    // A linear consequent of the wrong arity is caught at compute time.
    let mut tsk = TSKFIS::new(SNorms::Max, TNorms::Min, TSKDefuzzifiers::Mean);
    let mut x = InputVariable::new("X".to_string(), (0, 1_000_000));
    x.add_membership(MF::new(
        "t".to_string(),
        MFKind::Triangle(Triangle::new(0, 500_000, 1_000_000).unwrap()),
    ));
    tsk.add_input(x);
    let mut y = TSKOutputVariable::new("Y".to_string());
    y.add_linear_membership(vec![1_000, 2_000, 3_000]).unwrap();
    tsk.add_output(y);
    tsk.add_rule(Rule::new_and(vec![0, 0], SCALE).unwrap());
    assert_eq!(
        tsk.compute_outputs(vec![500_000]),
        Err(FuzzyError::LengthMismatch)
    );
}

#[test]
fn rule_accessors_split_relations() {
    let rule = Rule::new_and(vec![1, -2, 3, 0], 800_000).unwrap();
    assert_eq!(rule.get_rules(), &[1, -2, 3, 0]);
    assert_eq!(rule.get_input_rules(2), &[1, -2]);
    assert_eq!(rule.get_output_rules(2), &[3, 0]);
    assert_eq!(rule.get_weight(), 800_000);
    let tsk = TSKRule::new_or(
        vec![1, 2],
        vec![OutputRelation::Constant, OutputRelation::Linear],
        SCALE,
    )
    .unwrap();
    assert_eq!(tsk.get_input_rules(), &[1, 2]);
    assert_eq!(tsk.get_output_rules().len(), 2);
    assert_eq!(tsk.get_weight(), SCALE);
}
