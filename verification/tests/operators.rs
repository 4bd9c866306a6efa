//! The operator algebra: T-norms, S-norms, implication, aggregation and
//! defuzzification on concrete degree vectors.

use fuzzy_logic_rs::aggregations::{max_aggregation, sum_aggregation, Aggregations};
use fuzzy_logic_rs::defuzzifications::{
    bisection_defuzzification, centroid_defuzzification, mean_tsk_defuzzification, Defuzzifiers,
    TSKDefuzzifiers,
};
use fuzzy_logic_rs::errors::FuzzyError;
use fuzzy_logic_rs::fixed::SCALE;
use fuzzy_logic_rs::implications::{min_implication, product_implication, Implications};
use fuzzy_logic_rs::s_norms::SNorms;
use fuzzy_logic_rs::t_norms::TNorms;

#[test]
fn t_norm_min_and_product() {
    assert_eq!(TNorms::Min.t_norm(&[300_000, 700_000, 500_000]), 300_000);
    assert_eq!(TNorms::Product.t_norm(&[300_000, 700_000]), 210_000);
    assert_eq!(TNorms::Min.t_norm(&[SCALE]), SCALE);
    assert_eq!(TNorms::Product.t_norm(&[SCALE]), SCALE);
}

#[test]
fn s_norm_max() {
    assert_eq!(SNorms::Max.s_norm(&[300_000, 700_000, 500_000]), 700_000);
    assert_eq!(SNorms::Max.s_norm(&[0]), 0);
}

#[test]
fn norms_are_idempotent_commutative_associative() {
    // Idempotence on a constant vector.
    assert_eq!(TNorms::Min.t_norm(&[400_000, 400_000, 400_000]), 400_000);
    assert_eq!(SNorms::Max.s_norm(&[400_000, 400_000]), 400_000);
    // The result depends only on the multiset of inputs.
    let a = [100_000, 900_000, 500_000];
    let b = [500_000, 100_000, 900_000];
    assert_eq!(TNorms::Min.t_norm(&a), TNorms::Min.t_norm(&b));
    assert_eq!(SNorms::Max.s_norm(&a), SNorms::Max.s_norm(&b));
    // Grouping does not matter for the binary minimum and maximum.
    let left = TNorms::Min.t_norm(&[TNorms::Min.t_norm(&[100_000, 900_000]), 500_000]);
    let right = TNorms::Min.t_norm(&[100_000, TNorms::Min.t_norm(&[900_000, 500_000])]);
    assert_eq!(left, right);
}

#[test]
fn product_equals_min_on_crisp_degrees() {
    let crisp = [SCALE, 0, SCALE];
    assert_eq!(TNorms::Product.t_norm(&crisp), TNorms::Min.t_norm(&crisp));
    let full = [SCALE, SCALE];
    assert_eq!(TNorms::Product.t_norm(&full), TNorms::Min.t_norm(&full));
    // On graded degrees the product stays below the minimum.
    let graded = [500_000, 500_000];
    assert!(TNorms::Product.t_norm(&graded) < TNorms::Min.t_norm(&graded));
}

#[test]
fn implication_clips_and_scales() {
    let shape = vec![200_000, 800_000, SCALE];
    assert_eq!(min_implication(500_000, &shape), vec![200_000, 500_000, 500_000]);
    assert_eq!(product_implication(500_000, &shape), vec![100_000, 400_000, 500_000]);
    assert_eq!(
        Implications::Min.implication(500_000, &shape),
        min_implication(500_000, &shape)
    );
    assert_eq!(
        Implications::Product.implication(500_000, &shape),
        product_implication(500_000, &shape)
    );
}

#[test]
fn max_aggregation_is_pointwise_max() {
    let rules = vec![vec![100_000, 500_000], vec![300_000, 200_000], vec![200_000, 400_000]];
    let agg = max_aggregation(rules.clone());
    assert_eq!(agg, vec![300_000, 500_000]);
    // Every rule's contribution is pointwise below the aggregate, and the
    // aggregate is attained by some rule at each sample.
    for j in 0..2 {
        let mut attained = false;
        for row in &rules {
            assert!(row[j] <= agg[j]);
            if row[j] == agg[j] {
                attained = true;
            }
        }
        assert!(attained);
    }
    assert_eq!(Aggregations::Max.aggregation(rules), vec![300_000, 500_000]);
}

#[test]
fn sum_aggregation_is_pointwise_sum() {
    let rules = vec![vec![100_000, 500_000], vec![300_000, 200_000]];
    assert_eq!(sum_aggregation(rules.clone()), vec![400_000, 700_000]);
    assert_eq!(Aggregations::Sum.aggregation(rules), vec![400_000, 700_000]);
}

#[test]
fn centroid_exact_value() {
    let shape = vec![0, SCALE, SCALE, 0];
    let universe = vec![0, 1_000_000, 2_000_000, 3_000_000];
    assert_eq!(centroid_defuzzification(shape, &universe), Ok(1_500_000));
}

#[test]
fn centroid_scale_invariance() {
    let shape = vec![100_000, 400_000, 200_000];
    let tripled = vec![300_000, 1_200_000, 600_000];
    let universe = vec![-1_000_000, 0, 1_000_000];
    assert_eq!(
        centroid_defuzzification(shape, &universe),
        centroid_defuzzification(tripled, &universe)
    );
}

#[test]
fn centroid_reports_zero_mass() {
    let shape = vec![0, 0, 0];
    let universe = vec![0, 1_000_000, 2_000_000];
    assert_eq!(
        centroid_defuzzification(shape, &universe),
        Err(FuzzyError::ZeroFiringStrength)
    );
}

#[test]
fn bisection_picks_half_mass_index() {
    let shape = vec![SCALE, SCALE, SCALE, SCALE];
    let universe = vec![0, 10, 20, 30];
    // The cumulative mass before index 3 first exceeds half the total.
    assert_eq!(bisection_defuzzification(shape, &universe), 30);
    let skewed = vec![SCALE, 0, 0, 0];
    assert_eq!(bisection_defuzzification(skewed, &universe), 10);
}

#[test]
fn bisection_zero_mass_falls_back_to_first_sample() {
    let shape = vec![0, 0, 0];
    let universe = vec![-500_000, 0, 500_000];
    assert_eq!(bisection_defuzzification(shape, &universe), -500_000);
    assert_eq!(
        Defuzzifiers::Bisection.defuzzify(vec![0, 0, 0], &universe),
        Ok(-500_000)
    );
}

#[test]
fn tsk_mean_exact_and_zero_weights() {
    let values = vec![100_000, 300_000];
    let weights = vec![SCALE, SCALE];
    assert_eq!(mean_tsk_defuzzification(&values, &weights), Ok(200_000));
    let one_sided = vec![SCALE, 0];
    assert_eq!(mean_tsk_defuzzification(&values, &one_sided), Ok(100_000));
    assert_eq!(
        mean_tsk_defuzzification(&values, &vec![0, 0]),
        Err(FuzzyError::ZeroFiringStrength)
    );
    assert_eq!(
        TSKDefuzzifiers::Mean.defuzzify(&values, &weights),
        Ok(200_000)
    );
}
