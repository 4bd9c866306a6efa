//! Defuzzification: collapsing an aggregated shape over a universe, or a
//! TSK value/weight pair, into one crisp number.
//!
//! A shape (or firing-strength vector) that sums to zero means the rule
//! base fired nothing for this output: that is reported as
//! `FuzzyError::ZeroFiringStrength` by the centroid and mean defuzzifiers,
//! never silently coerced to a number.  Bisection falls back to the first
//! universe sample in that case, a documented policy choice.

use vstd::prelude::*;

use crate::errors::FuzzyError;
use crate::fixed::{
    div_trunc, div_trunc_i128, is_degree, is_value, lemma_div_trunc_bound,
    lemma_div_trunc_common_factor, lemma_seq_dot_bound, lemma_seq_dot_comm, lemma_seq_dot_scale,
    lemma_seq_sum_bounds, lemma_seq_sum_scale, seq_dot, seq_sum, CONSEQUENT_BOUND, MAX_RULES,
    MAX_UNIVERSE, SCALE, VALUE_BOUND,
};

verus! {

/// Largest magnitude of an aggregated shape sample: `MAX_RULES` rules may
/// each contribute up to a full degree to a sum-aggregated sample.
pub const SAMPLE_BOUND: i64 = 1_000_000_000_000;

/// The centroid of a shape over a universe: the truncating quotient of
/// the sample-weighted universe sum by the sample sum.
pub open spec fn spec_centroid(shape: Seq<i64>, universe: Seq<i64>) -> int {
    div_trunc(seq_dot(shape, universe), seq_sum(shape))
}

/// The first index whose preceding cumulative mass exceeds half the total
/// mass, scanning from `i`.
pub open spec fn spec_bisect_from(shape: Seq<i64>, total: int, i: nat) -> Option<int>
    decreases shape.len() - i,
{
    if i >= shape.len() {
        None
    } else if 2 * seq_sum(shape.take(i as int)) > total {
        Some(i as int)
    } else {
        spec_bisect_from(shape, total, i + 1)
    }
}

/// The sample index bisection selects: the first index whose preceding
/// cumulative mass exceeds half the total mass, or `0` when none does (an
/// all-zero shape).
pub open spec fn spec_bisect_index(shape: Seq<i64>) -> int {
    match spec_bisect_from(shape, seq_sum(shape), 0) {
        Some(i) => i,
        None => 0,
    }
}

/// The TSK weighted mean: the truncating quotient of the weighted
/// consequent-value sum by the weight sum.
pub open spec fn spec_tsk_mean(values: Seq<i64>, weights: Seq<i64>) -> int {
    div_trunc(seq_dot(values, weights), seq_sum(weights))
}

/// The catalog of Mamdani defuzzifiers.
///
/// The catalog is closed: a user-supplied callable cannot carry a verified
/// contract, so there is no custom variant here.
#[derive(Debug, Clone, Copy)]
pub enum Defuzzifiers {
    /// The mass center of the aggregated shape.
    Centroid,
    /// The universe sample that first splits the shape's mass in half.
    Bisection,
}

impl Defuzzifiers {
    /// Whether this defuzzifier produces a value on the given shape.
    pub open spec fn spec_defuzz_ok(&self, shape: Seq<i64>) -> bool {
        match self {
            Defuzzifiers::Centroid => seq_sum(shape) != 0,
            Defuzzifiers::Bisection => true,
        }
    }

    /// The crisp value this defuzzifier assigns to a shape over a universe.
    pub open spec fn spec_defuzzify(&self, shape: Seq<i64>, universe: Seq<i64>) -> int {
        match self {
            Defuzzifiers::Centroid => spec_centroid(shape, universe),
            Defuzzifiers::Bisection => universe[spec_bisect_index(shape)] as int,
        }
    }

    /// Collapses an aggregated shape over its universe into one crisp
    /// value; reports a zero-mass shape instead of dividing by zero.
    pub fn defuzzify(&self, vec: Vec<i64>, universe: &Vec<i64>) -> (r: Result<i64, FuzzyError>)
        requires
            0 < vec@.len() == universe@.len() <= MAX_UNIVERSE,
            forall|i: int| 0 <= i < vec@.len() ==> 0 <= #[trigger] vec@[i] <= SAMPLE_BOUND,
            forall|i: int| 0 <= i < universe@.len() ==> is_value(#[trigger] universe@[i]),
        ensures
            r is Ok <==> self.spec_defuzz_ok(vec@),
            r matches Ok(v) ==> v == self.spec_defuzzify(vec@, universe@),
            r is Err ==> r == Err::<i64, FuzzyError>(FuzzyError::ZeroFiringStrength),
    {
        match self {
            Defuzzifiers::Centroid => centroid_defuzzification(vec, universe),
            Defuzzifiers::Bisection => Ok(bisection_defuzzification(vec, universe)),
        }
    }
}

/// The centroid of the shape over the universe; reports a zero-mass shape.
pub fn centroid_defuzzification(vec: Vec<i64>, universe: &Vec<i64>) -> (r: Result<
    i64,
    FuzzyError,
>)
    requires
        vec@.len() == universe@.len() <= MAX_UNIVERSE,
        forall|i: int| 0 <= i < vec@.len() ==> 0 <= #[trigger] vec@[i] <= SAMPLE_BOUND,
        forall|i: int| 0 <= i < universe@.len() ==> is_value(#[trigger] universe@[i]),
    ensures
        r is Ok <==> seq_sum(vec@) != 0,
        r matches Ok(v) ==> v == spec_centroid(vec@, universe@),
        r is Err ==> r == Err::<i64, FuzzyError>(FuzzyError::ZeroFiringStrength),
{
    let mut num: i128 = 0;
    let mut den: i128 = 0;
    let mut i: usize = 0;
    assert(vec@.take(0) =~= Seq::<i64>::empty());
    assert(universe@.take(0) =~= Seq::<i64>::empty());
    while i < vec.len()
        invariant
            0 <= i <= vec@.len(),
            vec@.len() == universe@.len() <= MAX_UNIVERSE,
            forall|j: int| 0 <= j < vec@.len() ==> 0 <= #[trigger] vec@[j] <= SAMPLE_BOUND,
            forall|j: int| 0 <= j < universe@.len() ==> is_value(#[trigger] universe@[j]),
            num == seq_dot(vec@.take(i as int), universe@.take(i as int)),
            den == seq_sum(vec@.take(i as int)),
            -((i as int) * 1_000_000_000_000_000_000_000_000) <= num <= (i as int)
                * 1_000_000_000_000_000_000_000_000,
            0 <= den <= (i as int) * 1_000_000_000_000,
        decreases vec@.len() - i,
    {
        assert(vec@.take(i as int + 1).drop_last() =~= vec@.take(i as int));
        assert(universe@.take(i as int + 1).drop_last() =~= universe@.take(i as int));
        let s = vec[i];
        let u = universe[i];
        proof {
            vstd::arithmetic::mul::lemma_mul_nonnegative(s as int, VALUE_BOUND as int);
            vstd::arithmetic::mul::lemma_mul_upper_bound(
                s as int,
                SAMPLE_BOUND as int,
                VALUE_BOUND as int,
                VALUE_BOUND as int,
            );
            assert(s * u <= s * VALUE_BOUND && s * (-VALUE_BOUND) <= s * u) by {
                if s > 0 {
                    vstd::arithmetic::mul::lemma_mul_left_inequality(s as int, u as int, VALUE_BOUND as int);
                    vstd::arithmetic::mul::lemma_mul_left_inequality(s as int, -(VALUE_BOUND as int), u as int);
                } else {
                    assert(s == 0);
                    assert(s * u == 0 && s * VALUE_BOUND == 0 && s * (-(VALUE_BOUND as int)) == 0)
                        by (nonlinear_arith)
                        requires s == 0;
                }
            }
            assert(s * (-(VALUE_BOUND as int)) == -(s * (VALUE_BOUND as int))) by {
                vstd::arithmetic::mul::lemma_mul_unary_negation(s as int, VALUE_BOUND as int);
                vstd::arithmetic::mul::lemma_mul_is_commutative(s as int, -(VALUE_BOUND as int));
                vstd::arithmetic::mul::lemma_mul_is_commutative(s as int, VALUE_BOUND as int);
            }
            assert((SAMPLE_BOUND as int) * (VALUE_BOUND as int)
                == 1_000_000_000_000_000_000_000_000int) by (nonlinear_arith);
            assert((i as int + 1) * 1_000_000_000_000_000_000_000_000 == (i as int)
                * 1_000_000_000_000_000_000_000_000 + 1_000_000_000_000_000_000_000_000)
                by (nonlinear_arith);
            assert((i as int + 1) * 1_000_000_000_000 == (i as int) * 1_000_000_000_000
                + 1_000_000_000_000) by (nonlinear_arith);
            assert((i as int) * 1_000_000_000_000_000_000_000_000 <= (MAX_UNIVERSE as int)
                * 1_000_000_000_000_000_000_000_000) by (nonlinear_arith)
                requires (i as int) <= (MAX_UNIVERSE as int);
            assert((i as int) * 1_000_000_000_000 <= (MAX_UNIVERSE as int) * 1_000_000_000_000)
                by (nonlinear_arith)
                requires (i as int) <= (MAX_UNIVERSE as int);
            assert((MAX_UNIVERSE as int) * 1_000_000_000_000_000_000_000_000
                < 0x40000000000000000000000000000000int) by (nonlinear_arith);
            assert((MAX_UNIVERSE as int) * 1_000_000_000_000 < 0x4000000000000000000000000int)
                by (nonlinear_arith);
        }
        num = num + (s as i128) * (u as i128);
        den = den + (s as i128);
        i = i + 1;
    }
    assert(vec@.take(vec@.len() as int) =~= vec@);
    assert(universe@.take(universe@.len() as int) =~= universe@);
    if den == 0 {
        return Err(FuzzyError::ZeroFiringStrength);
    }
    proof {
        lemma_seq_sum_bounds(vec@, 0, SAMPLE_BOUND as int);
        lemma_seq_dot_bound(vec@, universe@, VALUE_BOUND as int);
        lemma_div_trunc_bound(seq_dot(vec@, universe@), seq_sum(vec@), VALUE_BOUND as int);
    }
    let q: i128 = div_trunc_i128(num, den);
    Ok(q as i64)
}

/// The universe sample at the first index whose preceding cumulative mass
/// exceeds half the shape's total mass; the first sample when no index
/// qualifies (an all-zero shape).
pub fn bisection_defuzzification(vec: Vec<i64>, universe: &Vec<i64>) -> (r: i64)
    requires
        0 < vec@.len() == universe@.len() <= MAX_UNIVERSE,
        forall|i: int| 0 <= i < vec@.len() ==> 0 <= #[trigger] vec@[i] <= SAMPLE_BOUND,
    ensures
        r == universe@[spec_bisect_index(vec@)],
{
    let mut total: i128 = 0;
    let mut i: usize = 0;
    assert(vec@.take(0) =~= Seq::<i64>::empty());
    while i < vec.len()
        invariant
            0 <= i <= vec@.len(),
            vec@.len() <= MAX_UNIVERSE,
            forall|j: int| 0 <= j < vec@.len() ==> 0 <= #[trigger] vec@[j] <= SAMPLE_BOUND,
            total == seq_sum(vec@.take(i as int)),
            0 <= total <= (i as int) * 1_000_000_000_000,
        decreases vec@.len() - i,
    {
        assert(vec@.take(i as int + 1).drop_last() =~= vec@.take(i as int));
        proof {
            assert((i as int + 1) * 1_000_000_000_000 == (i as int) * 1_000_000_000_000
                + 1_000_000_000_000) by (nonlinear_arith);
            assert((i as int) * 1_000_000_000_000 <= (MAX_UNIVERSE as int) * 1_000_000_000_000)
                by (nonlinear_arith)
                requires (i as int) <= (MAX_UNIVERSE as int);
            assert((MAX_UNIVERSE as int) * 1_000_000_000_000 < 0x4000000000000000000000000int)
                by (nonlinear_arith);
        }
        total = total + (vec[i] as i128);
        i = i + 1;
    }
    assert(vec@.take(vec@.len() as int) =~= vec@);
    let ghost total_spec = seq_sum(vec@);
    let mut area: i128 = 0;
    let mut k: usize = 0;
    assert(vec@.take(0) =~= Seq::<i64>::empty());
    while k < vec.len()
        invariant
            0 <= k <= vec@.len(),
            vec@.len() == universe@.len() <= MAX_UNIVERSE,
            forall|j: int| 0 <= j < vec@.len() ==> 0 <= #[trigger] vec@[j] <= SAMPLE_BOUND,
            total == total_spec,
            total_spec == seq_sum(vec@),
            area == seq_sum(vec@.take(k as int)),
            0 <= area <= (k as int) * 1_000_000_000_000,
            spec_bisect_from(vec@, total_spec, 0) == spec_bisect_from(vec@, total_spec, k as nat),
        decreases vec@.len() - k,
    {
        if 2 * area > total {
            return universe[k];
        }
        assert(vec@.take(k as int + 1).drop_last() =~= vec@.take(k as int));
        proof {
            assert((k as int + 1) * 1_000_000_000_000 == (k as int) * 1_000_000_000_000
                + 1_000_000_000_000) by (nonlinear_arith);
            assert((k as int) * 1_000_000_000_000 <= (MAX_UNIVERSE as int) * 1_000_000_000_000)
                by (nonlinear_arith)
                requires (k as int) <= (MAX_UNIVERSE as int);
            assert((MAX_UNIVERSE as int) * 1_000_000_000_000 < 0x4000000000000000000000000int)
                by (nonlinear_arith);
        }
        area = area + (vec[k] as i128);
        k = k + 1;
    }
    universe[0]
}

/// The catalog of TSK defuzzifiers.
///
/// The catalog is closed: a user-supplied callable cannot carry a verified
/// contract, so there is no custom variant here.
#[derive(Debug, Clone, Copy)]
pub enum TSKDefuzzifiers {
    /// The firing-strength-weighted mean of the consequent values.
    Mean,
}

impl TSKDefuzzifiers {
    /// Whether this defuzzifier produces a value on the given weights.
    pub open spec fn spec_defuzz_ok(&self, weights: Seq<i64>) -> bool {
        match self {
            TSKDefuzzifiers::Mean => seq_sum(weights) != 0,
        }
    }

    /// The crisp value this defuzzifier assigns to consequent values under
    /// firing-strength weights.
    pub open spec fn spec_defuzzify(&self, values: Seq<i64>, weights: Seq<i64>) -> int {
        match self {
            TSKDefuzzifiers::Mean => spec_tsk_mean(values, weights),
        }
    }

    /// Collapses per-rule consequent values and firing strengths into one
    /// crisp value; reports an all-zero firing-strength vector.
    pub fn defuzzify(&self, mu_vec: &Vec<i64>, weighed_input: &Vec<i64>) -> (r: Result<
        i64,
        FuzzyError,
    >)
        requires
            0 < mu_vec@.len() == weighed_input@.len() <= MAX_RULES,
            forall|i: int| 0 <= i < mu_vec@.len() ==> -CONSEQUENT_BOUND <= #[trigger] mu_vec@[i]
                <= CONSEQUENT_BOUND,
            forall|i: int| 0 <= i < weighed_input@.len() ==> is_degree(
                #[trigger] weighed_input@[i],
            ),
        ensures
            r is Ok <==> self.spec_defuzz_ok(weighed_input@),
            r matches Ok(v) ==> v == self.spec_defuzzify(mu_vec@, weighed_input@),
            r is Err ==> r == Err::<i64, FuzzyError>(FuzzyError::ZeroFiringStrength),
    {
        match self {
            TSKDefuzzifiers::Mean => mean_tsk_defuzzification(mu_vec, weighed_input),
        }
    }
}

/// The firing-strength-weighted mean of the consequent values; reports an
/// all-zero firing-strength vector.
pub fn mean_tsk_defuzzification(mu_vec: &Vec<i64>, weighed_input: &Vec<i64>) -> (r: Result<
    i64,
    FuzzyError,
>)
    requires
        0 < mu_vec@.len() == weighed_input@.len() <= MAX_RULES,
        forall|i: int| 0 <= i < mu_vec@.len() ==> -CONSEQUENT_BOUND <= #[trigger] mu_vec@[i]
            <= CONSEQUENT_BOUND,
        forall|i: int| 0 <= i < weighed_input@.len() ==> is_degree(#[trigger] weighed_input@[i]),
    ensures
        r is Ok <==> seq_sum(weighed_input@) != 0,
        r matches Ok(v) ==> v == spec_tsk_mean(mu_vec@, weighed_input@),
        r is Err ==> r == Err::<i64, FuzzyError>(FuzzyError::ZeroFiringStrength),
{
    let mut num: i128 = 0;
    let mut den: i128 = 0;
    let mut i: usize = 0;
    assert(mu_vec@.take(0) =~= Seq::<i64>::empty());
    assert(weighed_input@.take(0) =~= Seq::<i64>::empty());
    while i < mu_vec.len()
        invariant
            0 <= i <= mu_vec@.len(),
            mu_vec@.len() == weighed_input@.len() <= MAX_RULES,
            forall|j: int| 0 <= j < mu_vec@.len() ==> -CONSEQUENT_BOUND <= #[trigger] mu_vec@[j]
                <= CONSEQUENT_BOUND,
            forall|j: int| 0 <= j < weighed_input@.len() ==> is_degree(
                #[trigger] weighed_input@[j],
            ),
            num == seq_dot(mu_vec@.take(i as int), weighed_input@.take(i as int)),
            den == seq_sum(weighed_input@.take(i as int)),
            -((i as int) * 2_000_000_000_000_000_000_000_000) <= num <= (i as int)
                * 2_000_000_000_000_000_000_000_000,
            0 <= den <= (i as int) * 1_000_000,
        decreases mu_vec@.len() - i,
    {
        assert(mu_vec@.take(i as int + 1).drop_last() =~= mu_vec@.take(i as int));
        assert(weighed_input@.take(i as int + 1).drop_last() =~= weighed_input@.take(i as int));
        let z = mu_vec[i];
        let w = weighed_input[i];
        proof {
            assert(z * w <= 2_000_000_000_000_000_000_000_000int && -2_000_000_000_000_000_000_000_000int
                <= z * w) by (nonlinear_arith)
                requires
                    -CONSEQUENT_BOUND <= z <= CONSEQUENT_BOUND,
                    0 <= w <= SCALE,
                    CONSEQUENT_BOUND == 1_000_001_000_000_000_000i64,
                    SCALE == 1_000_000i64,
            ;
            assert((i as int + 1) * 2_000_000_000_000_000_000_000_000 == (i as int)
                * 2_000_000_000_000_000_000_000_000 + 2_000_000_000_000_000_000_000_000)
                by (nonlinear_arith);
            assert((i as int + 1) * 1_000_000 == (i as int) * 1_000_000 + 1_000_000)
                by (nonlinear_arith);
            assert((i as int) * 2_000_000_000_000_000_000_000_000 <= (MAX_RULES as int)
                * 2_000_000_000_000_000_000_000_000) by (nonlinear_arith)
                requires (i as int) <= (MAX_RULES as int);
            assert((i as int) * 1_000_000 <= (MAX_RULES as int) * 1_000_000) by (nonlinear_arith)
                requires (i as int) <= (MAX_RULES as int);
            assert((MAX_RULES as int) * 2_000_000_000_000_000_000_000_000
                < 0x40000000000000000000000000000000int) by (nonlinear_arith);
            assert((MAX_RULES as int) * 1_000_000 < 0x4000000000000000int) by (nonlinear_arith);
        }
        num = num + (z as i128) * (w as i128);
        den = den + (w as i128);
        i = i + 1;
    }
    assert(mu_vec@.take(mu_vec@.len() as int) =~= mu_vec@);
    assert(weighed_input@.take(weighed_input@.len() as int) =~= weighed_input@);
    if den == 0 {
        return Err(FuzzyError::ZeroFiringStrength);
    }
    proof {
        lemma_seq_sum_bounds(weighed_input@, 0, SCALE as int);
        lemma_seq_dot_comm(mu_vec@, weighed_input@);
        lemma_seq_dot_bound(weighed_input@, mu_vec@, CONSEQUENT_BOUND as int);
        lemma_div_trunc_bound(
            seq_dot(mu_vec@, weighed_input@),
            seq_sum(weighed_input@),
            CONSEQUENT_BOUND as int,
        );
    }
    let q: i128 = div_trunc_i128(num, den);
    Ok(q as i64)
}

/// Centroid defuzzification is invariant under a uniform positive rescaling
/// of the shape: multiplying every sample by the same positive constant
/// leaves the crisp value unchanged.
pub proof fn lemma_centroid_scale_invariant(
    shape: Seq<i64>,
    scaled: Seq<i64>,
    universe: Seq<i64>,
    k: i64,
)
    requires
        k > 0,
        scaled.len() == shape.len(),
        universe.len() == shape.len(),
        forall|i: int| 0 <= i < shape.len() ==> (#[trigger] scaled[i]) == k * shape[i],
        seq_sum(shape) > 0,
    ensures
        seq_sum(scaled) == k * seq_sum(shape),
        spec_centroid(scaled, universe) == spec_centroid(shape, universe),
{
    lemma_seq_sum_scale(shape, scaled, k);
    lemma_seq_dot_scale(shape, scaled, universe, k);
    lemma_div_trunc_common_factor(k as int, seq_dot(shape, universe), seq_sum(shape));
}

} // verus!
