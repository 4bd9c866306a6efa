//! Aggregation: combining the per-rule implication shapes for one output
//! into a single shape over its universe.
//!
//! Sum aggregation is the plain elementwise sum across rules, without
//! clipping at `SCALE`: a sum-aggregated sample may exceed full degree, and
//! downstream defuzzification accepts that.

use vstd::prelude::*;

use crate::fixed::{
    is_degree, lemma_seq_max_ge_all, lemma_seq_max_is_elem, seq_max, seq_sum, MAX_RULES, SCALE,
};

verus! {

/// The sequence of the `j`-th samples of a list of shapes: one entry per
/// rule.
pub open spec fn column(vs: Seq<Seq<i64>>, j: int) -> Seq<i64> {
    Seq::new(vs.len(), |i: int| vs[i][j])
}

/// The catalog of aggregation operators.
#[derive(Debug, Clone, Copy)]
pub enum Aggregations {
    /// Pointwise maximum across rules.
    Max,
    /// Pointwise sum across rules, not clipped.
    Sum,
}

impl Aggregations {
    /// The value aggregation assigns to the `j`-th sample.
    pub open spec fn spec_aggregation_at(&self, vs: Seq<Seq<i64>>, j: int) -> int {
        match self {
            Aggregations::Max => seq_max(column(vs, j)),
            Aggregations::Sum => seq_sum(column(vs, j)),
        }
    }

    /// Combines the per-rule shapes into one aggregated shape.
    pub fn aggregation(&self, implication_vec: Vec<Vec<i64>>) -> (r: Vec<i64>)
        requires
            0 < implication_vec@.len() <= MAX_RULES,
            forall|i: int| 0 <= i < implication_vec@.len() ==> (#[trigger] implication_vec@[i])@.len()
                == implication_vec@[0]@.len(),
            forall|i: int, j: int|
                0 <= i < implication_vec@.len() && 0 <= j < implication_vec@[0]@.len()
                    ==> is_degree(#[trigger] implication_vec@[i]@[j]),
        ensures
            r@.len() == implication_vec@[0]@.len(),
            forall|j: int| 0 <= j < r@.len() ==> r@[j] == self.spec_aggregation_at(
                implication_vec.deep_view(),
                j,
            ),
            forall|j: int| 0 <= j < r@.len() ==> 0 <= #[trigger] r@[j] <= implication_vec@.len()
                * SCALE,
    {
        match self {
            Aggregations::Max => max_aggregation(implication_vec),
            Aggregations::Sum => sum_aggregation(implication_vec),
        }
    }
}

/// Max aggregation at a sample is the pointwise maximum: it dominates
/// every rule's implication value there, and is attained by at least one
/// rule.
pub proof fn lemma_max_aggregation_is_pointwise_max(vs: Seq<Seq<i64>>, j: int)
    requires
        vs.len() > 0,
    ensures
        forall|i: int| 0 <= i < vs.len() ==> (#[trigger] vs[i])[j] <= seq_max(column(vs, j)),
        exists|i: int| 0 <= i < vs.len() && (#[trigger] vs[i])[j] == seq_max(column(vs, j)),
{
    let col = column(vs, j);
    lemma_seq_max_ge_all(col);
    lemma_seq_max_is_elem(col);
    assert(forall|i: int| 0 <= i < vs.len() ==> (#[trigger] vs[i])[j] == col[i]);
    let w = choose|i: int| 0 <= i < col.len() && seq_max(col) == col[i];
    assert(vs[w][j] == seq_max(col));
}

/// Pointwise maximum across rules: the aggregated shape at each sample is
/// exactly the largest implication value any rule contributed there.
pub fn max_aggregation(implication_vec: Vec<Vec<i64>>) -> (r: Vec<i64>)
    requires
        0 < implication_vec@.len(),
        forall|i: int| 0 <= i < implication_vec@.len() ==> (#[trigger] implication_vec@[i])@.len()
            == implication_vec@[0]@.len(),
        forall|i: int, j: int|
            0 <= i < implication_vec@.len() && 0 <= j < implication_vec@[0]@.len() ==> is_degree(
                #[trigger] implication_vec@[i]@[j],
            ),
    ensures
        r@.len() == implication_vec@[0]@.len(),
        forall|j: int| 0 <= j < r@.len() ==> r@[j] == seq_max(column(implication_vec.deep_view(), j)),
        forall|j: int| 0 <= j < r@.len() ==> is_degree(#[trigger] r@[j]),
{
    let size_implication = implication_vec.len();
    let size_vec = implication_vec[0].len();
    let mut mu: Vec<i64> = Vec::new();
    let mut i: usize = 0;
    while i < size_vec
        invariant
            0 <= i <= size_vec,
            size_implication == implication_vec@.len(),
            0 < size_implication,
            size_vec == implication_vec@[0]@.len(),
            forall|k: int| 0 <= k < implication_vec@.len() ==> (
            #[trigger] implication_vec@[k])@.len() == size_vec,
            forall|k: int, j: int|
                0 <= k < implication_vec@.len() && 0 <= j < size_vec ==> is_degree(
                    #[trigger] implication_vec@[k]@[j],
                ),
            mu@.len() == i,
            forall|j: int| 0 <= j < i ==> mu@[j] == seq_max(column(implication_vec.deep_view(), j)),
            forall|j: int| 0 <= j < i ==> is_degree(#[trigger] mu@[j]),
        decreases size_vec - i,
    {
        let ghost col = column(implication_vec.deep_view(), i as int);
        let mut max_v: i64 = implication_vec[0][i];
        let mut ii: usize = 1;
        assert(col.take(1) =~= seq![col[0]]);
        while ii < size_implication
            invariant
                1 <= ii <= size_implication,
                0 <= i < size_vec,
                size_implication == implication_vec@.len(),
                size_vec == implication_vec@[0]@.len(),
                forall|k: int| 0 <= k < implication_vec@.len() ==> (
                #[trigger] implication_vec@[k])@.len() == size_vec,
                forall|k: int, j: int|
                    0 <= k < implication_vec@.len() && 0 <= j < size_vec ==> is_degree(
                        #[trigger] implication_vec@[k]@[j],
                    ),
                col == column(implication_vec.deep_view(), i as int),
                max_v == seq_max(col.take(ii as int)),
                is_degree(max_v),
            decreases size_implication - ii,
        {
            assert(col.take(ii as int + 1).drop_last() =~= col.take(ii as int));
            let e = implication_vec[ii][i];
            assert(e == col[ii as int]);
            if max_v < e {
                max_v = e;
            }
            ii = ii + 1;
        }
        assert(col.take(col.len() as int) =~= col);
        mu.push(max_v);
        i = i + 1;
    }
    mu
}

/// Pointwise sum across rules, not clipped: the aggregated shape at each
/// sample is exactly the sum of the implication values the rules
/// contributed there.
pub fn sum_aggregation(implication_vec: Vec<Vec<i64>>) -> (r: Vec<i64>)
    requires
        0 < implication_vec@.len() <= MAX_RULES,
        forall|i: int| 0 <= i < implication_vec@.len() ==> (#[trigger] implication_vec@[i])@.len()
            == implication_vec@[0]@.len(),
        forall|i: int, j: int|
            0 <= i < implication_vec@.len() && 0 <= j < implication_vec@[0]@.len() ==> is_degree(
                #[trigger] implication_vec@[i]@[j],
            ),
    ensures
        r@.len() == implication_vec@[0]@.len(),
        forall|j: int| 0 <= j < r@.len() ==> r@[j] == seq_sum(column(implication_vec.deep_view(), j)),
        forall|j: int| 0 <= j < r@.len() ==> 0 <= #[trigger] r@[j] <= implication_vec@.len()
            * SCALE,
{
    let size_implication = implication_vec.len();
    let size_vec = implication_vec[0].len();
    let mut mu: Vec<i64> = Vec::new();
    let mut i: usize = 0;
    proof {
        assert((MAX_RULES as int) * (SCALE as int) == 1_000_000_000_000int) by (nonlinear_arith);
    }
    while i < size_vec
        invariant
            0 <= i <= size_vec,
            size_implication == implication_vec@.len(),
            0 < size_implication <= MAX_RULES,
            size_vec == implication_vec@[0]@.len(),
            forall|k: int| 0 <= k < implication_vec@.len() ==> (
            #[trigger] implication_vec@[k])@.len() == size_vec,
            forall|k: int, j: int|
                0 <= k < implication_vec@.len() && 0 <= j < size_vec ==> is_degree(
                    #[trigger] implication_vec@[k]@[j],
                ),
            mu@.len() == i,
            forall|j: int| 0 <= j < i ==> mu@[j] == seq_sum(column(implication_vec.deep_view(), j)),
            forall|j: int| 0 <= j < i ==> 0 <= #[trigger] mu@[j] <= implication_vec@.len() * SCALE,
        decreases size_vec - i,
    {
        let ghost col = column(implication_vec.deep_view(), i as int);
        let mut sum: i64 = 0;
        let mut ii: usize = 0;
        assert(col.take(0) =~= Seq::<i64>::empty());
        while ii < size_implication
            invariant
                0 <= ii <= size_implication,
                0 <= i < size_vec,
                size_implication == implication_vec@.len(),
                0 < size_implication <= MAX_RULES,
                size_vec == implication_vec@[0]@.len(),
                forall|k: int| 0 <= k < implication_vec@.len() ==> (
                #[trigger] implication_vec@[k])@.len() == size_vec,
                forall|k: int, j: int|
                    0 <= k < implication_vec@.len() && 0 <= j < size_vec ==> is_degree(
                        #[trigger] implication_vec@[k]@[j],
                    ),
                col == column(implication_vec.deep_view(), i as int),
                sum == seq_sum(col.take(ii as int)),
                0 <= sum <= (ii as int) * (SCALE as int),
            decreases size_implication - ii,
        {
            assert(col.take(ii as int + 1).drop_last() =~= col.take(ii as int));
            let e = implication_vec[ii][i];
            assert(e == col[ii as int]);
            proof {
                vstd::arithmetic::mul::lemma_mul_is_distributive_add(SCALE as int, ii as int, 1);
                vstd::arithmetic::mul::lemma_mul_is_commutative(SCALE as int, ii as int);
                vstd::arithmetic::mul::lemma_mul_is_commutative(SCALE as int, ii as int + 1);
                vstd::arithmetic::mul::lemma_mul_inequality(
                    ii as int + 1,
                    MAX_RULES as int,
                    SCALE as int,
                );
                assert((MAX_RULES as int) * (SCALE as int) == 1_000_000_000_000int)
                    by (nonlinear_arith);
            }
            sum = sum + e;
            ii = ii + 1;
        }
        assert(col.take(col.len() as int) =~= col);
        proof {
            vstd::arithmetic::mul::lemma_mul_inequality(
                size_implication as int,
                size_implication as int,
                SCALE as int,
            );
        }
        mu.push(sum);
        i = i + 1;
    }
    mu
}

} // verus!
