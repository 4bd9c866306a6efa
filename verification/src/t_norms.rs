//! T-norms: how an AND rule merges its antecedent degrees into one firing
//! strength.

use vstd::prelude::*;

use crate::fixed::{
    is_degree, div_nn, lemma_seq_min_is_elem, lemma_seq_min_le_all, seq_min, seq_prod, SCALE,
};

verus! {

/// The catalog of T-norms.
///
/// The catalog is closed: a user-supplied callable cannot carry a verified
/// contract, so there is no custom variant here.
#[derive(Debug, Clone, Copy)]
pub enum TNorms {
    /// The minimum of the degree vector.
    Min,
    /// The fixed-point product of the degree vector.
    Product,
}

impl TNorms {
    /// The value this norm assigns to a degree vector.
    pub open spec fn spec_t_norm(&self, s: Seq<i64>) -> int {
        match self {
            TNorms::Min => seq_min(s),
            TNorms::Product => seq_prod(s),
        }
    }

    /// Merges a non-empty vector of degrees into one firing strength.
    pub fn t_norm(&self, fuzzified: &[i64]) -> (r: i64)
        requires
            fuzzified@.len() > 0,
            forall|i: int| 0 <= i < fuzzified@.len() ==> is_degree(#[trigger] fuzzified@[i]),
        ensures
            r == self.spec_t_norm(fuzzified@),
            is_degree(r),
    {
        match self {
            TNorms::Min => min_degrees(fuzzified),
            TNorms::Product => product_degrees(fuzzified),
        }
    }
}

fn min_degrees(fuzzified: &[i64]) -> (r: i64)
    requires
        fuzzified@.len() > 0,
        forall|i: int| 0 <= i < fuzzified@.len() ==> is_degree(#[trigger] fuzzified@[i]),
    ensures
        r == seq_min(fuzzified@),
        is_degree(r),
{
    let mut acc: i64 = fuzzified[0];
    let mut i: usize = 1;
    assert(fuzzified@.take(1) =~= seq![fuzzified@[0]]);
    while i < fuzzified.len()
        invariant
            1 <= i <= fuzzified@.len(),
            forall|j: int| 0 <= j < fuzzified@.len() ==> is_degree(#[trigger] fuzzified@[j]),
            acc == seq_min(fuzzified@.take(i as int)),
            is_degree(acc),
        decreases fuzzified@.len() - i,
    {
        assert(fuzzified@.take(i as int + 1).drop_last() =~= fuzzified@.take(i as int));
        if fuzzified[i] < acc {
            acc = fuzzified[i];
        }
        i = i + 1;
    }
    assert(fuzzified@.take(fuzzified@.len() as int) =~= fuzzified@);
    acc
}

fn product_degrees(fuzzified: &[i64]) -> (r: i64)
    requires
        fuzzified@.len() > 0,
        forall|i: int| 0 <= i < fuzzified@.len() ==> is_degree(#[trigger] fuzzified@[i]),
    ensures
        r == seq_prod(fuzzified@),
        is_degree(r),
{
    let mut acc: i64 = SCALE;
    let mut i: usize = 0;
    assert(fuzzified@.take(0) =~= Seq::<i64>::empty());
    while i < fuzzified.len()
        invariant
            0 <= i <= fuzzified@.len(),
            forall|j: int| 0 <= j < fuzzified@.len() ==> is_degree(#[trigger] fuzzified@[j]),
            acc == seq_prod(fuzzified@.take(i as int)),
            is_degree(acc),
        decreases fuzzified@.len() - i,
    {
        assert(fuzzified@.take(i as int + 1).drop_last() =~= fuzzified@.take(i as int));
        proof {
            vstd::arithmetic::mul::lemma_mul_nonnegative(acc as int, fuzzified@[i as int] as int);
            vstd::arithmetic::mul::lemma_mul_upper_bound(
                acc as int,
                SCALE as int,
                fuzzified@[i as int] as int,
                SCALE as int,
            );
            vstd::arithmetic::div_mod::lemma_multiply_divide_le(
                acc * fuzzified@[i as int],
                SCALE as int,
                SCALE as int,
            );
        }
        acc = div_nn(acc * fuzzified[i], SCALE);
        i = i + 1;
    }
    assert(fuzzified@.take(fuzzified@.len() as int) =~= fuzzified@);
    acc
}

/// The binary minimum underlying the Min T-norm is idempotent, commutative
/// and associative.
pub proof fn lemma_min_laws(a: int, b: int, c: int)
    ensures
        vstd::math::min(a, a) == a,
        vstd::math::min(a, b) == vstd::math::min(b, a),
        vstd::math::min(vstd::math::min(a, b), c) == vstd::math::min(a, vstd::math::min(b, c)),
{
}

/// The Min T-norm depends only on the multiset of its inputs: any
/// reordering of the degree vector yields the same firing strength.
pub proof fn lemma_min_permutation(s1: Seq<i64>, s2: Seq<i64>)
    requires
        s1.len() > 0,
        s1.to_multiset() == s2.to_multiset(),
    ensures
        seq_min(s1) == seq_min(s2),
{
    s1.to_multiset_ensures();
    s2.to_multiset_ensures();
    assert(s1.to_multiset().len() == s2.to_multiset().len());
    assert(s2.len() > 0);
    lemma_seq_min_le_all(s1);
    lemma_seq_min_le_all(s2);
    lemma_seq_min_is_elem(s1);
    lemma_seq_min_is_elem(s2);
    let i1 = choose|i: int| 0 <= i < s1.len() && seq_min(s1) == s1[i];
    let i2 = choose|i: int| 0 <= i < s2.len() && seq_min(s2) == s2[i];
    assert(s1.contains(s1[i1]));
    assert(s2.contains(s2[i2]));
    assert(s1.to_multiset().count(s1[i1]) > 0);
    assert(s2.to_multiset().count(s2[i2]) > 0);
    assert(s2.to_multiset().count(s1[i1]) > 0);
    assert(s1.to_multiset().count(s2[i2]) > 0);
    assert(s2.contains(s1[i1]));
    assert(s1.contains(s2[i2]));
}

/// The Product T-norm never exceeds the Min T-norm on a degree vector.
pub proof fn lemma_product_le_min(s: Seq<i64>)
    requires
        s.len() > 0,
        forall|i: int| 0 <= i < s.len() ==> is_degree(#[trigger] s[i]),
    ensures
        0 <= seq_prod(s) <= seq_min(s),
    decreases s.len(),
{
    vstd::arithmetic::div_mod::lemma_div_multiples_vanish(s.last() as int, SCALE as int);
    if s.len() == 1 {
        assert(seq_prod(s.drop_last()) == SCALE);
        assert(seq_prod(s) == SCALE * s.last() / (SCALE as int));
        vstd::arithmetic::mul::lemma_mul_is_commutative(SCALE as int, s.last() as int);
    } else {
        assert(forall|i: int| 0 <= i < s.len() - 1 ==> s.drop_last()[i] == s[i]);
        lemma_product_le_min(s.drop_last());
        lemma_seq_min_le_all(s.drop_last());
        lemma_seq_min_is_elem(s.drop_last());
        let p = seq_prod(s.drop_last());
        let l = s.last() as int;
        assert(seq_min(s.drop_last()) <= SCALE);
        vstd::arithmetic::mul::lemma_mul_nonnegative(p, l);
        vstd::arithmetic::div_mod::lemma_div_pos_is_pos(p * l, SCALE as int);
        vstd::arithmetic::mul::lemma_mul_left_inequality(SCALE as int, p, seq_min(s.drop_last()));
        vstd::arithmetic::mul::lemma_mul_inequality(p, seq_min(s.drop_last()), l);
        vstd::arithmetic::mul::lemma_mul_inequality(l, SCALE as int, seq_min(s.drop_last()));
        vstd::arithmetic::mul::lemma_mul_is_commutative(p, l);
        vstd::arithmetic::mul::lemma_mul_is_commutative(l, seq_min(s.drop_last()));
        vstd::arithmetic::mul::lemma_mul_is_commutative(SCALE as int, seq_min(s.drop_last()));
        // p * l <= min(drop) * SCALE and p * l <= l * SCALE, so the scaled
        // product stays under both operands of the final minimum.
        vstd::arithmetic::mul::lemma_mul_inequality(p, SCALE as int, l);
        vstd::arithmetic::mul::lemma_mul_is_commutative(p, SCALE as int);
        vstd::arithmetic::div_mod::lemma_multiply_divide_le(
            p * l,
            SCALE as int,
            seq_min(s.drop_last()),
        );
        vstd::arithmetic::div_mod::lemma_multiply_divide_le(p * l, SCALE as int, l);
    }
}

/// On degree vectors whose entries are exactly `0` or `SCALE`, the Product
/// T-norm coincides with the Min T-norm.
pub proof fn lemma_product_eq_min_on_crisp(s: Seq<i64>)
    requires
        s.len() > 0,
        forall|i: int| 0 <= i < s.len() ==> (#[trigger] s[i]) == 0 || s[i] == SCALE,
    ensures
        seq_prod(s) == seq_min(s),
    decreases s.len(),
{
    vstd::arithmetic::div_mod::lemma_div_multiples_vanish(s.last() as int, SCALE as int);
    vstd::arithmetic::mul::lemma_mul_is_commutative(SCALE as int, s.last() as int);
    if s.len() == 1 {
        assert(seq_prod(s.drop_last()) == SCALE);
        assert(seq_prod(s) == SCALE * s.last() / (SCALE as int));
    } else {
        assert(forall|i: int| 0 <= i < s.len() - 1 ==> s.drop_last()[i] == s[i]);
        lemma_product_eq_min_on_crisp(s.drop_last());
        lemma_seq_min_is_elem(s.drop_last());
        lemma_seq_min_le_all(s.drop_last());
        let p = seq_prod(s.drop_last());
        let l = s.last() as int;
        if p == 0 {
            assert(seq_prod(s) == 0 * l / (SCALE as int));
            vstd::arithmetic::div_mod::lemma_div_of0(SCALE as int);
        } else {
            assert(p == SCALE);
            if l == 0 {
                vstd::arithmetic::div_mod::lemma_div_of0(SCALE as int);
                assert(seq_prod(s) == (SCALE as int) * 0 / (SCALE as int));
            } else {
                vstd::arithmetic::div_mod::lemma_div_multiples_vanish(SCALE as int, SCALE as int);
            }
        }
    }
}

} // verus!
