//! S-norms: how an OR rule merges its antecedent degrees into one firing
//! strength.

use vstd::prelude::*;

use crate::fixed::{is_degree, lemma_seq_max_is_elem, lemma_seq_max_ge_all, seq_max};

verus! {

/// The catalog of S-norms.
///
/// The catalog is closed: a user-supplied callable cannot carry a verified
/// contract, so there is no custom variant here.
#[derive(Debug, Clone, Copy)]
pub enum SNorms {
    /// The maximum of the degree vector.
    Max,
}

impl SNorms {
    /// The value this norm assigns to a degree vector.
    pub open spec fn spec_s_norm(&self, s: Seq<i64>) -> int {
        match self {
            SNorms::Max => seq_max(s),
        }
    }

    /// Merges a non-empty vector of degrees into one firing strength.
    pub fn s_norm(&self, fuzzified: &[i64]) -> (r: i64)
        requires
            fuzzified@.len() > 0,
            forall|i: int| 0 <= i < fuzzified@.len() ==> is_degree(#[trigger] fuzzified@[i]),
        ensures
            r == self.spec_s_norm(fuzzified@),
            is_degree(r),
    {
        match self {
            SNorms::Max => max_degrees(fuzzified),
        }
    }
}

fn max_degrees(fuzzified: &[i64]) -> (r: i64)
    requires
        fuzzified@.len() > 0,
        forall|i: int| 0 <= i < fuzzified@.len() ==> is_degree(#[trigger] fuzzified@[i]),
    ensures
        r == seq_max(fuzzified@),
        is_degree(r),
{
    let mut acc: i64 = fuzzified[0];
    let mut i: usize = 1;
    assert(fuzzified@.take(1) =~= seq![fuzzified@[0]]);
    while i < fuzzified.len()
        invariant
            1 <= i <= fuzzified@.len(),
            forall|j: int| 0 <= j < fuzzified@.len() ==> is_degree(#[trigger] fuzzified@[j]),
            acc == seq_max(fuzzified@.take(i as int)),
            is_degree(acc),
        decreases fuzzified@.len() - i,
    {
        assert(fuzzified@.take(i as int + 1).drop_last() =~= fuzzified@.take(i as int));
        if fuzzified[i] > acc {
            acc = fuzzified[i];
        }
        i = i + 1;
    }
    assert(fuzzified@.take(fuzzified@.len() as int) =~= fuzzified@);
    acc
}

/// The binary maximum underlying the Max S-norm is idempotent, commutative
/// and associative.
pub proof fn lemma_max_laws(a: int, b: int, c: int)
    ensures
        vstd::math::max(a, a) == a,
        vstd::math::max(a, b) == vstd::math::max(b, a),
        vstd::math::max(vstd::math::max(a, b), c) == vstd::math::max(a, vstd::math::max(b, c)),
{
}

/// The Max S-norm depends only on the multiset of its inputs: any
/// reordering of the degree vector yields the same firing strength.
pub proof fn lemma_max_permutation(s1: Seq<i64>, s2: Seq<i64>)
    requires
        s1.len() > 0,
        s1.to_multiset() == s2.to_multiset(),
    ensures
        seq_max(s1) == seq_max(s2),
{
    s1.to_multiset_ensures();
    s2.to_multiset_ensures();
    assert(s1.to_multiset().len() == s2.to_multiset().len());
    assert(s2.len() > 0);
    lemma_seq_max_ge_all(s1);
    lemma_seq_max_ge_all(s2);
    lemma_seq_max_is_elem(s1);
    lemma_seq_max_is_elem(s2);
    let i1 = choose|i: int| 0 <= i < s1.len() && seq_max(s1) == s1[i];
    let i2 = choose|i: int| 0 <= i < s2.len() && seq_max(s2) == s2[i];
    assert(s1.contains(s1[i1]));
    assert(s2.contains(s2[i2]));
    assert(s1.to_multiset().count(s1[i1]) > 0);
    assert(s2.to_multiset().count(s2[i2]) > 0);
    assert(s2.to_multiset().count(s1[i1]) > 0);
    assert(s1.to_multiset().count(s2[i2]) > 0);
    assert(s2.contains(s1[i1]));
    assert(s1.contains(s2[i2]));
}

} // verus!
