//! Implication operators (Mamdani): scale or clip a consequent shape by a
//! rule's firing strength, sample by sample.

use vstd::prelude::*;

use crate::fixed::{is_degree, div_nn, SCALE};

verus! {

/// The catalog of implication operators.
///
/// The catalog is closed: a user-supplied callable cannot carry a verified
/// contract, so there is no custom variant here.
#[derive(Debug, Clone, Copy)]
pub enum Implications {
    /// Clip each sample to the firing strength.
    Min,
    /// Scale each sample by the firing strength.
    Product,
}

impl Implications {
    /// The value this operator assigns to one consequent sample `e` under
    /// firing strength `mu`.
    pub open spec fn spec_implication_at(&self, mu: int, e: int) -> int {
        match self {
            Implications::Min => vstd::math::min(e, mu),
            Implications::Product => e * mu / (SCALE as int),
        }
    }

    /// Applies the operator to a whole consequent shape.
    pub fn implication(&self, mu: i64, vec: &Vec<i64>) -> (r: Vec<i64>)
        requires
            is_degree(mu),
            forall|i: int| 0 <= i < vec@.len() ==> is_degree(#[trigger] vec@[i]),
        ensures
            r@.len() == vec@.len(),
            forall|i: int| 0 <= i < r@.len() ==> r@[i] == self.spec_implication_at(
                mu as int,
                vec@[i] as int,
            ),
            forall|i: int| 0 <= i < r@.len() ==> is_degree(#[trigger] r@[i]),
    {
        match self {
            Implications::Min => min_implication(mu, vec),
            Implications::Product => product_implication(mu, vec),
        }
    }
}

/// Clips each sample of the shape to the firing strength.
pub fn min_implication(mu: i64, vec: &Vec<i64>) -> (r: Vec<i64>)
    requires
        is_degree(mu),
        forall|i: int| 0 <= i < vec@.len() ==> is_degree(#[trigger] vec@[i]),
    ensures
        r@.len() == vec@.len(),
        forall|i: int| 0 <= i < r@.len() ==> r@[i] == vstd::math::min(
            vec@[i] as int,
            mu as int,
        ),
        forall|i: int| 0 <= i < r@.len() ==> is_degree(#[trigger] r@[i]),
{
    let mut r: Vec<i64> = Vec::new();
    let mut i: usize = 0;
    while i < vec.len()
        invariant
            0 <= i <= vec@.len(),
            is_degree(mu),
            forall|j: int| 0 <= j < vec@.len() ==> is_degree(#[trigger] vec@[j]),
            r@.len() == i,
            forall|j: int| 0 <= j < i ==> r@[j] == vstd::math::min(vec@[j] as int, mu as int),
            forall|j: int| 0 <= j < i ==> is_degree(#[trigger] r@[j]),
        decreases vec@.len() - i,
    {
        let e = vec[i];
        if e < mu {
            r.push(e);
        } else {
            r.push(mu);
        }
        i = i + 1;
    }
    r
}

/// Scales each sample of the shape by the firing strength.
pub fn product_implication(mu: i64, vec: &Vec<i64>) -> (r: Vec<i64>)
    requires
        is_degree(mu),
        forall|i: int| 0 <= i < vec@.len() ==> is_degree(#[trigger] vec@[i]),
    ensures
        r@.len() == vec@.len(),
        forall|i: int| 0 <= i < r@.len() ==> r@[i] == vec@[i] * mu / (SCALE as int),
        forall|i: int| 0 <= i < r@.len() ==> is_degree(#[trigger] r@[i]),
{
    let mut r: Vec<i64> = Vec::new();
    let mut i: usize = 0;
    while i < vec.len()
        invariant
            0 <= i <= vec@.len(),
            is_degree(mu),
            forall|j: int| 0 <= j < vec@.len() ==> is_degree(#[trigger] vec@[j]),
            r@.len() == i,
            forall|j: int| 0 <= j < i ==> r@[j] == vec@[j] * mu / (SCALE as int),
            forall|j: int| 0 <= j < i ==> is_degree(#[trigger] r@[j]),
        decreases vec@.len() - i,
    {
        let e = vec[i];
        proof {
            vstd::arithmetic::mul::lemma_mul_nonnegative(e as int, mu as int);
            vstd::arithmetic::mul::lemma_mul_upper_bound(
                e as int,
                SCALE as int,
                mu as int,
                SCALE as int,
            );
            vstd::arithmetic::div_mod::lemma_multiply_divide_le(
                e * mu,
                SCALE as int,
                SCALE as int,
            );
        }
        r.push(div_nn(e * mu, SCALE));
        i = i + 1;
    }
    r
}

} // verus!
