//! Fixed-point representation and the small arithmetic toolkit shared by the
//! whole crate.
//!
//! A fixed-point number `v: i64` stands for the real number `v / SCALE`.
//! Membership degrees lie in `[0, SCALE]` (so `SCALE` is `1.0`); crisp domain
//! values, shape parameters and consequent constants lie in
//! `[-VALUE_BOUND, VALUE_BOUND]`.

use vstd::prelude::*;

verus! {

/// One whole unit: the fixed-point image of `1.0`.
pub const SCALE: i64 = 1_000_000;

/// Largest magnitude of a crisp value, shape parameter or consequent
/// constant the crate accepts; keeps every intermediate product inside the
/// machine integer ranges proved below.
pub const VALUE_BOUND: i64 = 1_000_000_000_000;

/// Largest number of rules a system may evaluate in one call; keeps the sum
/// aggregation of per-rule degrees inside `i64`.
pub const MAX_RULES: usize = 1_000_000;

/// Largest number of samples in a discretized universe; keeps the wide
/// centroid sums inside `i128`.
pub const MAX_UNIVERSE: usize = 2_147_483_647;

/// Largest magnitude of a consequent value a linear consequent can produce:
/// its coefficient mass times the value bound, plus the intercept.
pub const CONSEQUENT_BOUND: i64 = 1_000_001_000_000_000_000;

/// True of a well-formed membership degree.
pub open spec fn is_degree(d: i64) -> bool {
    0 <= d <= SCALE
}

/// True of a crisp value or shape parameter the crate accepts.
pub open spec fn is_value(v: i64) -> bool {
    -VALUE_BOUND <= v <= VALUE_BOUND
}

/// Truncating (round-toward-zero) division, the rounding every quotient in
/// this crate uses; agrees with `/` on `int` for non-negative numerators.
pub open spec fn div_trunc(a: int, b: int) -> int
    recommends
        b > 0,
{
    if a >= 0 {
        a / b
    } else {
        -((-a) / b)
    }
}

/// Quotient of non-negative fixed-point numbers.
pub fn div_nn(a: i64, b: i64) -> (r: i64)
    requires
        0 <= a,
        0 < b,
    ensures
        r == a as int / b as int,
        0 <= r <= a,
{
    proof {
        vstd::arithmetic::div_mod::lemma_div_pos_is_pos(a as int, b as int);
        vstd::arithmetic::div_mod::lemma_div_nonincreasing(a as int, b as int);
    }
    ((a as u64) / (b as u64)) as i64
}

/// Truncating quotient of a wide intermediate by a positive divisor.
pub fn div_trunc_i128(a: i128, b: i128) -> (r: i128)
    requires
        0 < b,
        -0x7fffffffffffffffffffffffffffffff <= a,
    ensures
        r == div_trunc(a as int, b as int),
{
    if a >= 0 {
        proof {
            vstd::arithmetic::div_mod::lemma_div_pos_is_pos(a as int, b as int);
            vstd::arithmetic::div_mod::lemma_div_nonincreasing(a as int, b as int);
        }
        ((a as u128) / (b as u128)) as i128
    } else {
        let m: i128 = -a;
        proof {
            vstd::arithmetic::div_mod::lemma_div_pos_is_pos(m as int, b as int);
            vstd::arithmetic::div_mod::lemma_div_nonincreasing(m as int, b as int);
        }
        -(((m as u128) / (b as u128)) as i128)
    }
}

/// Fold of `min` over a sequence, from the left.
pub open spec fn seq_min(s: Seq<i64>) -> int
    recommends
        s.len() > 0,
    decreases s.len(),
{
    if s.len() <= 1 {
        s[0] as int
    } else {
        vstd::math::min(seq_min(s.drop_last()), s.last() as int)
    }
}

/// Fold of `max` over a sequence, from the left.
pub open spec fn seq_max(s: Seq<i64>) -> int
    recommends
        s.len() > 0,
    decreases s.len(),
{
    if s.len() <= 1 {
        s[0] as int
    } else {
        vstd::math::max(seq_max(s.drop_last()), s.last() as int)
    }
}

/// Fold of the fixed-point product `acc * d / SCALE` over a sequence, from
/// the left, starting at `SCALE` (the image of `1.0`).
pub open spec fn seq_prod(s: Seq<i64>) -> int
    decreases s.len(),
{
    if s.len() == 0 {
        SCALE as int
    } else {
        seq_prod(s.drop_last()) * s.last() / SCALE as int
    }
}

/// Sum of a sequence.
pub open spec fn seq_sum(s: Seq<i64>) -> int
    decreases s.len(),
{
    if s.len() == 0 {
        0
    } else {
        seq_sum(s.drop_last()) + s.last()
    }
}

/// Sum of the pairwise products of two sequences of equal length.
pub open spec fn seq_dot(s: Seq<i64>, u: Seq<i64>) -> int
    recommends
        s.len() == u.len(),
    decreases s.len(),
{
    if s.len() == 0 {
        0
    } else {
        seq_dot(s.drop_last(), u.drop_last()) + s.last() * u.last()
    }
}

/// A ramp quotient `num / den` with `0 <= num <= den * SCALE` is a degree.
pub proof fn lemma_div_in_degree(num: int, den: int)
    requires
        0 <= num,
        0 < den,
        num <= den * (SCALE as int),
    ensures
        0 <= num / den <= SCALE,
{
    vstd::arithmetic::div_mod::lemma_div_pos_is_pos(num, den);
    vstd::arithmetic::div_mod::lemma_multiply_divide_le(num, den, SCALE as int);
}

/// Sum of the magnitudes of a sequence.
pub open spec fn seq_sum_abs(s: Seq<i64>) -> int
    decreases s.len(),
{
    if s.len() == 0 {
        0
    } else {
        seq_sum_abs(s.drop_last()) + (if s.last() >= 0 {
            s.last() as int
        } else {
            -(s.last() as int)
        })
    }
}

/// A sum of magnitudes is non-negative.
pub proof fn lemma_seq_sum_abs_nonneg(s: Seq<i64>)
    ensures
        0 <= seq_sum_abs(s),
    decreases s.len(),
{
    if s.len() > 0 {
        lemma_seq_sum_abs_nonneg(s.drop_last());
    }
}

/// A prefix never has more magnitude mass than the whole sequence.
pub proof fn lemma_seq_sum_abs_take(s: Seq<i64>, i: int)
    requires
        0 <= i <= s.len(),
    ensures
        seq_sum_abs(s.take(i)) <= seq_sum_abs(s),
    decreases s.len() - i,
{
    if i == s.len() {
        assert(s.take(i) =~= s);
    } else {
        lemma_seq_sum_abs_take(s, i + 1);
        assert(s.take(i + 1).drop_last() =~= s.take(i));
    }
}

/// A pairwise-product sum against bounded values is bounded by the
/// magnitude mass of the weights times the value bound.
pub proof fn lemma_seq_dot_abs_bound(c: Seq<i64>, x: Seq<i64>, xb: int)
    requires
        c.len() == x.len(),
        0 <= xb,
        forall|i: int| 0 <= i < x.len() ==> -xb <= #[trigger] x[i] <= xb,
    ensures
        -(seq_sum_abs(c) * xb) <= seq_dot(c, x) <= seq_sum_abs(c) * xb,
    decreases c.len(),
{
    if c.len() == 0 {
    } else {
        assert(forall|i: int| 0 <= i < c.len() - 1 ==> c.drop_last()[i] == c[i]);
        assert(forall|i: int| 0 <= i < x.len() - 1 ==> x.drop_last()[i] == x[i]);
        lemma_seq_dot_abs_bound(c.drop_last(), x.drop_last(), xb);
        let cl = c.last() as int;
        let xl = x.last() as int;
        let ca: int = if cl >= 0 {
            cl
        } else {
            -cl
        };
        assert(-(ca * xb) <= cl * xl <= ca * xb) by (nonlinear_arith)
            requires
                0 <= ca,
                cl == ca || cl == -ca,
                -xb <= xl <= xb,
                0 <= xb,
        ;
        assert(seq_sum_abs(c) * xb == seq_sum_abs(c.drop_last()) * xb + ca * xb) by {
            vstd::arithmetic::mul::lemma_mul_is_distributive_add_other_way(
                xb,
                seq_sum_abs(c.drop_last()),
                ca,
            );
        }
    }
}

/// The pairwise-product sum does not depend on the order of its arguments.
pub proof fn lemma_seq_dot_comm(s: Seq<i64>, u: Seq<i64>)
    requires
        s.len() == u.len(),
    ensures
        seq_dot(s, u) == seq_dot(u, s),
    decreases s.len(),
{
    if s.len() > 0 {
        lemma_seq_dot_comm(s.drop_last(), u.drop_last());
        vstd::arithmetic::mul::lemma_mul_is_commutative(s.last() as int, u.last() as int);
    }
}

/// A pairwise-product sum of non-negative weights against bounded values is
/// bounded by the weight sum times the value bound.
pub proof fn lemma_seq_dot_bound(s: Seq<i64>, u: Seq<i64>, ub: int)
    requires
        s.len() == u.len(),
        0 <= ub,
        forall|i: int| 0 <= i < s.len() ==> 0 <= #[trigger] s[i],
        forall|i: int| 0 <= i < u.len() ==> -ub <= #[trigger] u[i] <= ub,
    ensures
        -(seq_sum(s) * ub) <= seq_dot(s, u) <= seq_sum(s) * ub,
    decreases s.len(),
{
    if s.len() == 0 {
    } else {
        assert(forall|i: int| 0 <= i < s.len() - 1 ==> s.drop_last()[i] == s[i]);
        assert(forall|i: int| 0 <= i < u.len() - 1 ==> u.drop_last()[i] == u[i]);
        lemma_seq_dot_bound(s.drop_last(), u.drop_last(), ub);
        let w = s.last() as int;
        let v = u.last() as int;
        assert(w * (-ub) <= w * v <= w * ub) by {
            if w > 0 {
                vstd::arithmetic::mul::lemma_mul_left_inequality(w, -ub, v);
                vstd::arithmetic::mul::lemma_mul_left_inequality(w, v, ub);
            } else {
                assert(w == 0);
                assert(w * v == 0 && w * ub == 0 && w * (-ub) == 0) by (nonlinear_arith)
                    requires w == 0;
            }
        }
        assert(w * (-ub) == -(w * ub)) by {
            vstd::arithmetic::mul::lemma_mul_unary_negation(w, ub);
            vstd::arithmetic::mul::lemma_mul_is_commutative(w, -ub);
            vstd::arithmetic::mul::lemma_mul_is_commutative(w, ub);
        }
        assert(seq_sum(s) * ub == seq_sum(s.drop_last()) * ub + w * ub) by {
            vstd::arithmetic::mul::lemma_mul_is_distributive_add_other_way(
                ub,
                seq_sum(s.drop_last()),
                w,
            );
        }
    }
}

/// A truncating quotient of a value bounded by `b * c` lies within `c`.
pub proof fn lemma_div_trunc_bound(a: int, b: int, c: int)
    requires
        0 < b,
        0 <= c,
        -(b * c) <= a <= b * c,
    ensures
        -c <= div_trunc(a, b) <= c,
{
    if a >= 0 {
        vstd::arithmetic::div_mod::lemma_div_pos_is_pos(a, b);
        vstd::arithmetic::div_mod::lemma_multiply_divide_le(a, b, c);
    } else {
        vstd::arithmetic::div_mod::lemma_div_pos_is_pos(-a, b);
        vstd::arithmetic::div_mod::lemma_multiply_divide_le(-a, b, c);
    }
}

/// A common positive factor of numerator and denominator leaves the
/// truncating quotient unchanged.
pub proof fn lemma_div_trunc_common_factor(k: int, a: int, b: int)
    requires
        0 < k,
        0 < b,
    ensures
        div_trunc(k * a, k * b) == div_trunc(a, b),
{
    vstd::arithmetic::mul::lemma_mul_strictly_positive(k, b);
    if a >= 0 {
        vstd::arithmetic::mul::lemma_mul_nonnegative(k, a);
        vstd::arithmetic::div_mod::lemma_div_multiples_vanish_quotient(k, a, b);
    } else {
        vstd::arithmetic::mul::lemma_mul_strictly_positive(k, -a);
        assert(k * (-a) == -(k * a)) by {
            vstd::arithmetic::mul::lemma_mul_unary_negation(a, k);
            vstd::arithmetic::mul::lemma_mul_is_commutative(k, -a);
            vstd::arithmetic::mul::lemma_mul_is_commutative(k, a);
            vstd::arithmetic::mul::lemma_mul_is_commutative(-a, k);
        }
        vstd::arithmetic::div_mod::lemma_div_multiples_vanish_quotient(k, -a, b);
    }
}

/// Rescaling every element by `k` rescales the sum by `k`.
pub proof fn lemma_seq_sum_scale(s: Seq<i64>, scaled: Seq<i64>, k: i64)
    requires
        scaled.len() == s.len(),
        forall|i: int| 0 <= i < s.len() ==> (#[trigger] scaled[i]) == k * s[i],
    ensures
        seq_sum(scaled) == k * seq_sum(s),
    decreases s.len(),
{
    if s.len() == 0 {
        vstd::arithmetic::mul::lemma_mul_basics(k as int);
    } else {
        assert(forall|i: int| 0 <= i < s.len() - 1 ==> s.drop_last()[i] == s[i]);
        assert(forall|i: int| 0 <= i < s.len() - 1 ==> scaled.drop_last()[i] == scaled[i]);
        lemma_seq_sum_scale(s.drop_last(), scaled.drop_last(), k);
        vstd::arithmetic::mul::lemma_mul_is_distributive_add(
            k as int,
            seq_sum(s.drop_last()),
            s.last() as int,
        );
    }
}

/// Rescaling every weight by `k` rescales the pairwise-product sum by `k`.
pub proof fn lemma_seq_dot_scale(s: Seq<i64>, scaled: Seq<i64>, u: Seq<i64>, k: i64)
    requires
        scaled.len() == s.len(),
        u.len() == s.len(),
        forall|i: int| 0 <= i < s.len() ==> (#[trigger] scaled[i]) == k * s[i],
    ensures
        seq_dot(scaled, u) == k * seq_dot(s, u),
    decreases s.len(),
{
    if s.len() == 0 {
        vstd::arithmetic::mul::lemma_mul_basics(k as int);
    } else {
        assert(forall|i: int| 0 <= i < s.len() - 1 ==> s.drop_last()[i] == s[i]);
        assert(forall|i: int| 0 <= i < s.len() - 1 ==> scaled.drop_last()[i] == scaled[i]);
        lemma_seq_dot_scale(s.drop_last(), scaled.drop_last(), u.drop_last(), k);
        vstd::arithmetic::mul::lemma_mul_is_associative(k as int, s.last() as int, u.last() as int);
        vstd::arithmetic::mul::lemma_mul_is_distributive_add(
            k as int,
            seq_dot(s.drop_last(), u.drop_last()),
            s.last() * u.last(),
        );
    }
}

/// The minimum of a sequence is no larger than any element.
pub proof fn lemma_seq_min_le_all(s: Seq<i64>)
    requires
        s.len() > 0,
    ensures
        forall|i: int| 0 <= i < s.len() ==> seq_min(s) <= s[i],
    decreases s.len(),
{
    if s.len() > 1 {
        lemma_seq_min_le_all(s.drop_last());
        assert(forall|i: int| 0 <= i < s.len() - 1 ==> s.drop_last()[i] == s[i]);
    }
}

/// The minimum of a sequence is one of its elements.
pub proof fn lemma_seq_min_is_elem(s: Seq<i64>)
    requires
        s.len() > 0,
    ensures
        exists|i: int| 0 <= i < s.len() && seq_min(s) == s[i],
    decreases s.len(),
{
    if s.len() <= 1 {
        assert(seq_min(s) == s[0]);
    } else {
        lemma_seq_min_is_elem(s.drop_last());
        if seq_min(s) == s.last() {
            assert(seq_min(s) == s[s.len() - 1]);
        } else {
            let i = choose|i: int| 0 <= i < s.len() - 1 && seq_min(s.drop_last()) == s.drop_last()[i];
            assert(s.drop_last()[i] == s[i]);
        }
    }
}

/// The maximum of a sequence is no smaller than any element.
pub proof fn lemma_seq_max_ge_all(s: Seq<i64>)
    requires
        s.len() > 0,
    ensures
        forall|i: int| 0 <= i < s.len() ==> s[i] <= seq_max(s),
    decreases s.len(),
{
    if s.len() > 1 {
        lemma_seq_max_ge_all(s.drop_last());
        assert(forall|i: int| 0 <= i < s.len() - 1 ==> s.drop_last()[i] == s[i]);
    }
}

/// The maximum of a sequence is one of its elements.
pub proof fn lemma_seq_max_is_elem(s: Seq<i64>)
    requires
        s.len() > 0,
    ensures
        exists|i: int| 0 <= i < s.len() && seq_max(s) == s[i],
    decreases s.len(),
{
    if s.len() <= 1 {
        assert(seq_max(s) == s[0]);
    } else {
        lemma_seq_max_is_elem(s.drop_last());
        if seq_max(s) == s.last() {
            assert(seq_max(s) == s[s.len() - 1]);
        } else {
            let i = choose|i: int| 0 <= i < s.len() - 1 && seq_max(s.drop_last()) == s.drop_last()[i];
            assert(s.drop_last()[i] == s[i]);
        }
    }
}

/// A sum of elements drawn from `[lo, hi]` lies in `[len * lo, len * hi]`.
pub proof fn lemma_seq_sum_bounds(s: Seq<i64>, lo: int, hi: int)
    requires
        forall|i: int| 0 <= i < s.len() ==> lo <= #[trigger] s[i] <= hi,
    ensures
        s.len() * lo <= seq_sum(s) <= s.len() * hi,
    decreases s.len(),
{
    if s.len() == 0 {
    } else {
        assert(forall|i: int| 0 <= i < s.len() - 1 ==> s.drop_last()[i] == s[i]);
        lemma_seq_sum_bounds(s.drop_last(), lo, hi);
        assert(s.len() * lo == (s.len() - 1) * lo + lo) by (nonlinear_arith);
        assert(s.len() * hi == (s.len() - 1) * hi + hi) by (nonlinear_arith);
    }
}

} // verus!
