//! The catalog of membership-function shapes and their degree evaluation.
//!
//! Each shape maps a crisp fixed-point value to a degree in `[0, SCALE]`.
//! Shape parameters are validated once at construction; a constructed shape
//! is immutable and its degree function is total over the accepted value
//! range.

use vstd::prelude::*;

use crate::errors::FuzzyError;
use crate::fixed::{
    div_trunc, div_trunc_i128, is_degree, is_value, lemma_div_in_degree, lemma_div_trunc_bound,
    lemma_seq_dot_abs_bound, lemma_seq_sum_abs_nonneg, lemma_seq_sum_abs_take, div_nn, seq_dot,
    seq_sum_abs, CONSEQUENT_BOUND, SCALE, VALUE_BOUND,
};

verus! {

/// The capability of evaluating a degree of membership at a crisp value.
pub trait GetDegree {
    /// The mathematical degree function of this shape.
    spec fn spec_degree(&self, x: i64) -> int;

    /// Evaluates the degree of membership at `x`.
    fn get_degree(&self, x: i64) -> (r: i64)
        requires
            is_value(x),
        ensures
            r == self.spec_degree(x),
            is_degree(r),
    ;
}

/// The triangular degree at `x`: `0` outside `[a, c]`, rising linearly on
/// `[a, b]`, falling linearly on `[b, c]`.
pub open spec fn triangle_degree(a: i64, b: i64, c: i64, x: i64) -> int {
    if x < a {
        0
    } else if x < b {
        (x - a) * SCALE / (b - a) as int
    } else if x < c {
        (c - x) * SCALE / (c - b) as int
    } else {
        0
    }
}

/// The trapezoidal degree at `x`: `0` outside `[a, d]`, rising on `[a, b]`,
/// flat at `SCALE` on `[b, c]`, falling on `[c, d]`.
pub open spec fn trapezoid_degree(a: i64, b: i64, c: i64, d: i64, x: i64) -> int {
    if x <= a {
        0
    } else if x <= b {
        (x - a) * SCALE / (b - a) as int
    } else if x <= c {
        SCALE as int
    } else if x <= d {
        (d - x) * SCALE / (d - c) as int
    } else {
        0
    }
}

/// The rising-ramp degree at `x`: `0` below `a`, rising linearly on
/// `[a, b]`, `SCALE` above `b`.
pub open spec fn linear_s_degree(a: i64, b: i64, x: i64) -> int {
    if x < a {
        0
    } else if x < b {
        (x - a) * SCALE / (b - a) as int
    } else {
        SCALE as int
    }
}

/// The falling-ramp degree at `x`: `SCALE` below `a`, falling linearly on
/// `[a, b]`, `0` above `b`.
pub open spec fn linear_z_degree(a: i64, b: i64, x: i64) -> int {
    if x < a {
        SCALE as int
    } else if x < b {
        (b - x) * SCALE / (b - a) as int
    } else {
        0
    }
}

/// The table-driven degree at `x`: the entry of `degrees` whose grid cell
/// `[start + k * step, start + (k + 1) * step)` contains `x`, with the
/// first entry below the grid and the last entry above it.
pub open spec fn custom_degree(start: i64, step: i64, degrees: Seq<i64>, x: i64) -> int {
    if x < start {
        degrees[0] as int
    } else {
        let k = (x - start) / (step as int);
        if k >= degrees.len() {
            degrees[degrees.len() - 1] as int
        } else {
            degrees[k] as int
        }
    }
}

/// The downward-step degree at `x`: `SCALE` up to `a`, `0` above it.
pub open spec fn step_down_degree(a: i64, x: i64) -> int {
    if x > a {
        0
    } else {
        SCALE as int
    }
}

/// The upward-step degree at `x`: `0` up to `a`, `SCALE` above it.
pub open spec fn step_up_degree(a: i64, x: i64) -> int {
    if x > a {
        SCALE as int
    } else {
        0
    }
}

/// A triangular shape: `0` outside `[a, c]`, rising linearly on `[a, b]`,
/// falling linearly on `[b, c]`, `SCALE` at `b`.
#[derive(Debug, Clone, Copy)]
pub struct Triangle {
    a: i64,
    b: i64,
    c: i64,
}

impl Triangle {
    #[verifier::type_invariant]
    spec fn inv(&self) -> bool {
        is_value(self.a) && is_value(self.c) && self.a < self.b < self.c
    }

    /// The left foot of the triangle.
    pub closed spec fn a(&self) -> i64 {
        self.a
    }

    /// The peak of the triangle.
    pub closed spec fn b(&self) -> i64 {
        self.b
    }

    /// The right foot of the triangle.
    pub closed spec fn c(&self) -> i64 {
        self.c
    }

    /// Builds a triangle; fails unless `a < b < c` and all three
    /// parameters are representable.
    pub fn new(a: i64, b: i64, c: i64) -> (r: Result<Self, FuzzyError>)
        ensures
            r is Ok <==> is_value(a) && is_value(b) && is_value(c) && a < b < c,
            r matches Ok(t) ==> t.a() == a && t.b() == b && t.c() == c,
            r is Err ==> r == Err::<Self, FuzzyError>(FuzzyError::InvalidParameters),
    {
        if !(-VALUE_BOUND <= a && a <= VALUE_BOUND && -VALUE_BOUND <= b && b <= VALUE_BOUND
            && -VALUE_BOUND <= c && c <= VALUE_BOUND) {
            return Err(FuzzyError::InvalidParameters);
        }
        if !(a < b && b < c) {
            return Err(FuzzyError::InvalidParameters);
        }
        Ok(Self { a, b, c })
    }
}

impl GetDegree for Triangle {
    open spec fn spec_degree(&self, x: i64) -> int {
        triangle_degree(self.a(), self.b(), self.c(), x)
    }

    fn get_degree(&self, x: i64) -> (r: i64) {
        proof {
            use_type_invariant(self);
        }
        if x < self.a {
            0
        } else if x < self.b {
            proof {
                vstd::arithmetic::mul::lemma_mul_inequality(
                    x - self.a,
                    self.b - self.a,
                    SCALE as int,
                );
                lemma_div_in_degree((x - self.a) * (SCALE as int), self.b - self.a as int);
            }
            div_nn((x - self.a) * SCALE, self.b - self.a)
        } else if x < self.c {
            proof {
                vstd::arithmetic::mul::lemma_mul_inequality(
                    self.c - x,
                    self.c - self.b,
                    SCALE as int,
                );
                lemma_div_in_degree((self.c - x) * (SCALE as int), self.c - self.b as int);
            }
            div_nn((self.c - x) * SCALE, self.c - self.b)
        } else {
            0
        }
    }
}

/// A trapezoidal shape: `0` outside `[a, d]`, rising on `[a, b]`, flat at
/// `SCALE` on `[b, c]`, falling on `[c, d]`.
#[derive(Debug, Clone, Copy)]
pub struct Trapezoid {
    a: i64,
    b: i64,
    c: i64,
    d: i64,
}

impl Trapezoid {
    #[verifier::type_invariant]
    spec fn inv(&self) -> bool {
        is_value(self.a) && is_value(self.d) && self.a <= self.b <= self.c <= self.d
    }

    /// The left foot of the trapezoid.
    pub closed spec fn a(&self) -> i64 {
        self.a
    }

    /// The left shoulder of the trapezoid.
    pub closed spec fn b(&self) -> i64 {
        self.b
    }

    /// The right shoulder of the trapezoid.
    pub closed spec fn c(&self) -> i64 {
        self.c
    }

    /// The right foot of the trapezoid.
    pub closed spec fn d(&self) -> i64 {
        self.d
    }

    /// Builds a trapezoid; fails unless `a <= b <= c <= d` and all four
    /// parameters are representable.
    pub fn new(a: i64, b: i64, c: i64, d: i64) -> (r: Result<Self, FuzzyError>)
        ensures
            r is Ok <==> is_value(a) && is_value(b) && is_value(c) && is_value(d) && a <= b <= c
                <= d,
            r matches Ok(t) ==> t.a() == a && t.b() == b && t.c() == c && t.d() == d,
            r is Err ==> r == Err::<Self, FuzzyError>(FuzzyError::InvalidParameters),
    {
        if !(-VALUE_BOUND <= a && a <= VALUE_BOUND && -VALUE_BOUND <= b && b <= VALUE_BOUND
            && -VALUE_BOUND <= c && c <= VALUE_BOUND && -VALUE_BOUND <= d && d <= VALUE_BOUND) {
            return Err(FuzzyError::InvalidParameters);
        }
        if !(a <= b && b <= c && c <= d) {
            return Err(FuzzyError::InvalidParameters);
        }
        Ok(Self { a, b, c, d })
    }
}

impl GetDegree for Trapezoid {
    open spec fn spec_degree(&self, x: i64) -> int {
        trapezoid_degree(self.a(), self.b(), self.c(), self.d(), x)
    }

    fn get_degree(&self, x: i64) -> (r: i64) {
        proof {
            use_type_invariant(self);
        }
        if x <= self.a {
            0
        } else if x <= self.b {
            proof {
                vstd::arithmetic::mul::lemma_mul_inequality(
                    x - self.a,
                    self.b - self.a,
                    SCALE as int,
                );
                lemma_div_in_degree((x - self.a) * (SCALE as int), self.b - self.a as int);
            }
            div_nn((x - self.a) * SCALE, self.b - self.a)
        } else if x <= self.c {
            SCALE
        } else if x <= self.d {
            proof {
                vstd::arithmetic::mul::lemma_mul_inequality(
                    self.d - x,
                    self.d - self.c,
                    SCALE as int,
                );
                lemma_div_in_degree((self.d - x) * (SCALE as int), self.d - self.c as int);
            }
            div_nn((self.d - x) * SCALE, self.d - self.c)
        } else {
            0
        }
    }
}

/// A rising ramp: `0` below `a`, rising linearly on `[a, b]`, `SCALE` above
/// `b`.
#[derive(Debug, Clone, Copy)]
pub struct LinearS {
    a: i64,
    b: i64,
}

impl LinearS {
    #[verifier::type_invariant]
    spec fn inv(&self) -> bool {
        is_value(self.a) && is_value(self.b) && self.a < self.b
    }

    /// The foot of the ramp.
    pub closed spec fn a(&self) -> i64 {
        self.a
    }

    /// The shoulder of the ramp.
    pub closed spec fn b(&self) -> i64 {
        self.b
    }

    /// Builds a rising ramp; fails unless `a < b` and both parameters are
    /// representable.
    pub fn new(a: i64, b: i64) -> (r: Result<Self, FuzzyError>)
        ensures
            r is Ok <==> is_value(a) && is_value(b) && a < b,
            r matches Ok(t) ==> t.a() == a && t.b() == b,
            r is Err ==> r == Err::<Self, FuzzyError>(FuzzyError::InvalidParameters),
    {
        if !(-VALUE_BOUND <= a && a <= VALUE_BOUND && -VALUE_BOUND <= b && b <= VALUE_BOUND
            && a < b) {
            return Err(FuzzyError::InvalidParameters);
        }
        Ok(Self { a, b })
    }
}

impl GetDegree for LinearS {
    open spec fn spec_degree(&self, x: i64) -> int {
        linear_s_degree(self.a(), self.b(), x)
    }

    fn get_degree(&self, x: i64) -> (r: i64) {
        proof {
            use_type_invariant(self);
        }
        if x < self.a {
            0
        } else if x < self.b {
            proof {
                vstd::arithmetic::mul::lemma_mul_inequality(
                    x - self.a,
                    self.b - self.a,
                    SCALE as int,
                );
                lemma_div_in_degree((x - self.a) * (SCALE as int), self.b - self.a as int);
            }
            div_nn((x - self.a) * SCALE, self.b - self.a)
        } else {
            SCALE
        }
    }
}

/// A falling ramp: `SCALE` below `a`, falling linearly on `[a, b]`, `0`
/// above `b`.
#[derive(Debug, Clone, Copy)]
pub struct LinearZ {
    a: i64,
    b: i64,
}

impl LinearZ {
    #[verifier::type_invariant]
    spec fn inv(&self) -> bool {
        is_value(self.a) && is_value(self.b) && self.a < self.b
    }

    /// The shoulder of the ramp.
    pub closed spec fn a(&self) -> i64 {
        self.a
    }

    /// The foot of the ramp.
    pub closed spec fn b(&self) -> i64 {
        self.b
    }

    /// Builds a falling ramp; fails unless `a < b` and both parameters are
    /// representable.
    pub fn new(a: i64, b: i64) -> (r: Result<Self, FuzzyError>)
        ensures
            r is Ok <==> is_value(a) && is_value(b) && a < b,
            r matches Ok(t) ==> t.a() == a && t.b() == b,
            r is Err ==> r == Err::<Self, FuzzyError>(FuzzyError::InvalidParameters),
    {
        if !(-VALUE_BOUND <= a && a <= VALUE_BOUND && -VALUE_BOUND <= b && b <= VALUE_BOUND
            && a < b) {
            return Err(FuzzyError::InvalidParameters);
        }
        Ok(Self { a, b })
    }
}

impl GetDegree for LinearZ {
    open spec fn spec_degree(&self, x: i64) -> int {
        linear_z_degree(self.a(), self.b(), x)
    }

    fn get_degree(&self, x: i64) -> (r: i64) {
        proof {
            use_type_invariant(self);
        }
        if x < self.a {
            SCALE
        } else if x < self.b {
            proof {
                vstd::arithmetic::mul::lemma_mul_inequality(
                    self.b - x,
                    self.b - self.a,
                    SCALE as int,
                );
                lemma_div_in_degree((self.b - x) * (SCALE as int), self.b - self.a as int);
            }
            div_nn((self.b - x) * SCALE, self.b - self.a)
        } else {
            0
        }
    }
}

/// A downward step: `SCALE` up to `a`, `0` above it.
#[derive(Debug, Clone, Copy)]
pub struct StepDown {
    a: i64,
}

impl StepDown {
    #[verifier::type_invariant]
    spec fn inv(&self) -> bool {
        is_value(self.a)
    }

    /// The step position.
    pub closed spec fn a(&self) -> i64 {
        self.a
    }

    /// Builds a downward step; fails unless the parameter is representable.
    pub fn new(a: i64) -> (r: Result<Self, FuzzyError>)
        ensures
            r is Ok <==> is_value(a),
            r matches Ok(t) ==> t.a() == a,
            r is Err ==> r == Err::<Self, FuzzyError>(FuzzyError::InvalidParameters),
    {
        if !(-VALUE_BOUND <= a && a <= VALUE_BOUND) {
            return Err(FuzzyError::InvalidParameters);
        }
        Ok(Self { a })
    }
}

impl GetDegree for StepDown {
    open spec fn spec_degree(&self, x: i64) -> int {
        step_down_degree(self.a(), x)
    }

    fn get_degree(&self, x: i64) -> (r: i64) {
        if x > self.a {
            0
        } else {
            SCALE
        }
    }
}

/// An upward step: `0` up to `a`, `SCALE` above it.
#[derive(Debug, Clone, Copy)]
pub struct StepUp {
    a: i64,
}

impl StepUp {
    #[verifier::type_invariant]
    spec fn inv(&self) -> bool {
        is_value(self.a)
    }

    /// The step position.
    pub closed spec fn a(&self) -> i64 {
        self.a
    }

    /// Builds an upward step; fails unless the parameter is representable.
    pub fn new(a: i64) -> (r: Result<Self, FuzzyError>)
        ensures
            r is Ok <==> is_value(a),
            r matches Ok(t) ==> t.a() == a,
            r is Err ==> r == Err::<Self, FuzzyError>(FuzzyError::InvalidParameters),
    {
        if !(-VALUE_BOUND <= a && a <= VALUE_BOUND) {
            return Err(FuzzyError::InvalidParameters);
        }
        Ok(Self { a })
    }
}

impl GetDegree for StepUp {
    open spec fn spec_degree(&self, x: i64) -> int {
        step_up_degree(self.a(), x)
    }

    fn get_degree(&self, x: i64) -> (r: i64) {
        if x > self.a {
            SCALE
        } else {
            0
        }
    }
}

/// A user-supplied membership shape, given as a degree table over an
/// evenly spaced grid: the escape hatch for curves outside the built-in
/// catalog.  A verified library cannot hold a bare callable, so the custom
/// shape is the function's table of values instead: `degrees[k]` is the
/// degree on the grid cell starting at `start + k * step`, the first entry
/// extends below the grid and the last above it.
#[derive(Debug)]
pub struct Custom {
    name: String,
    start: i64,
    step: i64,
    degrees: Vec<i64>,
}

impl Custom {
    #[verifier::type_invariant]
    spec fn inv(&self) -> bool {
        is_value(self.start) && 0 < self.step <= VALUE_BOUND && 1 <= self.degrees@.len()
            <= crate::fixed::MAX_UNIVERSE && forall|i: int|
            0 <= i < self.degrees@.len() ==> is_degree(#[trigger] self.degrees@[i])
    }

    /// The diagnostic name.
    pub closed spec fn spec_name(&self) -> Seq<char> {
        self.name@
    }

    /// The first grid point.
    pub closed spec fn start(&self) -> i64 {
        self.start
    }

    /// The grid spacing.
    pub closed spec fn step(&self) -> i64 {
        self.step
    }

    /// The degree table, one entry per grid cell.
    pub closed spec fn spec_degrees(&self) -> Seq<i64> {
        self.degrees@
    }

    /// Builds a table-driven shape; fails unless the grid is representable,
    /// the spacing strictly positive, and the table non-empty with every
    /// entry a degree in `[0, SCALE]`.
    pub fn new(name: String, start: i64, step: i64, degrees: Vec<i64>) -> (r: Result<
        Self,
        FuzzyError,
    >)
        ensures
            r is Ok <==> is_value(start) && 0 < step <= VALUE_BOUND && 1 <= degrees@.len()
                <= crate::fixed::MAX_UNIVERSE && (forall|i: int|
                0 <= i < degrees@.len() ==> is_degree(#[trigger] degrees@[i])),
            r matches Ok(m) ==> m.spec_name() == name@ && m.start() == start && m.step() == step
                && m.spec_degrees() == degrees@,
            r is Err ==> r == Err::<Self, FuzzyError>(FuzzyError::InvalidParameters),
    {
        if !(-VALUE_BOUND <= start && start <= VALUE_BOUND && 0 < step && step <= VALUE_BOUND
            && 1 <= degrees.len() && degrees.len() <= crate::fixed::MAX_UNIVERSE) {
            return Err(FuzzyError::InvalidParameters);
        }
        let mut i: usize = 0;
        while i < degrees.len()
            invariant
                0 <= i <= degrees@.len(),
                forall|j: int| 0 <= j < i ==> is_degree(#[trigger] degrees@[j]),
            decreases degrees@.len() - i,
        {
            if !(0 <= degrees[i] && degrees[i] <= SCALE) {
                return Err(FuzzyError::InvalidParameters);
            }
            i = i + 1;
        }
        Ok(Self { name, start, step, degrees })
    }

    /// The diagnostic name.
    pub fn get_name(&self) -> (r: String)
        ensures
            r@ == self.spec_name(),
    {
        self.name.clone()
    }
}

impl GetDegree for Custom {
    open spec fn spec_degree(&self, x: i64) -> int {
        custom_degree(self.start(), self.step(), self.spec_degrees(), x)
    }

    fn get_degree(&self, x: i64) -> (r: i64) {
        proof {
            use_type_invariant(self);
        }
        if x < self.start {
            self.degrees[0]
        } else {
            let k: i64 = div_nn(x - self.start, self.step);
            if k >= self.degrees.len() as i64 {
                self.degrees[self.degrees.len() - 1]
            } else {
                self.degrees[k as usize]
            }
        }
    }
}

/// Distance of `x` from `m`.
pub open spec fn dist(m: i64, x: i64) -> int {
    if x >= m {
        x - m
    } else {
        m - x
    }
}

/// Squares a fixed-point degree.
pub open spec fn sq_fix(d: int) -> int {
    d * d / (SCALE as int)
}

/// Denominator of the cubic front end of the fixed-point decaying
/// exponential: the image of `1 + v + v^2/2 + v^3/6`.
pub open spec fn exp_cubic_den(v: int) -> int {
    SCALE + v + v * v / (2 * SCALE) + v * v * v / (6 * SCALE * SCALE)
}

/// Fixed-point image of `e^(-ratio^2 / (2 SCALE^2))`, the Gaussian fall-off
/// at normalized distance `ratio`: a reciprocal cubic on a 32-fold reduced
/// argument, squared back five times.  Zero from `8 SCALE` on, where the
/// true value is below the fixed-point resolution.
pub open spec fn exp_neg_of_ratio(ratio: int) -> int {
    if ratio >= 8 * SCALE {
        0
    } else {
        let u = ratio * ratio / (2 * SCALE);
        let v = u / 32;
        sq_fix(sq_fix(sq_fix(sq_fix(sq_fix(SCALE * SCALE / exp_cubic_den(v))))))
    }
}

/// Normalized distance of `x` from `mean` in units of `sigma`.
pub open spec fn gauss_ratio(mean: i64, sigma: i64, x: i64) -> int {
    dist(mean, x) * SCALE / (sigma as int)
}

/// The Gaussian degree at `x` for the given mean and spread.
pub open spec fn gaussian_degree(mean: i64, sigma: i64, x: i64) -> int {
    exp_neg_of_ratio(gauss_ratio(mean, sigma, x))
}

proof fn lemma_sq_fix_monotone(d1: int, d2: int)
    requires
        0 <= d1 <= d2,
    ensures
        0 <= sq_fix(d1) <= sq_fix(d2),
{
    vstd::arithmetic::mul::lemma_mul_nonnegative(d1, d1);
    vstd::arithmetic::mul::lemma_mul_upper_bound(d1, d2, d1, d2);
    vstd::arithmetic::div_mod::lemma_div_is_ordered(d1 * d1, d2 * d2, SCALE as int);
    vstd::arithmetic::div_mod::lemma_div_pos_is_pos(d1 * d1, SCALE as int);
}

proof fn lemma_sq_fix_degree(d: int)
    requires
        0 <= d <= SCALE,
    ensures
        0 <= sq_fix(d) <= SCALE,
{
    vstd::arithmetic::mul::lemma_mul_nonnegative(d, d);
    vstd::arithmetic::mul::lemma_mul_upper_bound(d, SCALE as int, d, SCALE as int);
    vstd::arithmetic::div_mod::lemma_multiply_divide_le(d * d, SCALE as int, SCALE as int);
    vstd::arithmetic::div_mod::lemma_div_pos_is_pos(d * d, SCALE as int);
}

proof fn lemma_exp_parts(ratio: int)
    requires
        0 <= ratio < 8 * SCALE,
    ensures
        0 <= ratio * ratio / (2 * SCALE) < 32 * SCALE,
        0 <= (ratio * ratio / (2 * SCALE)) / 32 < SCALE,
        exp_cubic_den((ratio * ratio / (2 * SCALE)) / 32) >= SCALE,
{
    let u = ratio * ratio / (2 * SCALE);
    let v = u / 32;
    vstd::arithmetic::mul::lemma_mul_nonnegative(ratio, ratio);
    vstd::arithmetic::mul::lemma_mul_upper_bound(ratio, 8 * SCALE - 1, ratio, 8 * SCALE - 1);
    assert((8 * SCALE - 1) * (8 * SCALE - 1) < (2 * SCALE as int) * (32 * SCALE as int))
        by (nonlinear_arith);
    vstd::arithmetic::div_mod::lemma_div_pos_is_pos(ratio * ratio, 2 * SCALE as int);
    vstd::arithmetic::div_mod::lemma_multiply_divide_lt(
        ratio * ratio,
        2 * SCALE as int,
        32 * SCALE as int,
    );
    vstd::arithmetic::div_mod::lemma_div_pos_is_pos(u, 32);
    vstd::arithmetic::div_mod::lemma_multiply_divide_lt(u, 32, SCALE as int);
    vstd::arithmetic::mul::lemma_mul_nonnegative(v, v);
    vstd::arithmetic::mul::lemma_mul_nonnegative(v * v, v);
    vstd::arithmetic::div_mod::lemma_div_pos_is_pos(v * v, 2 * SCALE as int);
    vstd::arithmetic::div_mod::lemma_div_pos_is_pos(v * v * v, 6 * SCALE * SCALE as int);
}

/// The fixed-point decaying exponential is a degree.
pub proof fn lemma_exp_neg_bounds(ratio: int)
    requires
        0 <= ratio,
    ensures
        0 <= exp_neg_of_ratio(ratio) <= SCALE,
{
    if ratio < 8 * SCALE {
        let u = ratio * ratio / (2 * SCALE);
        let v = u / 32;
        let den = exp_cubic_den(v);
        lemma_exp_parts(ratio);
        vstd::arithmetic::mul::lemma_mul_inequality(SCALE as int, den, SCALE as int);
        vstd::arithmetic::div_mod::lemma_multiply_divide_le(
            (SCALE * SCALE) as int,
            den,
            SCALE as int,
        );
        vstd::arithmetic::div_mod::lemma_div_pos_is_pos((SCALE * SCALE) as int, den);
        lemma_sq_fix_degree(SCALE * SCALE / den);
        lemma_sq_fix_degree(sq_fix(SCALE * SCALE / den));
        lemma_sq_fix_degree(sq_fix(sq_fix(SCALE * SCALE / den)));
        lemma_sq_fix_degree(sq_fix(sq_fix(sq_fix(SCALE * SCALE / den))));
        lemma_sq_fix_degree(sq_fix(sq_fix(sq_fix(sq_fix(SCALE * SCALE / den)))));
    }
}

/// The fixed-point decaying exponential never rises with the normalized
/// distance.
pub proof fn lemma_exp_neg_monotone(r1: int, r2: int)
    requires
        0 <= r1 <= r2,
    ensures
        exp_neg_of_ratio(r1) >= exp_neg_of_ratio(r2),
{
    lemma_exp_neg_bounds(r1);
    lemma_exp_neg_bounds(r2);
    if r2 < 8 * SCALE {
        let u1 = r1 * r1 / (2 * SCALE);
        let v1 = u1 / 32;
        let den1 = exp_cubic_den(v1);
        let u2 = r2 * r2 / (2 * SCALE);
        let v2 = u2 / 32;
        let den2 = exp_cubic_den(v2);
        lemma_exp_parts(r1);
        lemma_exp_parts(r2);
        vstd::arithmetic::mul::lemma_mul_upper_bound(r1, r2, r1, r2);
        vstd::arithmetic::div_mod::lemma_div_is_ordered(r1 * r1, r2 * r2, 2 * SCALE as int);
        vstd::arithmetic::div_mod::lemma_div_is_ordered(u1, u2, 32);
        vstd::arithmetic::mul::lemma_mul_upper_bound(v1, v2, v1, v2);
        vstd::arithmetic::div_mod::lemma_div_is_ordered(v1 * v1, v2 * v2, 2 * SCALE as int);
        vstd::arithmetic::mul::lemma_mul_nonnegative(v1, v1);
        vstd::arithmetic::mul::lemma_mul_upper_bound(v1 * v1, v2 * v2, v1, v2);
        vstd::arithmetic::div_mod::lemma_div_is_ordered(
            v1 * v1 * v1,
            v2 * v2 * v2,
            6 * SCALE * SCALE as int,
        );
        vstd::arithmetic::div_mod::lemma_div_is_ordered_by_denominator(
            (SCALE * SCALE) as int,
            den1,
            den2,
        );
        let d1 = SCALE * SCALE / den1;
        let d2 = SCALE * SCALE / den2;
        vstd::arithmetic::div_mod::lemma_div_pos_is_pos((SCALE * SCALE) as int, den2);
        lemma_sq_fix_monotone(d2, d1);
        lemma_sq_fix_monotone(sq_fix(d2), sq_fix(d1));
        lemma_sq_fix_monotone(sq_fix(sq_fix(d2)), sq_fix(sq_fix(d1)));
        lemma_sq_fix_monotone(sq_fix(sq_fix(sq_fix(d2))), sq_fix(sq_fix(sq_fix(d1))));
        lemma_sq_fix_monotone(
            sq_fix(sq_fix(sq_fix(sq_fix(d2)))),
            sq_fix(sq_fix(sq_fix(sq_fix(d1)))),
        );
    }
}

/// Evaluates the fixed-point decaying exponential at a normalized distance.
fn exp_neg(ratio: i64) -> (r: i64)
    requires
        0 <= ratio,
    ensures
        r == exp_neg_of_ratio(ratio as int),
        is_degree(r),
{
    proof {
        lemma_exp_neg_bounds(ratio as int);
    }
    if ratio >= 8 * SCALE {
        return 0;
    }
    proof {
        lemma_exp_parts(ratio as int);
        vstd::arithmetic::mul::lemma_mul_nonnegative(ratio as int, ratio as int);
        vstd::arithmetic::mul::lemma_mul_upper_bound(
            ratio as int,
            8 * SCALE - 1,
            ratio as int,
            8 * SCALE - 1,
        );
    }
    let u: i64 = div_nn(ratio * ratio, 2 * SCALE);
    let v: i64 = div_nn(u, 32);
    proof {
        vstd::arithmetic::mul::lemma_mul_nonnegative(v as int, v as int);
        vstd::arithmetic::mul::lemma_mul_upper_bound(v as int, SCALE as int, v as int, SCALE as int);
        vstd::arithmetic::mul::lemma_mul_nonnegative((v * v) as int, v as int);
        vstd::arithmetic::mul::lemma_mul_upper_bound(
            (v * v) as int,
            (SCALE * SCALE) as int,
            v as int,
            SCALE as int,
        );
        vstd::arithmetic::div_mod::lemma_div_nonincreasing((v * v) as int, 2 * SCALE as int);
        vstd::arithmetic::div_mod::lemma_div_nonincreasing((v * v * v) as int, 6 * SCALE * SCALE as int);
    }
    let den: i64 = SCALE + v + div_nn(v * v, 2 * SCALE) + div_nn(v * v * v, 6 * SCALE * SCALE);
    proof {
        vstd::arithmetic::mul::lemma_mul_inequality(SCALE as int, den as int, SCALE as int);
        vstd::arithmetic::div_mod::lemma_multiply_divide_le(
            (SCALE * SCALE) as int,
            den as int,
            SCALE as int,
        );
    }
    let d0: i64 = div_nn(SCALE * SCALE, den);
    proof {
        lemma_sq_fix_degree(d0 as int);
        lemma_sq_fix_degree(sq_fix(d0 as int));
        lemma_sq_fix_degree(sq_fix(sq_fix(d0 as int)));
        lemma_sq_fix_degree(sq_fix(sq_fix(sq_fix(d0 as int))));
        vstd::arithmetic::mul::lemma_mul_nonnegative(d0 as int, d0 as int);
        vstd::arithmetic::mul::lemma_mul_upper_bound(d0 as int, SCALE as int, d0 as int, SCALE as int);
    }
    let d1: i64 = div_nn(d0 * d0, SCALE);
    proof {
        vstd::arithmetic::mul::lemma_mul_upper_bound(d1 as int, SCALE as int, d1 as int, SCALE as int);
    }
    let d2: i64 = div_nn(d1 * d1, SCALE);
    proof {
        vstd::arithmetic::mul::lemma_mul_upper_bound(d2 as int, SCALE as int, d2 as int, SCALE as int);
    }
    let d3: i64 = div_nn(d2 * d2, SCALE);
    proof {
        vstd::arithmetic::mul::lemma_mul_upper_bound(d3 as int, SCALE as int, d3 as int, SCALE as int);
    }
    let d4: i64 = div_nn(d3 * d3, SCALE);
    proof {
        vstd::arithmetic::mul::lemma_mul_upper_bound(d4 as int, SCALE as int, d4 as int, SCALE as int);
    }
    let d5: i64 = div_nn(d4 * d4, SCALE);
    d5
}

/// A Gaussian shape: full degree at `mean`, falling off with the squared
/// distance in units of `variance` (the spread), never exactly zero in the
/// reals and therefore cut off only below the fixed-point resolution.
#[derive(Debug, Clone, Copy)]
pub struct Gaussian {
    mean: i64,
    variance: i64,
}

impl Gaussian {
    #[verifier::type_invariant]
    spec fn inv(&self) -> bool {
        is_value(self.mean) && 0 < self.variance <= VALUE_BOUND
    }

    /// The center of the bell.
    pub closed spec fn mean(&self) -> i64 {
        self.mean
    }

    /// The spread of the bell.
    pub closed spec fn variance(&self) -> i64 {
        self.variance
    }

    /// Builds a Gaussian; fails unless the spread is strictly positive and
    /// both parameters are representable.
    pub fn new(mean: i64, variance: i64) -> (r: Result<Self, FuzzyError>)
        ensures
            r is Ok <==> is_value(mean) && 0 < variance <= VALUE_BOUND,
            r matches Ok(g) ==> g.mean() == mean && g.variance() == variance,
            r is Err ==> r == Err::<Self, FuzzyError>(FuzzyError::InvalidParameters),
    {
        if !(-VALUE_BOUND <= mean && mean <= VALUE_BOUND && 0 < variance
            && variance <= VALUE_BOUND) {
            return Err(FuzzyError::InvalidParameters);
        }
        Ok(Self { mean, variance })
    }
}

impl GetDegree for Gaussian {
    open spec fn spec_degree(&self, x: i64) -> int {
        gaussian_degree(self.mean(), self.variance(), x)
    }

    fn get_degree(&self, x: i64) -> (r: i64) {
        proof {
            use_type_invariant(self);
        }
        eval_gaussian(self.mean, self.variance, x)
    }
}

/// A plateau between two Gaussian flanks: the left flank below `mean1`,
/// full degree on `[mean1, mean2]`, the right flank above `mean2`.
#[derive(Debug, Clone, Copy)]
pub struct DoubleGaussian {
    mean1: i64,
    variance1: i64,
    mean2: i64,
    variance2: i64,
}

impl DoubleGaussian {
    #[verifier::type_invariant]
    spec fn inv(&self) -> bool {
        is_value(self.mean1) && is_value(self.mean2) && self.mean1 <= self.mean2 && 0
            < self.variance1 <= VALUE_BOUND && 0 < self.variance2 <= VALUE_BOUND
    }

    /// The left edge of the plateau.
    pub closed spec fn mean1(&self) -> i64 {
        self.mean1
    }

    /// The spread of the left flank.
    pub closed spec fn variance1(&self) -> i64 {
        self.variance1
    }

    /// The right edge of the plateau.
    pub closed spec fn mean2(&self) -> i64 {
        self.mean2
    }

    /// The spread of the right flank.
    pub closed spec fn variance2(&self) -> i64 {
        self.variance2
    }

    /// Builds a two-sided Gaussian; fails unless `mean1 <= mean2`, both
    /// spreads are strictly positive and all parameters are representable.
    pub fn new(mean1: i64, variance1: i64, mean2: i64, variance2: i64) -> (r: Result<
        Self,
        FuzzyError,
    >)
        ensures
            r is Ok <==> is_value(mean1) && is_value(mean2) && mean1 <= mean2 && 0 < variance1
                <= VALUE_BOUND && 0 < variance2 <= VALUE_BOUND,
            r matches Ok(g) ==> g.mean1() == mean1 && g.variance1() == variance1 && g.mean2()
                == mean2 && g.variance2() == variance2,
            r is Err ==> r == Err::<Self, FuzzyError>(FuzzyError::InvalidParameters),
    {
        if !(-VALUE_BOUND <= mean1 && mean1 <= VALUE_BOUND && -VALUE_BOUND <= mean2
            && mean2 <= VALUE_BOUND && mean1 <= mean2 && 0 < variance1
            && variance1 <= VALUE_BOUND && 0 < variance2 && variance2 <= VALUE_BOUND) {
            return Err(FuzzyError::InvalidParameters);
        }
        Ok(Self { mean1, variance1, mean2, variance2 })
    }
}

/// The two-sided Gaussian degree at `x`: the left flank below `mean1`,
/// full degree on `[mean1, mean2]`, the right flank above `mean2`.
pub open spec fn double_gaussian_degree(
    mean1: i64,
    variance1: i64,
    mean2: i64,
    variance2: i64,
    x: i64,
) -> int {
    if x < mean1 {
        gaussian_degree(mean1, variance1, x)
    } else if x < mean2 {
        SCALE as int
    } else {
        gaussian_degree(mean2, variance2, x)
    }
}

impl GetDegree for DoubleGaussian {
    open spec fn spec_degree(&self, x: i64) -> int {
        double_gaussian_degree(self.mean1(), self.variance1(), self.mean2(), self.variance2(), x)
    }

    fn get_degree(&self, x: i64) -> (r: i64) {
        proof {
            use_type_invariant(self);
        }
        if x < self.mean1 {
            eval_gaussian(self.mean1, self.variance1, x)
        } else if x < self.mean2 {
            SCALE
        } else {
            eval_gaussian(self.mean2, self.variance2, x)
        }
    }
}

/// Largest accepted Bell exponent.
pub const BELL_SHAPE_BOUND: u32 = 1_000_000_000;

/// Fixed-point image of `ratio^k`, capped once it reaches `SCALE * SCALE`
/// (where the resulting degree has already fallen below the fixed-point
/// resolution).
pub open spec fn bell_pow(ratio: int, k: nat) -> int
    decreases k,
{
    if k == 0 {
        SCALE as int
    } else {
        let p = bell_pow(ratio, (k - 1) as nat);
        if p >= SCALE * SCALE {
            p
        } else {
            p * ratio / (SCALE as int)
        }
    }
}

/// The generalized bell degree at `x`: the image of
/// `1 / (1 + |(x - center) / width|^(2 shape))`.
pub open spec fn bell_degree(width: i64, shape: u32, center: i64, x: i64) -> int {
    let ratio = dist(center, x) * SCALE / (width as int);
    let p = bell_pow(ratio, 2 * shape as nat);
    if p >= SCALE * SCALE {
        0
    } else {
        SCALE * SCALE / (SCALE + p)
    }
}

proof fn lemma_bell_pow_capped(ratio: int, i: nat, j: nat)
    requires
        i <= j,
        bell_pow(ratio, i) >= SCALE * SCALE,
    ensures
        bell_pow(ratio, j) >= SCALE * SCALE,
    decreases j,
{
    if i < j {
        lemma_bell_pow_capped(ratio, i, (j - 1) as nat);
    }
}

/// A generalized bell shape: full degree at `center`, reciprocal-polynomial
/// fall-off of exponent `2 * shape` at distance `width`.
#[derive(Debug, Clone, Copy)]
pub struct Bell {
    width: i64,
    shape: u32,
    center: i64,
}

impl Bell {
    #[verifier::type_invariant]
    spec fn inv(&self) -> bool {
        0 < self.width <= VALUE_BOUND && is_value(self.center) && 1 <= self.shape
            <= BELL_SHAPE_BOUND
    }

    /// The half-width of the bell.
    pub closed spec fn width(&self) -> i64 {
        self.width
    }

    /// The exponent parameter of the bell.
    pub closed spec fn shape(&self) -> u32 {
        self.shape
    }

    /// The center of the bell.
    pub closed spec fn center(&self) -> i64 {
        self.center
    }

    /// Builds a bell; fails unless the width is strictly positive, the
    /// exponent is in `[1, BELL_SHAPE_BOUND]` and the parameters are
    /// representable.
    pub fn new(width: i64, shape: u32, center: i64) -> (r: Result<Self, FuzzyError>)
        ensures
            r is Ok <==> 0 < width <= VALUE_BOUND && is_value(center) && 1 <= shape
                <= BELL_SHAPE_BOUND,
            r matches Ok(g) ==> g.width() == width && g.shape() == shape && g.center() == center,
            r is Err ==> r == Err::<Self, FuzzyError>(FuzzyError::InvalidParameters),
    {
        if !(0 < width && width <= VALUE_BOUND && -VALUE_BOUND <= center && center <= VALUE_BOUND
            && 1 <= shape && shape <= BELL_SHAPE_BOUND) {
            return Err(FuzzyError::InvalidParameters);
        }
        Ok(Self { width, shape, center })
    }
}

impl GetDegree for Bell {
    open spec fn spec_degree(&self, x: i64) -> int {
        bell_degree(self.width(), self.shape(), self.center(), x)
    }

    fn get_degree(&self, x: i64) -> (r: i64) {
        proof {
            use_type_invariant(self);
        }
        let t: i64 = if x >= self.center {
            x - self.center
        } else {
            self.center - x
        };
        proof {
            vstd::arithmetic::mul::lemma_mul_nonnegative(t as int, SCALE as int);
            vstd::arithmetic::mul::lemma_mul_inequality(t as int, 2 * VALUE_BOUND, SCALE as int);
        }
        let ratio: i64 = div_nn(t * SCALE, self.width);
        let n: u32 = 2 * self.shape;
        let mut p: i64 = SCALE;
        let mut i: u32 = 0;
        while i < n
            invariant
                i <= n,
                n == 2 * self.shape(),
                1 <= self.shape() <= BELL_SHAPE_BOUND,
                0 <= ratio <= 2_000_000_000_000_000_000,
                ratio == dist(self.center(), x) * SCALE / (self.width() as int),
                p == bell_pow(ratio as int, i as nat),
                0 <= p < SCALE * SCALE,
            decreases n - i,
        {
            proof {
                vstd::arithmetic::mul::lemma_mul_nonnegative(p as int, ratio as int);
                vstd::arithmetic::mul::lemma_mul_upper_bound(
                    p as int,
                    (SCALE * SCALE) as int,
                    ratio as int,
                    2_000_000_000_000_000_000,
                );
            }
            let wide: i128 = (p as i128) * (ratio as i128);
            let pn: i128 = crate::fixed::div_trunc_i128(wide, SCALE as i128);
            if pn >= (SCALE as i128) * (SCALE as i128) {
                proof {
                    lemma_bell_pow_capped(ratio as int, (i + 1) as nat, n as nat);
                }
                return 0;
            }
            proof {
                vstd::arithmetic::div_mod::lemma_div_pos_is_pos(wide as int, SCALE as int);
            }
            p = pn as i64;
            i = i + 1;
        }
        proof {
            vstd::arithmetic::mul::lemma_mul_inequality(SCALE as int, SCALE + p, SCALE as int);
            vstd::arithmetic::div_mod::lemma_multiply_divide_le(
                (SCALE * SCALE) as int,
                SCALE + p as int,
                SCALE as int,
            );
        }
        div_nn(SCALE * SCALE, SCALE + p)
    }
}

/// The catalog of membership-function shapes: the built-in curves, plus
/// the table-driven [`Custom`] escape hatch for user-supplied shapes.
#[derive(Debug)]
pub enum Kind {
    Triangle(Triangle),
    Trapezoid(Trapezoid),
    LinearZ(LinearZ),
    LinearS(LinearS),
    StepDown(StepDown),
    StepUp(StepUp),
    Gaussian(Gaussian),
    DoubleGaussian(DoubleGaussian),
    Bell(Bell),
    Custom(Custom),
}

/// Shorthand for the shape catalog.
pub type MFKind = Kind;

impl GetDegree for Kind {
    open spec fn spec_degree(&self, x: i64) -> int {
        match self {
            Kind::Triangle(mf) => mf.spec_degree(x),
            Kind::Trapezoid(mf) => mf.spec_degree(x),
            Kind::LinearZ(mf) => mf.spec_degree(x),
            Kind::LinearS(mf) => mf.spec_degree(x),
            Kind::StepDown(mf) => mf.spec_degree(x),
            Kind::StepUp(mf) => mf.spec_degree(x),
            Kind::Gaussian(mf) => mf.spec_degree(x),
            Kind::DoubleGaussian(mf) => mf.spec_degree(x),
            Kind::Bell(mf) => mf.spec_degree(x),
            Kind::Custom(mf) => mf.spec_degree(x),
        }
    }

    fn get_degree(&self, x: i64) -> (r: i64) {
        match self {
            Kind::Triangle(mf) => mf.get_degree(x),
            Kind::Trapezoid(mf) => mf.get_degree(x),
            Kind::LinearZ(mf) => mf.get_degree(x),
            Kind::LinearS(mf) => mf.get_degree(x),
            Kind::StepDown(mf) => mf.get_degree(x),
            Kind::StepUp(mf) => mf.get_degree(x),
            Kind::Gaussian(mf) => mf.get_degree(x),
            Kind::DoubleGaussian(mf) => mf.get_degree(x),
            Kind::Bell(mf) => mf.get_degree(x),
            Kind::Custom(mf) => mf.get_degree(x),
        }
    }
}

/// A named membership function over a shape from the catalog.
#[derive(Debug)]
pub struct MembershipFunction {
    name: String,
    kind: Kind,
}

/// Shorthand for a membership function.
pub type MF = MembershipFunction;

impl MembershipFunction {
    /// The diagnostic name.
    pub closed spec fn spec_name(&self) -> Seq<char> {
        self.name@
    }

    /// The shape this function evaluates.
    pub closed spec fn kind(&self) -> Kind {
        self.kind
    }

    /// Wraps a shape under a diagnostic name.
    pub fn new(name: String, kind: Kind) -> (r: Self)
        ensures
            r.spec_name() == name@,
            r.kind() == kind,
    {
        MF { name, kind }
    }

    /// The diagnostic name.
    pub fn get_name(&self) -> (r: &String)
        ensures
            r@ == self.spec_name(),
    {
        &self.name
    }
}

impl GetDegree for MembershipFunction {
    open spec fn spec_degree(&self, x: i64) -> int {
        self.kind().spec_degree(x)
    }

    fn get_degree(&self, x: i64) -> (r: i64) {
        self.kind.get_degree(x)
    }
}

/// Evaluates the Gaussian degree at `x` for the given mean and spread.
pub(crate) fn eval_gaussian(mean: i64, sigma: i64, x: i64) -> (r: i64)
    requires
        is_value(mean),
        0 < sigma <= VALUE_BOUND,
        is_value(x),
    ensures
        r == gaussian_degree(mean, sigma, x),
        is_degree(r),
{
    let t: i64 = if x >= mean {
        x - mean
    } else {
        mean - x
    };
    proof {
        vstd::arithmetic::mul::lemma_mul_nonnegative(t as int, SCALE as int);
        vstd::arithmetic::mul::lemma_mul_inequality(t as int, 2 * VALUE_BOUND, SCALE as int);
    }
    let ratio: i64 = div_nn(t * SCALE, sigma);
    exp_neg(ratio)
}

/// The value a linear consequent assigns to an input vector: the scaled dot
/// product of the leading coefficients with the inputs, plus the trailing
/// intercept.
pub open spec fn spec_linear(coefficients: Seq<i64>, input: Seq<i64>) -> int {
    div_trunc(seq_dot(coefficients.drop_last(), input), SCALE as int)
        + coefficients.last()
}

/// A TSK consequent: a constant, or a linear function of the inputs whose
/// last coefficient is the intercept.
///
/// The catalog is closed: a user-supplied callable of the full input
/// vector cannot carry a verified contract, so there is no custom variant
/// here.  Custom *shapes* for input variables are available as the
/// table-driven [`Custom`] membership function; custom Mamdani output
/// shapes as a raw [`crate::membership_ranges::MembershipRange`] degree
/// vector.
#[derive(Debug, Clone)]
pub enum TSKMembershipFunction {
    Constant(i64),
    Linear(Vec<i64>),
}

impl TSKMembershipFunction {
    /// Well-formedness: the constant, or the coefficient magnitude mass,
    /// stays within the representable range.
    pub open spec fn wf(&self) -> bool {
        match self {
            TSKMembershipFunction::Constant(c) => is_value(*c),
            TSKMembershipFunction::Linear(v) => seq_sum_abs(v@) <= VALUE_BOUND,
        }
    }

    /// The value this consequent assigns to an input vector.
    pub open spec fn spec_value(&self, input: Seq<i64>) -> int {
        match self {
            TSKMembershipFunction::Constant(c) => *c as int,
            TSKMembershipFunction::Linear(v) => spec_linear(v@, input),
        }
    }
}

/// Evaluates a linear consequent: the scaled dot product of the leading
/// coefficients with the inputs, plus the trailing intercept.
pub fn linear_membership(coefficients: &Vec<i64>, input_vec: &Vec<i64>) -> (r: i64)
    requires
        coefficients@.len() == input_vec@.len() + 1,
        seq_sum_abs(coefficients@) <= VALUE_BOUND,
        forall|i: int| 0 <= i < input_vec@.len() ==> is_value(#[trigger] input_vec@[i]),
    ensures
        r == spec_linear(coefficients@, input_vec@),
        -CONSEQUENT_BOUND <= r <= CONSEQUENT_BOUND,
{
    let n = input_vec.len();
    let mut num: i128 = 0;
    let mut j: usize = 0;
    assert(coefficients@.take(0) =~= Seq::<i64>::empty());
    assert(input_vec@.take(0) =~= Seq::<i64>::empty());
    while j < n
        invariant
            0 <= j <= n,
            n == input_vec@.len(),
            coefficients@.len() == n + 1,
            seq_sum_abs(coefficients@) <= VALUE_BOUND,
            forall|i: int| 0 <= i < input_vec@.len() ==> is_value(#[trigger] input_vec@[i]),
            num == seq_dot(coefficients@.take(j as int), input_vec@.take(j as int)),
            -1_000_000_000_000_000_000_000_000 <= num <= 1_000_000_000_000_000_000_000_000,
        decreases n - j,
    {
        assert(coefficients@.take(j as int + 1).drop_last() =~= coefficients@.take(j as int));
        assert(input_vec@.take(j as int + 1).drop_last() =~= input_vec@.take(j as int));
        proof {
            lemma_seq_dot_abs_bound(
                coefficients@.take(j as int + 1),
                input_vec@.take(j as int + 1),
                VALUE_BOUND as int,
            );
            lemma_seq_sum_abs_take(coefficients@, j as int + 1);
            lemma_seq_sum_abs_nonneg(coefficients@.take(j as int + 1));
            vstd::arithmetic::mul::lemma_mul_inequality(
                seq_sum_abs(coefficients@.take(j as int + 1)),
                VALUE_BOUND as int,
                VALUE_BOUND as int,
            );
            assert((VALUE_BOUND as int) * (VALUE_BOUND as int)
                == 1_000_000_000_000_000_000_000_000int) by (nonlinear_arith);
            assert(-(seq_sum_abs(coefficients@.take(j as int + 1)) * (VALUE_BOUND as int))
                >= -1_000_000_000_000_000_000_000_000int);
        }
        num = num + (coefficients[j] as i128) * (input_vec[j] as i128);
        j = j + 1;
    }
    assert(input_vec@.take(n as int) =~= input_vec@);
    assert(coefficients@.take(n as int) =~= coefficients@.drop_last());
    proof {
        assert((SCALE as int) * 1_000_000_000_000_000_000int
            == 1_000_000_000_000_000_000_000_000int) by (nonlinear_arith);
        lemma_div_trunc_bound(
            seq_dot(coefficients@.drop_last(), input_vec@),
            SCALE as int,
            1_000_000_000_000_000_000int,
        );
        lemma_seq_sum_abs_nonneg(coefficients@.drop_last());
        assert(seq_sum_abs(coefficients@) == seq_sum_abs(coefficients@.drop_last()) + (
        if coefficients@.last() >= 0 {
            coefficients@.last() as int
        } else {
            -(coefficients@.last() as int)
        }));
    }
    let q: i128 = div_trunc_i128(num, SCALE as i128);
    let intercept: i64 = coefficients[n];
    (q as i64) + intercept
}

/// A strict triangle vanishes at and outside its feet and peaks, with full
/// degree, exactly at `b`.
pub proof fn lemma_triangle_vertices(t: Triangle, x: i64)
    requires
        t.a() < t.b() < t.c(),
    ensures
        t.spec_degree(t.a()) == 0,
        t.spec_degree(t.b()) == SCALE,
        t.spec_degree(t.c()) == 0,
        x <= t.a() ==> t.spec_degree(x) == 0,
        x >= t.c() ==> t.spec_degree(x) == 0,
{
    vstd::arithmetic::div_mod::lemma_div_of0(t.b() - t.a() as int);
    vstd::arithmetic::div_mod::lemma_div_multiples_vanish(SCALE as int, t.c() - t.b() as int);
    if x <= t.a() && t.a() <= x {
        vstd::arithmetic::div_mod::lemma_div_of0(t.b() - t.a() as int);
    }
}

/// On each flank the triangle degree follows the exact line of the real
/// ramp to within one fixed-point quantum of the division.
pub proof fn lemma_triangle_linear(t: Triangle, x: i64)
    requires
        t.a() < t.b() < t.c(),
    ensures
        t.a() <= x < t.b() ==> (t.b() - t.a()) * t.spec_degree(x) <= (x - t.a()) * SCALE < (t.b()
            - t.a()) * (t.spec_degree(x) + 1),
        t.b() <= x < t.c() ==> (t.c() - t.b()) * t.spec_degree(x) <= (t.c() - x) * SCALE < (t.c()
            - t.b()) * (t.spec_degree(x) + 1),
{
    if t.a() <= x < t.b() {
        let n = (x - t.a()) * (SCALE as int);
        let d = t.b() - t.a() as int;
        vstd::arithmetic::mul::lemma_mul_nonnegative(x - t.a() as int, SCALE as int);
        vstd::arithmetic::div_mod::lemma_fundamental_div_mod(n, d);
        vstd::arithmetic::div_mod::lemma_mod_division_less_than_divisor(n, d);
        vstd::arithmetic::mul::lemma_mul_is_distributive_add(d, n / d, 1);
    }
    if t.b() <= x < t.c() {
        let n = (t.c() - x) * (SCALE as int);
        let d = t.c() - t.b() as int;
        vstd::arithmetic::mul::lemma_mul_nonnegative(t.c() - x as int, SCALE as int);
        vstd::arithmetic::div_mod::lemma_fundamental_div_mod(n, d);
        vstd::arithmetic::div_mod::lemma_mod_division_less_than_divisor(n, d);
        vstd::arithmetic::mul::lemma_mul_is_distributive_add(d, n / d, 1);
    }
}

/// The triangle degree rises on `[a, b]` and falls on `[b, c]`.
pub proof fn lemma_triangle_monotone(t: Triangle, x1: i64, x2: i64)
    requires
        t.a() < t.b() < t.c(),
    ensures
        t.a() <= x1 <= x2 <= t.b() ==> t.spec_degree(x1) <= t.spec_degree(x2),
        t.b() <= x1 <= x2 <= t.c() ==> t.spec_degree(x1) >= t.spec_degree(x2),
{
    lemma_triangle_vertices(t, x1);
    if t.a() <= x1 <= x2 <= t.b() {
        if x2 < t.b() {
            vstd::arithmetic::mul::lemma_mul_inequality(
                x1 - t.a() as int,
                x2 - t.a() as int,
                SCALE as int,
            );
            vstd::arithmetic::div_mod::lemma_div_is_ordered(
                (x1 - t.a()) * (SCALE as int),
                (x2 - t.a()) * (SCALE as int),
                t.b() - t.a() as int,
            );
        } else {
            if x1 < t.b() {
                vstd::arithmetic::mul::lemma_mul_inequality(
                    x1 - t.a() as int,
                    t.b() - t.a() as int,
                    SCALE as int,
                );
                crate::fixed::lemma_div_in_degree(
                    (x1 - t.a()) * (SCALE as int),
                    t.b() - t.a() as int,
                );
            }
        }
    }
    if t.b() <= x1 <= x2 <= t.c() {
        if x2 < t.c() {
            vstd::arithmetic::mul::lemma_mul_inequality(
                t.c() - x2 as int,
                t.c() - x1 as int,
                SCALE as int,
            );
            if x1 < t.b() {
            } else if x1 == t.b() {
                vstd::arithmetic::div_mod::lemma_div_multiples_vanish(
                    SCALE as int,
                    t.c() - t.b() as int,
                );
                vstd::arithmetic::mul::lemma_mul_inequality(
                    t.c() - x2 as int,
                    t.c() - t.b() as int,
                    SCALE as int,
                );
                crate::fixed::lemma_div_in_degree(
                    (t.c() - x2) * (SCALE as int),
                    t.c() - t.b() as int,
                );
            } else {
                vstd::arithmetic::div_mod::lemma_div_is_ordered(
                    (t.c() - x2) * (SCALE as int),
                    (t.c() - x1) * (SCALE as int),
                    t.c() - t.b() as int,
                );
            }
        } else {
            if x1 < t.c() {
                vstd::arithmetic::mul::lemma_mul_nonnegative(t.c() - x1 as int, SCALE as int);
                vstd::arithmetic::div_mod::lemma_div_pos_is_pos(
                    (t.c() - x1) * (SCALE as int),
                    t.c() - t.b() as int,
                );
            }
        }
    }
}

/// A Gaussian reaches full degree exactly at its mean.
pub proof fn lemma_gaussian_peak(g: Gaussian)
    requires
        0 < g.variance(),
    ensures
        g.spec_degree(g.mean()) == SCALE,
{
    vstd::arithmetic::div_mod::lemma_div_of0(g.variance() as int);
    assert(gauss_ratio(g.mean(), g.variance(), g.mean()) == 0);
    vstd::arithmetic::div_mod::lemma_div_of0(2 * SCALE as int);
    vstd::arithmetic::div_mod::lemma_div_of0(32);
    vstd::arithmetic::div_mod::lemma_div_of0(6 * SCALE * SCALE as int);
    assert(exp_cubic_den(0) == SCALE as int);
    vstd::arithmetic::div_mod::lemma_div_multiples_vanish(SCALE as int, SCALE as int);
    assert(sq_fix(SCALE as int) == SCALE as int);
    assert(exp_neg_of_ratio(0) == SCALE);
}

/// A Gaussian is symmetric about its mean: values mirrored across the mean
/// have equal degrees.
pub proof fn lemma_gaussian_symmetric(g: Gaussian, x1: i64, x2: i64)
    requires
        x1 - g.mean() == g.mean() - x2,
    ensures
        g.spec_degree(x1) == g.spec_degree(x2),
{
    assert(dist(g.mean(), x1) == dist(g.mean(), x2));
}

/// The Gaussian degree never rises as the distance from the mean grows.
pub proof fn lemma_gaussian_monotone(g: Gaussian, x1: i64, x2: i64)
    requires
        0 < g.variance(),
        dist(g.mean(), x1) <= dist(g.mean(), x2),
    ensures
        g.spec_degree(x1) >= g.spec_degree(x2),
{
    let t1 = dist(g.mean(), x1);
    let t2 = dist(g.mean(), x2);
    vstd::arithmetic::mul::lemma_mul_inequality(t1, t2, SCALE as int);
    vstd::arithmetic::mul::lemma_mul_nonnegative(t1, SCALE as int);
    vstd::arithmetic::div_mod::lemma_div_is_ordered(
        t1 * (SCALE as int),
        t2 * (SCALE as int),
        g.variance() as int,
    );
    vstd::arithmetic::div_mod::lemma_div_pos_is_pos(t1 * (SCALE as int), g.variance() as int);
    lemma_exp_neg_monotone(
        gauss_ratio(g.mean(), g.variance(), x1),
        gauss_ratio(g.mean(), g.variance(), x2),
    );
}

} // verus!
