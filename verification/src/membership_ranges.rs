//! Pre-sampled membership shapes for Mamdani output variables: a `Universe`
//! discretizes a continuous range into evenly spaced samples, and a
//! `MembershipRange` materializes a shape as a degree vector aligned with
//! those samples.

use vstd::prelude::*;

use crate::errors::FuzzyError;
use crate::fixed::{is_degree, is_value, div_nn, MAX_UNIVERSE, SCALE, VALUE_BOUND};
use crate::membership_functions::{
    bell_degree, double_gaussian_degree, gaussian_degree, linear_s_degree, linear_z_degree,
    step_down_degree, step_up_degree, trapezoid_degree, triangle_degree, Bell, DoubleGaussian,
    Gaussian, GetDegree, LinearS, LinearZ, StepDown, StepUp, Trapezoid, Triangle,
    BELL_SHAPE_BOUND,
};

verus! {

/// An ordered sequence of evenly spaced sample points over `[start, end]`,
/// fixed at construction.
#[derive(Debug)]
pub struct Universe {
    points: Vec<i64>,
}

impl Universe {
    #[verifier::type_invariant]
    spec fn inv(&self) -> bool {
        1 <= self.points@.len() <= MAX_UNIVERSE && forall|i: int|
            0 <= i < self.points@.len() ==> is_value(#[trigger] self.points@[i])
    }

    /// The sample points, in order.
    pub closed spec fn points(&self) -> Seq<i64> {
        self.points@
    }

    /// Samples `[start, end]` at `n` evenly spaced points, the `i`-th at
    /// `start + i * (end - start) / n`; fails unless `n` is positive and the
    /// range is ordered and representable.
    pub fn new(start: i64, end: i64, n: i32) -> (r: Result<Self, FuzzyError>)
        ensures
            r is Ok <==> 0 < n && is_value(start) && is_value(end) && start <= end,
            r matches Ok(u) ==> u.points().len() == n && forall|i: int|
                0 <= i < n ==> u.points()[i] == start + ((end - start) / (n as int)) * i,
            r is Err ==> r == Err::<Self, FuzzyError>(FuzzyError::InvalidParameters),
    {
        if !(0 < n && -VALUE_BOUND <= start && start <= VALUE_BOUND && -VALUE_BOUND <= end
            && end <= VALUE_BOUND && start <= end) {
            return Err(FuzzyError::InvalidParameters);
        }
        let delta: i64 = div_nn(end - start, n as i64);
        proof {
            vstd::arithmetic::div_mod::lemma_fundamental_div_mod(
                end - start as int,
                n as int,
            );
            vstd::arithmetic::div_mod::lemma_mod_division_less_than_divisor(
                end - start as int,
                n as int,
            );
            vstd::arithmetic::mul::lemma_mul_is_commutative(n as int, delta as int);
        }
        let mut points: Vec<i64> = Vec::new();
        let count: usize = n as usize;
        let mut i: usize = 0;
        while i < count
            invariant
                0 <= i <= count,
                count == n,
                0 < n,
                -VALUE_BOUND <= start <= VALUE_BOUND,
                -VALUE_BOUND <= end <= VALUE_BOUND,
                start <= end,
                delta == (end - start) / (n as int),
                0 <= delta,
                delta * (n as int) <= end - start,
                points@.len() == i,
                forall|j: int| 0 <= j < i ==> points@[j] == start + (delta as int) * j,
                forall|j: int| 0 <= j < i ==> is_value(#[trigger] points@[j]),
            decreases count - i,
        {
            proof {
                vstd::arithmetic::mul::lemma_mul_nonnegative(delta as int, i as int);
                vstd::arithmetic::mul::lemma_mul_left_inequality(
                    delta as int + 1,
                    i as int,
                    n as int,
                );
                vstd::arithmetic::mul::lemma_mul_inequality(i as int, n as int, delta as int);
                vstd::arithmetic::mul::lemma_mul_is_commutative(delta as int, i as int);
                vstd::arithmetic::mul::lemma_mul_is_commutative(delta as int, n as int);
            }
            points.push(start + delta * (i as i64));
            i = i + 1;
        }
        Ok(Self { points })
    }

    /// The number of sample points.
    pub fn len(&self) -> (r: usize)
        ensures
            r == self.points().len(),
            1 <= r <= MAX_UNIVERSE,
    {
        proof {
            use_type_invariant(self);
        }
        self.points.len()
    }

    /// The sample point at `idx`.
    pub fn get(&self, idx: usize) -> (r: i64)
        requires
            idx < self.points().len(),
        ensures
            r == self.points()[idx as int],
            is_value(r),
    {
        proof {
            use_type_invariant(self);
        }
        self.points[idx]
    }

    /// All sample points, as a vector.
    pub fn samples(&self) -> (r: &Vec<i64>)
        ensures
            r@ == self.points(),
            1 <= r@.len() <= MAX_UNIVERSE,
            forall|i: int| 0 <= i < r@.len() ==> is_value(#[trigger] r@[i]),
    {
        proof {
            use_type_invariant(self);
        }
        &self.points
    }
}

/// A membership shape pre-sampled over a universe: a named degree vector,
/// one entry per universe sample.
#[derive(Debug)]
pub struct MembershipRange {
    name: String,
    mu: Vec<i64>,
}

fn sample_shape<T: GetDegree>(universe: &Universe, shape: &T) -> (r: Vec<i64>)
    ensures
        r@.len() == universe.points().len(),
        forall|i: int| 0 <= i < r@.len() ==> r@[i] == shape.spec_degree(universe.points()[i]),
        forall|i: int| 0 <= i < r@.len() ==> is_degree(#[trigger] r@[i]),
{
    let mut mu: Vec<i64> = Vec::new();
    let count = universe.len();
    let mut i: usize = 0;
    while i < count
        invariant
            0 <= i <= count,
            count == universe.points().len(),
            mu@.len() == i,
            forall|j: int| 0 <= j < i ==> mu@[j] == shape.spec_degree(universe.points()[j]),
            forall|j: int| 0 <= j < i ==> is_degree(#[trigger] mu@[j]),
        decreases count - i,
    {
        let x = universe.get(i);
        mu.push(shape.get_degree(x));
        i = i + 1;
    }
    mu
}

impl MembershipRange {
    #[verifier::type_invariant]
    spec fn inv(&self) -> bool {
        forall|i: int| 0 <= i < self.mu@.len() ==> is_degree(#[trigger] self.mu@[i])
    }

    /// The diagnostic name.
    pub closed spec fn spec_name(&self) -> Seq<char> {
        self.name@
    }

    /// The sampled degrees, aligned with the universe.
    pub closed spec fn spec_mu(&self) -> Seq<i64> {
        self.mu@
    }

    /// Wraps an already sampled degree vector; fails unless every sample is
    /// a degree in `[0, SCALE]`.
    pub fn new(name: String, mu: Vec<i64>) -> (r: Result<Self, FuzzyError>)
        ensures
            r is Ok <==> forall|i: int| 0 <= i < mu@.len() ==> is_degree(#[trigger] mu@[i]),
            r matches Ok(m) ==> m.spec_name() == name@ && m.spec_mu() == mu@,
            r is Err ==> r == Err::<Self, FuzzyError>(FuzzyError::InvalidParameters),
    {
        let mut i: usize = 0;
        while i < mu.len()
            invariant
                0 <= i <= mu@.len(),
                forall|j: int| 0 <= j < i ==> is_degree(#[trigger] mu@[j]),
            decreases mu@.len() - i,
        {
            if !(0 <= mu[i] && mu[i] <= SCALE) {
                return Err(FuzzyError::InvalidParameters);
            }
            i = i + 1;
        }
        Ok(Self { name, mu })
    }

    /// Samples a triangle over the universe; fails unless `a < b < c` and
    /// the parameters are representable.
    pub fn new_triangle(universe: &Universe, name: String, a: i64, b: i64, c: i64) -> (r: Result<
        Self,
        FuzzyError,
    >)
        ensures
            r is Ok <==> is_value(a) && is_value(b) && is_value(c) && a < b < c,
            r matches Ok(m) ==> m.spec_name() == name@ && m.spec_mu().len()
                == universe.points().len() && forall|i: int|
                0 <= i < universe.points().len() ==> m.spec_mu()[i] == triangle_degree(
                    a,
                    b,
                    c,
                    universe.points()[i],
                ),
            r is Err ==> r == Err::<Self, FuzzyError>(FuzzyError::InvalidParameters),
    {
        let shape = match Triangle::new(a, b, c) {
            Ok(shape) => shape,
            Err(e) => {
                return Err(e);
            },
        };
        let mu = sample_shape(universe, &shape);
        Ok(Self { name, mu })
    }

    /// Samples a trapezoid over the universe; fails unless
    /// `a <= b <= c <= d` and the parameters are representable.
    pub fn new_trapezoid(
        universe: &Universe,
        name: String,
        a: i64,
        b: i64,
        c: i64,
        d: i64,
    ) -> (r: Result<Self, FuzzyError>)
        ensures
            r is Ok <==> is_value(a) && is_value(b) && is_value(c) && is_value(d) && a <= b <= c
                <= d,
            r matches Ok(m) ==> m.spec_name() == name@ && m.spec_mu().len()
                == universe.points().len() && forall|i: int|
                0 <= i < universe.points().len() ==> m.spec_mu()[i] == trapezoid_degree(
                    a,
                    b,
                    c,
                    d,
                    universe.points()[i],
                ),
            r is Err ==> r == Err::<Self, FuzzyError>(FuzzyError::InvalidParameters),
    {
        let shape = match Trapezoid::new(a, b, c, d) {
            Ok(shape) => shape,
            Err(e) => {
                return Err(e);
            },
        };
        let mu = sample_shape(universe, &shape);
        Ok(Self { name, mu })
    }

    /// Samples a falling ramp over the universe; fails unless `a < b` and
    /// the parameters are representable.
    pub fn new_linearz(universe: &Universe, name: String, a: i64, b: i64) -> (r: Result<
        Self,
        FuzzyError,
    >)
        ensures
            r is Ok <==> is_value(a) && is_value(b) && a < b,
            r matches Ok(m) ==> m.spec_name() == name@ && m.spec_mu().len()
                == universe.points().len() && forall|i: int|
                0 <= i < universe.points().len() ==> m.spec_mu()[i] == linear_z_degree(
                    a,
                    b,
                    universe.points()[i],
                ),
            r is Err ==> r == Err::<Self, FuzzyError>(FuzzyError::InvalidParameters),
    {
        let shape = match LinearZ::new(a, b) {
            Ok(shape) => shape,
            Err(e) => {
                return Err(e);
            },
        };
        let mu = sample_shape(universe, &shape);
        Ok(Self { name, mu })
    }

    /// Samples a rising ramp over the universe; fails unless `a < b` and
    /// the parameters are representable.
    pub fn new_linears(universe: &Universe, name: String, a: i64, b: i64) -> (r: Result<
        Self,
        FuzzyError,
    >)
        ensures
            r is Ok <==> is_value(a) && is_value(b) && a < b,
            r matches Ok(m) ==> m.spec_name() == name@ && m.spec_mu().len()
                == universe.points().len() && forall|i: int|
                0 <= i < universe.points().len() ==> m.spec_mu()[i] == linear_s_degree(
                    a,
                    b,
                    universe.points()[i],
                ),
            r is Err ==> r == Err::<Self, FuzzyError>(FuzzyError::InvalidParameters),
    {
        let shape = match LinearS::new(a, b) {
            Ok(shape) => shape,
            Err(e) => {
                return Err(e);
            },
        };
        let mu = sample_shape(universe, &shape);
        Ok(Self { name, mu })
    }

    /// Samples a downward step over the universe; fails unless the
    /// parameter is representable.
    pub fn new_step_down(universe: &Universe, name: String, a: i64) -> (r: Result<
        Self,
        FuzzyError,
    >)
        ensures
            r is Ok <==> is_value(a),
            r matches Ok(m) ==> m.spec_name() == name@ && m.spec_mu().len()
                == universe.points().len() && forall|i: int|
                0 <= i < universe.points().len() ==> m.spec_mu()[i] == step_down_degree(
                    a,
                    universe.points()[i],
                ),
            r is Err ==> r == Err::<Self, FuzzyError>(FuzzyError::InvalidParameters),
    {
        let shape = match StepDown::new(a) {
            Ok(shape) => shape,
            Err(e) => {
                return Err(e);
            },
        };
        let mu = sample_shape(universe, &shape);
        Ok(Self { name, mu })
    }

    /// Samples an upward step over the universe; fails unless the parameter
    /// is representable.
    pub fn new_step_up(universe: &Universe, name: String, a: i64) -> (r: Result<
        Self,
        FuzzyError,
    >)
        ensures
            r is Ok <==> is_value(a),
            r matches Ok(m) ==> m.spec_name() == name@ && m.spec_mu().len()
                == universe.points().len() && forall|i: int|
                0 <= i < universe.points().len() ==> m.spec_mu()[i] == step_up_degree(
                    a,
                    universe.points()[i],
                ),
            r is Err ==> r == Err::<Self, FuzzyError>(FuzzyError::InvalidParameters),
    {
        let shape = match StepUp::new(a) {
            Ok(shape) => shape,
            Err(e) => {
                return Err(e);
            },
        };
        let mu = sample_shape(universe, &shape);
        Ok(Self { name, mu })
    }

    /// Samples a Gaussian over the universe; fails unless the spread is
    /// strictly positive and the parameters are representable.
    pub fn new_gaussian(universe: &Universe, name: String, mean: i64, variance: i64) -> (r: Result<
        Self,
        FuzzyError,
    >)
        ensures
            r is Ok <==> is_value(mean) && 0 < variance <= VALUE_BOUND,
            r matches Ok(m) ==> m.spec_name() == name@ && m.spec_mu().len()
                == universe.points().len() && forall|i: int|
                0 <= i < universe.points().len() ==> m.spec_mu()[i] == gaussian_degree(
                    mean,
                    variance,
                    universe.points()[i],
                ),
            r is Err ==> r == Err::<Self, FuzzyError>(FuzzyError::InvalidParameters),
    {
        let shape = match Gaussian::new(mean, variance) {
            Ok(shape) => shape,
            Err(e) => {
                return Err(e);
            },
        };
        let mu = sample_shape(universe, &shape);
        Ok(Self { name, mu })
    }

    /// Samples a two-sided Gaussian over the universe; fails unless
    /// `mean1 <= mean2`, both spreads are strictly positive and the
    /// parameters are representable.
    pub fn new_double_gaussian(
        universe: &Universe,
        name: String,
        mean1: i64,
        variance1: i64,
        mean2: i64,
        variance2: i64,
    ) -> (r: Result<Self, FuzzyError>)
        ensures
            r is Ok <==> is_value(mean1) && is_value(mean2) && mean1 <= mean2 && 0 < variance1
                <= VALUE_BOUND && 0 < variance2 <= VALUE_BOUND,
            r matches Ok(m) ==> m.spec_name() == name@ && m.spec_mu().len()
                == universe.points().len() && forall|i: int|
                0 <= i < universe.points().len() ==> m.spec_mu()[i] == double_gaussian_degree(
                    mean1,
                    variance1,
                    mean2,
                    variance2,
                    universe.points()[i],
                ),
            r is Err ==> r == Err::<Self, FuzzyError>(FuzzyError::InvalidParameters),
    {
        let shape = match DoubleGaussian::new(mean1, variance1, mean2, variance2) {
            Ok(shape) => shape,
            Err(e) => {
                return Err(e);
            },
        };
        let mu = sample_shape(universe, &shape);
        Ok(Self { name, mu })
    }

    /// Samples a generalized bell over the universe; fails unless the width
    /// is strictly positive, the exponent is in `[1, BELL_SHAPE_BOUND]` and
    /// the parameters are representable.
    pub fn new_bell(
        universe: &Universe,
        name: String,
        width: i64,
        shape: u32,
        center: i64,
    ) -> (r: Result<Self, FuzzyError>)
        ensures
            r is Ok <==> 0 < width <= VALUE_BOUND && is_value(center) && 1 <= shape
                <= BELL_SHAPE_BOUND,
            r matches Ok(m) ==> m.spec_name() == name@ && m.spec_mu().len()
                == universe.points().len() && forall|i: int|
                0 <= i < universe.points().len() ==> m.spec_mu()[i] == bell_degree(
                    width,
                    shape,
                    center,
                    universe.points()[i],
                ),
            r is Err ==> r == Err::<Self, FuzzyError>(FuzzyError::InvalidParameters),
    {
        let bell = match Bell::new(width, shape, center) {
            Ok(bell) => bell,
            Err(e) => {
                return Err(e);
            },
        };
        let mu = sample_shape(universe, &bell);
        Ok(Self { name, mu })
    }

    /// The sampled degrees.
    pub fn get_mu(&self) -> (r: &Vec<i64>)
        ensures
            r@ == self.spec_mu(),
            forall|i: int| 0 <= i < r@.len() ==> is_degree(#[trigger] r@[i]),
    {
        proof {
            use_type_invariant(self);
        }
        &self.mu
    }

    /// The diagnostic name.
    pub fn get_name(&self) -> (r: String)
        ensures
            r@ == self.spec_name(),
    {
        self.name.clone()
    }
}

} // verus!
