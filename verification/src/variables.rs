//! Variables: an input variable fuzzifies crisp values through its ordered
//! membership functions; an output variable carries either pre-sampled
//! membership shapes over a universe (Mamdani) or consequent functions
//! (TSK).

use vstd::prelude::*;

use crate::errors::FuzzyError;
use crate::fixed::{is_degree, is_value, CONSEQUENT_BOUND, VALUE_BOUND};
use crate::membership_functions::{
    linear_membership, GetDegree, MembershipFunction, TSKMembershipFunction,
};
use crate::membership_ranges::{MembershipRange, Universe};

verus! {

/// An input variable: a name, an informational domain range, and an ordered
/// list of membership functions addressed by position.
#[derive(Debug)]
pub struct InputVariable {
    name: String,
    range: (i64, i64),
    mfs: Vec<MembershipFunction>,
}

impl InputVariable {
    /// The diagnostic name.
    pub closed spec fn spec_name(&self) -> Seq<char> {
        self.name@
    }

    /// The informational domain range.
    pub closed spec fn spec_range(&self) -> (i64, i64) {
        self.range
    }

    /// The membership functions, in registration order.
    pub closed spec fn spec_mfs(&self) -> Seq<MembershipFunction> {
        self.mfs@
    }

    /// Builds an input variable with no membership functions yet.
    pub fn new(name: String, range: (i64, i64)) -> (r: Self)
        ensures
            r.spec_name() == name@,
            r.spec_range() == range,
            r.spec_mfs().len() == 0,
    {
        Self { name, range, mfs: Vec::new() }
    }

    /// Appends a membership function.
    pub fn add_membership(&mut self, mf: MembershipFunction)
        ensures
            final(self).spec_mfs() == old(self).spec_mfs().push(mf),
            final(self).spec_name() == old(self).spec_name(),
            final(self).spec_range() == old(self).spec_range(),
    {
        self.mfs.push(mf);
    }

    /// The number of registered membership functions.
    pub(crate) fn membership_count(&self) -> (r: usize)
        ensures
            r == self.spec_mfs().len(),
    {
        self.mfs.len()
    }

    /// The degree of membership of `x` in the `idx`-th membership function.
    pub fn fuzzify(&self, idx: usize, x: i64) -> (r: i64)
        requires
            idx < self.spec_mfs().len(),
            is_value(x),
        ensures
            r == self.spec_mfs()[idx as int].spec_degree(x),
            is_degree(r),
    {
        self.mfs[idx].get_degree(x)
    }

    /// The name of the `idx`-th membership function.
    pub fn membership_function_name(&self, idx: i32) -> (r: String)
        requires
            0 <= idx < self.spec_mfs().len(),
        ensures
            r@ == self.spec_mfs()[idx as int].spec_name(),
    {
        self.mfs[idx as usize].get_name().clone()
    }

    /// The diagnostic name.
    pub fn get_name(&self) -> (r: &String)
        ensures
            r@ == self.spec_name(),
    {
        &self.name
    }

    /// The informational domain range.
    pub fn get_range(&self) -> (r: &(i64, i64))
        ensures
            *r == self.spec_range(),
    {
        &self.range
    }
}

/// A Mamdani output variable: a name, a discretized universe, and an
/// ordered list of membership shapes pre-sampled over that universe.
#[derive(Debug)]
pub struct OutputVariable {
    name: String,
    mrs: Vec<MembershipRange>,
    universe: Universe,
}

impl OutputVariable {
    #[verifier::type_invariant]
    spec fn inv(&self) -> bool {
        forall|i: int|
            0 <= i < self.mrs@.len() ==> (#[trigger] self.mrs@[i]).spec_mu().len()
                == self.universe.points().len()
    }

    /// The diagnostic name.
    pub closed spec fn spec_name(&self) -> Seq<char> {
        self.name@
    }

    /// The membership shapes, in registration order.
    pub closed spec fn spec_mrs(&self) -> Seq<MembershipRange> {
        self.mrs@
    }

    /// The universe sample points.
    pub closed spec fn spec_universe(&self) -> Seq<i64> {
        self.universe.points()
    }

    /// Builds an output variable over `[range.0, range.1]` discretized at
    /// `n` evenly spaced points, with no membership shapes yet; fails
    /// unless `n` is positive and the range is ordered and representable.
    pub fn new(name: String, range: (i64, i64), n: i32) -> (r: Result<Self, FuzzyError>)
        ensures
            r is Ok <==> 0 < n && is_value(range.0) && is_value(range.1) && range.0 <= range.1,
            r matches Ok(o) ==> o.spec_name() == name@ && o.spec_mrs().len() == 0
                && o.spec_universe().len() == n && forall|i: int|
                0 <= i < n ==> o.spec_universe()[i] == range.0 + ((range.1 - range.0) / (
                n as int)) * i,
            r is Err ==> r == Err::<Self, FuzzyError>(FuzzyError::InvalidParameters),
    {
        let (start, stop) = range;
        let universe = match Universe::new(start, stop, n) {
            Ok(u) => u,
            Err(e) => {
                return Err(e);
            },
        };
        Ok(Self { name, mrs: Vec::new(), universe })
    }

    /// Appends a membership shape; fails unless its sample vector matches
    /// the universe in length.
    pub fn add_membership(&mut self, membership_rang: MembershipRange) -> (r: Result<
        (),
        FuzzyError,
    >)
        ensures
            r is Ok <==> membership_rang.spec_mu().len() == old(self).spec_universe().len(),
            r is Ok ==> final(self).spec_mrs() == old(self).spec_mrs().push(membership_rang),
            r is Err ==> final(self).spec_mrs() == old(self).spec_mrs() && r == Err::<
                (),
                FuzzyError,
            >(FuzzyError::LengthMismatch),
            final(self).spec_name() == old(self).spec_name(),
            final(self).spec_universe() == old(self).spec_universe(),
    {
        proof {
            use_type_invariant(&*self);
        }
        if membership_rang.get_mu().len() != self.universe.len() {
            return Err(FuzzyError::LengthMismatch);
        }
        let mut mrs: Vec<MembershipRange> = Vec::new();
        std::mem::swap(&mut mrs, &mut self.mrs);
        mrs.push(membership_rang);
        std::mem::swap(&mut mrs, &mut self.mrs);
        Ok(())
    }

    /// The number of registered membership shapes.
    pub(crate) fn membership_count(&self) -> (r: usize)
        ensures
            r == self.spec_mrs().len(),
    {
        self.mrs.len()
    }

    /// The sample vector of the `idx`-th membership shape.
    pub fn get_mu(&self, idx: usize) -> (r: &Vec<i64>)
        requires
            idx < self.spec_mrs().len(),
        ensures
            r@ == self.spec_mrs()[idx as int].spec_mu(),
            r@.len() == self.spec_universe().len(),
            forall|i: int| 0 <= i < r@.len() ==> is_degree(#[trigger] r@[i]),
    {
        proof {
            use_type_invariant(self);
        }
        self.mrs[idx].get_mu()
    }

    /// The universe sample points.
    pub fn get_universe(&self) -> (r: &Vec<i64>)
        ensures
            r@ == self.spec_universe(),
            1 <= r@.len() <= crate::fixed::MAX_UNIVERSE,
            forall|i: int| 0 <= i < r@.len() ==> is_value(#[trigger] r@[i]),
    {
        self.universe.samples()
    }

    /// The diagnostic name.
    pub fn get_name(&self) -> (r: &String)
        ensures
            r@ == self.spec_name(),
    {
        &self.name
    }

    /// The universe sample point at `idx`.
    pub fn get_universe_by_idx(&self, idx: usize) -> (r: i64)
        requires
            idx < self.spec_universe().len(),
        ensures
            r == self.spec_universe()[idx as int],
    {
        self.universe.get(idx)
    }
}

/// A TSK output variable: a name and an ordered list of consequent
/// functions addressed by position.
#[derive(Debug)]
pub struct TSKOutputVariable {
    name: String,
    mfs: Vec<TSKMembershipFunction>,
}

impl TSKOutputVariable {
    #[verifier::type_invariant]
    spec fn inv(&self) -> bool {
        forall|i: int| 0 <= i < self.mfs@.len() ==> (#[trigger] self.mfs@[i]).wf()
    }

    /// The diagnostic name.
    pub closed spec fn spec_name(&self) -> Seq<char> {
        self.name@
    }

    /// The consequent functions, in registration order.
    pub closed spec fn spec_mfs(&self) -> Seq<TSKMembershipFunction> {
        self.mfs@
    }

    /// Builds a TSK output variable with no consequents yet.
    pub fn new(name: String) -> (r: Self)
        ensures
            r.spec_name() == name@,
            r.spec_mfs().len() == 0,
    {
        Self { name, mfs: Vec::new() }
    }

    /// Appends a consequent; fails unless its constant, or its coefficient
    /// magnitude mass, stays within the representable range.
    pub fn add_membership(&mut self, membership: TSKMembershipFunction) -> (r: Result<
        (),
        FuzzyError,
    >)
        ensures
            r is Ok <==> membership.wf(),
            r is Ok ==> final(self).spec_mfs() == old(self).spec_mfs().push(membership),
            r is Err ==> final(self).spec_mfs() == old(self).spec_mfs() && r == Err::<
                (),
                FuzzyError,
            >(FuzzyError::InvalidParameters),
            final(self).spec_name() == old(self).spec_name(),
    {
        let wf = match &membership {
            TSKMembershipFunction::Constant(c) => -VALUE_BOUND <= *c && *c <= VALUE_BOUND,
            TSKMembershipFunction::Linear(v) => coefficient_mass_in_range(v),
        };
        if !wf {
            return Err(FuzzyError::InvalidParameters);
        }
        proof {
            use_type_invariant(&*self);
        }
        let mut mfs: Vec<TSKMembershipFunction> = Vec::new();
        std::mem::swap(&mut mfs, &mut self.mfs);
        mfs.push(membership);
        std::mem::swap(&mut mfs, &mut self.mfs);
        Ok(())
    }

    /// Appends a constant consequent; fails unless the constant is
    /// representable.
    pub fn add_constant_membership(&mut self, value: i64) -> (r: Result<(), FuzzyError>)
        ensures
            r is Ok <==> is_value(value),
            r is Ok ==> final(self).spec_mfs() == old(self).spec_mfs().push(
                TSKMembershipFunction::Constant(value),
            ),
            r is Err ==> final(self).spec_mfs() == old(self).spec_mfs() && r == Err::<
                (),
                FuzzyError,
            >(FuzzyError::InvalidParameters),
            final(self).spec_name() == old(self).spec_name(),
    {
        self.add_membership(TSKMembershipFunction::Constant(value))
    }

    /// Appends a linear consequent whose last coefficient is the intercept;
    /// fails unless the coefficient magnitude mass is representable.
    pub fn add_linear_membership(&mut self, coefficients: Vec<i64>) -> (r: Result<
        (),
        FuzzyError,
    >)
        ensures
            r is Ok <==> crate::fixed::seq_sum_abs(coefficients@) <= VALUE_BOUND,
            r is Ok ==> final(self).spec_mfs() == old(self).spec_mfs().push(
                TSKMembershipFunction::Linear(coefficients),
            ),
            r is Err ==> final(self).spec_mfs() == old(self).spec_mfs() && r == Err::<
                (),
                FuzzyError,
            >(FuzzyError::InvalidParameters),
            final(self).spec_name() == old(self).spec_name(),
    {
        self.add_membership(TSKMembershipFunction::Linear(coefficients))
    }

    /// The number of registered consequents.
    pub(crate) fn membership_count(&self) -> (r: usize)
        ensures
            r == self.spec_mfs().len(),
    {
        self.mfs.len()
    }

    /// Whether the `idx`-th consequent, if linear, has one coefficient per
    /// input plus an intercept.
    pub(crate) fn consequent_arity_ok(&self, idx: usize, expected: usize) -> (r: bool)
        requires
            idx < self.spec_mfs().len(),
        ensures
            r <==> (self.spec_mfs()[idx as int] matches TSKMembershipFunction::Linear(v)
                ==> v@.len() == expected),
    {
        match &self.mfs[idx] {
            TSKMembershipFunction::Constant(_) => true,
            TSKMembershipFunction::Linear(v) => v.len() == expected,
        }
    }

    /// Evaluates the `idx`-th consequent on the full input vector.
    pub fn get_mu(&self, idx: usize, input_vec: &Vec<i64>) -> (r: i64)
        requires
            idx < self.spec_mfs().len(),
            forall|i: int| 0 <= i < input_vec@.len() ==> is_value(#[trigger] input_vec@[i]),
            self.spec_mfs()[idx as int] matches TSKMembershipFunction::Linear(v) ==> v@.len()
                == input_vec@.len() + 1,
        ensures
            r == self.spec_mfs()[idx as int].spec_value(input_vec@),
            -CONSEQUENT_BOUND <= r <= CONSEQUENT_BOUND,
    {
        proof {
            use_type_invariant(self);
        }
        match &self.mfs[idx] {
            TSKMembershipFunction::Constant(c) => *c,
            TSKMembershipFunction::Linear(coeff) => linear_membership(coeff, input_vec),
        }
    }

    /// The diagnostic name.
    pub fn get_name(&self) -> (r: &String)
        ensures
            r@ == self.spec_name(),
    {
        &self.name
    }
}

/// Checks at run time that a coefficient vector's magnitude mass stays
/// within the representable range.
fn coefficient_mass_in_range(v: &Vec<i64>) -> (r: bool)
    ensures
        r <==> crate::fixed::seq_sum_abs(v@) <= VALUE_BOUND,
{
    let mut acc: i128 = 0;
    let mut i: usize = 0;
    assert(v@.take(0) =~= Seq::<i64>::empty());
    while i < v.len()
        invariant
            0 <= i <= v@.len(),
            acc == crate::fixed::seq_sum_abs(v@.take(i as int)),
            0 <= acc <= VALUE_BOUND,
        decreases v@.len() - i,
    {
        assert(v@.take(i as int + 1).drop_last() =~= v@.take(i as int));
        let c = v[i];
        let a: i128 = if c >= 0 {
            c as i128
        } else {
            -(c as i128)
        };
        acc = acc + a;
        if acc > VALUE_BOUND as i128 {
            proof {
                crate::fixed::lemma_seq_sum_abs_take(v@, i as int + 1);
            }
            return false;
        }
        i = i + 1;
    }
    assert(v@.take(v@.len() as int) =~= v@);
    true
}

} // verus!
