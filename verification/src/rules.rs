//! Rules: an antecedent/consequent relation encoded as signed indices, a
//! combinator kind, and a certainty weight.
//!
//! A rule's relation vector has one entry per input variable followed by
//! one entry per output variable.  The magnitude of an entry selects a
//! membership function (or consequent) by position; a negative entry means
//! the complement `SCALE - degree` of the selected function is used.

use vstd::prelude::*;

use crate::errors::FuzzyError;
use crate::fixed::is_degree;

verus! {

/// How a rule merges its antecedent degrees: `OR` through the system
/// S-norm, `AND` through the system T-norm.
#[derive(Debug, Clone, Copy)]
pub enum Kind {
    OR,
    AND,
}

/// A fuzzy rule: a signed-index relation vector, a combinator kind and a
/// certainty weight in `[0, SCALE]`.
#[derive(Debug)]
pub struct Rule {
    relations: Vec<i32>,
    weight: i64,
    method: Kind,
}

impl Rule {
    #[verifier::type_invariant]
    spec fn inv(&self) -> bool {
        is_degree(self.weight)
    }

    /// The signed relation entries: one per input, then one per output.
    pub closed spec fn spec_relations(&self) -> Seq<i32> {
        self.relations@
    }

    /// The certainty weight.
    pub closed spec fn spec_weight(&self) -> i64 {
        self.weight
    }

    /// The antecedent combinator.
    pub closed spec fn spec_kind(&self) -> Kind {
        self.method
    }

    /// Builds an OR rule; fails unless the weight lies in `[0, SCALE]`.
    pub fn new_or(relations: Vec<i32>, weight: i64) -> (r: Result<Self, FuzzyError>)
        ensures
            r is Ok <==> is_degree(weight),
            r matches Ok(rule) ==> rule.spec_relations() == relations@ && rule.spec_weight()
                == weight && rule.spec_kind() == Kind::OR,
            r is Err ==> r == Err::<Self, FuzzyError>(FuzzyError::InvalidWeight),
    {
        if !(0 <= weight && weight <= crate::fixed::SCALE) {
            return Err(FuzzyError::InvalidWeight);
        }
        Ok(Self { relations, weight, method: Kind::OR })
    }

    /// Builds an AND rule; fails unless the weight lies in `[0, SCALE]`.
    pub fn new_and(relations: Vec<i32>, weight: i64) -> (r: Result<Self, FuzzyError>)
        ensures
            r is Ok <==> is_degree(weight),
            r matches Ok(rule) ==> rule.spec_relations() == relations@ && rule.spec_weight()
                == weight && rule.spec_kind() == Kind::AND,
            r is Err ==> r == Err::<Self, FuzzyError>(FuzzyError::InvalidWeight),
    {
        if !(0 <= weight && weight <= crate::fixed::SCALE) {
            return Err(FuzzyError::InvalidWeight);
        }
        Ok(Self { relations, weight, method: Kind::AND })
    }

    /// The whole relation vector.
    pub fn get_rules(&self) -> (r: &[i32])
        ensures
            r@ == self.spec_relations(),
    {
        self.relations.as_slice()
    }

    /// The antecedent combinator.
    pub fn get_kind(&self) -> (r: &Kind)
        ensures
            *r == self.spec_kind(),
    {
        &self.method
    }

    /// The certainty weight.
    pub fn get_weight(&self) -> (r: i64)
        ensures
            r == self.spec_weight(),
            is_degree(r),
    {
        proof {
            use_type_invariant(self);
        }
        self.weight
    }

    /// The relation entries that select antecedent membership functions.
    pub fn get_input_rules(&self, input_size: usize) -> (r: &[i32])
        requires
            input_size <= self.spec_relations().len(),
        ensures
            r@ == self.spec_relations().take(input_size as int),
    {
        let r = vstd::slice::slice_subrange(self.relations.as_slice(), 0, input_size);
        assert(r@ =~= self.spec_relations().take(input_size as int));
        r
    }

    /// The relation entries that select consequents.
    pub fn get_output_rules(&self, input_size: usize) -> (r: &[i32])
        requires
            input_size <= self.spec_relations().len(),
        ensures
            r@ == self.spec_relations().skip(input_size as int),
    {
        let r = vstd::slice::slice_subrange(
            self.relations.as_slice(),
            input_size,
            self.relations.len(),
        );
        assert(r@ =~= self.spec_relations().skip(input_size as int));
        r
    }
}

/// The kind of consequent a TSK rule selects.
#[derive(Debug, Clone, Copy)]
pub enum OutputRelation {
    Constant,
    Linear,
    Custom,
}

/// A TSK rule: signed antecedent indices, per-output consequent kinds, a
/// combinator kind and a certainty weight in `[0, SCALE]`.
#[derive(Debug)]
pub struct TSKRule {
    input_relations: Vec<i32>,
    output_relations: Vec<OutputRelation>,
    weight: i64,
    method: Kind,
}

impl TSKRule {
    #[verifier::type_invariant]
    spec fn inv(&self) -> bool {
        is_degree(self.weight)
    }

    /// The signed antecedent entries, one per input.
    pub closed spec fn spec_input_relations(&self) -> Seq<i32> {
        self.input_relations@
    }

    /// The consequent kinds, one per output.
    pub closed spec fn spec_output_relations(&self) -> Seq<OutputRelation> {
        self.output_relations@
    }

    /// The certainty weight.
    pub closed spec fn spec_weight(&self) -> i64 {
        self.weight
    }

    /// The antecedent combinator.
    pub closed spec fn spec_kind(&self) -> Kind {
        self.method
    }

    /// Builds an OR rule; fails unless the weight lies in `[0, SCALE]`.
    pub fn new_or(
        input_relations: Vec<i32>,
        output_relations: Vec<OutputRelation>,
        weight: i64,
    ) -> (r: Result<Self, FuzzyError>)
        ensures
            r is Ok <==> is_degree(weight),
            r matches Ok(rule) ==> rule.spec_input_relations() == input_relations@
                && rule.spec_output_relations() == output_relations@ && rule.spec_weight()
                == weight && rule.spec_kind() == Kind::OR,
            r is Err ==> r == Err::<Self, FuzzyError>(FuzzyError::InvalidWeight),
    {
        if !(0 <= weight && weight <= crate::fixed::SCALE) {
            return Err(FuzzyError::InvalidWeight);
        }
        Ok(Self { input_relations, output_relations, weight, method: Kind::OR })
    }

    /// Builds an AND rule; fails unless the weight lies in `[0, SCALE]`.
    pub fn new_and(
        input_relations: Vec<i32>,
        output_relations: Vec<OutputRelation>,
        weight: i64,
    ) -> (r: Result<Self, FuzzyError>)
        ensures
            r is Ok <==> is_degree(weight),
            r matches Ok(rule) ==> rule.spec_input_relations() == input_relations@
                && rule.spec_output_relations() == output_relations@ && rule.spec_weight()
                == weight && rule.spec_kind() == Kind::AND,
            r is Err ==> r == Err::<Self, FuzzyError>(FuzzyError::InvalidWeight),
    {
        if !(0 <= weight && weight <= crate::fixed::SCALE) {
            return Err(FuzzyError::InvalidWeight);
        }
        Ok(Self { input_relations, output_relations, weight, method: Kind::AND })
    }

    /// The antecedent combinator.
    pub fn get_kind(&self) -> (r: &Kind)
        ensures
            *r == self.spec_kind(),
    {
        &self.method
    }

    /// The certainty weight.
    pub fn get_weight(&self) -> (r: i64)
        ensures
            r == self.spec_weight(),
            is_degree(r),
    {
        proof {
            use_type_invariant(self);
        }
        self.weight
    }

    /// The signed antecedent entries.
    pub fn get_input_rules(&self) -> (r: &[i32])
        ensures
            r@ == self.spec_input_relations(),
    {
        self.input_relations.as_slice()
    }

    /// The consequent kinds.
    pub fn get_output_rules(&self) -> (r: &[OutputRelation])
        ensures
            r@ == self.spec_output_relations(),
    {
        self.output_relations.as_slice()
    }
}

} // verus!
