//! The inference engines: Mamdani (relational outputs over discretized
//! universes) and TSK (functional outputs), orchestrating the pipeline
//! fuzzification, rule-strength combination, weighting, then implication,
//! aggregation and defuzzification (Mamdani) or consequent evaluation and
//! weighted-mean defuzzification (TSK).
//!
//! An engine's state is its operator configuration and its registered
//! inputs, outputs and rules; `compute_outputs` is a pure function of that
//! state and the input vector.  The whole configuration is validated at
//! each compute call, so variables and rules may keep being appended
//! between calls; a failed call leaves the engine untouched and usable.

use vstd::prelude::*;

use crate::aggregations::Aggregations;
use crate::defuzzifications::{Defuzzifiers, TSKDefuzzifiers, SAMPLE_BOUND};
use crate::errors::FuzzyError;
use crate::fixed::{is_degree, is_value, div_nn, CONSEQUENT_BOUND, MAX_RULES, SCALE, VALUE_BOUND};
use crate::implications::Implications;
use crate::membership_functions::{GetDegree, TSKMembershipFunction};
use crate::rules::{Kind, Rule};
use crate::s_norms::SNorms;
use crate::t_norms::TNorms;
use crate::variables::{InputVariable, OutputVariable, TSKOutputVariable};

verus! {

/// The membership position a signed relation entry selects: its magnitude.
pub open spec fn rel_index(rel: i32) -> int {
    if rel >= 0 {
        rel as int
    } else {
        -(rel as int)
    }
}

/// The degree one antecedent slot contributes: the degree of the selected
/// membership function at the crisp input, complemented for a negative
/// entry.
pub open spec fn spec_slot_degree(v: InputVariable, rel: i32, x: i64) -> int {
    let d = v.spec_mfs()[rel_index(rel)].spec_degree(x);
    if rel < 0 {
        SCALE - d
    } else {
        d
    }
}

/// A relation entry and its negation are exact complements: a negative
/// entry `-k` contributes `SCALE` minus the degree the positive entry `k`
/// contributes.  A position can only be complemented by a strictly
/// negative entry, so position `0` (whose negation is itself) is always
/// used plain: the signed encoding leaves no ambiguity at index `0`.
pub proof fn lemma_complement_slot(v: InputVariable, rel: i32, x: i64)
    ensures
        rel < 0 ==> spec_slot_degree(v, rel, x) == SCALE - v.spec_mfs()[-(rel as int)].spec_degree(
            x,
        ),
        rel >= 0 ==> spec_slot_degree(v, rel, x) == v.spec_mfs()[rel as int].spec_degree(x),
{
}

/// Computes the membership position a signed relation entry selects.
fn abs_rel(rel: i32) -> (r: usize)
    ensures
        r == rel_index(rel),
{
    if rel < 0 {
        (-(rel as i64)) as usize
    } else {
        rel as usize
    }
}

/// A Mamdani fuzzy-inference system: relational outputs represented as
/// pre-sampled membership shapes over discretized universes.
#[derive(Debug)]
pub struct MamdaniFuzzyInferenceSystem {
    s_norm: SNorms,
    t_norm: TNorms,
    implication: Implications,
    aggregation: Aggregations,
    defuzzifier: Defuzzifiers,
    rules: Vec<Rule>,
    inputs: Vec<InputVariable>,
    outputs: Vec<OutputVariable>,
}

/// Shorthand for the Mamdani engine.
pub type MamdaniFIS = MamdaniFuzzyInferenceSystem;

impl MamdaniFuzzyInferenceSystem {
    /// The configured S-norm.
    pub closed spec fn spec_s_norm(&self) -> SNorms {
        self.s_norm
    }

    /// The configured T-norm.
    pub closed spec fn spec_t_norm(&self) -> TNorms {
        self.t_norm
    }

    /// The configured implication operator.
    pub closed spec fn spec_implication(&self) -> Implications {
        self.implication
    }

    /// The configured aggregation operator.
    pub closed spec fn spec_aggregation(&self) -> Aggregations {
        self.aggregation
    }

    /// The configured defuzzifier.
    pub closed spec fn spec_defuzzifier(&self) -> Defuzzifiers {
        self.defuzzifier
    }

    /// The registered rules, in registration order.
    pub closed spec fn spec_rules(&self) -> Seq<Rule> {
        self.rules@
    }

    /// The registered input variables, in registration order.
    pub closed spec fn spec_inputs(&self) -> Seq<InputVariable> {
        self.inputs@
    }

    /// The registered output variables, in registration order.
    pub closed spec fn spec_outputs(&self) -> Seq<OutputVariable> {
        self.outputs@
    }

    /// The `i`-th rule's relation vector is exactly one entry per input
    /// followed by one entry per output.
    pub open spec fn spec_rule_len_ok(&self, i: int) -> bool {
        self.spec_rules()[i].spec_relations().len() == self.spec_inputs().len()
            + self.spec_outputs().len()
    }

    /// Every entry of the `i`-th rule selects a membership position its
    /// variable actually has.
    pub open spec fn spec_rule_indices_ok(&self, i: int) -> bool {
        let rels = self.spec_rules()[i].spec_relations();
        &&& forall|ii: int|
            0 <= ii < self.spec_inputs().len() ==> rel_index(rels[ii]) < (
            #[trigger] self.spec_inputs()[ii]).spec_mfs().len()
        &&& forall|i2: int|
            0 <= i2 < self.spec_outputs().len() ==> rel_index(
                rels[self.spec_inputs().len() + i2],
            ) < (#[trigger] self.spec_outputs()[i2]).spec_mrs().len()
    }

    /// The whole configuration is fit for a compute call: at least one
    /// input, one output and one rule, no more rules than `MAX_RULES`, and
    /// every rule well-formed against the registered variables.
    pub open spec fn spec_valid(&self) -> bool {
        &&& 0 < self.spec_inputs().len()
        &&& 0 < self.spec_outputs().len()
        &&& 0 < self.spec_rules().len() <= MAX_RULES
        &&& forall|i: int|
            0 <= i < self.spec_rules().len() ==> #[trigger] self.spec_rule_len_ok(i)
                && self.spec_rule_indices_ok(i)
    }

    /// The input vector is fit for a compute call: one representable entry
    /// per registered input variable.
    pub open spec fn spec_input_ok(&self, input: Seq<i64>) -> bool {
        input.len() == self.spec_inputs().len() && forall|i: int|
            0 <= i < input.len() ==> is_value(#[trigger] input[i])
    }

    /// The antecedent degree of rule `i` in input slot `ii`.
    pub open spec fn spec_fuzzified_at(&self, input: Seq<i64>, i: int, ii: int) -> int {
        spec_slot_degree(
            self.spec_inputs()[ii],
            self.spec_rules()[i].spec_relations()[ii],
            input[ii],
        )
    }

    /// The antecedent degree vector of rule `i`.
    pub open spec fn spec_fuzzified_row(&self, input: Seq<i64>, i: int) -> Seq<i64> {
        Seq::new(
            self.spec_inputs().len(),
            |ii: int| self.spec_fuzzified_at(input, i, ii) as i64,
        )
    }

    /// The firing strength of rule `i` on an antecedent degree vector: the
    /// T-norm for an AND rule, the S-norm for an OR rule.
    pub open spec fn spec_connect_row(&self, i: int, row: Seq<i64>) -> int {
        match self.spec_rules()[i].spec_kind() {
            Kind::OR => self.spec_s_norm().spec_s_norm(row),
            Kind::AND => self.spec_t_norm().spec_t_norm(row),
        }
    }

    /// The weighted firing strength of rule `i` on the given input vector.
    pub open spec fn spec_strength(&self, input: Seq<i64>, i: int) -> int {
        self.spec_rules()[i].spec_weight() * self.spec_connect_row(
            i,
            self.spec_fuzzified_row(input, i),
        ) / (SCALE as int)
    }

    /// The `j`-th sample of the consequent shape rule `ii` selects for
    /// output `i`, complemented for a negative entry.
    pub open spec fn spec_consequent_sample(&self, i: int, ii: int, j: int) -> int {
        let rel = self.spec_rules()[ii].spec_relations()[self.spec_inputs().len() + i];
        let d = self.spec_outputs()[i].spec_mrs()[rel_index(rel)].spec_mu()[j];
        if rel < 0 {
            SCALE - d
        } else {
            d as int
        }
    }

    /// The `j`-th sample of rule `ii`'s implicated shape for output `i`.
    pub open spec fn spec_implicated_sample(&self, input: Seq<i64>, i: int, ii: int, j: int) -> int {
        self.spec_implication().spec_implication_at(
            self.spec_strength(input, ii),
            self.spec_consequent_sample(i, ii, j),
        )
    }

    /// Rule `ii`'s implicated shape for output `i`.
    pub open spec fn spec_implicated_row(&self, input: Seq<i64>, i: int, ii: int) -> Seq<i64> {
        Seq::new(
            self.spec_outputs()[i].spec_universe().len(),
            |j: int| self.spec_implicated_sample(input, i, ii, j) as i64,
        )
    }

    /// All rules' implicated shapes for output `i`.
    pub open spec fn spec_implication_matrix(&self, input: Seq<i64>, i: int) -> Seq<Seq<i64>> {
        Seq::new(self.spec_rules().len(), |ii: int| self.spec_implicated_row(input, i, ii))
    }

    /// The aggregated shape of output `i`.
    pub open spec fn spec_aggregated_shape(&self, input: Seq<i64>, i: int) -> Seq<i64> {
        Seq::new(
            self.spec_outputs()[i].spec_universe().len(),
            |j: int|
                self.spec_aggregation().spec_aggregation_at(
                    self.spec_implication_matrix(input, i),
                    j,
                ) as i64,
        )
    }

    /// Whether output `i` defuzzifies on the given input (its aggregated
    /// shape has mass, or the defuzzifier tolerates an empty one).
    pub open spec fn spec_output_ok(&self, input: Seq<i64>, i: int) -> bool {
        self.spec_defuzzifier().spec_defuzz_ok(self.spec_aggregated_shape(input, i))
    }

    /// The crisp value of output `i` on the given input.
    pub open spec fn spec_output_value(&self, input: Seq<i64>, i: int) -> int {
        self.spec_defuzzifier().spec_defuzzify(
            self.spec_aggregated_shape(input, i),
            self.spec_outputs()[i].spec_universe(),
        )
    }

    /// The first configuration error among the rules, scanning from `i`:
    /// a wrong relation length, then an out-of-range membership position.
    pub open spec fn spec_rules_error_from(&self, i: nat) -> Option<FuzzyError>
        decreases self.spec_rules().len() - i,
    {
        if i >= self.spec_rules().len() {
            None
        } else if !self.spec_rule_len_ok(i as int) {
            Some(FuzzyError::RelationLengthMismatch)
        } else if !self.spec_rule_indices_ok(i as int) {
            Some(FuzzyError::IndexOutOfRange)
        } else {
            self.spec_rules_error_from(i + 1)
        }
    }

    /// The error a compute call reports before any pipeline work, if any:
    /// missing components, too many rules, an input vector of the wrong
    /// shape, then the first ill-formed rule.
    pub open spec fn spec_validation(&self, input: Seq<i64>) -> Option<FuzzyError> {
        if self.spec_inputs().len() == 0 || self.spec_outputs().len() == 0
            || self.spec_rules().len() == 0 {
            Some(FuzzyError::MissingComponents)
        } else if self.spec_rules().len() > MAX_RULES {
            Some(FuzzyError::InvalidParameters)
        } else if input.len() != self.spec_inputs().len() {
            Some(FuzzyError::InvalidInput)
        } else if exists|i: int| 0 <= i < input.len() && !is_value(#[trigger] input[i]) {
            Some(FuzzyError::InvalidInput)
        } else {
            self.spec_rules_error_from(0)
        }
    }

    /// Builds an engine from its five operators, with no variables or rules
    /// yet.
    pub fn new(
        s_norm: SNorms,
        t_norm: TNorms,
        implication: Implications,
        aggregation: Aggregations,
        defuzzifier: Defuzzifiers,
    ) -> (r: Self)
        ensures
            r.spec_s_norm() == s_norm,
            r.spec_t_norm() == t_norm,
            r.spec_implication() == implication,
            r.spec_aggregation() == aggregation,
            r.spec_defuzzifier() == defuzzifier,
            r.spec_rules().len() == 0,
            r.spec_inputs().len() == 0,
            r.spec_outputs().len() == 0,
    {
        Self {
            s_norm,
            t_norm,
            implication,
            aggregation,
            defuzzifier,
            rules: Vec::new(),
            inputs: Vec::new(),
            outputs: Vec::new(),
        }
    }

    /// Builds an engine from its five operators and already assembled
    /// variables and rules.
    pub fn new_all(
        s_norm: SNorms,
        t_norm: TNorms,
        implication: Implications,
        aggregation: Aggregations,
        defuzzifier: Defuzzifiers,
        rules: Vec<Rule>,
        inputs: Vec<InputVariable>,
        outputs: Vec<OutputVariable>,
    ) -> (r: Self)
        ensures
            r.spec_s_norm() == s_norm,
            r.spec_t_norm() == t_norm,
            r.spec_implication() == implication,
            r.spec_aggregation() == aggregation,
            r.spec_defuzzifier() == defuzzifier,
            r.spec_rules() == rules@,
            r.spec_inputs() == inputs@,
            r.spec_outputs() == outputs@,
    {
        Self { s_norm, t_norm, implication, aggregation, defuzzifier, rules, inputs, outputs }
    }

    /// Registers an input variable.
    pub fn add_input(&mut self, input: InputVariable)
        ensures
            final(self).spec_inputs() == old(self).spec_inputs().push(input),
            final(self).spec_outputs() == old(self).spec_outputs(),
            final(self).spec_rules() == old(self).spec_rules(),
            final(self).spec_s_norm() == old(self).spec_s_norm(),
            final(self).spec_t_norm() == old(self).spec_t_norm(),
            final(self).spec_implication() == old(self).spec_implication(),
            final(self).spec_aggregation() == old(self).spec_aggregation(),
            final(self).spec_defuzzifier() == old(self).spec_defuzzifier(),
    {
        self.inputs.push(input);
    }

    /// Registers an output variable.
    pub fn add_output(&mut self, output: OutputVariable)
        ensures
            final(self).spec_outputs() == old(self).spec_outputs().push(output),
            final(self).spec_inputs() == old(self).spec_inputs(),
            final(self).spec_rules() == old(self).spec_rules(),
            final(self).spec_s_norm() == old(self).spec_s_norm(),
            final(self).spec_t_norm() == old(self).spec_t_norm(),
            final(self).spec_implication() == old(self).spec_implication(),
            final(self).spec_aggregation() == old(self).spec_aggregation(),
            final(self).spec_defuzzifier() == old(self).spec_defuzzifier(),
    {
        self.outputs.push(output);
    }

    /// Registers a rule.
    pub fn add_rule(&mut self, rule: Rule)
        ensures
            final(self).spec_rules() == old(self).spec_rules().push(rule),
            final(self).spec_inputs() == old(self).spec_inputs(),
            final(self).spec_outputs() == old(self).spec_outputs(),
            final(self).spec_s_norm() == old(self).spec_s_norm(),
            final(self).spec_t_norm() == old(self).spec_t_norm(),
            final(self).spec_implication() == old(self).spec_implication(),
            final(self).spec_aggregation() == old(self).spec_aggregation(),
            final(self).spec_defuzzifier() == old(self).spec_defuzzifier(),
    {
        self.rules.push(rule);
    }

    /// Merges a non-empty degree vector through the configured S-norm.
    pub fn get_s_norm(&self, fuzzified: &[i64]) -> (r: i64)
        requires
            fuzzified@.len() > 0,
            forall|i: int| 0 <= i < fuzzified@.len() ==> is_degree(#[trigger] fuzzified@[i]),
        ensures
            r == self.spec_s_norm().spec_s_norm(fuzzified@),
            is_degree(r),
    {
        self.s_norm.s_norm(fuzzified)
    }

    /// Merges a non-empty degree vector through the configured T-norm.
    pub fn get_t_norm(&self, fuzzified: &[i64]) -> (r: i64)
        requires
            fuzzified@.len() > 0,
            forall|i: int| 0 <= i < fuzzified@.len() ==> is_degree(#[trigger] fuzzified@[i]),
        ensures
            r == self.spec_t_norm().spec_t_norm(fuzzified@),
            is_degree(r),
    {
        self.t_norm.t_norm(fuzzified)
    }

    /// The relation vector of the rule at `rule_index`.
    pub fn get_rules(&self, rule_index: usize) -> (r: &[i32])
        requires
            rule_index < self.spec_rules().len(),
        ensures
            r@ == self.spec_rules()[rule_index as int].spec_relations(),
    {
        self.rules[rule_index].get_rules()
    }

    /// The antecedent entries of the rule at `rule_index`.
    pub fn get_input_rules(&self, rule_index: usize) -> (r: &[i32])
        requires
            rule_index < self.spec_rules().len(),
            self.spec_inputs().len() <= self.spec_rules()[rule_index as int].spec_relations().len(),
        ensures
            r@ == self.spec_rules()[rule_index as int].spec_relations().take(
                self.spec_inputs().len() as int,
            ),
    {
        self.rules[rule_index].get_input_rules(self.inputs.len())
    }

    /// The consequent entries of the rule at `rule_index`.
    pub fn get_output_rules(&self, rule_index: usize) -> (r: &[i32])
        requires
            rule_index < self.spec_rules().len(),
            self.spec_inputs().len() <= self.spec_rules()[rule_index as int].spec_relations().len(),
        ensures
            r@ == self.spec_rules()[rule_index as int].spec_relations().skip(
                self.spec_inputs().len() as int,
            ),
    {
        self.rules[rule_index].get_output_rules(self.inputs.len())
    }

    /// Stage one: the antecedent degree matrix, one row per rule, one
    /// complement-adjusted degree per input slot.
    pub fn fuzzification(&self, input_vec: Vec<i64>) -> (r: Vec<Vec<i64>>)
        requires
            self.spec_valid(),
            self.spec_input_ok(input_vec@),
        ensures
            r@.len() == self.spec_rules().len(),
            forall|i: int|
                0 <= i < r@.len() ==> (#[trigger] r@[i])@ == self.spec_fuzzified_row(
                    input_vec@,
                    i,
                ),
            forall|i: int, ii: int|
                0 <= i < r@.len() && 0 <= ii < self.spec_inputs().len() ==> is_degree(
                    #[trigger] r@[i]@[ii],
                ),
    {
        let rules_len = self.rules.len();
        let inputs_len = self.inputs.len();
        let mut fuzzified: Vec<Vec<i64>> = Vec::new();
        let mut i: usize = 0;
        while i < rules_len
            invariant
                self.spec_valid(),
                self.spec_input_ok(input_vec@),
                rules_len == self.spec_rules().len(),
                inputs_len == self.spec_inputs().len(),
                0 <= i <= rules_len,
                fuzzified@.len() == i,
                forall|k: int|
                    0 <= k < i ==> (#[trigger] fuzzified@[k])@ == self.spec_fuzzified_row(
                        input_vec@,
                        k,
                    ),
                forall|k: int, ii: int|
                    0 <= k < i && 0 <= ii < inputs_len ==> is_degree(#[trigger] fuzzified@[k]@[ii]),
            decreases rules_len - i,
        {
            assert(self.spec_rule_len_ok(i as int));
            let input_rule: &[i32] = self.rules[i].get_input_rules(inputs_len);
            let mut temp_vec: Vec<i64> = Vec::new();
            let mut ii: usize = 0;
            while ii < inputs_len
                invariant
                    self.spec_valid(),
                    self.spec_input_ok(input_vec@),
                    inputs_len == self.spec_inputs().len(),
                    0 <= i < self.spec_rules().len(),
                    0 <= ii <= inputs_len,
                    input_rule@ == self.spec_rules()[i as int].spec_relations().take(
                        inputs_len as int,
                    ),
                    self.spec_rule_len_ok(i as int),
                    temp_vec@.len() == ii,
                    forall|jj: int|
                        0 <= jj < ii ==> temp_vec@[jj] == self.spec_fuzzified_at(
                            input_vec@,
                            i as int,
                            jj,
                        ) as i64,
                    forall|jj: int| 0 <= jj < ii ==> is_degree(#[trigger] temp_vec@[jj]),
                decreases inputs_len - ii,
            {
                assert(self.spec_rule_indices_ok(i as int));
                let rel: i32 = input_rule[ii];
                assert(rel == self.spec_rules()[i as int].spec_relations()[ii as int]);
                let index: usize = abs_rel(rel);
                let fuzzed: i64 = self.inputs[ii].fuzzify(index, input_vec[ii]);
                if rel < 0 {
                    temp_vec.push(SCALE - fuzzed);
                } else {
                    temp_vec.push(fuzzed);
                }
                ii = ii + 1;
            }
            assert(temp_vec@ =~= self.spec_fuzzified_row(input_vec@, i as int));
            fuzzified.push(temp_vec);
            i = i + 1;
        }
        fuzzified
    }

    /// Stage two: one firing strength per rule, merged through the rule's
    /// combinator.
    pub fn connect_inputs(&self, fuzzified: Vec<Vec<i64>>) -> (r: Vec<i64>)
        requires
            fuzzified@.len() == self.spec_rules().len(),
            self.spec_inputs().len() > 0,
            forall|i: int|
                0 <= i < fuzzified@.len() ==> (#[trigger] fuzzified@[i])@.len()
                    == self.spec_inputs().len(),
            forall|i: int, ii: int|
                0 <= i < fuzzified@.len() && 0 <= ii < self.spec_inputs().len() ==> is_degree(
                    #[trigger] fuzzified@[i]@[ii],
                ),
        ensures
            r@.len() == fuzzified@.len(),
            forall|i: int|
                0 <= i < r@.len() ==> r@[i] == self.spec_connect_row(i, fuzzified@[i]@),
            forall|i: int| 0 <= i < r@.len() ==> is_degree(#[trigger] r@[i]),
    {
        let rules_len = self.rules.len();
        let mut connected: Vec<i64> = Vec::new();
        let mut i: usize = 0;
        while i < rules_len
            invariant
                rules_len == self.spec_rules().len(),
                fuzzified@.len() == rules_len,
                self.spec_inputs().len() > 0,
                forall|k: int|
                    0 <= k < fuzzified@.len() ==> (#[trigger] fuzzified@[k])@.len()
                        == self.spec_inputs().len(),
                forall|k: int, ii: int|
                    0 <= k < fuzzified@.len() && 0 <= ii < self.spec_inputs().len() ==> is_degree(
                        #[trigger] fuzzified@[k]@[ii],
                    ),
                0 <= i <= rules_len,
                connected@.len() == i,
                forall|k: int|
                    0 <= k < i ==> connected@[k] == self.spec_connect_row(k, fuzzified@[k]@),
                forall|k: int| 0 <= k < i ==> is_degree(#[trigger] connected@[k]),
            decreases rules_len - i,
        {
            let kind = self.rules[i].get_kind();
            let row: &[i64] = fuzzified[i].as_slice();
            let strength: i64 = match kind {
                Kind::OR => self.get_s_norm(row),
                Kind::AND => self.get_t_norm(row),
            };
            connected.push(strength);
            i = i + 1;
        }
        connected
    }

    /// Stage three: each rule's firing strength scaled by its certainty
    /// weight.
    pub fn weighed_inputs(&self, connected_inputs: Vec<i64>) -> (r: Vec<i64>)
        requires
            connected_inputs@.len() == self.spec_rules().len(),
            forall|i: int| 0 <= i < connected_inputs@.len() ==> is_degree(
                #[trigger] connected_inputs@[i],
            ),
        ensures
            r@.len() == connected_inputs@.len(),
            forall|i: int|
                0 <= i < r@.len() ==> r@[i] == self.spec_rules()[i].spec_weight()
                    * connected_inputs@[i] / (SCALE as int),
            forall|i: int| 0 <= i < r@.len() ==> is_degree(#[trigger] r@[i]),
    {
        let rules_len = self.rules.len();
        let mut weighted: Vec<i64> = Vec::new();
        let mut i: usize = 0;
        while i < rules_len
            invariant
                rules_len == self.spec_rules().len(),
                connected_inputs@.len() == rules_len,
                forall|k: int| 0 <= k < connected_inputs@.len() ==> is_degree(
                    #[trigger] connected_inputs@[k],
                ),
                0 <= i <= rules_len,
                weighted@.len() == i,
                forall|k: int|
                    0 <= k < i ==> weighted@[k] == self.spec_rules()[k].spec_weight()
                        * connected_inputs@[k] / (SCALE as int),
                forall|k: int| 0 <= k < i ==> is_degree(#[trigger] weighted@[k]),
            decreases rules_len - i,
        {
            let w: i64 = self.rules[i].get_weight();
            let mu: i64 = connected_inputs[i];
            proof {
                vstd::arithmetic::mul::lemma_mul_nonnegative(w as int, mu as int);
                vstd::arithmetic::mul::lemma_mul_upper_bound(
                    w as int,
                    SCALE as int,
                    mu as int,
                    SCALE as int,
                );
                vstd::arithmetic::div_mod::lemma_multiply_divide_le(
                    w * mu,
                    SCALE as int,
                    SCALE as int,
                );
            }
            weighted.push(div_nn(w * mu, SCALE));
            i = i + 1;
        }
        weighted
    }

    /// Stage four: for each output, each rule's consequent shape
    /// (complement-adjusted) clipped or scaled by the rule's weighted
    /// firing strength.
    pub fn implication(&self, connected_inputs: Vec<i64>) -> (r: Vec<Vec<Vec<i64>>>)
        requires
            self.spec_valid(),
            connected_inputs@.len() == self.spec_rules().len(),
            forall|ii: int| 0 <= ii < connected_inputs@.len() ==> is_degree(
                #[trigger] connected_inputs@[ii],
            ),
        ensures
            r@.len() == self.spec_outputs().len(),
            forall|i: int| 0 <= i < r@.len() ==> (#[trigger] r@[i])@.len()
                == self.spec_rules().len(),
            forall|i: int, ii: int|
                0 <= i < r@.len() && 0 <= ii < self.spec_rules().len() ==> (
                #[trigger] r@[i]@[ii])@.len() == self.spec_outputs()[i].spec_universe().len(),
            forall|i: int, ii: int, j: int|
                0 <= i < r@.len() && 0 <= ii < self.spec_rules().len() && 0 <= j
                    < self.spec_outputs()[i].spec_universe().len() ==> (#[trigger] r@[i]@[ii]@[j])
                    == self.spec_implication().spec_implication_at(
                    connected_inputs@[ii] as int,
                    self.spec_consequent_sample(i, ii, j),
                ),
            forall|i: int, ii: int, j: int|
                0 <= i < r@.len() && 0 <= ii < self.spec_rules().len() && 0 <= j
                    < self.spec_outputs()[i].spec_universe().len() ==> is_degree(
                    #[trigger] r@[i]@[ii]@[j],
                ),
    {
        let outputs_len = self.outputs.len();
        let rules_len = self.rules.len();
        let inputs_len = self.inputs.len();
        let mut implication_vec: Vec<Vec<Vec<i64>>> = Vec::new();
        let mut i: usize = 0;
        while i < outputs_len
            invariant
                self.spec_valid(),
                connected_inputs@.len() == self.spec_rules().len(),
                forall|k: int| 0 <= k < connected_inputs@.len() ==> is_degree(
                    #[trigger] connected_inputs@[k],
                ),
                outputs_len == self.spec_outputs().len(),
                rules_len == self.spec_rules().len(),
                inputs_len == self.spec_inputs().len(),
                0 <= i <= outputs_len,
                implication_vec@.len() == i,
                forall|k: int| 0 <= k < i ==> (#[trigger] implication_vec@[k])@.len() == rules_len,
                forall|k: int, ii: int|
                    0 <= k < i && 0 <= ii < rules_len ==> (#[trigger] implication_vec@[k]@[ii])@.len()
                        == self.spec_outputs()[k].spec_universe().len(),
                forall|k: int, ii: int, j: int|
                    0 <= k < i && 0 <= ii < rules_len && 0 <= j
                        < self.spec_outputs()[k].spec_universe().len() ==> (
                    #[trigger] implication_vec@[k]@[ii]@[j])
                        == self.spec_implication().spec_implication_at(
                        connected_inputs@[ii] as int,
                        self.spec_consequent_sample(k, ii, j),
                    ),
                forall|k: int, ii: int, j: int|
                    0 <= k < i && 0 <= ii < rules_len && 0 <= j
                        < self.spec_outputs()[k].spec_universe().len() ==> is_degree(
                        #[trigger] implication_vec@[k]@[ii]@[j],
                    ),
            decreases outputs_len - i,
        {
            let mut temp_vec: Vec<Vec<i64>> = Vec::new();
            let mut ii: usize = 0;
            while ii < rules_len
                invariant
                    self.spec_valid(),
                    connected_inputs@.len() == self.spec_rules().len(),
                    forall|k: int| 0 <= k < connected_inputs@.len() ==> is_degree(
                        #[trigger] connected_inputs@[k],
                    ),
                    outputs_len == self.spec_outputs().len(),
                    rules_len == self.spec_rules().len(),
                    inputs_len == self.spec_inputs().len(),
                    0 <= i < outputs_len,
                    0 <= ii <= rules_len,
                    temp_vec@.len() == ii,
                    forall|k: int|
                        0 <= k < ii ==> (#[trigger] temp_vec@[k])@.len()
                            == self.spec_outputs()[i as int].spec_universe().len(),
                    forall|k: int, j: int|
                        0 <= k < ii && 0 <= j < self.spec_outputs()[i as int].spec_universe().len()
                            ==> (#[trigger] temp_vec@[k]@[j])
                            == self.spec_implication().spec_implication_at(
                            connected_inputs@[k] as int,
                            self.spec_consequent_sample(i as int, k, j),
                        ),
                    forall|k: int, j: int|
                        0 <= k < ii && 0 <= j < self.spec_outputs()[i as int].spec_universe().len()
                            ==> is_degree(#[trigger] temp_vec@[k]@[j]),
                decreases rules_len - ii,
            {
                assert(self.spec_rule_len_ok(ii as int));
                assert(self.spec_rule_indices_ok(ii as int));
                let output_rule: &[i32] = self.rules[ii].get_output_rules(inputs_len);
                let rel: i32 = output_rule[i];
                assert(rel == self.spec_rules()[ii as int].spec_relations()[inputs_len + i]);
                let index: usize = abs_rel(rel);
                let base: &Vec<i64> = self.outputs[i].get_mu(index);
                let range: Vec<i64> = complement_samples(base, rel < 0);
                assert(forall|j: int|
                    0 <= j < range@.len() ==> range@[j] == self.spec_consequent_sample(
                        i as int,
                        ii as int,
                        j,
                    ));
                let implicated: Vec<i64> = self.implication.implication(
                    connected_inputs[ii],
                    &range,
                );
                temp_vec.push(implicated);
                ii = ii + 1;
            }
            implication_vec.push(temp_vec);
            i = i + 1;
        }
        implication_vec
    }

    /// Stage five: the per-rule implicated shapes of each output combined
    /// into one aggregated shape.
    pub fn aggregation(&self, implication_vec: Vec<Vec<Vec<i64>>>) -> (r: Vec<Vec<i64>>)
        requires
            0 < self.spec_rules().len() <= MAX_RULES,
            implication_vec@.len() == self.spec_outputs().len(),
            forall|i: int| 0 <= i < implication_vec@.len() ==> (
            #[trigger] implication_vec@[i])@.len() == self.spec_rules().len(),
            forall|i: int, ii: int|
                0 <= i < implication_vec@.len() && 0 <= ii < self.spec_rules().len() ==> (
                #[trigger] implication_vec@[i]@[ii])@.len()
                    == self.spec_outputs()[i].spec_universe().len(),
            forall|i: int, ii: int, j: int|
                0 <= i < implication_vec@.len() && 0 <= ii < self.spec_rules().len() && 0 <= j
                    < self.spec_outputs()[i].spec_universe().len() ==> is_degree(
                    #[trigger] implication_vec@[i]@[ii]@[j],
                ),
        ensures
            r@.len() == implication_vec@.len(),
            forall|i: int|
                0 <= i < r@.len() ==> (#[trigger] r@[i])@.len()
                    == self.spec_outputs()[i].spec_universe().len(),
            forall|i: int, j: int|
                0 <= i < r@.len() && 0 <= j < self.spec_outputs()[i].spec_universe().len() ==> (
                #[trigger] r@[i]@[j]) == self.spec_aggregation().spec_aggregation_at(
                    implication_vec@[i].deep_view(),
                    j,
                ),
            forall|i: int, j: int|
                0 <= i < r@.len() && 0 <= j < self.spec_outputs()[i].spec_universe().len() ==> 0
                    <= #[trigger] r@[i]@[j] <= SAMPLE_BOUND,
    {
        proof {
            assert((MAX_RULES as int) * (SCALE as int) == SAMPLE_BOUND as int)
                by (nonlinear_arith);
        }
        let outputs_len = implication_vec.len();
        let mut iv = implication_vec;
        let mut aggregated: Vec<Vec<i64>> = Vec::new();
        let mut i: usize = 0;
        while i < outputs_len
            invariant
                0 < self.spec_rules().len() <= MAX_RULES,
                outputs_len == implication_vec@.len() == self.spec_outputs().len(),
                forall|k: int| 0 <= k < implication_vec@.len() ==> (
                #[trigger] implication_vec@[k])@.len() == self.spec_rules().len(),
                forall|k: int, ii: int|
                    0 <= k < implication_vec@.len() && 0 <= ii < self.spec_rules().len() ==> (
                    #[trigger] implication_vec@[k]@[ii])@.len()
                        == self.spec_outputs()[k].spec_universe().len(),
                forall|k: int, ii: int, j: int|
                    0 <= k < implication_vec@.len() && 0 <= ii < self.spec_rules().len() && 0 <= j
                        < self.spec_outputs()[k].spec_universe().len() ==> is_degree(
                        #[trigger] implication_vec@[k]@[ii]@[j],
                    ),
                0 <= i <= outputs_len,
                iv@ == implication_vec@.skip(i as int),
                aggregated@.len() == i,
                (MAX_RULES as int) * (SCALE as int) == SAMPLE_BOUND as int,
                forall|k: int|
                    0 <= k < i ==> (#[trigger] aggregated@[k])@.len()
                        == self.spec_outputs()[k].spec_universe().len(),
                forall|k: int, j: int|
                    0 <= k < i && 0 <= j < self.spec_outputs()[k].spec_universe().len() ==> (
                    #[trigger] aggregated@[k]@[j])
                        == self.spec_aggregation().spec_aggregation_at(
                        implication_vec@[k].deep_view(),
                        j,
                    ),
                forall|k: int, j: int|
                    0 <= k < i && 0 <= j < self.spec_outputs()[k].spec_universe().len() ==> 0 <= (
                    #[trigger] aggregated@[k]@[j]) <= SAMPLE_BOUND,
            decreases outputs_len - i,
        {
            let head: Vec<Vec<i64>> = iv.remove(0);
            assert(head@ == implication_vec@[i as int]@);
            proof {
                assert(iv@ =~= implication_vec@.skip(i as int + 1));
                vstd::arithmetic::mul::lemma_mul_inequality(
                    self.spec_rules().len() as int,
                    MAX_RULES as int,
                    SCALE as int,
                );
            }
            let agg: Vec<i64> = self.aggregation.aggregation(head);
            aggregated.push(agg);
            i = i + 1;
        }
        aggregated
    }

    /// Stage six: each output's aggregated shape collapsed over its
    /// universe to one crisp value; the first output whose shape the
    /// defuzzifier rejects aborts the call.
    pub fn defuzzification(&self, aggregation_vec: Vec<Vec<i64>>) -> (r: Result<
        Vec<i64>,
        FuzzyError,
    >)
        requires
            aggregation_vec@.len() == self.spec_outputs().len(),
            forall|i: int|
                0 <= i < aggregation_vec@.len() ==> (#[trigger] aggregation_vec@[i])@.len()
                    == self.spec_outputs()[i].spec_universe().len(),
            forall|i: int, j: int|
                0 <= i < aggregation_vec@.len() && 0 <= j
                    < self.spec_outputs()[i].spec_universe().len() ==> 0 <= (
                #[trigger] aggregation_vec@[i]@[j]) <= SAMPLE_BOUND,
        ensures
            r is Ok <==> (forall|i: int|
                0 <= i < self.spec_outputs().len()
                    ==> #[trigger] self.spec_defuzzifier().spec_defuzz_ok(
                    aggregation_vec@[i]@,
                )),
            r matches Ok(v) ==> v@.len() == self.spec_outputs().len() && forall|i: int|
                0 <= i < v@.len() ==> v@[i] == self.spec_defuzzifier().spec_defuzzify(
                    aggregation_vec@[i]@,
                    self.spec_outputs()[i].spec_universe(),
                ),
            r is Err ==> r == Err::<Vec<i64>, FuzzyError>(FuzzyError::ZeroFiringStrength),
    {
        let outputs_len = aggregation_vec.len();
        let mut av = aggregation_vec;
        let mut out: Vec<i64> = Vec::new();
        let mut i: usize = 0;
        while i < outputs_len
            invariant
                outputs_len == aggregation_vec@.len() == self.spec_outputs().len(),
                forall|k: int|
                    0 <= k < aggregation_vec@.len() ==> (#[trigger] aggregation_vec@[k])@.len()
                        == self.spec_outputs()[k].spec_universe().len(),
                forall|k: int, j: int|
                    0 <= k < aggregation_vec@.len() && 0 <= j
                        < self.spec_outputs()[k].spec_universe().len() ==> 0 <= (
                    #[trigger] aggregation_vec@[k]@[j]) <= SAMPLE_BOUND,
                0 <= i <= outputs_len,
                av@ == aggregation_vec@.skip(i as int),
                out@.len() == i,
                forall|k: int|
                    0 <= k < i ==> #[trigger] self.spec_defuzzifier().spec_defuzz_ok(
                        aggregation_vec@[k]@,
                    ),
                forall|k: int|
                    0 <= k < i ==> out@[k] == self.spec_defuzzifier().spec_defuzzify(
                        aggregation_vec@[k]@,
                        self.spec_outputs()[k].spec_universe(),
                    ),
            decreases outputs_len - i,
        {
            let head: Vec<i64> = av.remove(0);
            assert(head@ == aggregation_vec@[i as int]@);
            proof {
                assert(av@ =~= aggregation_vec@.skip(i as int + 1));
            }
            let universe: &Vec<i64> = self.outputs[i].get_universe();
            match self.defuzzifier.defuzzify(head, universe) {
                Ok(v) => {
                    out.push(v);
                },
                Err(e) => {
                    return Err(e);
                },
            }
            i = i + 1;
        }
        Ok(out)
    }

    /// Checks the whole configuration and the input vector, reporting the
    /// first problem in a fixed order.
    fn validate(&self, input_vec: &Vec<i64>) -> (r: Option<FuzzyError>)
        ensures
            r == self.spec_validation(input_vec@),
            r is None <==> self.spec_valid() && self.spec_input_ok(input_vec@),
    {
        let rules_len = self.rules.len();
        let inputs_len = self.inputs.len();
        let outputs_len = self.outputs.len();
        if inputs_len == 0 || outputs_len == 0 || rules_len == 0 {
            return Some(FuzzyError::MissingComponents);
        }
        if rules_len > MAX_RULES {
            return Some(FuzzyError::InvalidParameters);
        }
        if input_vec.len() != inputs_len {
            return Some(FuzzyError::InvalidInput);
        }
        let mut k: usize = 0;
        while k < inputs_len
            invariant
                inputs_len == self.spec_inputs().len() == input_vec@.len(),
                rules_len == self.spec_rules().len(),
                outputs_len == self.spec_outputs().len(),
                0 < inputs_len,
                0 < outputs_len,
                0 < rules_len <= MAX_RULES,
                0 <= k <= inputs_len,
                forall|j: int| 0 <= j < k ==> is_value(#[trigger] input_vec@[j]),
            decreases inputs_len - k,
        {
            let x = input_vec[k];
            if !(-VALUE_BOUND <= x && x <= VALUE_BOUND) {
                proof {
                    assert(!is_value(input_vec@[k as int]));
                    assert(self.spec_validation(input_vec@) == Some(FuzzyError::InvalidInput));
                }
                return Some(FuzzyError::InvalidInput);
            }
            k = k + 1;
        }
        let mut i: usize = 0;
        while i < rules_len
            invariant
                rules_len == self.spec_rules().len(),
                inputs_len == self.spec_inputs().len() == input_vec@.len(),
                outputs_len == self.spec_outputs().len(),
                0 < inputs_len,
                0 < outputs_len,
                0 < rules_len <= MAX_RULES,
                forall|j: int| 0 <= j < input_vec@.len() ==> is_value(#[trigger] input_vec@[j]),
                0 <= i <= rules_len,
                self.spec_rules_error_from(0) == self.spec_rules_error_from(i as nat),
                forall|k2: int|
                    0 <= k2 < i ==> #[trigger] self.spec_rule_len_ok(k2)
                        && self.spec_rule_indices_ok(k2),
            decreases rules_len - i,
        {
            let rels: &[i32] = self.rules[i].get_rules();
            if rels.len() < inputs_len || rels.len() - inputs_len != outputs_len {
                proof {
                    assert(!self.spec_rule_len_ok(i as int));
                    assert(self.spec_rules_error_from(i as nat) == Some(
                        FuzzyError::RelationLengthMismatch,
                    ));
                    assert(self.spec_validation(input_vec@) == Some(
                        FuzzyError::RelationLengthMismatch,
                    ));
                }
                return Some(FuzzyError::RelationLengthMismatch);
            }
            assert(self.spec_rule_len_ok(i as int));
            let mut ii: usize = 0;
            while ii < inputs_len
                invariant
                    rules_len == self.spec_rules().len(),
                    inputs_len == self.spec_inputs().len() == input_vec@.len(),
                    outputs_len == self.spec_outputs().len(),
                    0 < inputs_len,
                    0 < outputs_len,
                    0 < rules_len <= MAX_RULES,
                    forall|j: int| 0 <= j < input_vec@.len() ==> is_value(
                        #[trigger] input_vec@[j],
                    ),
                    0 <= i < rules_len,
                    0 <= ii <= inputs_len,
                    self.spec_rules_error_from(0) == self.spec_rules_error_from(i as nat),
                    self.spec_rule_len_ok(i as int),
                    rels@ == self.spec_rules()[i as int].spec_relations(),
                    rels@.len() == inputs_len + outputs_len,
                    forall|jj: int|
                        0 <= jj < ii ==> rel_index(self.spec_rules()[i as int].spec_relations()[jj])
                            < (#[trigger] self.spec_inputs()[jj]).spec_mfs().len(),
                decreases inputs_len - ii,
            {
                let index: usize = abs_rel(rels[ii]);
                if index >= self.inputs[ii].membership_count() {
                    proof {
                        let jj = ii as int;
                        assert(rel_index(self.spec_rules()[i as int].spec_relations()[jj]) >= self
                            .spec_inputs()[jj].spec_mfs().len());
                        assert(!self.spec_rule_indices_ok(i as int));
                        assert(self.spec_rules_error_from(i as nat) == Some(
                            FuzzyError::IndexOutOfRange,
                        ));
                        assert(self.spec_validation(input_vec@) == Some(
                            FuzzyError::IndexOutOfRange,
                        ));
                    }
                    return Some(FuzzyError::IndexOutOfRange);
                }
                ii = ii + 1;
            }
            let mut i2: usize = 0;
            while i2 < outputs_len
                invariant
                    rules_len == self.spec_rules().len(),
                    inputs_len == self.spec_inputs().len() == input_vec@.len(),
                    outputs_len == self.spec_outputs().len(),
                    0 < inputs_len,
                    0 < outputs_len,
                    0 < rules_len <= MAX_RULES,
                    forall|j: int| 0 <= j < input_vec@.len() ==> is_value(
                        #[trigger] input_vec@[j],
                    ),
                    0 <= i < rules_len,
                    0 <= i2 <= outputs_len,
                    self.spec_rules_error_from(0) == self.spec_rules_error_from(i as nat),
                    self.spec_rule_len_ok(i as int),
                    rels@ == self.spec_rules()[i as int].spec_relations(),
                    rels@.len() == inputs_len + outputs_len,
                    inputs_len + outputs_len <= usize::MAX,
                    forall|jj: int|
                        0 <= jj < i2 ==> rel_index(
                            self.spec_rules()[i as int].spec_relations()[inputs_len + jj],
                        ) < (#[trigger] self.spec_outputs()[jj]).spec_mrs().len(),
                decreases outputs_len - i2,
            {
                let index: usize = abs_rel(rels[inputs_len + i2]);
                if index >= self.outputs[i2].membership_count() {
                    proof {
                        let jj = i2 as int;
                        assert(rel_index(
                            self.spec_rules()[i as int].spec_relations()[inputs_len + jj],
                        ) >= self.spec_outputs()[jj].spec_mrs().len());
                        assert(!self.spec_rule_indices_ok(i as int));
                        assert(self.spec_rules_error_from(i as nat) == Some(
                            FuzzyError::IndexOutOfRange,
                        ));
                        assert(self.spec_validation(input_vec@) == Some(
                            FuzzyError::IndexOutOfRange,
                        ));
                    }
                    return Some(FuzzyError::IndexOutOfRange);
                }
                i2 = i2 + 1;
            }
            assert(self.spec_rule_len_ok(i as int));
            assert(self.spec_rule_indices_ok(i as int));
            proof {
                assert(self.spec_rules_error_from(i as nat) == self.spec_rules_error_from(
                    (i + 1) as nat,
                ));
                assert(forall|k2: int|
                    0 <= k2 < i + 1 ==> #[trigger] self.spec_rule_len_ok(k2)
                        && self.spec_rule_indices_ok(k2));
            }
            i = i + 1;
        }
        assert(self.spec_rules_error_from(rules_len as nat) is None);
        None
    }

    /// Runs the whole pipeline on one input vector: fuzzification, rule
    /// combination, weighting, implication, aggregation, defuzzification.
    /// Reports the first configuration or input problem without touching
    /// the pipeline, and a zero-mass aggregated shape instead of producing
    /// a meaningless quotient; the crisp outputs come in output
    /// registration order.
    pub fn compute_outputs(&self, input_vec: Vec<i64>) -> (r: Result<Vec<i64>, FuzzyError>)
        ensures
            r is Ok <==> self.spec_validation(input_vec@) is None && (forall|i: int|
                0 <= i < self.spec_outputs().len() ==> #[trigger] self.spec_output_ok(
                    input_vec@,
                    i,
                )),
            r matches Ok(v) ==> v@.len() == self.spec_outputs().len() && forall|i: int|
                0 <= i < v@.len() ==> v@[i] == self.spec_output_value(input_vec@, i),
            self.spec_validation(input_vec@) matches Some(e) ==> r == Err::<Vec<i64>, FuzzyError>(
                e,
            ),
            self.spec_validation(input_vec@) is None && !(forall|i: int|
                0 <= i < self.spec_outputs().len() ==> #[trigger] self.spec_output_ok(
                    input_vec@,
                    i,
                )) ==> r == Err::<Vec<i64>, FuzzyError>(FuzzyError::ZeroFiringStrength),
    {
        if let Some(e) = self.validate(&input_vec) {
            return Err(e);
        }
        let ghost input = input_vec@;
        let fuzzified = self.fuzzification(input_vec);
        let ghost fz = fuzzified@;
        let connected_inputs = self.connect_inputs(fuzzified);
        let ghost conn = connected_inputs@;
        let weighted_inputs = self.weighed_inputs(connected_inputs);
        let ghost wt = weighted_inputs@;
        proof {
            assert(forall|i: int|
                0 <= i < wt.len() ==> wt[i] == self.spec_strength(input, i));
        }
        let implication_vec = self.implication(weighted_inputs);
        let ghost imp = implication_vec@;
        proof {
            assert forall|i: int| 0 <= i < imp.len() implies imp[i].deep_view()
                =~~= self.spec_implication_matrix(input, i) by {
                assert(imp[i].deep_view().len() == self.spec_rules().len());
                assert forall|ii: int| 0 <= ii < self.spec_rules().len() implies imp[i].deep_view()[ii]
                    =~= self.spec_implicated_row(input, i, ii) by {
                    assert(imp[i].deep_view()[ii] == imp[i]@[ii]@);
                    assert forall|j: int|
                        0 <= j < self.spec_outputs()[i].spec_universe().len() implies imp[i]@[ii]@[j]
                        == self.spec_implicated_row(input, i, ii)[j] by {
                        assert(imp[i]@[ii]@[j] == self.spec_implication().spec_implication_at(
                            wt[ii] as int,
                            self.spec_consequent_sample(i, ii, j),
                        ));
                    }
                }
            }
        }
        let aggregation_vec = self.aggregation(implication_vec);
        let ghost agg = aggregation_vec@;
        proof {
            assert forall|i: int| 0 <= i < agg.len() implies agg[i]@
                =~= self.spec_aggregated_shape(input, i) by {
                assert forall|j: int|
                    0 <= j < self.spec_outputs()[i].spec_universe().len() implies agg[i]@[j]
                    == self.spec_aggregated_shape(input, i)[j] by {
                    assert(agg[i]@[j] == self.spec_aggregation().spec_aggregation_at(
                        imp[i].deep_view(),
                        j,
                    ));
                    assert(imp[i].deep_view() == self.spec_implication_matrix(input, i));
                }
            }
        }
        let result = self.defuzzification(aggregation_vec);
        proof {
            assert forall|i: int| 0 <= i < self.spec_outputs().len() implies (
            #[trigger] self.spec_output_ok(input, i)
                == self.spec_defuzzifier().spec_defuzz_ok(agg[i]@)) by {
                assert(agg[i]@ == self.spec_aggregated_shape(input, i));
            }
            if forall|i: int|
                0 <= i < self.spec_outputs().len() ==> #[trigger] self.spec_output_ok(input, i) {
                assert forall|i: int|
                    0 <= i < self.spec_outputs().len()
                        implies #[trigger] self.spec_defuzzifier().spec_defuzz_ok(agg[i]@) by {
                    assert(self.spec_output_ok(input, i));
                }
                assert(result is Ok);
            } else {
                let w = choose|i: int|
                    0 <= i < self.spec_outputs().len() && !(#[trigger] self.spec_output_ok(
                        input,
                        i,
                    ));
                assert(!self.spec_defuzzifier().spec_defuzz_ok(agg[w]@));
                assert(result is Err);
            }
            if let Ok(ref v) = result {
                assert forall|i: int| 0 <= i < v@.len() implies v@[i] == self.spec_output_value(
                    input,
                    i,
                ) by {
                    assert(v@[i] == self.spec_defuzzifier().spec_defuzzify(
                        agg[i]@,
                        self.spec_outputs()[i].spec_universe(),
                    ));
                    assert(agg[i]@ == self.spec_aggregated_shape(input, i));
                }
            }
        }
        result
    }
}

/// Copies a sample vector, replacing each sample by its complement when
/// `complement` is set.
fn complement_samples(vec: &Vec<i64>, complement: bool) -> (r: Vec<i64>)
    requires
        forall|j: int| 0 <= j < vec@.len() ==> is_degree(#[trigger] vec@[j]),
    ensures
        r@.len() == vec@.len(),
        forall|j: int|
            0 <= j < r@.len() ==> r@[j] == if complement {
                SCALE - vec@[j]
            } else {
                vec@[j] as int
            },
        forall|j: int| 0 <= j < r@.len() ==> is_degree(#[trigger] r@[j]),
{
    let mut r: Vec<i64> = Vec::new();
    let mut j: usize = 0;
    while j < vec.len()
        invariant
            0 <= j <= vec@.len(),
            forall|k: int| 0 <= k < vec@.len() ==> is_degree(#[trigger] vec@[k]),
            r@.len() == j,
            forall|k: int|
                0 <= k < j ==> r@[k] == if complement {
                    SCALE - vec@[k]
                } else {
                    vec@[k] as int
                },
            forall|k: int| 0 <= k < j ==> is_degree(#[trigger] r@[k]),
        decreases vec@.len() - j,
    {
        let e = vec[j];
        if complement {
            r.push(SCALE - e);
        } else {
            r.push(e);
        }
        j = j + 1;
    }
    r
}

/// Copies a crisp input vector.
fn copy_inputs(v: &Vec<i64>) -> (r: Vec<i64>)
    ensures
        r@ == v@,
{
    let mut r: Vec<i64> = Vec::new();
    let mut i: usize = 0;
    while i < v.len()
        invariant
            0 <= i <= v@.len(),
            r@ == v@.take(i as int),
        decreases v@.len() - i,
    {
        r.push(v[i]);
        assert(r@ =~= v@.take(i as int + 1));
        i = i + 1;
    }
    assert(v@.take(v@.len() as int) =~= v@);
    r
}

/// A Takagi-Sugeno-Kang fuzzy-inference system: functional outputs
/// evaluated directly on the input vector and collapsed by a weighted
/// mean, with no implication or aggregation stage.
#[derive(Debug)]
pub struct TSKFuzzyInferenceSystem {
    s_norm: SNorms,
    t_norm: TNorms,
    defuzzification: TSKDefuzzifiers,
    rules: Vec<Rule>,
    inputs: Vec<InputVariable>,
    outputs: Vec<TSKOutputVariable>,
}

/// Shorthand for the TSK engine.
pub type TSKFIS = TSKFuzzyInferenceSystem;

impl TSKFuzzyInferenceSystem {
    /// The configured S-norm.
    pub closed spec fn spec_s_norm(&self) -> SNorms {
        self.s_norm
    }

    /// The configured T-norm.
    pub closed spec fn spec_t_norm(&self) -> TNorms {
        self.t_norm
    }

    /// The configured defuzzifier.
    pub closed spec fn spec_defuzzification(&self) -> TSKDefuzzifiers {
        self.defuzzification
    }

    /// The registered rules, in registration order.
    pub closed spec fn spec_rules(&self) -> Seq<Rule> {
        self.rules@
    }

    /// The registered input variables, in registration order.
    pub closed spec fn spec_inputs(&self) -> Seq<InputVariable> {
        self.inputs@
    }

    /// The registered output variables, in registration order.
    pub closed spec fn spec_outputs(&self) -> Seq<TSKOutputVariable> {
        self.outputs@
    }

    /// The `i`-th rule's relation vector is exactly one entry per input
    /// followed by one entry per output.
    pub open spec fn spec_rule_len_ok(&self, i: int) -> bool {
        self.spec_rules()[i].spec_relations().len() == self.spec_inputs().len()
            + self.spec_outputs().len()
    }

    /// The `ii`-th antecedent entry of the `i`-th rule selects a membership
    /// position its input variable has.
    pub open spec fn spec_in_slot_ok(&self, i: int, ii: int) -> bool {
        rel_index(self.spec_rules()[i].spec_relations()[ii]) < self.spec_inputs()[ii].spec_mfs().len()
    }

    /// The consequent entry of the `i`-th rule for output `i2` is
    /// non-negative (TSK consequents admit no complement) and selects a
    /// consequent its output variable has.
    pub open spec fn spec_out_slot_ok(&self, i: int, i2: int) -> bool {
        let rel = self.spec_rules()[i].spec_relations()[self.spec_inputs().len() + i2];
        rel >= 0 && rel < self.spec_outputs()[i2].spec_mfs().len()
    }

    /// The consequent the `i`-th rule selects for output `i2`, if linear,
    /// has one coefficient per input plus an intercept.
    pub open spec fn spec_arity_slot_ok(&self, i: int, i2: int) -> bool {
        let rel = self.spec_rules()[i].spec_relations()[self.spec_inputs().len() + i2];
        self.spec_outputs()[i2].spec_mfs()[rel_index(rel)] matches TSKMembershipFunction::Linear(
            v,
        ) ==> v@.len() == self.spec_inputs().len() + 1
    }

    /// Every antecedent and consequent entry of the `i`-th rule selects a
    /// position its variable has.
    pub open spec fn spec_rule_indices_ok(&self, i: int) -> bool {
        &&& forall|ii: int|
            0 <= ii < self.spec_inputs().len() ==> #[trigger] self.spec_in_slot_ok(i, ii)
        &&& forall|i2: int|
            0 <= i2 < self.spec_outputs().len() ==> #[trigger] self.spec_out_slot_ok(i, i2)
    }

    /// Every linear consequent the `i`-th rule selects has one coefficient
    /// per input plus an intercept.
    pub open spec fn spec_rule_arity_ok(&self, i: int) -> bool {
        forall|i2: int|
            0 <= i2 < self.spec_outputs().len() ==> #[trigger] self.spec_arity_slot_ok(i, i2)
    }

    /// The whole configuration is fit for a compute call.
    pub open spec fn spec_valid(&self) -> bool {
        &&& 0 < self.spec_inputs().len()
        &&& 0 < self.spec_outputs().len()
        &&& 0 < self.spec_rules().len() <= MAX_RULES
        &&& forall|i: int|
            0 <= i < self.spec_rules().len() ==> #[trigger] self.spec_rule_len_ok(i)
                && self.spec_rule_indices_ok(i) && self.spec_rule_arity_ok(i)
    }

    /// The input vector is fit for a compute call: one representable entry
    /// per registered input variable.
    pub open spec fn spec_input_ok(&self, input: Seq<i64>) -> bool {
        input.len() == self.spec_inputs().len() && forall|i: int|
            0 <= i < input.len() ==> is_value(#[trigger] input[i])
    }

    /// The antecedent degree of rule `i` in input slot `ii`.
    pub open spec fn spec_fuzzified_at(&self, input: Seq<i64>, i: int, ii: int) -> int {
        spec_slot_degree(
            self.spec_inputs()[ii],
            self.spec_rules()[i].spec_relations()[ii],
            input[ii],
        )
    }

    /// The antecedent degree vector of rule `i`.
    pub open spec fn spec_fuzzified_row(&self, input: Seq<i64>, i: int) -> Seq<i64> {
        Seq::new(
            self.spec_inputs().len(),
            |ii: int| self.spec_fuzzified_at(input, i, ii) as i64,
        )
    }

    /// The firing strength of rule `i` on an antecedent degree vector: the
    /// T-norm for an AND rule, the S-norm for an OR rule.
    pub open spec fn spec_connect_row(&self, i: int, row: Seq<i64>) -> int {
        match self.spec_rules()[i].spec_kind() {
            Kind::OR => self.spec_s_norm().spec_s_norm(row),
            Kind::AND => self.spec_t_norm().spec_t_norm(row),
        }
    }

    /// The weighted firing strength of rule `i` on the given input vector.
    pub open spec fn spec_strength(&self, input: Seq<i64>, i: int) -> int {
        self.spec_rules()[i].spec_weight() * self.spec_connect_row(
            i,
            self.spec_fuzzified_row(input, i),
        ) / (SCALE as int)
    }

    /// The weighted firing strengths of all rules.
    pub open spec fn spec_weights_row(&self, input: Seq<i64>) -> Seq<i64> {
        Seq::new(self.spec_rules().len(), |ii: int| self.spec_strength(input, ii) as i64)
    }

    /// The value of the consequent rule `ii` selects for output `i`,
    /// evaluated on the full input vector.
    pub open spec fn spec_consequent_value(&self, input: Seq<i64>, i: int, ii: int) -> int {
        let rel = self.spec_rules()[ii].spec_relations()[self.spec_inputs().len() + i];
        self.spec_outputs()[i].spec_mfs()[rel_index(rel)].spec_value(input)
    }

    /// The consequent values of all rules for output `i`.
    pub open spec fn spec_mu_row(&self, input: Seq<i64>, i: int) -> Seq<i64> {
        Seq::new(
            self.spec_rules().len(),
            |ii: int| self.spec_consequent_value(input, i, ii) as i64,
        )
    }

    /// Whether the outputs defuzzify on the given input: some rule must
    /// fire with positive strength.
    pub open spec fn spec_fire_ok(&self, input: Seq<i64>) -> bool {
        self.spec_defuzzification().spec_defuzz_ok(self.spec_weights_row(input))
    }

    /// The crisp value of output `i` on the given input.
    pub open spec fn spec_output_value(&self, input: Seq<i64>, i: int) -> int {
        self.spec_defuzzification().spec_defuzzify(
            self.spec_mu_row(input, i),
            self.spec_weights_row(input),
        )
    }

    /// The first configuration error among the rules, scanning from `i`: a
    /// wrong relation length, an out-of-range or negative consequent
    /// position, then a linear consequent of the wrong arity.
    pub open spec fn spec_rules_error_from(&self, i: nat) -> Option<FuzzyError>
        decreases self.spec_rules().len() - i,
    {
        if i >= self.spec_rules().len() {
            None
        } else if !self.spec_rule_len_ok(i as int) {
            Some(FuzzyError::RelationLengthMismatch)
        } else if !self.spec_rule_indices_ok(i as int) {
            Some(FuzzyError::IndexOutOfRange)
        } else if !self.spec_rule_arity_ok(i as int) {
            Some(FuzzyError::LengthMismatch)
        } else {
            self.spec_rules_error_from(i + 1)
        }
    }

    /// The error a compute call reports before any pipeline work, if any.
    pub open spec fn spec_validation(&self, input: Seq<i64>) -> Option<FuzzyError> {
        if self.spec_inputs().len() == 0 || self.spec_outputs().len() == 0
            || self.spec_rules().len() == 0 {
            Some(FuzzyError::MissingComponents)
        } else if self.spec_rules().len() > MAX_RULES {
            Some(FuzzyError::InvalidParameters)
        } else if input.len() != self.spec_inputs().len() {
            Some(FuzzyError::InvalidInput)
        } else if exists|i: int| 0 <= i < input.len() && !is_value(#[trigger] input[i]) {
            Some(FuzzyError::InvalidInput)
        } else {
            self.spec_rules_error_from(0)
        }
    }

    /// Builds an engine from its operators, with no variables or rules yet.
    pub fn new(s_norm: SNorms, t_norm: TNorms, defuzzification: TSKDefuzzifiers) -> (r: Self)
        ensures
            r.spec_s_norm() == s_norm,
            r.spec_t_norm() == t_norm,
            r.spec_defuzzification() == defuzzification,
            r.spec_rules().len() == 0,
            r.spec_inputs().len() == 0,
            r.spec_outputs().len() == 0,
    {
        Self {
            s_norm,
            t_norm,
            defuzzification,
            rules: Vec::new(),
            inputs: Vec::new(),
            outputs: Vec::new(),
        }
    }

    /// Registers an input variable.
    pub fn add_input(&mut self, input: InputVariable)
        ensures
            final(self).spec_inputs() == old(self).spec_inputs().push(input),
            final(self).spec_outputs() == old(self).spec_outputs(),
            final(self).spec_rules() == old(self).spec_rules(),
            final(self).spec_s_norm() == old(self).spec_s_norm(),
            final(self).spec_t_norm() == old(self).spec_t_norm(),
            final(self).spec_defuzzification() == old(self).spec_defuzzification(),
    {
        self.inputs.push(input);
    }

    /// Registers an output variable.
    pub fn add_output(&mut self, variable: TSKOutputVariable)
        ensures
            final(self).spec_outputs() == old(self).spec_outputs().push(variable),
            final(self).spec_inputs() == old(self).spec_inputs(),
            final(self).spec_rules() == old(self).spec_rules(),
            final(self).spec_s_norm() == old(self).spec_s_norm(),
            final(self).spec_t_norm() == old(self).spec_t_norm(),
            final(self).spec_defuzzification() == old(self).spec_defuzzification(),
    {
        self.outputs.push(variable);
    }

    /// Registers a rule.
    pub fn add_rule(&mut self, rule: Rule)
        ensures
            final(self).spec_rules() == old(self).spec_rules().push(rule),
            final(self).spec_inputs() == old(self).spec_inputs(),
            final(self).spec_outputs() == old(self).spec_outputs(),
            final(self).spec_s_norm() == old(self).spec_s_norm(),
            final(self).spec_t_norm() == old(self).spec_t_norm(),
            final(self).spec_defuzzification() == old(self).spec_defuzzification(),
    {
        self.rules.push(rule);
    }

    /// Merges a non-empty degree vector through the configured S-norm.
    pub fn get_s_norm(&self, fuzzified: &[i64]) -> (r: i64)
        requires
            fuzzified@.len() > 0,
            forall|i: int| 0 <= i < fuzzified@.len() ==> is_degree(#[trigger] fuzzified@[i]),
        ensures
            r == self.spec_s_norm().spec_s_norm(fuzzified@),
            is_degree(r),
    {
        self.s_norm.s_norm(fuzzified)
    }

    /// Merges a non-empty degree vector through the configured T-norm.
    pub fn get_t_norm(&self, fuzzified: &[i64]) -> (r: i64)
        requires
            fuzzified@.len() > 0,
            forall|i: int| 0 <= i < fuzzified@.len() ==> is_degree(#[trigger] fuzzified@[i]),
        ensures
            r == self.spec_t_norm().spec_t_norm(fuzzified@),
            is_degree(r),
    {
        self.t_norm.t_norm(fuzzified)
    }

    /// The relation vector of the rule at `rule_index`.
    pub fn get_rules(&self, rule_index: usize) -> (r: &[i32])
        requires
            rule_index < self.spec_rules().len(),
        ensures
            r@ == self.spec_rules()[rule_index as int].spec_relations(),
    {
        self.rules[rule_index].get_rules()
    }

    /// The antecedent entries of the rule at `rule_index`.
    pub fn get_input_rules(&self, rule_index: usize) -> (r: &[i32])
        requires
            rule_index < self.spec_rules().len(),
            self.spec_inputs().len() <= self.spec_rules()[rule_index as int].spec_relations().len(),
        ensures
            r@ == self.spec_rules()[rule_index as int].spec_relations().take(
                self.spec_inputs().len() as int,
            ),
    {
        self.rules[rule_index].get_input_rules(self.inputs.len())
    }

    /// The consequent entries of the rule at `rule_index`.
    pub fn get_output_rules(&self, rule_index: usize) -> (r: &[i32])
        requires
            rule_index < self.spec_rules().len(),
            self.spec_inputs().len() <= self.spec_rules()[rule_index as int].spec_relations().len(),
        ensures
            r@ == self.spec_rules()[rule_index as int].spec_relations().skip(
                self.spec_inputs().len() as int,
            ),
    {
        self.rules[rule_index].get_output_rules(self.inputs.len())
    }

    /// Stage one: the antecedent degree matrix, one row per rule, one
    /// complement-adjusted degree per input slot.
    pub fn fuzzification(&self, input_vec: Vec<i64>) -> (r: Vec<Vec<i64>>)
        requires
            self.spec_valid(),
            self.spec_input_ok(input_vec@),
        ensures
            r@.len() == self.spec_rules().len(),
            forall|i: int|
                0 <= i < r@.len() ==> (#[trigger] r@[i])@ == self.spec_fuzzified_row(
                    input_vec@,
                    i,
                ),
            forall|i: int, ii: int|
                0 <= i < r@.len() && 0 <= ii < self.spec_inputs().len() ==> is_degree(
                    #[trigger] r@[i]@[ii],
                ),
    {
        let rules_len = self.rules.len();
        let inputs_len = self.inputs.len();
        let mut fuzzified: Vec<Vec<i64>> = Vec::new();
        let mut i: usize = 0;
        while i < rules_len
            invariant
                self.spec_valid(),
                self.spec_input_ok(input_vec@),
                rules_len == self.spec_rules().len(),
                inputs_len == self.spec_inputs().len(),
                0 <= i <= rules_len,
                fuzzified@.len() == i,
                forall|k: int|
                    0 <= k < i ==> (#[trigger] fuzzified@[k])@ == self.spec_fuzzified_row(
                        input_vec@,
                        k,
                    ),
                forall|k: int, ii: int|
                    0 <= k < i && 0 <= ii < inputs_len ==> is_degree(#[trigger] fuzzified@[k]@[ii]),
            decreases rules_len - i,
        {
            assert(self.spec_rule_len_ok(i as int));
            let input_rule: &[i32] = self.rules[i].get_input_rules(inputs_len);
            let mut temp_vec: Vec<i64> = Vec::new();
            let mut ii: usize = 0;
            while ii < inputs_len
                invariant
                    self.spec_valid(),
                    self.spec_input_ok(input_vec@),
                    inputs_len == self.spec_inputs().len(),
                    0 <= i < self.spec_rules().len(),
                    0 <= ii <= inputs_len,
                    input_rule@ == self.spec_rules()[i as int].spec_relations().take(
                        inputs_len as int,
                    ),
                    self.spec_rule_len_ok(i as int),
                    temp_vec@.len() == ii,
                    forall|jj: int|
                        0 <= jj < ii ==> temp_vec@[jj] == self.spec_fuzzified_at(
                            input_vec@,
                            i as int,
                            jj,
                        ) as i64,
                    forall|jj: int| 0 <= jj < ii ==> is_degree(#[trigger] temp_vec@[jj]),
                decreases inputs_len - ii,
            {
                assert(self.spec_rule_indices_ok(i as int));
                assert(self.spec_in_slot_ok(i as int, ii as int));
                let rel: i32 = input_rule[ii];
                assert(rel == self.spec_rules()[i as int].spec_relations()[ii as int]);
                let index: usize = abs_rel(rel);
                let fuzzed: i64 = self.inputs[ii].fuzzify(index, input_vec[ii]);
                if rel < 0 {
                    temp_vec.push(SCALE - fuzzed);
                } else {
                    temp_vec.push(fuzzed);
                }
                ii = ii + 1;
            }
            assert(temp_vec@ =~= self.spec_fuzzified_row(input_vec@, i as int));
            fuzzified.push(temp_vec);
            i = i + 1;
        }
        fuzzified
    }

    /// Stage two: one firing strength per rule, merged through the rule's
    /// combinator.
    pub fn connect_inputs(&self, fuzzified: Vec<Vec<i64>>) -> (r: Vec<i64>)
        requires
            fuzzified@.len() == self.spec_rules().len(),
            self.spec_inputs().len() > 0,
            forall|i: int|
                0 <= i < fuzzified@.len() ==> (#[trigger] fuzzified@[i])@.len()
                    == self.spec_inputs().len(),
            forall|i: int, ii: int|
                0 <= i < fuzzified@.len() && 0 <= ii < self.spec_inputs().len() ==> is_degree(
                    #[trigger] fuzzified@[i]@[ii],
                ),
        ensures
            r@.len() == fuzzified@.len(),
            forall|i: int|
                0 <= i < r@.len() ==> r@[i] == self.spec_connect_row(i, fuzzified@[i]@),
            forall|i: int| 0 <= i < r@.len() ==> is_degree(#[trigger] r@[i]),
    {
        let rules_len = self.rules.len();
        let mut connected: Vec<i64> = Vec::new();
        let mut i: usize = 0;
        while i < rules_len
            invariant
                rules_len == self.spec_rules().len(),
                fuzzified@.len() == rules_len,
                self.spec_inputs().len() > 0,
                forall|k: int|
                    0 <= k < fuzzified@.len() ==> (#[trigger] fuzzified@[k])@.len()
                        == self.spec_inputs().len(),
                forall|k: int, ii: int|
                    0 <= k < fuzzified@.len() && 0 <= ii < self.spec_inputs().len() ==> is_degree(
                        #[trigger] fuzzified@[k]@[ii],
                    ),
                0 <= i <= rules_len,
                connected@.len() == i,
                forall|k: int|
                    0 <= k < i ==> connected@[k] == self.spec_connect_row(k, fuzzified@[k]@),
                forall|k: int| 0 <= k < i ==> is_degree(#[trigger] connected@[k]),
            decreases rules_len - i,
        {
            let kind = self.rules[i].get_kind();
            let row: &[i64] = fuzzified[i].as_slice();
            let strength: i64 = match kind {
                Kind::OR => self.get_s_norm(row),
                Kind::AND => self.get_t_norm(row),
            };
            connected.push(strength);
            i = i + 1;
        }
        connected
    }

    /// Stage three: each rule's firing strength scaled by its certainty
    /// weight.
    pub fn weighed_inputs(&self, connected_inputs: Vec<i64>) -> (r: Vec<i64>)
        requires
            connected_inputs@.len() == self.spec_rules().len(),
            forall|i: int| 0 <= i < connected_inputs@.len() ==> is_degree(
                #[trigger] connected_inputs@[i],
            ),
        ensures
            r@.len() == connected_inputs@.len(),
            forall|i: int|
                0 <= i < r@.len() ==> r@[i] == self.spec_rules()[i].spec_weight()
                    * connected_inputs@[i] / (SCALE as int),
            forall|i: int| 0 <= i < r@.len() ==> is_degree(#[trigger] r@[i]),
    {
        let rules_len = self.rules.len();
        let mut weighted: Vec<i64> = Vec::new();
        let mut i: usize = 0;
        while i < rules_len
            invariant
                rules_len == self.spec_rules().len(),
                connected_inputs@.len() == rules_len,
                forall|k: int| 0 <= k < connected_inputs@.len() ==> is_degree(
                    #[trigger] connected_inputs@[k],
                ),
                0 <= i <= rules_len,
                weighted@.len() == i,
                forall|k: int|
                    0 <= k < i ==> weighted@[k] == self.spec_rules()[k].spec_weight()
                        * connected_inputs@[k] / (SCALE as int),
                forall|k: int| 0 <= k < i ==> is_degree(#[trigger] weighted@[k]),
            decreases rules_len - i,
        {
            let w: i64 = self.rules[i].get_weight();
            let mu: i64 = connected_inputs[i];
            proof {
                vstd::arithmetic::mul::lemma_mul_nonnegative(w as int, mu as int);
                vstd::arithmetic::mul::lemma_mul_upper_bound(
                    w as int,
                    SCALE as int,
                    mu as int,
                    SCALE as int,
                );
                vstd::arithmetic::div_mod::lemma_multiply_divide_le(
                    w * mu,
                    SCALE as int,
                    SCALE as int,
                );
            }
            weighted.push(div_nn(w * mu, SCALE));
            i = i + 1;
        }
        weighted
    }

    /// The consequent-value matrix: one row per output, one consequent
    /// value per rule, all evaluated on the full input vector.
    pub fn get_mu(&self, input_vec: &Vec<i64>) -> (r: Vec<Vec<i64>>)
        requires
            self.spec_valid(),
            self.spec_input_ok(input_vec@),
        ensures
            r@.len() == self.spec_outputs().len(),
            forall|i: int|
                0 <= i < r@.len() ==> (#[trigger] r@[i])@ == self.spec_mu_row(input_vec@, i),
            forall|i: int, ii: int|
                0 <= i < r@.len() && 0 <= ii < self.spec_rules().len() ==> -CONSEQUENT_BOUND <= (
                #[trigger] r@[i]@[ii]) <= CONSEQUENT_BOUND,
    {
        let outputs_len = self.outputs.len();
        let rules_len = self.rules.len();
        let inputs_len = self.inputs.len();
        let mut output: Vec<Vec<i64>> = Vec::new();
        let mut i: usize = 0;
        while i < outputs_len
            invariant
                self.spec_valid(),
                self.spec_input_ok(input_vec@),
                outputs_len == self.spec_outputs().len(),
                rules_len == self.spec_rules().len(),
                inputs_len == self.spec_inputs().len(),
                0 <= i <= outputs_len,
                output@.len() == i,
                forall|k: int|
                    0 <= k < i ==> (#[trigger] output@[k])@ == self.spec_mu_row(input_vec@, k),
                forall|k: int, ii: int|
                    0 <= k < i && 0 <= ii < rules_len ==> -CONSEQUENT_BOUND <= (
                    #[trigger] output@[k]@[ii]) <= CONSEQUENT_BOUND,
            decreases outputs_len - i,
        {
            let mut temp_vec: Vec<i64> = Vec::new();
            let mut ii: usize = 0;
            while ii < rules_len
                invariant
                    self.spec_valid(),
                    self.spec_input_ok(input_vec@),
                    outputs_len == self.spec_outputs().len(),
                    rules_len == self.spec_rules().len(),
                    inputs_len == self.spec_inputs().len(),
                    0 <= i < outputs_len,
                    0 <= ii <= rules_len,
                    temp_vec@.len() == ii,
                    forall|k: int|
                        0 <= k < ii ==> temp_vec@[k] == self.spec_consequent_value(
                            input_vec@,
                            i as int,
                            k,
                        ) as i64,
                    forall|k: int|
                        0 <= k < ii ==> -CONSEQUENT_BOUND <= (#[trigger] temp_vec@[k])
                            <= CONSEQUENT_BOUND,
                decreases rules_len - ii,
            {
                assert(self.spec_rule_len_ok(ii as int));
                assert(self.spec_rule_indices_ok(ii as int));
                assert(self.spec_rule_arity_ok(ii as int));
                assert(self.spec_out_slot_ok(ii as int, i as int));
                assert(self.spec_arity_slot_ok(ii as int, i as int));
                let output_rule: &[i32] = self.rules[ii].get_output_rules(inputs_len);
                let rel: i32 = output_rule[i];
                assert(rel == self.spec_rules()[ii as int].spec_relations()[inputs_len + i]);
                let index: usize = abs_rel(rel);
                let z: i64 = self.outputs[i].get_mu(index, input_vec);
                temp_vec.push(z);
                ii = ii + 1;
            }
            assert(temp_vec@ =~= self.spec_mu_row(input_vec@, i as int));
            output.push(temp_vec);
            i = i + 1;
        }
        output
    }

    /// Checks the whole configuration and the input vector, reporting the
    /// first problem in a fixed order.
    fn validate(&self, input_vec: &Vec<i64>) -> (r: Option<FuzzyError>)
        ensures
            r == self.spec_validation(input_vec@),
            r is None <==> self.spec_valid() && self.spec_input_ok(input_vec@),
    {
        let rules_len = self.rules.len();
        let inputs_len = self.inputs.len();
        let outputs_len = self.outputs.len();
        if inputs_len == 0 || outputs_len == 0 || rules_len == 0 {
            return Some(FuzzyError::MissingComponents);
        }
        if rules_len > MAX_RULES {
            return Some(FuzzyError::InvalidParameters);
        }
        if input_vec.len() != inputs_len {
            return Some(FuzzyError::InvalidInput);
        }
        let mut k: usize = 0;
        while k < inputs_len
            invariant
                inputs_len == self.spec_inputs().len() == input_vec@.len(),
                rules_len == self.spec_rules().len(),
                outputs_len == self.spec_outputs().len(),
                0 < inputs_len,
                0 < outputs_len,
                0 < rules_len <= MAX_RULES,
                0 <= k <= inputs_len,
                forall|j: int| 0 <= j < k ==> is_value(#[trigger] input_vec@[j]),
            decreases inputs_len - k,
        {
            let x = input_vec[k];
            if !(-VALUE_BOUND <= x && x <= VALUE_BOUND) {
                proof {
                    assert(!is_value(input_vec@[k as int]));
                    assert(self.spec_validation(input_vec@) == Some(FuzzyError::InvalidInput));
                }
                return Some(FuzzyError::InvalidInput);
            }
            k = k + 1;
        }
        let mut i: usize = 0;
        while i < rules_len
            invariant
                rules_len == self.spec_rules().len(),
                inputs_len == self.spec_inputs().len() == input_vec@.len(),
                outputs_len == self.spec_outputs().len(),
                0 < inputs_len,
                0 < outputs_len,
                0 < rules_len <= MAX_RULES,
                forall|j: int| 0 <= j < input_vec@.len() ==> is_value(#[trigger] input_vec@[j]),
                0 <= i <= rules_len,
                self.spec_rules_error_from(0) == self.spec_rules_error_from(i as nat),
                forall|k2: int|
                    0 <= k2 < i ==> #[trigger] self.spec_rule_len_ok(k2)
                        && self.spec_rule_indices_ok(k2) && self.spec_rule_arity_ok(k2),
            decreases rules_len - i,
        {
            let rels: &[i32] = self.rules[i].get_rules();
            if rels.len() < inputs_len || rels.len() - inputs_len != outputs_len {
                proof {
                    assert(!self.spec_rule_len_ok(i as int));
                    assert(self.spec_rules_error_from(i as nat) == Some(
                        FuzzyError::RelationLengthMismatch,
                    ));
                    assert(self.spec_validation(input_vec@) == Some(
                        FuzzyError::RelationLengthMismatch,
                    ));
                }
                return Some(FuzzyError::RelationLengthMismatch);
            }
            assert(self.spec_rule_len_ok(i as int));
            let mut ii: usize = 0;
            while ii < inputs_len
                invariant
                    rules_len == self.spec_rules().len(),
                    inputs_len == self.spec_inputs().len() == input_vec@.len(),
                    outputs_len == self.spec_outputs().len(),
                    0 < inputs_len,
                    0 < outputs_len,
                    0 < rules_len <= MAX_RULES,
                    forall|j: int| 0 <= j < input_vec@.len() ==> is_value(
                        #[trigger] input_vec@[j],
                    ),
                    0 <= i < rules_len,
                    0 <= ii <= inputs_len,
                    self.spec_rules_error_from(0) == self.spec_rules_error_from(i as nat),
                    self.spec_rule_len_ok(i as int),
                    rels@ == self.spec_rules()[i as int].spec_relations(),
                    rels@.len() == inputs_len + outputs_len,
                    forall|jj: int| 0 <= jj < ii ==> #[trigger] self.spec_in_slot_ok(
                        i as int,
                        jj,
                    ),
                decreases inputs_len - ii,
            {
                let index: usize = abs_rel(rels[ii]);
                if index >= self.inputs[ii].membership_count() {
                    proof {
                        assert(!self.spec_in_slot_ok(i as int, ii as int));
                        assert(!self.spec_rule_indices_ok(i as int));
                        assert(self.spec_rules_error_from(i as nat) == Some(
                            FuzzyError::IndexOutOfRange,
                        ));
                        assert(self.spec_validation(input_vec@) == Some(
                            FuzzyError::IndexOutOfRange,
                        ));
                    }
                    return Some(FuzzyError::IndexOutOfRange);
                }
                assert(self.spec_in_slot_ok(i as int, ii as int));
                ii = ii + 1;
            }
            let mut i2: usize = 0;
            while i2 < outputs_len
                invariant
                    rules_len == self.spec_rules().len(),
                    inputs_len == self.spec_inputs().len() == input_vec@.len(),
                    outputs_len == self.spec_outputs().len(),
                    0 < inputs_len,
                    0 < outputs_len,
                    0 < rules_len <= MAX_RULES,
                    forall|j: int| 0 <= j < input_vec@.len() ==> is_value(
                        #[trigger] input_vec@[j],
                    ),
                    0 <= i < rules_len,
                    0 <= i2 <= outputs_len,
                    self.spec_rules_error_from(0) == self.spec_rules_error_from(i as nat),
                    self.spec_rule_len_ok(i as int),
                    rels@ == self.spec_rules()[i as int].spec_relations(),
                    rels@.len() == inputs_len + outputs_len,
                    inputs_len + outputs_len <= usize::MAX,
                    forall|jj: int| 0 <= jj < i2 ==> #[trigger] self.spec_out_slot_ok(
                        i as int,
                        jj,
                    ),
                decreases outputs_len - i2,
            {
                let rel: i32 = rels[inputs_len + i2];
                if rel < 0 {
                    proof {
                        assert(!self.spec_out_slot_ok(i as int, i2 as int));
                        assert(!self.spec_rule_indices_ok(i as int));
                        assert(self.spec_rules_error_from(i as nat) == Some(
                            FuzzyError::IndexOutOfRange,
                        ));
                        assert(self.spec_validation(input_vec@) == Some(
                            FuzzyError::IndexOutOfRange,
                        ));
                    }
                    return Some(FuzzyError::IndexOutOfRange);
                }
                let index: usize = abs_rel(rel);
                if index >= self.outputs[i2].membership_count() {
                    proof {
                        assert(!self.spec_out_slot_ok(i as int, i2 as int));
                        assert(!self.spec_rule_indices_ok(i as int));
                        assert(self.spec_rules_error_from(i as nat) == Some(
                            FuzzyError::IndexOutOfRange,
                        ));
                        assert(self.spec_validation(input_vec@) == Some(
                            FuzzyError::IndexOutOfRange,
                        ));
                    }
                    return Some(FuzzyError::IndexOutOfRange);
                }
                assert(self.spec_out_slot_ok(i as int, i2 as int));
                i2 = i2 + 1;
            }
            assert(self.spec_rule_indices_ok(i as int));
            let mut i3: usize = 0;
            while i3 < outputs_len
                invariant
                    rules_len == self.spec_rules().len(),
                    inputs_len == self.spec_inputs().len() == input_vec@.len(),
                    outputs_len == self.spec_outputs().len(),
                    0 < inputs_len,
                    0 < outputs_len,
                    0 < rules_len <= MAX_RULES,
                    forall|j: int| 0 <= j < input_vec@.len() ==> is_value(
                        #[trigger] input_vec@[j],
                    ),
                    0 <= i < rules_len,
                    0 <= i3 <= outputs_len,
                    self.spec_rules_error_from(0) == self.spec_rules_error_from(i as nat),
                    self.spec_rule_len_ok(i as int),
                    self.spec_rule_indices_ok(i as int),
                    rels@ == self.spec_rules()[i as int].spec_relations(),
                    rels@.len() == inputs_len + outputs_len,
                    inputs_len + outputs_len <= usize::MAX,
                    forall|jj: int| 0 <= jj < i3 ==> #[trigger] self.spec_arity_slot_ok(
                        i as int,
                        jj,
                    ),
                decreases outputs_len - i3,
            {
                let rel: i32 = rels[inputs_len + i3];
                assert(self.spec_out_slot_ok(i as int, i3 as int));
                let index: usize = abs_rel(rel);
                if !self.outputs[i3].consequent_arity_ok(index, inputs_len + 1) {
                    proof {
                        assert(!self.spec_arity_slot_ok(i as int, i3 as int));
                        assert(!self.spec_rule_arity_ok(i as int));
                        assert(self.spec_rules_error_from(i as nat) == Some(
                            FuzzyError::LengthMismatch,
                        ));
                        assert(self.spec_validation(input_vec@) == Some(
                            FuzzyError::LengthMismatch,
                        ));
                    }
                    return Some(FuzzyError::LengthMismatch);
                }
                assert(self.spec_arity_slot_ok(i as int, i3 as int));
                i3 = i3 + 1;
            }
            assert(self.spec_rule_arity_ok(i as int));
            proof {
                assert(self.spec_rules_error_from(i as nat) == self.spec_rules_error_from(
                    (i + 1) as nat,
                ));
                assert(forall|k2: int|
                    0 <= k2 < i + 1 ==> #[trigger] self.spec_rule_len_ok(k2)
                        && self.spec_rule_indices_ok(k2) && self.spec_rule_arity_ok(k2));
            }
            i = i + 1;
        }
        assert(self.spec_rules_error_from(rules_len as nat) is None);
        None
    }

    /// Runs the whole pipeline on one input vector: fuzzification, rule
    /// combination, weighting, then consequent evaluation and weighted-mean
    /// defuzzification.  Reports the first configuration or input problem
    /// without touching the pipeline, and an all-zero firing-strength
    /// vector instead of producing a meaningless quotient; the crisp
    /// outputs come in output registration order.
    pub fn compute_outputs(&self, input: Vec<i64>) -> (r: Result<Vec<i64>, FuzzyError>)
        ensures
            r is Ok <==> self.spec_validation(input@) is None && self.spec_fire_ok(input@),
            r matches Ok(v) ==> v@.len() == self.spec_outputs().len() && forall|i: int|
                0 <= i < v@.len() ==> v@[i] == self.spec_output_value(input@, i),
            self.spec_validation(input@) matches Some(e) ==> r == Err::<Vec<i64>, FuzzyError>(e),
            self.spec_validation(input@) is None && !self.spec_fire_ok(input@) ==> r == Err::<
                Vec<i64>,
                FuzzyError,
            >(FuzzyError::ZeroFiringStrength),
    {
        if let Some(e) = self.validate(&input) {
            return Err(e);
        }
        let fuzzified = self.fuzzification(copy_inputs(&input));
        let connected_inputs = self.connect_inputs(fuzzified);
        let weighted_input = self.weighed_inputs(connected_inputs);
        proof {
            assert(weighted_input@ =~= self.spec_weights_row(input@));
        }
        let mu_vec = self.get_mu(&input);
        let outputs_len = self.outputs.len();
        let mut output: Vec<i64> = Vec::new();
        let mut i: usize = 0;
        while i < outputs_len
            invariant
                self.spec_valid(),
                self.spec_input_ok(input@),
                outputs_len == self.spec_outputs().len(),
                weighted_input@ == self.spec_weights_row(input@),
                weighted_input@.len() == self.spec_rules().len(),
                forall|k: int| 0 <= k < weighted_input@.len() ==> is_degree(
                    #[trigger] weighted_input@[k],
                ),
                mu_vec@.len() == outputs_len,
                forall|k: int|
                    0 <= k < outputs_len ==> (#[trigger] mu_vec@[k])@ == self.spec_mu_row(
                        input@,
                        k,
                    ),
                forall|k: int, ii: int|
                    0 <= k < outputs_len && 0 <= ii < self.spec_rules().len() ==> -CONSEQUENT_BOUND
                        <= (#[trigger] mu_vec@[k]@[ii]) <= CONSEQUENT_BOUND,
                0 <= i <= outputs_len,
                output@.len() == i,
                self.spec_validation(input@) is None,
                i > 0 ==> self.spec_fire_ok(input@),
                forall|k: int|
                    0 <= k < i ==> output@[k] == self.spec_output_value(input@, k),
            decreases outputs_len - i,
        {
            let row: &Vec<i64> = &mu_vec[i];
            match self.defuzzification.defuzzify(row, &weighted_input) {
                Ok(v) => {
                    proof {
                        assert(self.spec_fire_ok(input@));
                        assert(v == self.spec_output_value(input@, i as int));
                    }
                    output.push(v);
                },
                Err(e) => {
                    proof {
                        assert(!self.spec_fire_ok(input@));
                    }
                    return Err(e);
                },
            }
            i = i + 1;
        }
        proof {
            assert(self.spec_fire_ok(input@));
        }
        Ok(output)
    }
}

} // verus!
