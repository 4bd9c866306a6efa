use vstd::prelude::*;

verus! {

/// The conditions a fuzzy-inference system reports instead of computing a
/// garbage number.
///
/// Configuration problems (bad shape parameters, a weight outside `[0, 1]`,
/// a rule of the wrong length, an index outside a variable's membership
/// list) abort construction or the compute call; degenerate results (an
/// aggregated shape or a firing-strength vector that sums to zero) are
/// reported rather than silently coerced to `0` or a meaningless quotient.
#[derive(Debug, Clone, Copy, PartialEq, Eq, Structural)]
pub enum FuzzyError {
    /// A shape or universe parameter violates its ordering or positivity
    /// constraint, or lies outside the representable range.
    InvalidParameters,
    /// A rule weight lies outside `[0, SCALE]`.
    InvalidWeight,
    /// A rule's relation vector does not have one entry per input plus one
    /// per output.
    RelationLengthMismatch,
    /// A rule references a membership function or consequent that its
    /// variable does not have.
    IndexOutOfRange,
    /// A membership shape vector does not match its universe in length, or a
    /// linear consequent does not have one coefficient per input plus an
    /// intercept.
    LengthMismatch,
    /// `compute_outputs` was invoked before at least one input, one output
    /// and one rule were registered.
    MissingComponents,
    /// The input vector handed to `compute_outputs` does not have one entry
    /// per registered input variable, or an entry lies outside the
    /// representable range.
    InvalidInput,
    /// A defuzzification denominator summed to zero: the rule base fired
    /// nothing for this output.
    ZeroFiringStrength,
}

} // verus!
