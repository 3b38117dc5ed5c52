use vstd::prelude::*;

verus! {

/// The validation failures that query construction can signal.
///
/// Every error is detected synchronously while the builder is composed or
/// finalized; no other error states are reachable from the builder.
#[derive(Clone, Copy, Debug, PartialEq, Eq, Structural)]
pub enum BuilderError {
    /// The candidate metric name collides with a reserved keyword of the
    /// query language.
    InvalidMetricName,
    /// The time argument is neither a decimal number nor an RFC 3339
    /// date-time string.
    InvalidTimeSpecifier,
    /// The duration literal is not a concatenation of `<integer><unit>`
    /// tokens with known unit suffixes.
    InvalidTimeDuration,
    /// Neither a metric name nor any label matcher was supplied, so no
    /// vector selector can be formed.
    IllegalVectorSelector,
}

} // verus!
