use vstd::prelude::*;
use crate::error::BuilderError;

verus! {

/// The canonical form of a time argument that parses as a base-10 number
/// (integer part, optional fraction, optional exponent) of seconds since
/// the epoch, re-stringified canonically, or `None` when it does not so
/// parse.
pub uninterp spec fn numeric_canon(s: Seq<char>) -> Option<Seq<char>>;

/// Relies on serde_json's Number: its FromStr accepts exactly a base-10
/// number that spans the whole string, and its ToString re-stringifies it
/// canonically; both depend on the characters alone.
#[verifier::external_body]
fn canon_numeric(time: &str) -> (r: Option<String>)
    ensures
        match r {
            Some(c) => numeric_canon(time@) == Some(c@),
            None => numeric_canon(time@) is None,
        },
{
    match time.parse::<serde_json::Number>() {
        Ok(t) => Some(t.to_string()),
        Err(_) => None,
    }
}

/// The canonical form of a time argument that parses as an RFC 3339
/// date-time string, re-serialized to RFC 3339 (offset formatting and other
/// surface variation normalized, the instant preserved), or `None` when it
/// does not so parse.
pub uninterp spec fn rfc3339_canon(s: Seq<char>) -> Option<Seq<char>>;

/// Relies on chrono's DateTime::parse_from_rfc3339 and DateTime::to_rfc3339:
/// whether a string parses as an RFC 3339 date-time, and the re-serialized
/// form, depend on the characters alone.
#[verifier::external_body]
fn canon_rfc3339(time: &str) -> (r: Option<String>)
    ensures
        match r {
            Some(c) => rfc3339_canon(time@) == Some(c@),
            None => rfc3339_canon(time@) is None,
        },
{
    match chrono::DateTime::parse_from_rfc3339(time) {
        Ok(t) => Some(t.to_rfc3339()),
        Err(_) => None,
    }
}

/// The canonical form of a time specifier: the numeric reading where the
/// string parses as a number, otherwise the RFC 3339 reading, otherwise
/// `None`. Exactly one of the two canonical forms is retained.
pub open spec fn time_canon(s: Seq<char>) -> Option<Seq<char>> {
    match numeric_canon(s) {
        Some(c) => Some(c),
        None => rfc3339_canon(s),
    }
}

/// Canonicalizes a time specifier given either as a numeric seconds-since-
/// epoch string or as an RFC 3339 date-time string; the numeric reading is
/// attempted first. Fails exactly when the string is neither.
pub fn parse_time_specifier(time: &str) -> (r: Result<String, BuilderError>)
    ensures
        match r {
            Ok(c) => time_canon(time@) == Some(c@),
            Err(e) => time_canon(time@) is None && e == BuilderError::InvalidTimeSpecifier,
        },
{
    match canon_numeric(time) {
        Some(c) => Ok(c),
        None => match canon_rfc3339(time) {
            Some(c) => Ok(c),
            None => Err(BuilderError::InvalidTimeSpecifier),
        },
    }
}

} // verus!
