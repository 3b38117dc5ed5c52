//! Construction and description of queries against a time-series query
//! API: a validating builder for instant-query vector selectors (metric
//! name plus label matchers), a canonicalizing parser for composite
//! duration literals, a canonicalizing parser for time specifiers, and the
//! parameter sets and endpoint paths the finished queries send. Every
//! function here carries a verified contract; the network call itself is
//! left to the code around this crate.

pub mod duration;
pub mod error;
pub mod query;
pub mod timespec;

pub use duration::Duration;
pub use error::BuilderError;
pub use query::{InstantQuery, InstantQueryBuilder, Label, RangeQuery};
