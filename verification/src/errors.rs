use vstd::prelude::*;

verus! {

/// The two optional key/value pair sequences an endpoint group may carry.
#[derive(Clone, Copy, Debug, PartialEq, Eq, Structural)]
pub enum PairStructure {
    Headers,
    QueryStrings,
}

/// Which half of a key/value pair entry is missing or not a string.
#[derive(Clone, Copy, Debug, PartialEq, Eq, Structural)]
pub enum PairPart {
    KeyPart,
    ValuePart,
}

/// A malformed or missing piece of required configuration.
#[derive(Clone, Copy, Debug, PartialEq, Eq, Structural)]
pub enum ConfigError {
    /// The `https` key is absent or null: no requests are defined.
    NoRequestsDefined,
    /// The `https` key is present but its value is not a sequence.
    PlanMalformed,
    /// A group's `domain` is absent, not a string, or empty.
    DomainMissing,
    /// A group's `api` is absent or not a sequence.
    ApiMissing,
    /// An entry of a group's `api` sequence is not a string.
    ApiPathMalformed,
    /// `headers` or `query_strings` is present but not a sequence.
    PairsMalformed(PairStructure),
    /// An entry of `headers` or `query_strings` lacks a string `key` or `value`.
    PairFieldMissing(PairStructure, PairPart),
    /// The configuration format selector is not a supported format.
    UnsupportedFormat,
}

/// A fatal condition: every recognized failure aborts the entire run.
#[derive(Clone, Copy, Debug, PartialEq, Eq, Structural)]
pub enum RunError {
    /// Malformed or missing required configuration.
    Configuration(ConfigError),
    /// A group's `type` does not match the fixed request-type set.
    UnsupportedRequestType,
    /// The HTTP client classified the exchange as a status-carrying failure.
    TransportStatus(u16),
    /// Any other transport-level failure (connectivity, TLS, timeout).
    TransportFault,
    /// The configuration source cannot be opened or read.
    SourceUnavailable,
}

} // verus!
