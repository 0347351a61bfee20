use vstd::prelude::*;

verus! {

/// The failures that the event pipeline can report.
///
/// Denials by the path filter are not errors: `allow` answers `Ok(false)`.
/// These variants cover the data-level faults the pipeline itself detects,
/// plus failures handed back by the pattern machinery it calls.
#[derive(Debug, PartialEq, Eq)]
pub enum Error {
    /// A stored event-type token that names no known event type.
    UnknownEventType(String),
    /// A stored timestamp that is not a valid RFC 3339 instant.
    BadTimestamp(String),
    /// A path that should lie under the watched root does not.
    NotInRoot,
    /// A path or filter input that breaks the path model's well-formedness.
    BadPath,
    /// The ignore-pattern matcher could not be built from the given rules.
    IgnoreRules,
}

} // verus!
