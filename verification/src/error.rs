//! What can go wrong. Every error ends the run: there is no report in part.

use crate::key::MalformedKeyError;
use vstd::prelude::*;

verus! {

/// An answer of a tracker that does not have the expected shape.
#[derive(Debug, Clone, Copy, PartialEq, Eq, Structural)]
pub enum SchemaError {
    /// The answer is not a JSON document.
    NotJson,
    /// The document lacks what holds the list of issues, or holds something else
    /// in its place.
    Envelope,
    /// The entry at this position of the list is not an issue.
    Record(usize),
}

/// Why there is no report.
#[derive(Debug, Clone, Copy, PartialEq, Eq, Structural)]
pub enum ReportError {
    /// A request could not be made or was not answered.
    Transport,
    /// An answer did not have the expected shape.
    Schema(SchemaError),
    /// An issue has a key by which it cannot be ranked.
    MalformedKey(MalformedKeyError),
    /// No credentials are known for the host.
    CredentialNotFound,
}

} // verus!
