//! The public address: what is shown for it, and what a lookup's answer
//! makes of it.

use vstd::prelude::*;
use crate::text::{trim, trimmed};

verus! {

/// Shown from the start until the first lookup has answered.
pub const FETCHING: &'static str = "Fetching...";

/// Shown when a lookup has failed.
pub const NOT_AVAILABLE: &'static str = "Not available";

/// How a lookup ended.
#[derive(Debug, Clone)]
pub enum FetchOutcome {
    /// The request did not get an answer.
    Failed,
    /// An answer came, but its body could not be read as text.
    Unreadable,
    /// The body of the answer.
    Body(String),
}

/// What is shown for the public address after a lookup: the body without
/// the white space at its ends, or the fixed notice where there is no body.
/// The body is not examined any further.
pub open spec fn resolved(outcome: FetchOutcome) -> Seq<char> {
    match outcome {
        FetchOutcome::Body(body) => trimmed(body@),
        _ => NOT_AVAILABLE@,
    }
}

/// The text to show for the public address after a lookup.
pub fn resolve_public_ip(outcome: FetchOutcome) -> (r: String)
    ensures
        r@ == resolved(outcome),
{
    match outcome {
        FetchOutcome::Body(body) => trim(body.as_str()),
        _ => NOT_AVAILABLE.to_owned(),
    }
}

} // verus!
