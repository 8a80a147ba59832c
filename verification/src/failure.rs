//! The ways a dispatch fails.

use vstd::prelude::*;
use vstd::string::StringExecFns;

verus! {

/// Why a dispatch or a resolution failed.
///
/// A handler that fails is no failure of the engine: what a handler returns
/// goes back to the caller as it is.
#[derive(Debug)]
pub enum Failure {
    /// The embedding provider could not compute an embedding.
    Provider(String),
    /// The cache backend failed on a lookup or a store.
    Cache(String),
    /// No example reached the threshold.
    NoMatch,
}

/// What a failure says of itself: the reason the provider or the cache gave,
/// or that no similar command was found.
pub open spec fn message_of(failure: Failure) -> Seq<char> {
    match failure {
        Failure::Provider(reason) => reason@,
        Failure::Cache(reason) => reason@,
        Failure::NoMatch => "no similar command found"@,
    }
}

impl Failure {
    /// The failure in words.
    pub fn message(&self) -> (text: String)
        ensures
            text@ == message_of(*self),
    {
        match self {
            Failure::Provider(reason) => reason.clone(),
            Failure::Cache(reason) => reason.clone(),
            Failure::NoMatch => String::from_str("no similar command found"),
        }
    }
}

} // verus!
