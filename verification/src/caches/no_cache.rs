//! The cache that keeps nothing.

use vstd::prelude::*;

use crate::failure::Failure;
use crate::input::Embedding;

verus! {

/// A cache backend that holds nothing and forgets what it is given, so that
/// every resolution goes to the provider.
pub struct NoCache;

impl NoCache {
    /// Always a miss.
    pub fn get(&self, _input: &str) -> (answer: Result<Option<Embedding>, Failure>)
        ensures
            answer == Ok::<Option<Embedding>, Failure>(None),
    {
        Ok(None)
    }

    /// Drops the embedding.
    pub fn put(&self, _input: &str, _embedding: Embedding) -> (answer: Result<(), Failure>)
        ensures
            answer is Ok,
    {
        Ok(())
    }

    /// Nothing to set up.
    pub fn init(&self) -> (answer: Result<(), Failure>)
        ensures
            answer is Ok,
    {
        Ok(())
    }
}

} // verus!
