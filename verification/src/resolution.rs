//! Resolving a text to its embedding: the cache first, the provider on a
//! miss, and the cache again to keep what the provider gave.
//!
//! The engine decides; the host asks the cache and the provider and reports
//! their answers. A resolution fails as soon as one of them fails. The text
//! here is the key of the cache, as it stands: the engine brings a text
//! into normal form before it starts a resolution with it.

use vstd::prelude::*;

use crate::failure::Failure;
use crate::input::Embedding;

verus! {

/// Where a resolution stands: what the host was last told to do, and the
/// answer it got.
#[allow(inconsistent_fields)]
pub enum Resolution {
    /// Nothing was asked yet of the cache or the provider.
    Start { text: String },
    /// The cache was asked for the text. `Ok(None)` is a miss.
    Looked { text: String, answer: Result<Option<Embedding>, String> },
    /// The provider was asked to embed the text.
    Embedded { text: String, answer: Result<Embedding, String> },
    /// The cache was asked to keep the embedding.
    Stored { embedding: Embedding, answer: Result<(), String> },
}

/// What the host has to do next for a resolution.
pub enum ResolutionStep {
    /// Ask the cache for the text.
    Lookup { text: String },
    /// Ask the provider to embed the text.
    Embed { text: String },
    /// Ask the cache to keep the embedding under the text.
    Store { text: String, embedding: Embedding },
    /// Nothing: the resolution has ended, in the embedding or in a failure.
    Done(Result<Embedding, Failure>),
}

/// The step that follows from where a resolution stands.
///
/// A hit ends the resolution in the cached embedding. A miss sends the text
/// to the provider, and what the provider gives is stored before it is
/// returned. A failure of the lookup, of the provider or of the store ends
/// the resolution in that failure.
pub open spec fn next_step(at: Resolution) -> ResolutionStep {
    match at {
        Resolution::Start { text } => ResolutionStep::Lookup { text },
        Resolution::Looked { text, answer } => match answer {
            Ok(Some(embedding)) => ResolutionStep::Done(Ok(embedding)),
            Ok(None) => ResolutionStep::Embed { text },
            Err(reason) => ResolutionStep::Done(Err(Failure::Cache(reason))),
        },
        Resolution::Embedded { text, answer } => match answer {
            Ok(embedding) => ResolutionStep::Store { text, embedding },
            Err(reason) => ResolutionStep::Done(Err(Failure::Provider(reason))),
        },
        Resolution::Stored { embedding, answer } => match answer {
            Ok(_) => ResolutionStep::Done(Ok(embedding)),
            Err(reason) => ResolutionStep::Done(Err(Failure::Cache(reason))),
        },
    }
}

/// Decides the next step of a resolution.
pub fn advance(at: Resolution) -> (step: ResolutionStep)
    ensures
        step == next_step(at),
{
    match at {
        Resolution::Start { text } => ResolutionStep::Lookup { text },
        Resolution::Looked { text, answer } => match answer {
            Ok(Some(embedding)) => ResolutionStep::Done(Ok(embedding)),
            Ok(None) => ResolutionStep::Embed { text },
            Err(reason) => ResolutionStep::Done(Err(Failure::Cache(reason))),
        },
        Resolution::Embedded { text, answer } => match answer {
            Ok(embedding) => ResolutionStep::Store { text, embedding },
            Err(reason) => ResolutionStep::Done(Err(Failure::Provider(reason))),
        },
        Resolution::Stored { embedding, answer } => match answer {
            Ok(_) => ResolutionStep::Done(Ok(embedding)),
            Err(reason) => ResolutionStep::Done(Err(Failure::Cache(reason))),
        },
    }
}

/// How a resolution ended against a cache that keeps what it is given: the
/// outcome, the cache afterwards, and how often the provider was asked.
pub struct Resolved {
    /// `None` while the resolution has not ended.
    pub outcome: Option<Result<Embedding, Failure>>,
    pub cache: Map<Seq<char>, Embedding>,
    pub provider_calls: nat,
}

/// Runs a resolution from `at` to its end. The cache is `cache`: it answers
/// with what it holds under the text, keeps what it is asked to keep, and
/// does not fail. The provider answers `provider` whenever it is asked.
/// `calls` counts the questions to the provider so far; `fuel` bounds the
/// steps that the host may still take.
pub open spec fn run(
    at: Resolution,
    cache: Map<Seq<char>, Embedding>,
    provider: Result<Embedding, String>,
    calls: nat,
    fuel: nat,
) -> Resolved
    decreases fuel,
{
    match next_step(at) {
        ResolutionStep::Done(outcome) => Resolved {
            outcome: Some(outcome),
            cache,
            provider_calls: calls,
        },
        _ if fuel == 0 => Resolved { outcome: None, cache, provider_calls: calls },
        ResolutionStep::Lookup { text } => run(
            Resolution::Looked {
                text,
                answer: Ok(
                    if cache.contains_key(text@) {
                        Some(cache[text@])
                    } else {
                        None
                    },
                ),
            },
            cache,
            provider,
            calls,
            (fuel - 1) as nat,
        ),
        ResolutionStep::Embed { text } => run(
            Resolution::Embedded { text, answer: provider },
            cache,
            provider,
            calls + 1,
            (fuel - 1) as nat,
        ),
        ResolutionStep::Store { text, embedding } => run(
            Resolution::Stored { embedding, answer: Ok(()) },
            cache.insert(text@, embedding),
            provider,
            calls,
            (fuel - 1) as nat,
        ),
    }
}

/// A whole resolution of `text` against `cache`, with a provider that would
/// answer `provider`. Three steps of the host are the most it takes.
pub open spec fn resolved(
    cache: Map<Seq<char>, Embedding>,
    text: String,
    provider: Result<Embedding, String>,
) -> Resolved {
    run(Resolution::Start { text }, cache, provider, 0, 3)
}

/// Every resolution ends within the three steps.
pub proof fn resolution_ends(
    cache: Map<Seq<char>, Embedding>,
    text: String,
    provider: Result<Embedding, String>,
)
    ensures
        resolved(cache, text, provider).outcome is Some,
{
    reveal_with_fuel(run, 4);
}

/// A text that the cache holds is resolved from the cache: the provider is
/// not asked, and the cache stays as it is.
pub proof fn hit_is_served_from_cache(
    cache: Map<Seq<char>, Embedding>,
    text: String,
    provider: Result<Embedding, String>,
)
    requires
        cache.contains_key(text@),
    ensures
        resolved(cache, text, provider).outcome == Some(Ok::<Embedding, Failure>(cache[text@])),
        resolved(cache, text, provider).provider_calls == 0,
        resolved(cache, text, provider).cache == cache,
{
    reveal_with_fuel(run, 4);
}

/// A text that the cache does not hold is sent to the provider once. What
/// the provider gives is the outcome and is in the cache afterwards; where
/// the provider fails, the resolution fails with its reason and the cache
/// stays as it is.
pub proof fn miss_asks_the_provider_once(
    cache: Map<Seq<char>, Embedding>,
    text: String,
    provider: Result<Embedding, String>,
)
    requires
        !cache.contains_key(text@),
    ensures
        resolved(cache, text, provider).provider_calls == 1,
        match provider {
            Ok(embedding) => {
                &&& resolved(cache, text, provider).outcome == Some(
                    Ok::<Embedding, Failure>(embedding),
                )
                &&& resolved(cache, text, provider).cache == cache.insert(text@, embedding)
            },
            Err(reason) => {
                &&& resolved(cache, text, provider).outcome == Some(
                    Err::<Embedding, Failure>(Failure::Provider(reason)),
                )
                &&& resolved(cache, text, provider).cache == cache
            },
        },
{
    reveal_with_fuel(run, 4);
}

/// Resolving the same text again, after a resolution that succeeded, does
/// not ask the provider: the second resolution is served from the cache and
/// gives the same embedding. The two together ask the provider at most once.
pub proof fn repeated_resolution_is_served_from_cache(
    cache: Map<Seq<char>, Embedding>,
    text: String,
    again: String,
    first: Result<Embedding, String>,
    second: Result<Embedding, String>,
)
    requires
        text@ == again@,
        resolved(cache, text, first).outcome matches Some(Ok(_)),
    ensures
        resolved(resolved(cache, text, first).cache, again, second).provider_calls == 0,
        resolved(resolved(cache, text, first).cache, again, second).outcome == resolved(
            cache,
            text,
            first,
        ).outcome,
        resolved(resolved(cache, text, first).cache, again, second).cache == resolved(
            cache,
            text,
            first,
        ).cache,
        resolved(cache, text, first).provider_calls + resolved(
            resolved(cache, text, first).cache,
            again,
            second,
        ).provider_calls <= 1,
{
    reveal_with_fuel(run, 4);
    if cache.contains_key(text@) {
        hit_is_served_from_cache(cache, text, first);
        hit_is_served_from_cache(cache, again, second);
    } else {
        miss_asks_the_provider_once(cache, text, first);
        hit_is_served_from_cache(cache.insert(text@, first->Ok_0), again, second);
    }
}

/// The cache is authoritative: a resolution never replaces or removes what
/// the cache holds.
pub proof fn resolution_keeps_the_cache(
    cache: Map<Seq<char>, Embedding>,
    text: String,
    provider: Result<Embedding, String>,
    key: Seq<char>,
)
    requires
        cache.contains_key(key),
    ensures
        resolved(cache, text, provider).cache.contains_key(key),
        resolved(cache, text, provider).cache[key] == cache[key],
{
    reveal_with_fuel(run, 4);
    if cache.contains_key(text@) {
        hit_is_served_from_cache(cache, text, provider);
    } else {
        miss_asks_the_provider_once(cache, text, provider);
    }
}

} // verus!
