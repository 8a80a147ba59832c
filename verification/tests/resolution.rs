use std::collections::HashMap;

use semantic_commands::resolution::advance;
use semantic_commands::{Failure, NoCache, Resolution, ResolutionStep, SemanticCommands};

type Engine = SemanticCommands<(), NoCache, (), ()>;

struct Host {
    cache: HashMap<String, Vec<u32>>,
    cache_fails_on_get: bool,
    cache_fails_on_put: bool,
    provider_fails: bool,
    provider_calls: u32,
    cache_reads: u32,
    cache_writes: u32,
}

fn host() -> Host {
    Host {
        cache: HashMap::new(),
        cache_fails_on_get: false,
        cache_fails_on_put: false,
        provider_fails: false,
        provider_calls: 0,
        cache_reads: 0,
        cache_writes: 0,
    }
}

fn embed(text: &str) -> Vec<u32> {
    text.chars().map(|c| c as u32).collect()
}

fn resolve(engine: &Engine, host: &mut Host, text: &str) -> Result<Vec<u32>, Failure> {
    let mut step = engine.get_embedding(Resolution::Start { text: text.to_string() });
    loop {
        step = match step {
            ResolutionStep::Lookup { text } => {
                host.cache_reads += 1;
                let answer = if host.cache_fails_on_get {
                    Err("cache is down".to_string())
                } else {
                    Ok(host.cache.get(&text).cloned())
                };
                engine.get_embedding(Resolution::Looked { text, answer })
            }
            ResolutionStep::Embed { text } => {
                host.provider_calls += 1;
                let answer = if host.provider_fails {
                    Err("quota exceeded".to_string())
                } else {
                    Ok(embed(&text))
                };
                engine.get_embedding(Resolution::Embedded { text, answer })
            }
            ResolutionStep::Store { text, embedding } => {
                host.cache_writes += 1;
                let answer = if host.cache_fails_on_put {
                    Err("cache is full".to_string())
                } else {
                    host.cache.insert(text, embedding.clone());
                    Ok(())
                };
                engine.get_embedding(Resolution::Stored { embedding, answer })
            }
            ResolutionStep::Done(outcome) => return outcome,
        };
    }
}

#[test]
fn resolution_starts_with_the_cache() {
    let step = advance(Resolution::Start { text: "ping".to_string() });
    assert!(matches!(step, ResolutionStep::Lookup { text } if text == "ping"));
}

#[test]
fn hit_ends_the_resolution() {
    let step = advance(Resolution::Looked { text: "ping".to_string(), answer: Ok(Some(vec![1, 2])) });
    assert!(matches!(step, ResolutionStep::Done(Ok(embedding)) if embedding == vec![1, 2]));
}

#[test]
fn miss_goes_to_the_provider() {
    let step = advance(Resolution::Looked { text: "ping".to_string(), answer: Ok(None) });
    assert!(matches!(step, ResolutionStep::Embed { text } if text == "ping"));
}

#[test]
fn what_the_provider_gives_is_stored_under_the_text() {
    let step = advance(Resolution::Embedded { text: "ping".to_string(), answer: Ok(vec![3]) });
    assert!(matches!(step, ResolutionStep::Store { text, embedding } if text == "ping" && embedding == vec![3]));
}

#[test]
fn stored_embedding_is_the_outcome() {
    let step = advance(Resolution::Stored { embedding: vec![3], answer: Ok(()) });
    assert!(matches!(step, ResolutionStep::Done(Ok(embedding)) if embedding == vec![3]));
}

#[test]
fn every_failure_ends_the_resolution_with_its_kind() {
    let step = advance(Resolution::Looked { text: "x".to_string(), answer: Err("down".to_string()) });
    assert!(matches!(step, ResolutionStep::Done(Err(Failure::Cache(reason))) if reason == "down"));
    let step = advance(Resolution::Embedded { text: "x".to_string(), answer: Err("quota".to_string()) });
    assert!(matches!(step, ResolutionStep::Done(Err(Failure::Provider(reason))) if reason == "quota"));
    let step = advance(Resolution::Stored { embedding: vec![1], answer: Err("full".to_string()) });
    assert!(matches!(step, ResolutionStep::Done(Err(Failure::Cache(reason))) if reason == "full"));
}

#[test]
fn repeated_resolution_asks_the_provider_once() {
    let engine = Engine::new((), NoCache, ());
    let mut host = host();
    let first = resolve(&engine, &mut host, "tell me the date").unwrap();
    assert_eq!(host.provider_calls, 1);
    assert_eq!(host.cache_writes, 1);
    let second = resolve(&engine, &mut host, "tell me the date").unwrap();
    assert_eq!(host.provider_calls, 1);
    assert_eq!(host.cache_writes, 1);
    assert_eq!(host.cache_reads, 2);
    assert_eq!(first, second);
    assert_eq!(first, embed("tell me the date"));
}

#[test]
fn another_text_asks_the_provider_again() {
    let engine = Engine::new((), NoCache, ());
    let mut host = host();
    resolve(&engine, &mut host, "ping").unwrap();
    resolve(&engine, &mut host, "pong").unwrap();
    resolve(&engine, &mut host, "ping").unwrap();
    assert_eq!(host.provider_calls, 2);
    assert_eq!(host.cache.len(), 2);
}

#[test]
fn cached_embedding_is_never_recomputed() {
    let engine = Engine::new((), NoCache, ());
    let mut host = host();
    host.cache.insert("ping".to_string(), vec![42]);
    host.provider_fails = true;
    assert_eq!(resolve(&engine, &mut host, "ping").unwrap(), vec![42]);
    assert_eq!(host.provider_calls, 0);
    assert_eq!(host.cache_writes, 0);
    assert_eq!(host.cache["ping"], vec![42]);
}

#[test]
fn provider_failure_fails_the_resolution_and_stores_nothing() {
    let engine = Engine::new((), NoCache, ());
    let mut host = host();
    host.provider_fails = true;
    let outcome = resolve(&engine, &mut host, "ping");
    assert!(matches!(outcome, Err(Failure::Provider(reason)) if reason == "quota exceeded"));
    assert_eq!(host.provider_calls, 1);
    assert_eq!(host.cache_writes, 0);
    assert!(host.cache.is_empty());
}

#[test]
fn cache_failure_on_lookup_fails_before_the_provider() {
    let engine = Engine::new((), NoCache, ());
    let mut host = host();
    host.cache_fails_on_get = true;
    let outcome = resolve(&engine, &mut host, "ping");
    assert!(matches!(outcome, Err(Failure::Cache(reason)) if reason == "cache is down"));
    assert_eq!(host.provider_calls, 0);
}

#[test]
fn cache_failure_on_store_fails_the_resolution() {
    let engine = Engine::new((), NoCache, ());
    let mut host = host();
    host.cache_fails_on_put = true;
    let outcome = resolve(&engine, &mut host, "ping");
    assert!(matches!(outcome, Err(Failure::Cache(reason)) if reason == "cache is full"));
    assert_eq!(host.provider_calls, 1);
}

#[test]
fn failure_messages() {
    assert_eq!(Failure::NoMatch.message(), "no similar command found");
    assert_eq!(Failure::Provider("quota exceeded".to_string()).message(), "quota exceeded");
    assert_eq!(Failure::Cache("cache is down".to_string()).message(), "cache is down");
}

#[test]
fn get_embedding_starts_with_the_normal_form() {
    let engine = Engine::new((), NoCache, ());
    let step = engine.get_embedding(Resolution::Start { text: "  Tell me,\tthe DATE!\n".to_string() });
    assert!(matches!(step, ResolutionStep::Lookup { text } if text == "tell me the date"));
    let step = engine.get_embedding(Resolution::Looked { text: "As It Is".to_string(), answer: Ok(None) });
    assert!(matches!(step, ResolutionStep::Embed { text } if text == "As It Is"));
}

#[test]
fn repeated_resolution_of_one_normal_form_asks_the_provider_once() {
    let engine = Engine::new((), NoCache, ());
    let mut host = host();
    let first = resolve(&engine, &mut host, "Tell me the date!").unwrap();
    let second = resolve(&engine, &mut host, "  tell  me,\nthe DATE ").unwrap();
    assert_eq!(host.provider_calls, 1);
    assert_eq!(host.cache_writes, 1);
    assert_eq!(first, second);
    assert_eq!(first, embed("tell me the date"));
    assert!(host.cache.contains_key("tell me the date"));
    assert_eq!(host.cache.len(), 1);
}
