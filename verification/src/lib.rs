//! Semantic command dispatch: free text is matched to the registered command
//! whose example phrases lie closest to it in embedding space.
//!
//! The crate holds the decisions of the dispatch engine and proves them with
//! Verus. Everything that waits on the outside world (the embedding provider,
//! the cache backend, the command handlers) and every floating-point
//! computation is left to the host, which the engine drives through small
//! step functions: it is told what to do next and reports back what happened.
//!
//! - `text` and `input`: the normal form of text, and example phrases.
//! - `similarity`: similarity scores, carried as bits, and their order.
//! - `registry`: what is registered, what it misses, and how it is filled.
//! - `selection`: which example matches a query.
//! - `resolution`: from a text to its embedding, over cache and provider.
//! - `semantic_commands`: the engine and the steps of a dispatch.
//! - `caches` and `embedders`: what the engine knows of the backends.

pub mod caches;
pub mod command;
pub mod embedders;
pub mod failure;
pub mod input;
pub mod registry;
pub mod resolution;
pub mod selection;
pub mod semantic_commands;
pub mod similarity;
pub mod text;

pub use caches::in_memory::InMemoryCache;
pub use caches::no_cache::NoCache;
pub use command::Command;
pub use embedders::openai::OpenAIEmbedder;
pub use failure::Failure;
pub use input::{normalize, Embedding, Input};
pub use resolution::{Resolution, ResolutionStep};
pub use semantic_commands::{Dispatch, DispatchStep, SemanticCommands};
pub use similarity::{Similarity, DEFAULT_THRESHOLD};
