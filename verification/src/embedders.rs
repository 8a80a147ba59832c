//! Embedding providers.

pub mod openai;
