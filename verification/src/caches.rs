//! Cache backends for embeddings.

pub mod in_memory;
pub mod no_cache;
