//! The cache in memory, kept by `moka`.
//!
//! The engine configures the cache; reading and writing it waits on the
//! cache's own futures and is the host's part.

use std::collections::hash_map::RandomState;
use std::sync::Arc;
use vstd::prelude::*;

verus! {

/// `moka::future::Cache`, opaque to the verifier.
#[verifier::external_type_specification]
#[verifier::external_body]
#[verifier::reject_recursive_types(K)]
#[verifier::reject_recursive_types(V)]
#[verifier::reject_recursive_types(S)]
pub struct ExCache<K, V, S>(moka::future::Cache<K, V, S>);

/// `moka::future::CacheBuilder`, opaque to the verifier.
#[verifier::external_type_specification]
#[verifier::external_body]
#[verifier::reject_recursive_types(K)]
#[verifier::reject_recursive_types(V)]
#[verifier::reject_recursive_types(C)]
pub struct ExCacheBuilder<K, V, C>(moka::future::CacheBuilder<K, V, C>);

/// The cache of embeddings by text.
pub type Store = moka::future::Cache<String, Arc<Vec<u32>>, RandomState>;

/// The builder of a `Store`.
pub type StoreBuilder = moka::future::CacheBuilder<String, Arc<Vec<u32>>, Store>;

/// The capacity that a builder will give its cache; `None` is no bound.
pub uninterp spec fn planned_capacity(builder: StoreBuilder) -> Option<u64>;

/// Whether a builder will give its cache a weigher.
pub uninterp spec fn planned_weigher(builder: StoreBuilder) -> bool;

/// Whether a builder has a time to live or a time to idle set.
pub uninterp spec fn planned_expiry(builder: StoreBuilder) -> bool;

/// The capacity that a cache was built with; `None` is no bound.
pub uninterp spec fn capacity_of(store: Store) -> Option<u64>;

/// Whether a cache was built with a weigher, so that its capacity bounds
/// the sum of the weights of its entries and not their number.
pub uninterp spec fn weighs(store: Store) -> bool;

/// The bytes in a mebibyte.
pub const MEBIBYTE: u64 = 1_048_576;

/// The bytes that one coordinate of an embedding takes.
pub const COORDINATE_BYTES: u32 = 4;

/// The weight of an embedding of `len` coordinates: its size in bytes, as
/// far as 32 bits hold it.
pub open spec fn weight_of(len: nat) -> int {
    (len * COORDINATE_BYTES) % 0x1_0000_0000
}

/// Computes the weight of an embedding of `len` coordinates.
pub fn embedding_weight(len: usize) -> (weight: u32)
    ensures
        weight == weight_of(len as nat),
        len * COORDINATE_BYTES <= u32::MAX ==> weight == len * COORDINATE_BYTES,
{
    let low: usize = len % 0x4000_0000;
    assert(low * 4 == (len * 4) % 0x1_0000_0000) by (nonlinear_arith)
        requires
            low == len % 0x4000_0000,
    ;
    (low * 4) as u32
}

/// Calls `moka::future::Cache::builder`, which starts from the default
/// builder: no capacity, no weigher, no expiry.
#[verifier::external_body]
fn builder() -> (builder: StoreBuilder)
    ensures
        planned_capacity(builder) == None::<u64>,
        !planned_weigher(builder),
        !planned_expiry(builder),
{
    moka::future::Cache::builder()
}

/// Calls `moka::future::CacheBuilder::max_capacity`, which sets the capacity
/// and leaves the rest of the builder as it is.
#[verifier::external_body]
fn max_capacity(builder: StoreBuilder, capacity: u64) -> (bounded: StoreBuilder)
    ensures
        planned_capacity(bounded) == Some(capacity),
        planned_weigher(bounded) == planned_weigher(builder),
        planned_expiry(bounded) == planned_expiry(builder),
{
    builder.max_capacity(capacity)
}

/// Calls `moka::future::CacheBuilder::weigher` with the weight of the
/// embedding as the weigher; the rest of the builder stays as it is.
#[verifier::external_body]
fn weigher(builder: StoreBuilder) -> (weighed: StoreBuilder)
    ensures
        planned_weigher(weighed),
        planned_capacity(weighed) == planned_capacity(builder),
        planned_expiry(weighed) == planned_expiry(builder),
{
    builder.weigher(|_key: &String, value: &Arc<Vec<u32>>| embedding_weight(value.len()))
}

/// Calls `moka::future::CacheBuilder::build`, which hands the builder's
/// capacity and weigher to the cache. It panics on a time to live or a time
/// to idle of more than a thousand years, so it takes a builder without
/// either.
#[verifier::external_body]
fn build(builder: StoreBuilder) -> (store: Store)
    requires
        !planned_expiry(builder),
    ensures
        capacity_of(store) == planned_capacity(builder),
        weighs(store) == planned_weigher(builder),
{
    builder.build()
}

/// Calls `moka::future::Cache::policy` and `moka::policy::Policy::max_capacity`,
/// which give back the capacity the cache was built with.
#[verifier::external_body]
fn policy_max_capacity(store: &Store) -> (capacity: Option<u64>)
    ensures
        capacity == capacity_of(*store),
{
    store.policy().max_capacity()
}

/// A cache of embeddings in memory.
pub struct InMemoryCache {
    cache: Store,
}

impl InMemoryCache {
    /// The bound of the cache: on the number of entries, or on the sum of
    /// their weights where the cache weighs. `None` is no bound.
    pub closed spec fn capacity(&self) -> Option<u64> {
        capacity_of(self.cache)
    }

    /// Whether the cache weighs its entries by `weight_of`.
    pub closed spec fn weighted(&self) -> bool {
        weighs(self.cache)
    }

    /// The cache itself.
    pub closed spec fn inner(&self) -> Store {
        self.cache
    }

    /// A cache without a bound.
    pub fn unbounded() -> (cache: Self)
        ensures
            cache.capacity() == None::<u64>,
            !cache.weighted(),
    {
        InMemoryCache { cache: build(builder()) }
    }

    /// A cache that holds at most `max_entries` entries.
    pub fn with_max_entries(max_entries: u64) -> (cache: Self)
        ensures
            cache.capacity() == Some(max_entries),
            !cache.weighted(),
    {
        InMemoryCache { cache: build(max_capacity(builder(), max_entries)) }
    }

    /// A cache that holds embeddings of at most `mb` mebibytes together,
    /// each weighed by its size in bytes.
    pub fn with_max_memory_mb(mb: u64) -> (cache: Self)
        requires
            mb * MEBIBYTE <= u64::MAX,
        ensures
            cache.capacity() == Some((mb * MEBIBYTE) as u64),
            cache.weighted(),
    {
        let max_bytes: u64 = mb * MEBIBYTE;
        InMemoryCache { cache: build(max_capacity(weigher(builder()), max_bytes)) }
    }

    /// The bound the cache was made with.
    pub fn max_capacity(&self) -> (capacity: Option<u64>)
        ensures
            capacity == self.capacity(),
    {
        policy_max_capacity(&self.cache)
    }

    /// The cache itself, for the host to read and write.
    pub fn store(&self) -> (store: &Store)
        ensures
            *store == self.inner(),
    {
        &self.cache
    }
}

impl Default for InMemoryCache {
    /// A cache that holds at most 10,000 entries.
    fn default() -> (cache: Self)
        ensures
            cache.capacity() == Some(10_000u64),
            !cache.weighted(),
    {
        InMemoryCache::with_max_entries(10_000)
    }
}

} // verus!
