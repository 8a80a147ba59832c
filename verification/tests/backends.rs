use std::sync::Arc;

use semantic_commands::caches::in_memory::embedding_weight;
use semantic_commands::embedders::openai::{
    EmbeddingResponse, ErrorDescription, ErrorResponse, OpenAIResponse, SuccessResponse, BASE_URL, MODEL,
    NO_EMBEDDING,
};
use semantic_commands::{Failure, InMemoryCache, NoCache, OpenAIEmbedder};

#[test]
fn no_cache_holds_nothing() {
    let cache = NoCache;
    assert!(matches!(cache.init(), Ok(())));
    assert!(matches!(cache.get("ping"), Ok(None)));
    assert!(matches!(cache.put("ping", vec![1, 2, 3]), Ok(())));
    assert!(matches!(cache.get("ping"), Ok(None)));
}

#[test]
fn unbounded_cache_has_no_capacity() {
    assert_eq!(InMemoryCache::unbounded().max_capacity(), None);
}

#[test]
fn cache_with_max_entries_has_that_capacity() {
    assert_eq!(InMemoryCache::with_max_entries(7).max_capacity(), Some(7));
    assert_eq!(InMemoryCache::with_max_entries(0).max_capacity(), Some(0));
}

#[test]
fn default_cache_holds_ten_thousand_entries() {
    assert_eq!(InMemoryCache::default().max_capacity(), Some(10_000));
}

#[test]
fn cache_with_max_memory_counts_bytes() {
    assert_eq!(InMemoryCache::with_max_memory_mb(1).max_capacity(), Some(1_048_576));
    assert_eq!(InMemoryCache::with_max_memory_mb(100).max_capacity(), Some(104_857_600));
    assert_eq!(InMemoryCache::with_max_memory_mb(0).max_capacity(), Some(0));
    assert_eq!(
        InMemoryCache::with_max_memory_mb(17_592_186_044_415).max_capacity(),
        Some(18_446_744_073_708_503_040)
    );
}

#[test]
fn embedding_weight_is_four_bytes_a_coordinate() {
    assert_eq!(embedding_weight(0), 0);
    assert_eq!(embedding_weight(1), 4);
    assert_eq!(embedding_weight(1536), 6144);
    assert_eq!(embedding_weight(0x3fff_ffff), 0xffff_fffc);
}

#[test]
fn cache_weighs_only_where_it_bounds_memory() {
    let weighed = InMemoryCache::with_max_memory_mb(1);
    let counted = InMemoryCache::with_max_entries(100);
    let sizes = futures::executor::block_on(async {
        for cache in [&weighed, &counted] {
            cache.store().insert("ping".to_string(), Arc::new(vec![0u32; 3])).await;
            cache.store().insert("hello".to_string(), Arc::new(vec![0u32; 5])).await;
            cache.store().run_pending_tasks().await;
        }
        (weighed.store().weighted_size(), counted.store().weighted_size())
    });
    assert_eq!(sizes, (32, 2));
}

#[test]
fn cache_gives_back_what_it_was_given() {
    let cache = InMemoryCache::default();
    let found = futures::executor::block_on(async {
        cache.store().insert("ping".to_string(), Arc::new(vec![1, 2, 3])).await;
        (cache.store().get("ping").await, cache.store().get("pong").await)
    });
    assert_eq!(found.0.map(|embedding| (*embedding).clone()), Some(vec![1, 2, 3]));
    assert!(found.1.is_none());
}

#[test]
fn openai_endpoint_and_model() {
    assert_eq!(BASE_URL, "https://api.openai.com/v1/");
    assert_eq!(MODEL, "text-embedding-ada-002");
    assert_eq!(OpenAIEmbedder::endpoint(), "https://api.openai.com/v1//embeddings");
}

#[test]
fn openai_request_names_input_and_model() {
    let embedder = OpenAIEmbedder { token: "SECRET-REDACTED".to_string() };
    let fields = embedder.request("tell me the date");
    assert_eq!(
        fields,
        vec![
            ("input".to_string(), "tell me the date".to_string()),
            ("model".to_string(), "text-embedding-ada-002".to_string()),
        ]
    );
}

#[test]
fn openai_success_gives_the_first_embedding() {
    let response = OpenAIResponse::Success(SuccessResponse {
        data: vec![
            EmbeddingResponse { embedding: vec![1, 2, 3] },
            EmbeddingResponse { embedding: vec![4, 5, 6] },
        ],
    });
    assert!(matches!(response.into_embedding(), Ok(embedding) if embedding == vec![1, 2, 3]));
    let single = OpenAIResponse::Success(SuccessResponse { data: vec![EmbeddingResponse { embedding: vec![] }] });
    assert!(matches!(single.into_embedding(), Ok(embedding) if embedding.is_empty()));
}

#[test]
fn openai_error_is_a_provider_failure_with_its_message() {
    let response: OpenAIResponse<EmbeddingResponse> = OpenAIResponse::Error(ErrorResponse {
        error: ErrorDescription { message: "You exceeded your current quota".to_string() },
    });
    let outcome = response.into_embedding();
    assert!(matches!(outcome, Err(Failure::Provider(reason)) if reason == "You exceeded your current quota"));
}

#[test]
fn openai_success_without_an_embedding_is_a_provider_failure() {
    let response: OpenAIResponse<EmbeddingResponse> =
        OpenAIResponse::Success(SuccessResponse { data: vec![] });
    let outcome = response.into_embedding();
    assert!(matches!(&outcome, Err(Failure::Provider(reason)) if reason == "the answer holds no embedding"));
    assert_eq!(NO_EMBEDDING, "the answer holds no embedding");
    assert_eq!(outcome.unwrap_err().message(), "the answer holds no embedding");
}
