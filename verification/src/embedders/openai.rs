//! The OpenAI embeddings endpoint: what is sent, and what an answer means.
//!
//! Sending the request and decoding the answer is the host's part.

use vstd::prelude::*;
use vstd::string::StringExecFns;

use crate::failure::Failure;
use crate::input::Embedding;

verus! {

/// The root of the API.
pub const BASE_URL: &'static str = "https://api.openai.com/v1/";

/// The model that embeds.
pub const MODEL: &'static str = "text-embedding-ada-002";

/// The error that the API describes.
#[derive(Debug)]
pub struct ErrorDescription {
    pub message: String,
}

/// The answer of the API to a request that failed.
#[derive(Debug)]
pub struct ErrorResponse {
    pub error: ErrorDescription,
}

/// The answer of the API to a request that succeeded.
#[derive(Debug)]
pub struct SuccessResponse<D> {
    pub data: Vec<D>,
}

/// One embedding in an answer.
#[derive(Debug)]
pub struct EmbeddingResponse {
    pub embedding: Embedding,
}

/// An answer of the API.
#[derive(Debug)]
pub enum OpenAIResponse<D> {
    Success(SuccessResponse<D>),
    Error(ErrorResponse),
}

/// The provider that asks OpenAI, with the token that authorizes it.
pub struct OpenAIEmbedder {
    pub token: String,
}

/// What the provider says of a successful answer that holds no embedding.
pub const NO_EMBEDDING: &'static str = "the answer holds no embedding";

/// Whether `outcome` is what an answer means for the provider: the first
/// embedding of a successful answer; a provider failure that says so where a
/// successful answer holds none; a provider failure with the message of the
/// API where the API reports an error.
pub open spec fn embedding_of(
    response: OpenAIResponse<EmbeddingResponse>,
    outcome: Result<Embedding, Failure>,
) -> bool {
    match response {
        OpenAIResponse::Success(success) => if success.data@.len() > 0 {
            outcome == Ok::<Embedding, Failure>(success.data@[0].embedding)
        } else {
            &&& outcome matches Err(Failure::Provider(reason))
            &&& reason@ == NO_EMBEDDING@
        },
        OpenAIResponse::Error(failed) => outcome == Err::<Embedding, Failure>(
            Failure::Provider(failed.error.message),
        ),
    }
}

impl OpenAIResponse<EmbeddingResponse> {
    /// Reads the embedding out of an answer. Every answer has an outcome: an
    /// answer that cannot be used is a failure of the provider.
    pub fn into_embedding(self) -> (outcome: Result<Embedding, Failure>)
        ensures
            embedding_of(self, outcome),
    {
        match self {
            OpenAIResponse::Success(success) => {
                let mut data = success.data;
                if data.len() > 0 {
                    let first = data.swap_remove(0);
                    Ok(first.embedding)
                } else {
                    Err(Failure::Provider(String::from_str(NO_EMBEDDING)))
                }
            },
            OpenAIResponse::Error(failed) => Err(Failure::Provider(failed.error.message)),
        }
    }
}

impl OpenAIEmbedder {
    /// The address that embedding requests go to.
    pub fn endpoint() -> (url: String)
        ensures
            url@ == BASE_URL@ + "/embeddings"@,
    {
        String::from_str(BASE_URL).concat("/embeddings")
    }

    /// The fields of the request for the embedding of `input`, by name: the
    /// input itself and the model.
    pub fn request(&self, input: &str) -> (fields: Vec<(String, String)>)
        ensures
            fields@.len() == 2,
            fields@[0].0@ == "input"@,
            fields@[0].1@ == input@,
            fields@[1].0@ == "model"@,
            fields@[1].1@ == MODEL@,
    {
        let mut fields: Vec<(String, String)> = Vec::new();
        fields.push((String::from_str("input"), String::from_str(input)));
        fields.push((String::from_str("model"), String::from_str(MODEL)));
        fields
    }
}

} // verus!
