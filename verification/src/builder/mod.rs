pub mod embeddings;
pub mod rerank;
pub mod search;

pub use embeddings::EmbeddingsRequestBuilder;
pub use rerank::RerankRequestBuilder;
pub use search::{SearchRequest, SearchRequestBuilder};
