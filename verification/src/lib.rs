//! Client-side toolkit for a remote embedding/reranking service.
//!
//! The library has two verified subsystems: an admission-control layer
//! (sliding-window rate limiting with retry/backoff decisions) and a local
//! ranking engine (nearest-neighbor, nearest-duplicate and BM25 scoring over
//! fixed-point integer arithmetic). Network transport, JSON and the CLI are
//! deliberately outside the library.

pub mod builder;
pub mod config;
pub mod errors;
pub mod estimate;
pub mod fixed;
pub mod index;
pub mod limiter;
pub mod models;
pub mod ranking;
pub mod retry;
pub mod tokenize;
pub mod window;

pub use builder::{EmbeddingsRequestBuilder, RerankRequestBuilder, SearchRequest, SearchRequestBuilder};
pub use config::VoyageConfig;
pub use ranking::cosine_similarity;
pub use errors::{VoyageBuilderError, VoyageError};
pub use models::embeddings::{EmbeddingModel, EmbeddingsInput, InputType};
pub use models::model_type::ModelType;
pub use models::rerank::{RerankModel, RerankRequest};
pub use models::search::{SearchModel, SearchResult, SearchType};
