pub mod voyage_config;

pub use voyage_config::{Model, VoyageConfig, default_embedding_model, default_reranker_model};
