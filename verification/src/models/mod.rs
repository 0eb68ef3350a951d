pub mod builder;
pub mod embeddings;
pub mod model_type;
pub mod rerank;
pub mod search;
pub mod usage;

pub use embeddings::{EmbeddingModel, EmbeddingsInput, InputType};
pub use model_type::ModelType;
pub use rerank::{RerankModel, RerankRequest};
pub use search::{SearchModel, SearchType};
