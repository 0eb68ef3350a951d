use vstd::prelude::*;
use crate::models::embeddings::EmbeddingModel;
use crate::models::rerank::RerankModel;

verus! {

/// Which family of model a request targets.
#[derive(Debug, Clone)]
pub enum ModelType {
    Rerank(RerankModel),
    Embedding(EmbeddingModel),
}

impl ModelType {
    /// Short name of the model family.
    pub fn as_str(&self) -> (r: &str)
        ensures
            self is Rerank ==> r@ == "rerank"@,
            self is Embedding ==> r@ == "embedding"@,
    {
        match self {
            ModelType::Rerank(_) => "rerank",
            ModelType::Embedding(_) => "embedding",
        }
    }
}

} // verus!
