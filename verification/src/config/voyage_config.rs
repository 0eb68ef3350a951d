use vstd::prelude::*;
use crate::models::embeddings::EmbeddingModel;
use crate::models::rerank::RerankModel;
use crate::models::search::SearchModel;

verus! {

/// A model of any of the three families.
#[derive(Debug, Clone)]
pub enum Model {
    Embedding(EmbeddingModel),
    Rerank(RerankModel),
    Search(SearchModel),
}

impl Default for Model {
    fn default() -> (r: Self)
        ensures
            r == Model::Embedding(EmbeddingModel::Voyage3),
    {
        Model::Embedding(default_embedding_model())
    }
}

/// The embedding model used when none is chosen.
pub fn default_embedding_model() -> (r: EmbeddingModel)
    ensures
        r == EmbeddingModel::Voyage3,
{
    EmbeddingModel::Voyage3
}

/// The reranking model used when none is chosen.
pub fn default_reranker_model() -> (r: RerankModel)
    ensures
        r == RerankModel::Rerank2,
{
    RerankModel::Rerank2
}

/// Settings handed to a client at construction: the credential, the service
/// base address, and the default models. Immutable for the life of the
/// client that holds it.
#[derive(Debug, Clone)]
pub struct VoyageConfig {
    pub api_key: String,
    pub base_url: String,
    pub search_model: SearchModel,
    pub embedding_model: EmbeddingModel,
}

impl VoyageConfig {
    /// A configuration with the service's production address and default
    /// models.
    pub fn new(api_key: String) -> (r: Self)
        ensures
            r.api_key == api_key,
            r.base_url@ == "https://api.voyageai.com/v1"@,
            r.search_model is CosineSimilarity,
            r.embedding_model == EmbeddingModel::Voyage3,
    {
        VoyageConfig {
            api_key,
            base_url: "https://api.voyageai.com/v1".to_owned(),
            search_model: SearchModel::CosineSimilarity,
            embedding_model: EmbeddingModel::Voyage3,
        }
    }

    /// The same configuration aimed at another base address.
    pub fn with_base_url(self, base_url: String) -> (r: Self)
        ensures
            r.api_key == self.api_key,
            r.base_url == base_url,
            r.search_model == self.search_model,
            r.embedding_model == self.embedding_model,
    {
        VoyageConfig { base_url, ..self }
    }

    /// The credential sent with every request.
    pub fn api_key(&self) -> (r: &str)
        ensures
            r@ == self.api_key@,
    {
        self.api_key.as_str()
    }
}

} // verus!
