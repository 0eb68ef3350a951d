use vstd::prelude::*;

verus! {

/// Reranking models offered by the service.
#[derive(Debug, Clone, Copy, PartialEq, Eq, Structural)]
pub enum RerankModel {
    Rerank2,
    Rerank2Lite,
    RerankLite1,
}

impl RerankModel {
    /// Maximum combined context length in tokens for the model.
    pub fn max_context_length(&self) -> (n: usize)
        ensures
            n == match *self {
                RerankModel::Rerank2 => 16000usize,
                _ => 8000usize,
            },
    {
        match self {
            RerankModel::Rerank2 => 16000,
            RerankModel::Rerank2Lite | RerankModel::RerankLite1 => 8000,
        }
    }

    /// Size of the internal embedding used by the model.
    pub fn embedding_size(&self) -> (n: usize)
        ensures
            n == match *self {
                RerankModel::Rerank2 => 768usize,
                _ => 384usize,
            },
    {
        match self {
            RerankModel::Rerank2 => 768,
            RerankModel::Rerank2Lite | RerankModel::RerankLite1 => 384,
        }
    }
}

impl Default for RerankModel {
    fn default() -> (r: Self)
        ensures
            r == RerankModel::Rerank2,
    {
        RerankModel::Rerank2
    }
}

/// Most documents allowed in one reranking request.
pub const MAX_DOCUMENTS: usize = 100;

/// Token usage reported for a reranking call.
#[derive(Debug, Clone, Copy, PartialEq, Eq, Structural)]
pub struct Usage {
    pub total_tokens: u32,
}

/// Rejections raised while validating a reranking request.
#[derive(Debug, Clone, Copy, PartialEq, Eq, Structural)]
pub enum ValidationError {
    EmptyDocuments,
    TooManyDocuments,
}

/// Request to rerank a set of documents by relevance to a query.
#[derive(Debug, Clone)]
pub struct RerankRequest {
    pub query: String,
    pub documents: Vec<String>,
    pub model: RerankModel,
    pub top_k: Option<usize>,
}

impl RerankRequest {
    /// Validates and assembles a reranking request: the document list must
    /// be non-empty and hold at most [`MAX_DOCUMENTS`] entries.
    pub fn new(query: String, documents: Vec<String>, model: RerankModel, top_k: Option<usize>)
        -> (r: Result<Self, ValidationError>)
        ensures
            documents@.len() == 0 ==> r == Err::<Self, ValidationError>(
                ValidationError::EmptyDocuments,
            ),
            documents@.len() > MAX_DOCUMENTS ==> r == Err::<Self, ValidationError>(
                ValidationError::TooManyDocuments,
            ),
            0 < documents@.len() <= MAX_DOCUMENTS ==> (r matches Ok(req) && req.query == query
                && req.documents == documents && req.model == model && req.top_k == top_k),
    {
        if documents.is_empty() {
            return Err(ValidationError::EmptyDocuments);
        }
        if documents.len() > MAX_DOCUMENTS {
            return Err(ValidationError::TooManyDocuments);
        }
        Ok(RerankRequest { query, documents, model, top_k })
    }
}

} // verus!
