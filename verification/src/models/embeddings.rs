use vstd::prelude::*;

verus! {

/// Marks whether a text is a search query or a stored document.
#[derive(Debug, Clone, Copy, PartialEq, Eq, Structural)]
pub enum InputType {
    Query,
    Document,
}

/// Input of an embeddings request: one text or a batch of texts.
#[derive(Debug, Clone)]
pub enum EmbeddingsInput {
    Single(String),
    Multiple(Vec<String>),
}

impl From<Vec<String>> for EmbeddingsInput {
    fn from(texts: Vec<String>) -> (r: Self) {
        EmbeddingsInput::Multiple(texts)
    }
}

impl vstd::std_specs::convert::FromSpecImpl<Vec<String>> for EmbeddingsInput {
    open spec fn obeys_from_spec() -> bool {
        true
    }

    open spec fn from_spec(texts: Vec<String>) -> Self {
        EmbeddingsInput::Multiple(texts)
    }
}

/// Wire encoding requested for returned embedding vectors.
#[derive(Debug, Clone, Copy, PartialEq, Eq, Structural)]
pub enum EncodingFormat {
    Float,
    Base64,
}

/// Embedding models offered by the service.
#[derive(Debug, Clone, Copy, PartialEq, Eq, Structural)]
pub enum EmbeddingModel {
    Voyage3,
    Voyage3Lite,
    VoyageFinance2,
    VoyageMultilingual2,
    VoyageLaw2,
}

impl EmbeddingModel {
    /// Maximum context length in tokens for the model.
    pub fn max_context_length(&self) -> (n: usize)
        ensures
            n == match *self {
                EmbeddingModel::Voyage3 | EmbeddingModel::Voyage3Lite => 32000usize,
                _ => 16000usize,
            },
    {
        match self {
            EmbeddingModel::Voyage3 | EmbeddingModel::Voyage3Lite => 32000,
            EmbeddingModel::VoyageFinance2
            | EmbeddingModel::VoyageMultilingual2
            | EmbeddingModel::VoyageLaw2 => 16000,
        }
    }

    /// Maximum number of tokens accepted in a single request.
    pub fn max_tokens_per_request(&self) -> (n: usize)
        ensures
            n == match *self {
                EmbeddingModel::Voyage3Lite => 1_000_000usize,
                EmbeddingModel::Voyage3 => 320_000usize,
                _ => 120_000usize,
            },
    {
        match self {
            EmbeddingModel::Voyage3Lite => 1_000_000,
            EmbeddingModel::Voyage3 => 320_000,
            EmbeddingModel::VoyageFinance2
            | EmbeddingModel::VoyageMultilingual2
            | EmbeddingModel::VoyageLaw2 => 120_000,
        }
    }

    /// Dimension of the vectors the model produces.
    pub fn embedding_dimension(&self) -> (n: usize)
        ensures
            n == match *self {
                EmbeddingModel::Voyage3 => 512usize,
                EmbeddingModel::Voyage3Lite => 256usize,
                _ => 1024usize,
            },
    {
        match self {
            EmbeddingModel::Voyage3 => 512,
            EmbeddingModel::Voyage3Lite => 256,
            EmbeddingModel::VoyageFinance2
            | EmbeddingModel::VoyageMultilingual2
            | EmbeddingModel::VoyageLaw2 => 1024,
        }
    }
}

impl Default for EmbeddingModel {
    fn default() -> (r: Self)
        ensures
            r == EmbeddingModel::Voyage3,
    {
        EmbeddingModel::Voyage3
    }
}

/// A fully assembled embeddings request.
#[derive(Debug, Clone)]
pub struct EmbeddingsRequest {
    pub input: EmbeddingsInput,
    pub model: EmbeddingModel,
    pub input_type: Option<InputType>,
    pub truncation: Option<bool>,
    pub encoding_format: Option<EncodingFormat>,
}

/// Token usage reported for an embeddings call.
#[derive(Debug, Clone)]
pub struct Usage {
    pub total_tokens: u32,
}

} // verus!
