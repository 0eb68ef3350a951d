use vstd::prelude::*;

verus! {

/// Scoring strategies offered by the local search engine.
#[derive(Debug, Clone)]
pub enum SearchModel {
    CosineSimilarity,
    NearestNeighbor,
    BM25,
    NearestDuplicate,
    Custom(String),
}

impl SearchModel {
    /// Canonical name of the strategy.
    pub fn as_str(&self) -> (r: &str)
        ensures
            self is CosineSimilarity ==> r@ == "cosine_similarity"@,
            self is NearestNeighbor ==> r@ == "nearest_neighbor"@,
            self is BM25 ==> r@ == "bm25"@,
            self is NearestDuplicate ==> r@ == "nearest_duplicate"@,
            self matches SearchModel::Custom(name) ==> r@ == name@,
    {
        match self {
            SearchModel::CosineSimilarity => "cosine_similarity",
            SearchModel::NearestNeighbor => "nearest_neighbor",
            SearchModel::BM25 => "bm25",
            SearchModel::NearestDuplicate => "nearest_duplicate",
            SearchModel::Custom(name) => name.as_str(),
        }
    }
}

impl Default for SearchModel {
    fn default() -> (r: Self)
        ensures
            r is CosineSimilarity,
    {
        SearchModel::CosineSimilarity
    }
}

/// How a search request is to be executed.
#[derive(Debug, Clone, Copy, PartialEq, Eq, Structural)]
pub enum SearchType {
    Similarity,
    NearestNeighbor,
    NearestDuplicate,
    BM25,
    MaximalMarginalRelevance,
    SimilarityScoreThreshold,
}

/// One scored document. `score` is a Q16 fixed-point value whose meaning
/// depends on the strategy: a BM25 relevance, a cosine similarity, or a
/// Euclidean distance. `index` is the document's position in the original
/// input, which also breaks score ties, so the ordering is deterministic.
#[derive(Debug, Clone)]
pub struct SearchResult {
    pub document: Vec<String>,
    pub score: i64,
    pub index: usize,
    pub search_type: SearchType,
}

/// Usage estimate attached to a search response.
#[derive(Debug, Clone)]
pub struct EstimatedUsage {
    pub total_tokens: u32,
}

/// The query part of a search request.
#[derive(Debug, Clone)]
pub struct SearchQuery {
    pub query: String,
    pub model: SearchModel,
    pub max_results: Option<usize>,
    pub num_results: Option<usize>,
    pub include_metadata: Option<bool>,
}

impl Default for SearchQuery {
    fn default() -> (r: Self)
        ensures
            r.query@ == Seq::<char>::empty(),
            r.model is CosineSimilarity,
            r.max_results is None,
            r.num_results == Some(10usize),
            r.include_metadata == Some(false),
    {
        SearchQuery {
            query: String::new(),
            model: SearchModel::CosineSimilarity,
            max_results: None,
            num_results: Some(10),
            include_metadata: Some(false),
        }
    }
}

impl From<String> for SearchQuery {
    fn from(query: String) -> (r: Self) {
        SearchQuery {
            query,
            model: SearchModel::CosineSimilarity,
            max_results: None,
            num_results: Some(10),
            include_metadata: Some(false),
        }
    }
}

impl vstd::std_specs::convert::FromSpecImpl<String> for SearchQuery {
    open spec fn obeys_from_spec() -> bool {
        true
    }

    open spec fn from_spec(query: String) -> Self {
        SearchQuery {
            query,
            model: SearchModel::CosineSimilarity,
            max_results: None,
            num_results: Some(10usize),
            include_metadata: Some(false),
        }
    }
}

/// A completed local search.
#[derive(Debug, Clone)]
pub struct SearchResponse {
    pub object: String,
    pub model: SearchModel,
    pub results: Vec<SearchResult>,
    pub estimated_usage: EstimatedUsage,
}

} // verus!
