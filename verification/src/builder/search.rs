use vstd::prelude::*;
use crate::errors::VoyageBuilderError;
use crate::index::views_of;
use crate::models::search::{SearchModel, SearchQuery, SearchType};

verus! {

/// The texts of an optional document list.
pub open spec fn opt_docs_view(docs: Option<Vec<String>>) -> Option<Seq<Seq<char>>> {
    match docs {
        None => None,
        Some(v) => Some(views_of(v@)),
    }
}

/// The vectors of an optional embedding list.
pub open spec fn opt_embeddings_view(embeddings: Option<Vec<Vec<i64>>>) -> Option<Seq<Seq<i64>>> {
    match embeddings {
        None => None,
        Some(v) => Some(v@.map_values(|e: Vec<i64>| e@)),
    }
}

/// An equal copy of a strategy value.
fn clone_search_model(m: &SearchModel) -> (r: SearchModel)
    ensures
        r == *m,
{
    match m {
        SearchModel::CosineSimilarity => SearchModel::CosineSimilarity,
        SearchModel::NearestNeighbor => SearchModel::NearestNeighbor,
        SearchModel::BM25 => SearchModel::BM25,
        SearchModel::NearestDuplicate => SearchModel::NearestDuplicate,
        SearchModel::Custom(name) => SearchModel::Custom(name.clone()),
    }
}

/// A copy of a document list with the same texts.
fn clone_documents(v: &Vec<String>) -> (r: Vec<String>)
    ensures
        views_of(r@) == views_of(v@),
        r@.len() == v@.len(),
{
    let n = v.len();
    let mut r: Vec<String> = Vec::new();
    let mut i: usize = 0;
    while i < n
        invariant
            n == v@.len(),
            i <= n,
            r@.len() == i,
            forall|j: int| 0 <= j < i ==> #[trigger] r@[j] == v@[j],
        decreases n - i,
    {
        r.push(v[i].clone());
        i = i + 1;
    }
    proof {
        assert(views_of(r@) =~= views_of(v@));
    }
    r
}

/// A copy of an embedding list with the same vectors.
fn clone_embeddings(v: &Vec<Vec<i64>>) -> (r: Vec<Vec<i64>>)
    ensures
        r@.map_values(|e: Vec<i64>| e@) == v@.map_values(|e: Vec<i64>| e@),
        r@.len() == v@.len(),
{
    let n = v.len();
    let mut r: Vec<Vec<i64>> = Vec::new();
    let mut i: usize = 0;
    while i < n
        invariant
            n == v@.len(),
            i <= n,
            r@.len() == i,
            forall|j: int| 0 <= j < i ==> #[trigger] r@[j]@ == v@[j]@,
        decreases n - i,
    {
        let m = v[i].len();
        let mut e: Vec<i64> = Vec::new();
        let mut k: usize = 0;
        while k < m
            invariant
                m == v@[i as int]@.len(),
                i < n == v@.len(),
                k <= m,
                e@ =~= v@[i as int]@.take(k as int),
            decreases m - k,
        {
            e.push(v[i][k]);
            k = k + 1;
        }
        proof {
            assert(e@ =~= v@[i as int]@);
        }
        r.push(e);
        i = i + 1;
    }
    proof {
        assert(r@.map_values(|e: Vec<i64>| e@) =~= v@.map_values(|e: Vec<i64>| e@));
    }
    r
}

/// A local search request. Embeddings are Q16 fixed-point vectors, as the
/// ranking engine scores them; whoever obtains floating-point vectors from
/// the embedding service scales them before handing them over.
#[derive(Debug, Clone)]
pub struct SearchRequest {
    pub query: SearchQuery,
    pub documents: Option<Vec<String>>,
    pub embeddings: Option<Vec<Vec<i64>>>,
    pub model: SearchModel,
    pub top_k: Option<usize>,
    pub search_type: SearchType,
}

impl SearchRequest {
    /// A copy that can be handed to another task.
    pub fn share(&self) -> (r: Self)
        ensures
            r.query.query@ == self.query.query@,
            r.query.model == self.query.model,
            r.query.max_results == self.query.max_results,
            r.query.num_results == self.query.num_results,
            r.query.include_metadata == self.query.include_metadata,
            opt_docs_view(r.documents) == opt_docs_view(self.documents),
            opt_embeddings_view(r.embeddings) == opt_embeddings_view(self.embeddings),
            r.model == self.model,
            r.top_k == self.top_k,
            r.search_type == self.search_type,
    {
        SearchRequest {
            query: SearchQuery {
                query: self.query.query.clone(),
                model: clone_search_model(&self.query.model),
                max_results: self.query.max_results,
                num_results: self.query.num_results,
                include_metadata: self.query.include_metadata,
            },
            documents: match &self.documents {
                Some(docs) => Some(clone_documents(docs)),
                None => None,
            },
            embeddings: match &self.embeddings {
                Some(embeddings) => Some(clone_embeddings(embeddings)),
                None => None,
            },
            model: clone_search_model(&self.model),
            top_k: self.top_k,
            search_type: self.search_type,
        }
    }
}

/// Assembles a [`SearchRequest`]. The query, the model and the search type
/// are required, and at least one of documents or embeddings must be given.
#[derive(Clone)]
pub struct SearchRequestBuilder {
    pub query: Option<String>,
    pub documents: Option<Vec<String>>,
    pub embeddings: Option<Vec<Vec<i64>>>,
    pub model: Option<SearchModel>,
    pub top_k: Option<usize>,
    pub search_type: Option<SearchType>,
}

impl SearchRequestBuilder {
    pub fn new() -> (r: Self)
        ensures
            r.query is None,
            r.documents is None,
            r.embeddings is None,
            r.model is None,
            r.top_k is None,
            r.search_type is None,
    {
        SearchRequestBuilder {
            query: None,
            documents: None,
            embeddings: None,
            model: None,
            top_k: None,
            search_type: None,
        }
    }

    pub fn query(self, query: String) -> (r: Self)
        ensures
            r == (SearchRequestBuilder { query: Some(query), ..self }),
    {
        SearchRequestBuilder { query: Some(query), ..self }
    }

    pub fn documents(self, documents: Vec<String>) -> (r: Self)
        ensures
            r == (SearchRequestBuilder { documents: Some(documents), ..self }),
    {
        SearchRequestBuilder { documents: Some(documents), ..self }
    }

    pub fn embeddings(self, embeddings: Vec<Vec<i64>>) -> (r: Self)
        ensures
            r == (SearchRequestBuilder { embeddings: Some(embeddings), ..self }),
    {
        SearchRequestBuilder { embeddings: Some(embeddings), ..self }
    }

    pub fn model(self, model: SearchModel) -> (r: Self)
        ensures
            r == (SearchRequestBuilder { model: Some(model), ..self }),
    {
        SearchRequestBuilder { model: Some(model), ..self }
    }

    pub fn top_k(self, top_k: usize) -> (r: Self)
        ensures
            r == (SearchRequestBuilder { top_k: Some(top_k), ..self }),
    {
        SearchRequestBuilder { top_k: Some(top_k), ..self }
    }

    pub fn search_type(self, search_type: SearchType) -> (r: Self)
        ensures
            r == (SearchRequestBuilder { search_type: Some(search_type), ..self }),
    {
        SearchRequestBuilder { search_type: Some(search_type), ..self }
    }

    /// Assembles the request. The missing piece is named in the error;
    /// giving neither documents nor embeddings is rejected as well.
    pub fn build(self) -> (r: Result<SearchRequest, VoyageBuilderError>)
        ensures
            self.query is None ==> (r matches Err(e) && e matches VoyageBuilderError::MissingField(
                f,
            ) && f@ == "query"@),
            self.query is Some && self.model is None ==> r == Err::<
                SearchRequest,
                VoyageBuilderError,
            >(VoyageBuilderError::MissingModel),
            self.query is Some && self.model is Some && self.search_type is None ==> (r
                matches Err(e) && e matches VoyageBuilderError::MissingField(f) && f@
                == "search_type"@),
            self.query is Some && self.model is Some && self.search_type is Some
                && self.documents is None && self.embeddings is None ==> (r matches Err(e) && e
                matches VoyageBuilderError::MissingField(f) && f@ == "documents or embeddings"@),
            self.query is Some && self.model is Some && self.search_type is Some && (
            self.documents is Some || self.embeddings is Some) ==> (r matches Ok(req) && Some(
                req.query.query,
            ) == self.query && req.query.num_results == Some(10usize) && req.documents
                == self.documents && req.embeddings == self.embeddings && Some(req.model)
                == self.model && req.top_k == self.top_k && Some(req.search_type)
                == self.search_type),
    {
        let query = match self.query {
            Some(query) => query,
            None => {
                return Err(VoyageBuilderError::MissingField("query".to_owned()));
            },
        };
        let model = match self.model {
            Some(model) => model,
            None => {
                return Err(VoyageBuilderError::MissingModel);
            },
        };
        let search_type = match self.search_type {
            Some(search_type) => search_type,
            None => {
                return Err(VoyageBuilderError::MissingField("search_type".to_owned()));
            },
        };
        if self.documents.is_none() && self.embeddings.is_none() {
            return Err(VoyageBuilderError::MissingField("documents or embeddings".to_owned()));
        }
        Ok(SearchRequest {
            query: SearchQuery {
                query,
                model: SearchModel::CosineSimilarity,
                max_results: None,
                num_results: Some(10),
                include_metadata: Some(false),
            },
            documents: self.documents,
            embeddings: self.embeddings,
            model,
            top_k: self.top_k,
            search_type,
        })
    }
}

} // verus!
