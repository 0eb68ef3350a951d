use vstd::prelude::*;
use crate::models::rerank::{RerankModel, RerankRequest};

verus! {

/// Assembles a [`RerankRequest`] step by step. Query, documents and model
/// are all required.
#[derive(Clone)]
pub struct RerankRequestBuilder {
    pub query: Option<String>,
    pub documents: Option<Vec<String>>,
    pub model: Option<RerankModel>,
    pub top_k: Option<usize>,
}

impl RerankRequestBuilder {
    pub fn new() -> (r: Self)
        ensures
            r.query is None,
            r.documents is None,
            r.model is None,
            r.top_k is None,
    {
        RerankRequestBuilder { query: None, documents: None, model: None, top_k: None }
    }

    pub fn query(self, query: String) -> (r: Self)
        ensures
            r.query == Some(query),
            r.documents == self.documents,
            r.model == self.model,
            r.top_k == self.top_k,
    {
        RerankRequestBuilder { query: Some(query), ..self }
    }

    pub fn documents(self, documents: Vec<String>) -> (r: Self)
        ensures
            r.documents == Some(documents),
            r.query == self.query,
            r.model == self.model,
            r.top_k == self.top_k,
    {
        RerankRequestBuilder { documents: Some(documents), ..self }
    }

    pub fn model(self, model: RerankModel) -> (r: Self)
        ensures
            r.model == Some(model),
            r.query == self.query,
            r.documents == self.documents,
            r.top_k == self.top_k,
    {
        RerankRequestBuilder { model: Some(model), ..self }
    }

    pub fn top_k(self, top_k: usize) -> (r: Self)
        ensures
            r.top_k == Some(top_k),
            r.query == self.query,
            r.documents == self.documents,
            r.model == self.model,
    {
        RerankRequestBuilder { top_k: Some(top_k), ..self }
    }

    /// Assembles the request, naming the first missing required field.
    /// Document-count validation belongs to [`RerankRequest::new`]; a
    /// request assembled here carries the fields as given.
    pub fn build(self) -> (r: Result<RerankRequest, &'static str>)
        ensures
            self.query is None ==> (r matches Err(m) && m@ == "Query is required"@),
            self.query is Some && self.documents is None ==> (r matches Err(m) && m@
                == "Documents are required"@),
            self.query is Some && self.documents is Some && self.model is None ==> (r matches Err(
                m,
            ) && m@ == "Model is required"@),
            self.query is Some && self.documents is Some && self.model is Some ==> (r matches Ok(
                req,
            ) && Some(req.query) == self.query && Some(req.documents) == self.documents && Some(
                req.model,
            ) == self.model && req.top_k == self.top_k),
    {
        let query = match self.query {
            Some(query) => query,
            None => {
                return Err("Query is required");
            },
        };
        let documents = match self.documents {
            Some(documents) => documents,
            None => {
                return Err("Documents are required");
            },
        };
        let model = match self.model {
            Some(model) => model,
            None => {
                return Err("Model is required");
            },
        };
        Ok(RerankRequest { query, documents, model, top_k: self.top_k })
    }
}

} // verus!
