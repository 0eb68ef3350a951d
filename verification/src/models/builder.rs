use vstd::prelude::*;
use crate::builder::embeddings::EmbeddingsRequestBuilder;
use crate::builder::rerank::RerankRequestBuilder;
use crate::builder::search::SearchRequestBuilder;

verus! {

/// The request builders of the three families, gathered in one place.
pub struct Model {
    pub embeddings: EmbeddingsRequestBuilder,
    pub rerank: RerankRequestBuilder,
    pub search: SearchRequestBuilder,
}

impl Model {
    pub fn builder() -> (r: ModelBuilder)
        ensures
            r.embeddings is None,
            r.rerank is None,
            r.search is None,
    {
        ModelBuilder::new()
    }
}

/// Collects request builders and assembles a [`Model`], falling back to
/// fresh builders for families that were not set.
pub struct ModelBuilder {
    pub embeddings: Option<EmbeddingsRequestBuilder>,
    pub rerank: Option<RerankRequestBuilder>,
    pub search: Option<SearchRequestBuilder>,
}

impl ModelBuilder {
    pub fn new() -> (r: Self)
        ensures
            r.embeddings is None,
            r.rerank is None,
            r.search is None,
    {
        ModelBuilder { embeddings: None, rerank: None, search: None }
    }

    pub fn embeddings(self, embeddings: EmbeddingsRequestBuilder) -> (r: Self)
        ensures
            r.embeddings == Some(embeddings),
            r.rerank == self.rerank,
            r.search == self.search,
    {
        ModelBuilder { embeddings: Some(embeddings), ..self }
    }

    pub fn rerank(self, rerank: RerankRequestBuilder) -> (r: Self)
        ensures
            r.rerank == Some(rerank),
            r.embeddings == self.embeddings,
            r.search == self.search,
    {
        ModelBuilder { rerank: Some(rerank), ..self }
    }

    pub fn search(self, builder: SearchRequestBuilder) -> (r: Self)
        ensures
            r.search == Some(builder),
            r.embeddings == self.embeddings,
            r.rerank == self.rerank,
    {
        ModelBuilder { search: Some(builder), ..self }
    }

    pub fn build(self) -> (r: Model)
        ensures
            self.embeddings matches Some(e) ==> r.embeddings == e,
            self.rerank matches Some(b) ==> r.rerank == b,
            self.search matches Some(s) ==> r.search == s,
    {
        let embeddings = match self.embeddings {
            Some(e) => e,
            None => EmbeddingsRequestBuilder::new(),
        };
        let rerank = match self.rerank {
            Some(b) => b,
            None => RerankRequestBuilder::new(),
        };
        let search = match self.search {
            Some(s) => s,
            None => SearchRequestBuilder::new(),
        };
        Model { embeddings, rerank, search }
    }
}

} // verus!
