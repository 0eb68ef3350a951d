use voyageai::models::builder::{Model, ModelBuilder};
use voyageai::models::search::{SearchQuery, SearchResult};
use voyageai::{
    EmbeddingModel, EmbeddingsRequestBuilder, RerankRequestBuilder, SearchModel, SearchType,
    VoyageBuilderError, VoyageError,
};

#[test]
fn search_model_names() {
    assert_eq!(SearchModel::CosineSimilarity.as_str(), "cosine_similarity");
    assert_eq!(SearchModel::NearestNeighbor.as_str(), "nearest_neighbor");
    assert_eq!(SearchModel::BM25.as_str(), "bm25");
    assert_eq!(SearchModel::NearestDuplicate.as_str(), "nearest_duplicate");
    assert_eq!(SearchModel::Custom("mine".to_string()).as_str(), "mine");
    assert!(matches!(SearchModel::default(), SearchModel::CosineSimilarity));
}

#[test]
fn search_query_defaults() {
    let query = SearchQuery::default();
    assert_eq!(query.query, "");
    assert_eq!(query.num_results, Some(10));
    assert_eq!(query.include_metadata, Some(false));
    assert_eq!(query.max_results, None);

    let from_text = SearchQuery::from("hello".to_string());
    assert_eq!(from_text.query, "hello");
    assert_eq!(from_text.num_results, Some(10));
}

#[test]
fn model_builder_collects_the_family_builders() {
    let embeddings = EmbeddingsRequestBuilder::new().model(EmbeddingModel::Voyage3Lite);
    let rerank = RerankRequestBuilder::new().query("q".to_string());
    let model: Model = ModelBuilder::new().embeddings(embeddings).rerank(rerank).build();
    assert_eq!(model.embeddings.model, Some(EmbeddingModel::Voyage3Lite));
    assert_eq!(model.rerank.query.as_deref(), Some("q"));
    assert!(model.search.query.is_none());

    let empty = Model::builder().build();
    assert!(empty.embeddings.model.is_none());
    assert!(empty.rerank.query.is_none());
}

#[test]
fn input_list_too_long_maps_through() {
    let err = VoyageError::from_builder(VoyageBuilderError::InputListTooLong);
    assert!(matches!(err, VoyageError::InputListTooLong));
    let err = VoyageError::from_builder(VoyageBuilderError::MissingVoyage);
    assert!(matches!(err, VoyageError::BuilderError(m) if m == "client is required"));
    let err = VoyageError::from_builder(VoyageBuilderError::MissingInput);
    assert!(matches!(err, VoyageError::BuilderError(m) if m == "input is required"));
}

#[test]
fn search_result_carries_its_origin() {
    let result = SearchResult {
        document: vec!["text".to_string()],
        score: 7,
        index: 3,
        search_type: SearchType::BM25,
    };
    assert_eq!(result.document[0], "text");
    assert_eq!(result.score, 7);
    assert_eq!(result.index, 3);
    assert_eq!(result.search_type, SearchType::BM25);
}
