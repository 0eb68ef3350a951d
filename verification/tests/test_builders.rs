use voyageai::config::{default_embedding_model, default_reranker_model, VoyageConfig};
use voyageai::errors::classify_status;
use voyageai::estimate::{count_words, estimate_embeddings_tokens, estimate_rerank_tokens};
use voyageai::models::rerank::ValidationError;
use voyageai::{
    EmbeddingModel, EmbeddingsInput, EmbeddingsRequestBuilder, InputType, RerankModel,
    RerankRequest, RerankRequestBuilder, SearchModel, SearchRequestBuilder, SearchType,
    VoyageBuilderError, VoyageError,
};

#[test]
fn embeddings_builder_requires_input_and_model() {
    let missing_input = EmbeddingsRequestBuilder::new().model(EmbeddingModel::Voyage3).build();
    assert!(matches!(missing_input, Err(VoyageBuilderError::MissingField(f)) if f == "input"));

    let missing_model =
        EmbeddingsRequestBuilder::new().document("text".to_string()).build();
    assert!(matches!(missing_model, Err(VoyageBuilderError::MissingModel)));

    let request = EmbeddingsRequestBuilder::new()
        .documents(vec!["a".to_string(), "b".to_string()])
        .model(EmbeddingModel::Voyage3Lite)
        .input_type(InputType::Document)
        .truncation(true)
        .build()
        .unwrap();
    assert_eq!(request.model, EmbeddingModel::Voyage3Lite);
    assert_eq!(request.input_type, Some(InputType::Document));
    assert_eq!(request.truncation, Some(true));
    assert!(matches!(request.input, EmbeddingsInput::Multiple(texts) if texts.len() == 2));
}

#[test]
fn rerank_builder_names_the_missing_field() {
    let missing_query = RerankRequestBuilder::new().build();
    assert_eq!(missing_query.unwrap_err(), "Query is required");

    let missing_documents = RerankRequestBuilder::new().query("q".to_string()).build();
    assert_eq!(missing_documents.unwrap_err(), "Documents are required");

    let missing_model = RerankRequestBuilder::new()
        .query("q".to_string())
        .documents(vec!["d".to_string()])
        .build();
    assert_eq!(missing_model.unwrap_err(), "Model is required");

    let request = RerankRequestBuilder::new()
        .query("q".to_string())
        .documents(vec!["d".to_string()])
        .model(RerankModel::Rerank2)
        .top_k(2)
        .build()
        .unwrap();
    assert_eq!(request.query, "q");
    assert_eq!(request.top_k, Some(2));
}

#[test]
fn rerank_request_validates_document_count() {
    let empty = RerankRequest::new("q".to_string(), Vec::new(), RerankModel::Rerank2, None);
    assert!(matches!(empty, Err(ValidationError::EmptyDocuments)));

    let mut too_many = Vec::new();
    for i in 0..101 {
        too_many.push(format!("doc {i}"));
    }
    let over = RerankRequest::new("q".to_string(), too_many, RerankModel::Rerank2, None);
    assert!(matches!(over, Err(ValidationError::TooManyDocuments)));

    let ok = RerankRequest::new(
        "q".to_string(),
        vec!["d".to_string()],
        RerankModel::Rerank2Lite,
        Some(1),
    )
    .unwrap();
    assert_eq!(ok.model, RerankModel::Rerank2Lite);
}

#[test]
fn search_builder_requires_query_model_type_and_candidates() {
    let missing_query = SearchRequestBuilder::new().build();
    assert!(matches!(missing_query, Err(VoyageBuilderError::MissingField(f)) if f == "query"));

    let missing_model = SearchRequestBuilder::new().query("q".to_string()).build();
    assert!(matches!(missing_model, Err(VoyageBuilderError::MissingModel)));

    let missing_type = SearchRequestBuilder::new()
        .query("q".to_string())
        .model(SearchModel::BM25)
        .build();
    assert!(matches!(missing_type, Err(VoyageBuilderError::MissingField(f)) if f == "search_type"));

    let missing_candidates = SearchRequestBuilder::new()
        .query("q".to_string())
        .model(SearchModel::BM25)
        .search_type(SearchType::BM25)
        .build();
    assert!(
        matches!(missing_candidates, Err(VoyageBuilderError::MissingField(f)) if f == "documents or embeddings")
    );

    let request = SearchRequestBuilder::new()
        .query("q".to_string())
        .model(SearchModel::BM25)
        .search_type(SearchType::BM25)
        .documents(vec!["d".to_string()])
        .build()
        .unwrap();
    assert_eq!(request.query.query, "q");
    assert_eq!(request.query.num_results, Some(10));
    let copy = request.share();
    assert_eq!(copy.query.query, "q");
    assert_eq!(copy.search_type, SearchType::BM25);
}

#[test]
fn config_holds_key_and_default_models() {
    let config = VoyageConfig::new("SECRET-REDACTED".to_string());
    assert_eq!(config.api_key(), "SECRET-REDACTED");
    assert_eq!(config.base_url, "https://api.voyageai.com/v1");
    let moved = config.with_base_url("http://localhost:8080".to_string());
    assert_eq!(moved.base_url, "http://localhost:8080");
    assert_eq!(moved.api_key(), "SECRET-REDACTED");
    assert_eq!(default_embedding_model(), EmbeddingModel::Voyage3);
    assert_eq!(default_reranker_model(), RerankModel::Rerank2);
}

#[test]
fn model_limits_are_exact() {
    assert_eq!(EmbeddingModel::Voyage3.max_context_length(), 32_000);
    assert_eq!(EmbeddingModel::VoyageLaw2.max_context_length(), 16_000);
    assert_eq!(EmbeddingModel::Voyage3Lite.max_tokens_per_request(), 1_000_000);
    assert_eq!(EmbeddingModel::Voyage3.max_tokens_per_request(), 320_000);
    assert_eq!(EmbeddingModel::Voyage3.embedding_dimension(), 512);
    assert_eq!(EmbeddingModel::Voyage3Lite.embedding_dimension(), 256);
    assert_eq!(RerankModel::Rerank2.max_context_length(), 16_000);
    assert_eq!(RerankModel::RerankLite1.max_context_length(), 8_000);
    assert_eq!(RerankModel::Rerank2.embedding_size(), 768);
    assert_eq!(RerankModel::Rerank2Lite.embedding_size(), 384);
}

#[test]
fn status_classification() {
    assert!(matches!(classify_status(401, String::new()), VoyageError::Unauthorized));
    assert!(matches!(classify_status(403, "denied".to_string()), VoyageError::Forbidden(b) if b == "denied"));
    assert!(matches!(classify_status(500, "boom".to_string()), VoyageError::ApiError(500, b) if b == "boom"));
}

#[test]
fn builder_errors_map_to_voyage_errors() {
    let err = VoyageError::from_builder(VoyageBuilderError::ApiKeyNotSet);
    assert!(matches!(err, VoyageError::MissingApiKey));
    let err = VoyageError::from_builder(VoyageBuilderError::MissingField("input".to_string()));
    assert!(matches!(err, VoyageError::BuilderError(f) if f == "input"));
    let err = VoyageError::from_builder(VoyageBuilderError::MissingModel);
    assert!(matches!(err, VoyageError::BuilderError(m) if m == "model is required"));
    let err: VoyageError = VoyageError::from("boom".to_string());
    assert!(matches!(err, VoyageError::BuilderError(m) if m == "boom"));
}

#[test]
fn embeddings_estimate_formula() {
    // one token per four characters, rounded up, plus two per text
    let single = EmbeddingsInput::Single("abcd".to_string());
    assert_eq!(estimate_embeddings_tokens(&single), 3);
    let single = EmbeddingsInput::Single("abcde".to_string());
    assert_eq!(estimate_embeddings_tokens(&single), 4);
    let empty = EmbeddingsInput::Single(String::new());
    assert_eq!(estimate_embeddings_tokens(&empty), 2);
    let batch =
        EmbeddingsInput::Multiple(vec!["abcd".to_string(), "ab".to_string()]);
    assert_eq!(estimate_embeddings_tokens(&batch), 1 + 1 + 2 * 2);
}

#[test]
fn rerank_estimate_counts_words() {
    assert_eq!(count_words("What is, the capital?"), 4);
    assert_eq!(count_words(""), 0);
    assert_eq!(count_words("a1b2!!c3"), 2);
    let request = RerankRequest::new(
        "What is the capital of France?".to_string(),
        vec!["Paris, of course.".to_string(), "Berlin?".to_string()],
        RerankModel::Rerank2,
        None,
    )
    .unwrap();
    assert_eq!(estimate_rerank_tokens(&request), 6 + 3 + 1);
}
