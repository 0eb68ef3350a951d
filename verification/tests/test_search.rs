use voyageai::ranking::{cosine_similarity, euclidean_distance, SearchClient};
use voyageai::{SearchRequestBuilder, SearchModel, SearchType, VoyageError};

fn base_request() -> SearchRequestBuilder {
    SearchRequestBuilder::new()
        .query("q".to_string())
        .model(SearchModel::CosineSimilarity)
}

#[test]
fn cosine_of_zero_vector_is_zero() {
    let zero = vec![0i64, 0, 0];
    let other = vec![3i64, 4, 5];
    assert_eq!(cosine_similarity(&zero, &other), 0);
    assert_eq!(cosine_similarity(&other, &zero), 0);
    assert_eq!(cosine_similarity(&zero, &zero), 0);
}

#[test]
fn cosine_exact_values() {
    let a = vec![65_536i64, 0];
    assert_eq!(cosine_similarity(&a, &a), 65_536);
    let b = vec![0i64, 65_536];
    assert_eq!(cosine_similarity(&a, &b), 0);
    let neg = vec![-65_536i64, 0];
    assert_eq!(cosine_similarity(&a, &neg), -65_536);
    // mismatched lengths and empty vectors yield zero, not an error
    assert_eq!(cosine_similarity(&a, &vec![1i64]), 0);
    assert_eq!(cosine_similarity(&Vec::new(), &a), 0);
}

#[test]
fn euclidean_exact_value() {
    let a = vec![0i64, 0];
    let b = vec![3i64, 4];
    assert_eq!(euclidean_distance(&a, &b), 5);
    assert_eq!(euclidean_distance(&a, &a), 0);
    // the distance is rounded down
    let c = vec![1i64, 1];
    assert_eq!(euclidean_distance(&a, &c), 1);
}

#[test]
fn nearest_neighbor_orders_by_distance() {
    let docs = vec!["far".to_string(), "near".to_string(), "middle".to_string()];
    let embeddings = vec![vec![100i64, 0], vec![1i64, 0], vec![10i64, 0]];
    let request = base_request()
        .documents(docs)
        .embeddings(embeddings)
        .search_type(SearchType::NearestNeighbor)
        .build()
        .unwrap();
    let client = SearchClient::new();
    let query = vec![0i64, 0];
    let results = client.nearest_neighbor_search(&query, &request).unwrap();
    assert_eq!(results.len(), 3);
    assert_eq!(results[0].index, 1);
    assert_eq!(results[0].document[0], "near");
    assert_eq!(results[0].score, 1);
    assert_eq!(results[1].index, 2);
    assert_eq!(results[2].index, 0);
}

#[test]
fn nearest_neighbor_breaks_ties_by_original_index() {
    let docs = vec!["a".to_string(), "b".to_string()];
    let embeddings = vec![vec![5i64], vec![5i64]];
    let request = base_request()
        .documents(docs)
        .embeddings(embeddings)
        .search_type(SearchType::NearestNeighbor)
        .build()
        .unwrap();
    let client = SearchClient::new();
    let results = client.nearest_neighbor_search(&vec![0i64], &request).unwrap();
    assert_eq!(results[0].index, 0);
    assert_eq!(results[1].index, 1);
}

#[test]
fn nearest_duplicate_orders_by_similarity() {
    let docs = vec!["opposite".to_string(), "same".to_string(), "orthogonal".to_string()];
    let embeddings = vec![vec![-7i64, 0], vec![9i64, 0], vec![0i64, 4]];
    let request = base_request()
        .documents(docs)
        .embeddings(embeddings)
        .search_type(SearchType::NearestDuplicate)
        .build()
        .unwrap();
    let mut client = SearchClient::new();
    let query = vec![2i64, 0];
    let results = client.search(&request, Some(&query)).unwrap();
    assert_eq!(results[0].index, 1);
    assert_eq!(results[0].score, 65_536);
    assert_eq!(results[1].index, 2);
    assert_eq!(results[1].score, 0);
    assert_eq!(results[2].index, 0);
    assert_eq!(results[2].score, -65_536);
}

#[test]
fn top_k_truncates_after_sorting() {
    let docs = vec!["far".to_string(), "near".to_string(), "middle".to_string()];
    let embeddings = vec![vec![100i64], vec![1i64], vec![10i64]];
    let request = base_request()
        .documents(docs)
        .embeddings(embeddings)
        .search_type(SearchType::NearestNeighbor)
        .top_k(2)
        .build()
        .unwrap();
    let client = SearchClient::new();
    let results = client.nearest_neighbor_search(&vec![0i64], &request).unwrap();
    assert_eq!(results.len(), 2);
    assert_eq!(results[0].index, 1);
    assert_eq!(results[1].index, 2);
}

#[test]
fn missing_documents_is_a_distinct_error() {
    let request = base_request()
        .embeddings(vec![vec![1i64]])
        .search_type(SearchType::NearestNeighbor)
        .build()
        .unwrap();
    let client = SearchClient::new();
    let err = client.nearest_neighbor_search(&vec![0i64], &request).unwrap_err();
    assert!(matches!(err, VoyageError::MissingDocuments(_)));
}

#[test]
fn missing_embeddings_is_a_distinct_error() {
    let request = base_request()
        .documents(vec!["a".to_string()])
        .search_type(SearchType::NearestNeighbor)
        .build()
        .unwrap();
    let client = SearchClient::new();
    let err = client.nearest_neighbor_search(&vec![0i64], &request).unwrap_err();
    assert!(matches!(err, VoyageError::MissingEmbeddings(_)));
}

#[test]
fn dimension_mismatch_is_reported() {
    let request = base_request()
        .documents(vec!["a".to_string(), "b".to_string()])
        .embeddings(vec![vec![1i64, 2], vec![1i64]])
        .search_type(SearchType::NearestNeighbor)
        .build()
        .unwrap();
    let client = SearchClient::new();
    let err = client.nearest_neighbor_search(&vec![0i64, 0], &request).unwrap_err();
    assert!(matches!(
        err,
        VoyageError::SearchDimensionMismatch { expected: 2, actual: 1 }
    ));
}

#[test]
fn count_mismatch_is_reported() {
    let request = base_request()
        .documents(vec!["a".to_string(), "b".to_string()])
        .embeddings(vec![vec![1i64]])
        .search_type(SearchType::NearestNeighbor)
        .build()
        .unwrap();
    let client = SearchClient::new();
    let err = client.nearest_neighbor_search(&vec![1i64], &request).unwrap_err();
    assert!(matches!(
        err,
        VoyageError::SearchDimensionMismatch { expected: 2, actual: 1 }
    ));
}

#[test]
fn unsupported_search_type_is_rejected() {
    let request = base_request()
        .documents(vec!["a".to_string()])
        .search_type(SearchType::MaximalMarginalRelevance)
        .build()
        .unwrap();
    let mut client = SearchClient::new();
    let err = client.search(&request, None).unwrap_err();
    assert!(matches!(err, VoyageError::SearchBuilderError(_)));
}

#[test]
fn vector_search_needs_a_query_embedding() {
    let request = base_request()
        .documents(vec!["a".to_string()])
        .embeddings(vec![vec![1i64]])
        .search_type(SearchType::Similarity)
        .build()
        .unwrap();
    let mut client = SearchClient::new();
    let err = client.search(&request, None).unwrap_err();
    assert!(matches!(err, VoyageError::MissingEmbeddings(_)));
}
