use voyageai::fixed::ln_q16;
use voyageai::index::LexicalIndex;
use voyageai::ranking::SearchClient;
use voyageai::tokenize::tokenize;
use voyageai::{SearchModel, SearchRequestBuilder, SearchType};

fn corpus() -> Vec<String> {
    vec![
        "Paris is the capital of France.".to_string(),
        "Berlin is in Germany.".to_string(),
        "Paris Paris Paris.".to_string(),
    ]
}

fn bm25_request(query: &str, top_k: Option<usize>) -> voyageai::SearchRequest {
    let builder = SearchRequestBuilder::new()
        .query(query.to_string())
        .documents(corpus())
        .model(SearchModel::BM25)
        .search_type(SearchType::BM25);
    let builder = match top_k {
        Some(k) => builder.top_k(k),
        None => builder,
    };
    builder.build().unwrap()
}

#[test]
fn bm25_ranks_repeated_terms_above_single_above_none() {
    let mut client = SearchClient::new();
    let results = client.search(&bm25_request("Paris France", None), None).unwrap();
    assert_eq!(results.len(), 3);
    // the document that repeats the query term outranks the single mention,
    // which outranks the document containing no query term at all
    assert_eq!(results[0].index, 2);
    assert_eq!(results[1].index, 0);
    assert_eq!(results[2].index, 1);
    assert!(results[0].score > results[1].score);
    assert!(results[1].score > 0);
    assert_eq!(results[2].score, 0);
}

#[test]
fn bm25_repeated_calls_are_identical() {
    let mut client = SearchClient::new();
    let request = bm25_request("Paris France", None);
    let first = client.search(&request, None).unwrap();
    let second = client.search(&request, None).unwrap();
    assert_eq!(first.len(), second.len());
    for (a, b) in first.iter().zip(second.iter()) {
        assert_eq!(a.score, b.score);
        assert_eq!(a.index, b.index);
        assert_eq!(a.document, b.document);
    }
}

#[test]
fn bm25_respects_top_k() {
    let mut client = SearchClient::new();
    let results = client.search(&bm25_request("Paris", Some(1)), None).unwrap();
    assert_eq!(results.len(), 1);
    assert_eq!(results[0].index, 2);
}

#[test]
fn bm25_query_with_no_matches_scores_all_zero() {
    let mut client = SearchClient::new();
    let results = client.search(&bm25_request("zebra", None), None).unwrap();
    assert_eq!(results.len(), 3);
    for (rank, result) in results.iter().enumerate() {
        assert_eq!(result.score, 0);
        // ties are broken by original index, ascending
        assert_eq!(result.index, rank);
    }
}

#[test]
fn tokenizer_splits_on_whitespace_only() {
    assert_eq!(tokenize("Paris is  the\tcapital\nof France."), vec![
        "Paris".to_string(),
        "is".to_string(),
        "the".to_string(),
        "capital".to_string(),
        "of".to_string(),
        "France.".to_string(),
    ]);
    assert_eq!(tokenize(""), Vec::<String>::new());
    assert_eq!(tokenize("   "), Vec::<String>::new());
    assert_eq!(tokenize(" one "), vec!["one".to_string()]);
}

#[test]
fn index_statistics_and_direct_scoring() {
    let index = LexicalIndex::build(&corpus());
    assert_eq!(index.doc_count(), 3);

    let query = tokenize("Paris France");
    let repeated = index.bm25_score("Paris Paris Paris.", &query);
    let single = index.bm25_score("Paris is the capital of France.", &query);
    let unrelated = index.bm25_score("Berlin is in Germany.", &query);
    assert!(repeated > single);
    assert!(single > 0);
    assert_eq!(unrelated, 0);

    // the closed form: idf * 20*tf*L / (8*tf*L + 3*L + 9*dl*N) per matching
    // term, with N = 3 documents and L = 13 tokens in the corpus; "Paris"
    // appears in two documents, so its idf is ln(2*(3+1) / (2*2+1))
    let idf = ln_q16(8, 5);
    assert_eq!(repeated, idf * (20 * 2 * 13) / (8 * 2 * 13 + 3 * 13 + 9 * 3 * 3));
    assert_eq!(single, idf * (20 * 13) / (8 * 13 + 3 * 13 + 9 * 6 * 3));
    // scoring is a function of its inputs: calling again changes nothing
    assert_eq!(index.bm25_score("Paris Paris Paris.", &query), repeated);
}

#[test]
fn tokenizer_handles_wide_characters() {
    let tokens = tokenize("caf\u{e9} au lait");
    assert_eq!(tokens, vec![
        "caf\u{e9}".to_string(),
        "au".to_string(),
        "lait".to_string(),
    ]);
}
