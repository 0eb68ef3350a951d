use vstd::prelude::*;
use crate::builder::search::SearchRequest;
use crate::errors::VoyageError;
use crate::fixed::{isqrt, sqrt_floor, lemma_sqrt_floor_bounds};
use crate::index::{LexicalIndex, views_of, spec_bm25_score, sum_lens, MAX_CORPUS_DOCS, MAX_CORPUS_CHARS};
use crate::models::search::{SearchResult, SearchType};
use crate::tokenize::{spec_tokens, tokenize};
use vstd::multiset::Multiset;

verus! {

/// Largest magnitude a fixed-point vector coordinate may have.
pub const COORD_LIMIT: i64 = 1_048_576;

/// A vector the ranking engine accepts: bounded dimension and coordinates,
/// so that sums of products stay well inside the machine integers.
pub open spec fn bounded_vec(v: Seq<i64>) -> bool {
    &&& v.len() <= 1_048_576
    &&& forall|i: int| 0 <= i < v.len() ==> -1_048_576 <= #[trigger] v[i] <= 1_048_576
}

/// Dot product, paired from the end; only used with equal-length vectors.
pub open spec fn spec_dot(a: Seq<i64>, b: Seq<i64>) -> int
    decreases a.len(),
{
    if a.len() == 0 || b.len() == 0 {
        0
    } else {
        spec_dot(a.drop_last(), b.drop_last()) + a.last() * b.last()
    }
}

/// Sum of squared coordinate differences.
pub open spec fn spec_dist_sq(a: Seq<i64>, b: Seq<i64>) -> int
    decreases a.len(),
{
    if a.len() == 0 || b.len() == 0 {
        0
    } else {
        spec_dist_sq(a.drop_last(), b.drop_last()) + (a.last() - b.last()) * (a.last() - b.last())
    }
}

pub proof fn lemma_norm_sq_nonneg(a: Seq<i64>)
    ensures
        spec_dot(a, a) >= 0,
    decreases a.len(),
{
    if a.len() > 0 {
        lemma_norm_sq_nonneg(a.drop_last());
        assert(a.last() * a.last() >= 0) by (nonlinear_arith);
    }
}

pub proof fn lemma_dist_sq_nonneg(a: Seq<i64>, b: Seq<i64>)
    ensures
        spec_dist_sq(a, b) >= 0,
    decreases a.len(),
{
    if a.len() > 0 && b.len() > 0 {
        lemma_dist_sq_nonneg(a.drop_last(), b.drop_last());
        assert((a.last() - b.last()) * (a.last() - b.last()) >= 0) by (nonlinear_arith);
    }
}

/// The Euclidean distance between two equal-length vectors, rounded down.
pub open spec fn spec_distance(a: Seq<i64>, b: Seq<i64>) -> int {
    sqrt_floor(spec_dist_sq(a, b))
}

/// Cosine similarity in Q16 fixed point, truncated toward zero and clamped
/// at one order of magnitude above a full match. Empty, mismatched, and
/// zero-magnitude vectors all yield exactly zero — never an undefined value.
pub open spec fn spec_cosine(a: Seq<i64>, b: Seq<i64>) -> int {
    if a.len() == 0 || b.len() == 0 || a.len() != b.len() {
        0
    } else {
        let ma = sqrt_floor(spec_dot(a, a));
        let mb = sqrt_floor(spec_dot(b, b));
        if ma == 0 || mb == 0 {
            0
        } else {
            let d = spec_dot(a, b);
            let mag = if d >= 0 {
                d
            } else {
                -d
            };
            let q = (mag * 65536) / (ma * mb);
            let qc = if q > 0x1_0000_0000 {
                0x1_0000_0000
            } else {
                q
            };
            if d >= 0 {
                qc
            } else {
                -qc
            }
        }
    }
}

/// Euclidean distance between a query vector and a document vector, rounded
/// down to an integer. Smaller means more similar.
pub fn euclidean_distance(a: &Vec<i64>, b: &Vec<i64>) -> (r: u64)
    requires
        bounded_vec(a@),
        bounded_vec(b@),
        a@.len() == b@.len(),
    ensures
        r == spec_distance(a@, b@),
        r <= 0x8000_0000,
{
    let n = a.len();
    let mut sum: u128 = 0;
    let mut i: usize = 0;
    proof {
        assert(a@.take(0) =~= Seq::<i64>::empty());
        assert(b@.take(0) =~= Seq::<i64>::empty());
    }
    while i < n
        invariant
            n == a@.len() == b@.len(),
            bounded_vec(a@),
            bounded_vec(b@),
            i <= n,
            sum == spec_dist_sq(a@.take(i as int), b@.take(i as int)),
            sum <= i * 0x400_0000_0000,
        decreases n - i,
    {
        let d: i64 = a[i] - b[i];
        proof {
            assert((d as int) * (d as int) <= 0x400_0000_0000 && (d as int) * (d as int)
                >= 0) by (nonlinear_arith)
                requires
                    -0x20_0000 <= d <= 0x20_0000,
            ;
            assert(a@.take(i as int + 1).drop_last() =~= a@.take(i as int));
            assert(b@.take(i as int + 1).drop_last() =~= b@.take(i as int));
            assert(i * 0x400_0000_0000 + 0x400_0000_0000 == (i + 1) * 0x400_0000_0000)
                by (nonlinear_arith);
            assert(n * 0x400_0000_0000 <= 0x10_0000 * 0x400_0000_0000) by (nonlinear_arith)
                requires
                    n <= 0x10_0000,
            ;
        }
        let sq: u128 = ((d as i128) * (d as i128)) as u128;
        sum = sum + sq;
        i = i + 1;
    }
    proof {
        assert(a@.take(n as int) =~= a@);
        assert(b@.take(n as int) =~= b@);
        lemma_dist_sq_nonneg(a@, b@);
        assert(n * 0x400_0000_0000 <= 0x10_0000 * 0x400_0000_0000) by (nonlinear_arith)
            requires
                n <= 0x10_0000,
        ;
    }
    let r = isqrt(sum);
    proof {
        if r > 0x8000_0000 {
            assert((r as int) * (r as int) > 0x4000_0000_0000_0000) by (nonlinear_arith)
                requires
                    r > 0x8000_0000,
            ;
            assert(false);
        }
    }
    r
}

/// Cosine similarity between two vectors, in Q16 fixed point: 65536 is a
/// perfect match. A zero-magnitude vector, an empty vector, or mismatched
/// lengths yield exactly zero rather than an undefined value.
pub fn cosine_similarity(a: &Vec<i64>, b: &Vec<i64>) -> (r: i64)
    requires
        bounded_vec(a@),
        bounded_vec(b@),
    ensures
        r == spec_cosine(a@, b@),
        -0x1_0000_0000 <= r <= 0x1_0000_0000,
{
    if a.len() == 0 || b.len() == 0 || a.len() != b.len() {
        return 0;
    }
    let n = a.len();
    let mut dot: i128 = 0;
    let mut na: i128 = 0;
    let mut nb: i128 = 0;
    let mut i: usize = 0;
    proof {
        assert(a@.take(0) =~= Seq::<i64>::empty());
        assert(b@.take(0) =~= Seq::<i64>::empty());
    }
    while i < n
        invariant
            n == a@.len() == b@.len(),
            bounded_vec(a@),
            bounded_vec(b@),
            i <= n,
            dot == spec_dot(a@.take(i as int), b@.take(i as int)),
            na == spec_dot(a@.take(i as int), a@.take(i as int)),
            nb == spec_dot(b@.take(i as int), b@.take(i as int)),
            -(i * 0x10_0000_0000_0000) <= dot <= i * 0x10_0000_0000_0000,
            0 <= na <= i * 0x10_0000_0000_0000,
            0 <= nb <= i * 0x10_0000_0000_0000,
        decreases n - i,
    {
        let x = a[i];
        let y = b[i];
        proof {
            assert(-0x10_0000_0000_0000 <= (x as int) * (y as int) <= 0x10_0000_0000_0000 && 0 <= (
            x as int) * (x as int) <= 0x10_0000_0000_0000 && 0 <= (y as int) * (y as int)
                <= 0x10_0000_0000_0000) by (nonlinear_arith)
                requires
                    -0x10_0000 <= x <= 0x10_0000,
                    -0x10_0000 <= y <= 0x10_0000,
            ;
            assert(a@.take(i as int + 1).drop_last() =~= a@.take(i as int));
            assert(b@.take(i as int + 1).drop_last() =~= b@.take(i as int));
            assert(i * 0x10_0000_0000_0000 + 0x10_0000_0000_0000 == (i + 1)
                * 0x10_0000_0000_0000) by (nonlinear_arith);
            assert(n * 0x10_0000_0000_0000 <= 0x10_0000 * 0x10_0000_0000_0000) by (nonlinear_arith)
                requires
                    n <= 0x10_0000,
            ;
        }
        dot = dot + (x as i128) * (y as i128);
        na = na + (x as i128) * (x as i128);
        nb = nb + (y as i128) * (y as i128);
        i = i + 1;
    }
    proof {
        assert(a@.take(n as int) =~= a@);
        assert(b@.take(n as int) =~= b@);
    }
    proof {
        assert(n * 0x10_0000_0000_0000 <= 0x10_0000 * 0x10_0000_0000_0000) by (nonlinear_arith)
            requires
                n <= 0x10_0000,
        ;
    }
    let ma = isqrt(na as u128);
    let mb = isqrt(nb as u128);
    proof {
        // magnitudes stay below 2^37 because the norms stay below 2^72
        if ma >= 0x20_0000_0000 {
            assert((ma as int) * (ma as int) >= 0x400_0000_0000_0000_0000) by (nonlinear_arith)
                requires
                    ma >= 0x20_0000_0000,
            ;
            assert(false);
        }
        if mb >= 0x20_0000_0000 {
            assert((mb as int) * (mb as int) >= 0x400_0000_0000_0000_0000) by (nonlinear_arith)
                requires
                    mb >= 0x20_0000_0000,
            ;
            assert(false);
        }
    }
    if ma == 0 || mb == 0 {
        return 0;
    }
    let mag: u128 = if dot >= 0 {
        dot as u128
    } else {
        (-dot) as u128
    };
    proof {
        assert((ma as int) * (mb as int) >= 1) by (nonlinear_arith)
            requires
                ma >= 1,
                mb >= 1,
        ;
        assert((ma as int) * (mb as int) < 0x4000_0000_0000_0000_0000) by (nonlinear_arith)
            requires
                1 <= ma < 0x20_0000_0000,
                1 <= mb < 0x20_0000_0000,
        ;
    }
    let q: u128 = mag * 65536 / ((ma as u128) * (mb as u128));
    let qc: i64 = if q > 0x1_0000_0000 {
        0x1_0000_0000
    } else {
        q as i64
    };
    if dot >= 0 {
        qc
    } else {
        -qc
    }
}


/// Ranking order on `(key, original index)` pairs: ascending by key, ties
/// broken by the original index ascending, so the order is total and the
/// ranked output deterministic.
pub open spec fn pair_leq(x: (i64, usize), y: (i64, usize)) -> bool {
    x.0 < y.0 || (x.0 == y.0 && x.1 <= y.1)
}

/// The ranking order as a function value, so that every mention denotes the
/// same ordering.
pub open spec fn pair_leq_fn() -> spec_fn((i64, usize), (i64, usize)) -> bool {
    |x: (i64, usize), y: (i64, usize)| pair_leq(x, y)
}

/// The unique ranking of `pairs` under [`pair_leq`].
pub open spec fn ranked(pairs: Seq<(i64, usize)>) -> Seq<(i64, usize)> {
    pairs.sort_by(pair_leq_fn())
}

pub proof fn lemma_pair_leq_total()
    ensures
        vstd::relations::total_ordering(pair_leq_fn()),
{
    let leq = pair_leq_fn();
    assert forall|x: (i64, usize)| #[trigger] leq(x, x) by {}
    assert forall|x: (i64, usize), y: (i64, usize)| #[trigger] leq(x, y) && #[trigger] leq(
        y,
        x,
    ) implies x == y by {}
    assert forall|x: (i64, usize), y: (i64, usize), z: (i64, usize)|
        #[trigger] leq(x, y) && #[trigger] leq(y, z) implies leq(x, z) by {}
    assert forall|x: (i64, usize), y: (i64, usize)| #[trigger] leq(x, y) || #[trigger] leq(
        y,
        x,
    ) by {}
}

fn pair_le(x: (i64, usize), y: (i64, usize)) -> (b: bool)
    ensures
        b == pair_leq(x, y),
{
    x.0 < y.0 || (x.0 == y.0 && x.1 <= y.1)
}

/// Sorts score/index pairs into ranking order by repeatedly extracting the
/// least remaining pair.
pub fn sort_pairs(pairs: Vec<(i64, usize)>) -> (r: Vec<(i64, usize)>)
    ensures
        r@ == ranked(pairs@),
        r@.len() == pairs@.len(),
{
    broadcast use vstd::seq_lib::group_to_multiset_ensures;

    let ghost leq = pair_leq_fn();
    let ghost orig = pairs@;
    let mut rest = pairs;
    let mut out: Vec<(i64, usize)> = Vec::new();
    proof {
        assert(out@.to_multiset().add(rest@.to_multiset()) =~= orig.to_multiset());
    }
    while rest.len() > 0
        invariant
            out@.to_multiset().add(rest@.to_multiset()) =~= orig.to_multiset(),
            vstd::relations::sorted_by(out@, pair_leq_fn()),
            forall|i: int, j: int|
                0 <= i < out@.len() && 0 <= j < rest@.len() ==> pair_leq(
                    #[trigger] out@[i],
                    #[trigger] rest@[j],
                ),
            out@.len() + rest@.len() == orig.len(),
        decreases rest@.len(),
    {
        let n = rest.len();
        let mut min_idx: usize = 0;
        let mut j: usize = 1;
        while j < n
            invariant
                n == rest@.len(),
                min_idx < j <= n,
                forall|k: int| 0 <= k < j ==> pair_leq(rest@[min_idx as int], #[trigger] rest@[k]),
            decreases n - j,
        {
            if !pair_le(rest[min_idx], rest[j]) {
                min_idx = j;
            }
            j = j + 1;
        }
        let ghost old_out = out@;
        let ghost old_rest = rest@;
        let x = rest.remove(min_idx);
        out.push(x);
        proof {
            old_rest.to_multiset_ensures();
            old_out.to_multiset_ensures();
            assert(old_rest.remove(min_idx as int).to_multiset() =~= old_rest.to_multiset().remove(
                x,
            ));
            assert(out@.to_multiset() =~= old_out.to_multiset().insert(x));
            assert(out@.to_multiset().add(rest@.to_multiset()) =~= orig.to_multiset());
            assert forall|i: int, j2: int|
                0 <= i < out@.len() && 0 <= j2 < rest@.len() implies pair_leq(
                #[trigger] out@[i],
                #[trigger] rest@[j2],
            ) by {
                if j2 < min_idx {
                    assert(rest@[j2] == old_rest[j2]);
                } else {
                    assert(rest@[j2] == old_rest[j2 + 1]);
                }
                if i < old_out.len() {
                    assert(out@[i] == old_out[i]);
                } else {
                    assert(out@[i] == x);
                }
            }
            assert(vstd::relations::sorted_by(out@, pair_leq_fn())) by {
                assert forall|i: int, j2: int| 0 <= i <= j2 < out@.len() implies pair_leq_fn()(
                    out@[i],
                    out@[j2],
                ) by {
                    if j2 < old_out.len() {
                        assert(vstd::relations::sorted_by(old_out, pair_leq_fn()));
                        assert(pair_leq_fn()(old_out[i], old_out[j2]));
                    } else if i < old_out.len() {
                        assert(pair_leq(old_out[i], old_rest[min_idx as int]));
                    }
                }
            }
        }
    }
    proof {
        assert(rest@.to_multiset() =~= Multiset::<(i64, usize)>::empty());
        assert(out@.to_multiset() =~= orig.to_multiset());
        lemma_pair_leq_total();
        orig.lemma_sort_by_ensures(leq);
        vstd::seq_lib::lemma_sorted_unique(out@, orig.sort_by(leq), leq);
        assert(out@ == ranked(orig));
        assert(out@.to_multiset().len() == orig.to_multiset().len());
    }
    out
}


/// Every vector in the batch is one the engine accepts.
pub open spec fn bounded_embeddings(e: Seq<Seq<i64>>) -> bool {
    forall|i: int| 0 <= i < e.len() ==> bounded_vec(#[trigger] e[i])
}

/// Sort keys turned into (key, original index) pairs.
pub open spec fn key_pairs(keys: Seq<i64>) -> Seq<(i64, usize)> {
    Seq::new(keys.len(), |i: int| (keys[i], i as usize))
}

/// Result count after truncation to an optional `top_k`.
pub open spec fn cut_len(len: nat, top_k: Option<usize>) -> nat {
    match top_k {
        None => len,
        Some(k) => if k < len {
            k as nat
        } else {
            len
        },
    }
}

/// Distance of the query to each document vector.
pub open spec fn nn_keys(q: Seq<i64>, embeddings: Seq<Seq<i64>>) -> Seq<i64> {
    Seq::new(embeddings.len(), |i: int| spec_distance(q, embeddings[i]) as i64)
}

/// Cosine similarity of the query to each document vector.
pub open spec fn cosine_keys(q: Seq<i64>, embeddings: Seq<Seq<i64>>) -> Seq<i64> {
    Seq::new(embeddings.len(), |i: int| spec_cosine(q, embeddings[i]) as i64)
}

/// BM25 score of each document against the query tokens, over the corpus
/// the index was built from.
pub open spec fn bm25_keys(
    corpus: Seq<Seq<char>>,
    docs: Seq<Seq<char>>,
    query_tokens: Seq<Seq<char>>,
) -> Seq<i64> {
    Seq::new(docs.len(), |i: int| spec_bm25_score(corpus, spec_tokens(docs[i]), query_tokens) as i64)
}

/// What a finished ranking looks like: the scored documents ordered by score
/// (ascending for distances, descending otherwise), ties broken by original
/// index ascending, truncated to `top_k`. Each entry carries its score, its
/// original index, and a copy of the document text.
pub open spec fn results_match(
    r: Seq<SearchResult>,
    docs: Seq<Seq<char>>,
    scores: Seq<i64>,
    top_k: Option<usize>,
    st: SearchType,
    descending: bool,
) -> bool {
    let pairs = key_pairs(
        if descending {
            Seq::new(scores.len(), |i: int| (-scores[i]) as i64)
        } else {
            scores
        },
    );
    let sorted = ranked(pairs);
    &&& r.len() == cut_len(scores.len(), top_k)
    &&& forall|i: int|
        0 <= i < r.len() ==> {
            &&& (#[trigger] r[i]).score == if descending {
                (-sorted[i].0) as i64
            } else {
                sorted[i].0
            }
            &&& r[i].index == sorted[i].1
            &&& r[i].search_type == st
            &&& r[i].index < docs.len()
            &&& r[i].document@.len() == 1
            &&& r[i].document@[0]@ == docs[r[i].index as int]
        }
}

/// Full contract of a vector-strategy search over a request: which error
/// each omission earns, and the exact ranked output when nothing is missing.
/// The keys are distances for `NearestNeighbor` (ascending) and cosine
/// similarities for `NearestDuplicate` (descending).
pub open spec fn vector_search_post(
    r: Result<Vec<SearchResult>, VoyageError>,
    request: SearchRequest,
    q: Seq<i64>,
    st: SearchType,
    descending: bool,
) -> bool {
    let docs = request.documents->Some_0@;
    let embs = request.embeddings->Some_0@;
    let keys = if descending {
        cosine_keys(q, embs.map_values(|v: Vec<i64>| v@))
    } else {
        nn_keys(q, embs.map_values(|v: Vec<i64>| v@))
    };
    &&& request.documents is None ==> (r matches Err(e) && e
        matches VoyageError::MissingDocuments(m) && m@ == "Missing documents"@)
    &&& request.documents is Some && request.embeddings is None ==> (r matches Err(e) && e
        matches VoyageError::MissingEmbeddings(m) && m@ == "Missing embeddings"@)
    &&& request.documents is Some && request.embeddings is Some && docs.len() != embs.len() ==> r
        == Err::<Vec<SearchResult>, VoyageError>(
        VoyageError::SearchDimensionMismatch {
            expected: docs.len() as usize,
            actual: embs.len() as usize,
        },
    )
    &&& request.documents is Some && request.embeddings is Some && docs.len() == embs.len() && !(
    forall|j: int| 0 <= j < embs.len() ==> (#[trigger] embs[j])@.len() == q.len()) ==> (r
        matches Err(e) && e matches VoyageError::SearchDimensionMismatch { expected, actual }
        && expected == q.len() && exists|j: int|
        0 <= j < embs.len() && (#[trigger] embs[j])@.len() == actual && actual != q.len())
    &&& request.documents is Some && request.embeddings is Some && docs.len() == embs.len() && (
    forall|j: int| 0 <= j < embs.len() ==> (#[trigger] embs[j])@.len() == q.len()) ==> (r
        matches Ok(res) && results_match(res@, views_of(docs), keys, request.top_k, st, descending))
}

/// Full contract of a lexical search: the documents are required, the index
/// is built from them if none existed, and the output is the exact BM25
/// ranking against the index's corpus.
pub open spec fn bm25_search_post(
    r: Result<Vec<SearchResult>, VoyageError>,
    request: SearchRequest,
    prior: Option<Seq<Seq<char>>>,
    corpus_after: Option<Seq<Seq<char>>>,
) -> bool {
    &&& request.documents is None ==> (r matches Err(e) && e
        matches VoyageError::MissingDocuments(m) && m@ == "Missing documents"@ && corpus_after
        == prior)
    &&& request.documents is Some ==> corpus_after == Some(
        bm25_corpus(prior, request.documents->Some_0@),
    )
    &&& request.documents is Some ==> (r matches Ok(res) && results_match(
        res@,
        views_of(request.documents->Some_0@),
        bm25_keys(
            bm25_corpus(prior, request.documents->Some_0@),
            views_of(request.documents->Some_0@),
            spec_tokens(request.query.query@),
        ),
        request.top_k,
        SearchType::BM25,
        true,
    ))
}

/// Every index in a ranked pair sequence stays below `bound` if the inputs'
/// indices did.
proof fn lemma_ranked_indices(pairs: Seq<(i64, usize)>, bound: nat)
    requires
        forall|i: int| 0 <= i < pairs.len() ==> (#[trigger] pairs[i]).1 < bound,
    ensures
        ranked(pairs).len() == pairs.len(),
        forall|i: int| 0 <= i < ranked(pairs).len() ==> (#[trigger] ranked(pairs)[i]).1 < bound,
{
    broadcast use vstd::seq_lib::group_to_multiset_ensures;

    lemma_pair_leq_total();
    pairs.lemma_sort_by_ensures(pair_leq_fn());
    let sorted = ranked(pairs);
    assert(sorted.to_multiset().len() == pairs.to_multiset().len());
    assert forall|i: int| 0 <= i < sorted.len() implies (#[trigger] sorted[i]).1 < bound by {
        assert(sorted.to_multiset().count(sorted[i]) > 0);
        assert(pairs.to_multiset().count(sorted[i]) > 0);
        assert(pairs.contains(sorted[i]));
        let j = choose|j: int| 0 <= j < pairs.len() && pairs[j] == sorted[i];
        assert(pairs[j].1 < bound);
    }
}

/// The ranking engine: scores already-fetched documents and embeddings
/// against a query, entirely locally. The BM25 vocabulary statistics are
/// built once, on the first lexical search, and kept until then; a changed
/// document set needs a fresh client.
pub struct SearchClient {
    index: Option<LexicalIndex>,
}

impl SearchClient {
    /// The corpus of the lexical index, once one has been built.
    pub closed spec fn index_corpus(&self) -> Option<Seq<Seq<char>>> {
        match self.index {
            Some(index) => Some(index.corpus()),
            None => None,
        }
    }

    pub closed spec fn wf(&self) -> bool {
        match self.index {
            Some(index) => index.wf(),
            None => true,
        }
    }

    pub fn new() -> (r: Self)
        ensures
            r.wf(),
            r.index_corpus() is None,
    {
        SearchClient { index: None }
    }

    /// Ranks the documents by Euclidean distance to the query embedding,
    /// closest first. Documents, embeddings and a consistent dimensionality
    /// are the caller's to supply; each omission is a distinct error.
    pub fn nearest_neighbor_search(
        &self,
        query_embedding: &Vec<i64>,
        request: &SearchRequest,
    ) -> (r: Result<Vec<SearchResult>, VoyageError>)
        requires
            bounded_vec(query_embedding@),
            request.embeddings matches Some(e) ==> bounded_embeddings(
                e@.map_values(|v: Vec<i64>| v@),
            ),
        ensures
            vector_search_post(r, *request, query_embedding@, SearchType::NearestNeighbor, false),
    {
        let documents = match &request.documents {
            Some(documents) => documents,
            None => {
                return Err(VoyageError::MissingDocuments("Missing documents".to_owned()));
            },
        };
        let embeddings = match &request.embeddings {
            Some(embeddings) => embeddings,
            None => {
                return Err(VoyageError::MissingEmbeddings("Missing embeddings".to_owned()));
            },
        };
        if documents.len() != embeddings.len() {
            return Err(
                VoyageError::SearchDimensionMismatch {
                    expected: documents.len(),
                    actual: embeddings.len(),
                },
            );
        }
        let n = embeddings.len();
        let dim = query_embedding.len();
        let mut j: usize = 0;
        while j < n
            invariant
                request.documents is Some,
                request.embeddings is Some,
                documents@ == request.documents->Some_0@,
                embeddings@ == request.embeddings->Some_0@,
                documents@.len() == embeddings@.len(),
                n == embeddings@.len(),
                dim == query_embedding@.len(),
                j <= n,
                forall|k: int| 0 <= k < j ==> (#[trigger] embeddings@[k])@.len() == dim,
            decreases n - j,
        {
            if embeddings[j].len() != dim {
                proof {
                    assert((request.embeddings->Some_0@[j as int])@.len() == embeddings@[
                        j as int
                    ]@.len());
                }
                return Err(
                    VoyageError::SearchDimensionMismatch {
                        expected: dim,
                        actual: embeddings[j].len(),
                    },
                );
            }
            j = j + 1;
        }
        let ghost keys = nn_keys(query_embedding@, embeddings@.map_values(|v: Vec<i64>| v@));
        let mut pairs: Vec<(i64, usize)> = Vec::new();
        let mut i: usize = 0;
        while i < n
            invariant
                n == embeddings@.len(),
                dim == query_embedding@.len(),
                bounded_vec(query_embedding@),
                bounded_embeddings(embeddings@.map_values(|v: Vec<i64>| v@)),
                forall|k: int| 0 <= k < n ==> (#[trigger] embeddings@[k])@.len() == dim,
                keys == nn_keys(query_embedding@, embeddings@.map_values(|v: Vec<i64>| v@)),
                i <= n,
                pairs@.len() == i,
                forall|k: int| 0 <= k < i ==> #[trigger] pairs@[k] == (keys[k], k as usize),
            decreases n - i,
        {
            proof {
                assert(embeddings@.map_values(|v: Vec<i64>| v@)[i as int] == embeddings@[i as int]@);
            }
            let d = euclidean_distance(query_embedding, &embeddings[i]) as i64;
            pairs.push((d, i));
            i = i + 1;
        }
        proof {
            assert(pairs@ =~= key_pairs(keys));
            lemma_ranked_indices(pairs@, n as nat);
        }
        let sorted = sort_pairs(pairs);
        let results = assemble_results(documents, sorted, request.top_k, SearchType::NearestNeighbor, false);
        Ok(results)
    }
}

/// Turns ranked (key, index) pairs into results over the documents,
/// truncating to `top_k` first.
fn assemble_results(
    documents: &Vec<String>,
    sorted: Vec<(i64, usize)>,
    top_k: Option<usize>,
    st: SearchType,
    descending: bool,
) -> (r: Vec<SearchResult>)
    requires
        forall|i: int| 0 <= i < sorted@.len() ==> (#[trigger] sorted@[i]).1 < documents@.len(),
        descending ==> forall|i: int| 0 <= i < sorted@.len() ==> (#[trigger] sorted@[i]).0 > i64::MIN,
    ensures
        r@.len() == cut_len(sorted@.len(), top_k),
        forall|i: int|
            0 <= i < r@.len() ==> {
                &&& (#[trigger] r@[i]).score == if descending {
                    (-sorted@[i].0) as i64
                } else {
                    sorted@[i].0
                }
                &&& r@[i].index == sorted@[i].1
                &&& r@[i].search_type == st
                &&& r@[i].index < documents@.len()
                &&& r@[i].document@.len() == 1
                &&& r@[i].document@[0]@ == views_of(documents@)[r@[i].index as int]
            },
{
    let mut sorted = sorted;
    match top_k {
        Some(k) => {
            if k < sorted.len() {
                sorted.truncate(k);
            }
        },
        None => {},
    }
    let n = sorted.len();
    let mut r: Vec<SearchResult> = Vec::new();
    let mut i: usize = 0;
    while i < n
        invariant
            n == sorted@.len(),
            forall|k: int| 0 <= k < sorted@.len() ==> (#[trigger] sorted@[k]).1 < documents@.len(),
            descending ==> forall|k: int|
                0 <= k < sorted@.len() ==> (#[trigger] sorted@[k]).0 > i64::MIN,
            i <= n,
            r@.len() == i,
            forall|k: int|
                0 <= k < i ==> {
                    &&& (#[trigger] r@[k]).score == if descending {
                        (-sorted@[k].0) as i64
                    } else {
                        sorted@[k].0
                    }
                    &&& r@[k].index == sorted@[k].1
                    &&& r@[k].search_type == st
                    &&& r@[k].index < documents@.len()
                    &&& r@[k].document@.len() == 1
                    &&& r@[k].document@[0]@ == views_of(documents@)[r@[k].index as int]
                },
        decreases n - i,
    {
        let (key, index) = sorted[i];
        let score: i64 = if descending {
            -key
        } else {
            key
        };
        let document: Vec<String> = vec![documents[index].clone()];
        r.push(SearchResult { document, score, index, search_type: st });
        i = i + 1;
    }
    r
}


/// Ranked pair keys stay above a lower bound that the input keys respect.
proof fn lemma_ranked_keys_above(pairs: Seq<(i64, usize)>, lo: int)
    requires
        forall|i: int| 0 <= i < pairs.len() ==> (#[trigger] pairs[i]).0 > lo,
    ensures
        forall|i: int| 0 <= i < ranked(pairs).len() ==> (#[trigger] ranked(pairs)[i]).0 > lo,
{
    broadcast use vstd::seq_lib::group_to_multiset_ensures;

    lemma_pair_leq_total();
    pairs.lemma_sort_by_ensures(pair_leq_fn());
    let sorted = ranked(pairs);
    assert forall|i: int| 0 <= i < sorted.len() implies (#[trigger] sorted[i]).0 > lo by {
        assert(sorted.to_multiset().count(sorted[i]) > 0);
        assert(pairs.to_multiset().count(sorted[i]) > 0);
        assert(pairs.contains(sorted[i]));
        let j = choose|j: int| 0 <= j < pairs.len() && pairs[j] == sorted[i];
        assert(pairs[j].0 > lo);
    }
}

impl SearchClient {
    /// Ranks the documents by cosine similarity to the query embedding, most
    /// similar first. A zero-magnitude vector scores exactly zero — treated
    /// as minimally similar, never as an error or an undefined value.
    pub fn nearest_duplicate_search(
        &self,
        query_embedding: &Vec<i64>,
        request: &SearchRequest,
    ) -> (r: Result<Vec<SearchResult>, VoyageError>)
        requires
            bounded_vec(query_embedding@),
            request.embeddings matches Some(e) ==> bounded_embeddings(
                e@.map_values(|v: Vec<i64>| v@),
            ),
        ensures
            vector_search_post(r, *request, query_embedding@, SearchType::NearestDuplicate, true),
    {
        let documents = match &request.documents {
            Some(documents) => documents,
            None => {
                return Err(VoyageError::MissingDocuments("Missing documents".to_owned()));
            },
        };
        let embeddings = match &request.embeddings {
            Some(embeddings) => embeddings,
            None => {
                return Err(VoyageError::MissingEmbeddings("Missing embeddings".to_owned()));
            },
        };
        if documents.len() != embeddings.len() {
            return Err(
                VoyageError::SearchDimensionMismatch {
                    expected: documents.len(),
                    actual: embeddings.len(),
                },
            );
        }
        let n = embeddings.len();
        let dim = query_embedding.len();
        let mut j: usize = 0;
        while j < n
            invariant
                request.documents is Some,
                request.embeddings is Some,
                documents@ == request.documents->Some_0@,
                embeddings@ == request.embeddings->Some_0@,
                documents@.len() == embeddings@.len(),
                n == embeddings@.len(),
                dim == query_embedding@.len(),
                j <= n,
                forall|k: int| 0 <= k < j ==> (#[trigger] embeddings@[k])@.len() == dim,
            decreases n - j,
        {
            if embeddings[j].len() != dim {
                proof {
                    assert((request.embeddings->Some_0@[j as int])@.len() == embeddings@[
                        j as int
                    ]@.len());
                }
                return Err(
                    VoyageError::SearchDimensionMismatch {
                        expected: dim,
                        actual: embeddings[j].len(),
                    },
                );
            }
            j = j + 1;
        }
        let ghost keys = cosine_keys(query_embedding@, embeddings@.map_values(|v: Vec<i64>| v@));
        let mut pairs: Vec<(i64, usize)> = Vec::new();
        let mut i: usize = 0;
        while i < n
            invariant
                n == embeddings@.len(),
                dim == query_embedding@.len(),
                bounded_vec(query_embedding@),
                bounded_embeddings(embeddings@.map_values(|v: Vec<i64>| v@)),
                keys == cosine_keys(query_embedding@, embeddings@.map_values(|v: Vec<i64>| v@)),
                i <= n,
                pairs@.len() == i,
                forall|k: int|
                    0 <= k < i ==> #[trigger] pairs@[k] == (((-keys[k]) as i64), k as usize),
                forall|k: int| 0 <= k < i ==> (#[trigger] pairs@[k]).0 > i64::MIN,
            decreases n - i,
        {
            proof {
                assert(embeddings@.map_values(|v: Vec<i64>| v@)[i as int] == embeddings@[i as int]@);
            }
            let c = cosine_similarity(query_embedding, &embeddings[i]);
            pairs.push((-c, i));
            i = i + 1;
        }
        proof {
            assert(pairs@ =~= key_pairs(Seq::new(keys.len(), |k: int| (-keys[k]) as i64)));
            lemma_ranked_indices(pairs@, n as nat);
            lemma_ranked_keys_above(pairs@, i64::MIN as int);
        }
        let sorted = sort_pairs(pairs);
        let results = assemble_results(
            documents,
            sorted,
            request.top_k,
            SearchType::NearestDuplicate,
            true,
        );
        Ok(results)
    }

    /// Ranks the documents by BM25 relevance to the query, most relevant
    /// first. The vocabulary statistics are built from the request's
    /// documents on the first lexical search and reused afterwards, so a
    /// changed document set needs a fresh client.
    pub fn bm25_search(&mut self, request: &SearchRequest) -> (r: Result<
        Vec<SearchResult>,
        VoyageError,
    >)
        requires
            old(self).wf(),
            request.documents matches Some(docs) ==> docs@.len() <= MAX_CORPUS_DOCS && sum_lens(
                views_of(docs@),
            ) <= MAX_CORPUS_CHARS,
            request.query.query@.len() <= MAX_CORPUS_CHARS,
        ensures
            final(self).wf(),
            bm25_search_post(r, *request, old(self).index_corpus(), final(self).index_corpus()),
    {
        let documents = match &request.documents {
            Some(documents) => documents,
            None => {
                return Err(VoyageError::MissingDocuments("Missing documents".to_owned()));
            },
        };
        let build_needed = match &self.index {
            Some(_) => false,
            None => true,
        };
        if build_needed {
            self.index = Some(LexicalIndex::build(documents));
        }
        let index = match &self.index {
            Some(index) => index,
            None => {
                proof {
                    assert(false);
                }
                return Err(VoyageError::SearchIndexNotBuilt);
            },
        };
        let ghost corpus = index.corpus();
        proof {
            assert forall|k: int| 0 <= k < documents@.len() implies (#[trigger] documents@[k])@.len()
                <= MAX_CORPUS_CHARS by {
                crate::index::lemma_doc_len_le_sum(views_of(documents@), k);
                assert(views_of(documents@)[k] == documents@[k]@);
            }
        }
        let query_terms = tokenize(request.query.query.as_str());
        let ghost qv = spec_tokens(request.query.query@);
        let ghost keys = bm25_keys(corpus, views_of(documents@), qv);
        let n = documents.len();
        let mut pairs: Vec<(i64, usize)> = Vec::new();
        let mut i: usize = 0;
        while i < n
            invariant
                index.wf(),
                corpus == index.corpus(),
                n == documents@.len(),
                forall|k: int|
                    0 <= k < documents@.len() ==> (#[trigger] documents@[k])@.len()
                        <= MAX_CORPUS_CHARS,
                query_terms@.len() <= MAX_CORPUS_CHARS,
                views_of(query_terms@) == qv,
                keys == bm25_keys(corpus, views_of(documents@), qv),
                i <= n,
                pairs@.len() == i,
                forall|k: int|
                    0 <= k < i ==> #[trigger] pairs@[k] == (((-keys[k]) as i64), k as usize),
                forall|k: int| 0 <= k < i ==> (#[trigger] pairs@[k]).0 > i64::MIN,
            decreases n - i,
        {
            let score = index.bm25_score(documents[i].as_str(), &query_terms);
            proof {
                assert(9_000_000 * query_terms@.len() <= 9_000_000 * 0x3B9ACA00)
                    by (nonlinear_arith)
                    requires
                        query_terms@.len() <= 0x3B9ACA00,
                ;
                assert(views_of(documents@)[i as int] == documents@[i as int]@);
            }
            pairs.push((-(score as i64), i));
            i = i + 1;
        }
        proof {
            assert(pairs@ =~= key_pairs(Seq::new(keys.len(), |k: int| (-keys[k]) as i64)));
            lemma_ranked_indices(pairs@, n as nat);
            lemma_ranked_keys_above(pairs@, i64::MIN as int);
        }
        let sorted = sort_pairs(pairs);
        let results = assemble_results(documents, sorted, request.top_k, SearchType::BM25, true);
        Ok(results)
    }

    /// Dispatches a request to its strategy: similarity and nearest-neighbor
    /// requests rank by distance, nearest-duplicate by cosine similarity,
    /// and BM25 lexically; the remaining request kinds are unsupported. The
    /// vector strategies need the query's embedding, supplied by whoever
    /// obtained it from the embedding service.
    pub fn search(&mut self, request: &SearchRequest, query_embedding: Option<&Vec<i64>>) -> (r:
        Result<Vec<SearchResult>, VoyageError>)
        requires
            old(self).wf(),
            query_embedding matches Some(q) ==> bounded_vec(q@),
            request.embeddings matches Some(e) ==> bounded_embeddings(
                e@.map_values(|v: Vec<i64>| v@),
            ),
            request.search_type is BM25 ==> (request.documents matches Some(docs) ==> docs@.len()
                <= MAX_CORPUS_DOCS && sum_lens(views_of(docs@)) <= MAX_CORPUS_CHARS)
                && request.query.query@.len() <= MAX_CORPUS_CHARS,
        ensures
            final(self).wf(),
            !(request.search_type is BM25) ==> final(self).index_corpus() == old(
                self,
            ).index_corpus(),
            (request.search_type is Similarity || request.search_type is NearestNeighbor)
                && query_embedding is Some ==> vector_search_post(
                r,
                *request,
                query_embedding->Some_0@,
                SearchType::NearestNeighbor,
                false,
            ),
            request.search_type is NearestDuplicate && query_embedding is Some
                ==> vector_search_post(
                r,
                *request,
                query_embedding->Some_0@,
                SearchType::NearestDuplicate,
                true,
            ),
            request.search_type is BM25 ==> bm25_search_post(
                r,
                *request,
                old(self).index_corpus(),
                final(self).index_corpus(),
            ),
            (request.search_type is Similarity || request.search_type is NearestNeighbor
                || request.search_type is NearestDuplicate) && query_embedding is None ==> (r
                matches Err(e) && e matches VoyageError::MissingEmbeddings(m) && m@
                == "Missing query embedding"@),
            request.search_type is MaximalMarginalRelevance || request.search_type
                is SimilarityScoreThreshold ==> (r matches Err(e) && e
                matches VoyageError::SearchBuilderError(m) && m@ == "Unsupported search type"@),
    {
        match request.search_type {
            SearchType::Similarity | SearchType::NearestNeighbor => {
                match query_embedding {
                    Some(q) => self.nearest_neighbor_search(q, request),
                    None => Err(
                        VoyageError::MissingEmbeddings("Missing query embedding".to_owned()),
                    ),
                }
            },
            SearchType::NearestDuplicate => {
                match query_embedding {
                    Some(q) => self.nearest_duplicate_search(q, request),
                    None => Err(
                        VoyageError::MissingEmbeddings("Missing query embedding".to_owned()),
                    ),
                }
            },
            SearchType::BM25 => self.bm25_search(request),
            SearchType::MaximalMarginalRelevance | SearchType::SimilarityScoreThreshold => Err(
                VoyageError::SearchBuilderError("Unsupported search type".to_owned()),
            ),
        }
    }
}

/// The corpus a lexical search scores against: the one already indexed, or
/// the request's documents when no index exists yet.
pub open spec fn bm25_corpus(existing: Option<Seq<Seq<char>>>, docs: Seq<String>) -> Seq<
    Seq<char>,
> {
    match existing {
        Some(corpus) => corpus,
        None => views_of(docs),
    }
}

/// Scoring is deterministic: two rankings of the same documents under the
/// same scores, truncation and strategy agree on every field of every entry.
/// Together with the scoring functions being functions of their inputs, two
/// identical search calls return identical output.
pub proof fn lemma_ranking_deterministic(
    r1: Seq<SearchResult>,
    r2: Seq<SearchResult>,
    docs: Seq<Seq<char>>,
    scores: Seq<i64>,
    top_k: Option<usize>,
    st: SearchType,
    descending: bool,
)
    requires
        results_match(r1, docs, scores, top_k, st, descending),
        results_match(r2, docs, scores, top_k, st, descending),
    ensures
        r1.len() == r2.len(),
        forall|i: int|
            0 <= i < r1.len() ==> (#[trigger] r1[i]).score == r2[i].score && r1[i].index
                == r2[i].index && r1[i].search_type == r2[i].search_type && r1[i].document@.len()
                == 1 && r1[i].document@[0]@ == r2[i].document@[0]@,
{
}

/// Cosine similarity against a vector of zeros is exactly zero, never an
/// undefined value: the zero magnitude is caught, not divided by.
pub proof fn lemma_cosine_zero_vector(a: Seq<i64>, b: Seq<i64>)
    requires
        forall|i: int| 0 <= i < a.len() ==> #[trigger] a[i] == 0,
    ensures
        spec_cosine(a, b) == 0,
{
    if a.len() != 0 && b.len() != 0 && a.len() == b.len() {
        lemma_dot_all_zero(a);
        lemma_sqrt_floor_bounds(0);
        crate::fixed::lemma_sqrt_floor_unique(0, sqrt_floor(0), 0);
        assert(sqrt_floor(spec_dot(a, a)) == 0);
    }
}

proof fn lemma_dot_all_zero(a: Seq<i64>)
    requires
        forall|i: int| 0 <= i < a.len() ==> #[trigger] a[i] == 0,
    ensures
        spec_dot(a, a) == 0,
    decreases a.len(),
{
    if a.len() > 0 {
        lemma_dot_all_zero(a.drop_last());
        assert(a.last() == 0);
    }
}

} // verus!
