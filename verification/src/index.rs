use vstd::prelude::*;
use crate::tokenize::{spec_tokens, tokenize, lemma_tokens_count_le};
use crate::fixed::{ln_q16, spec_ln_q16};
use vstd::arithmetic::div_mod::lemma_multiply_divide_le;

verus! {

/// The texts of a sequence of documents.
pub open spec fn views_of(ts: Seq<String>) -> Seq<Seq<char>> {
    ts.map_values(|t: String| t@)
}

/// Whether some string in `ts` has exactly the text `t`.
pub open spec fn contains_view(ts: Seq<Seq<char>>, t: Seq<char>) -> bool {
    exists|i: int| 0 <= i < ts.len() && #[trigger] ts[i] == t
}

/// No two strings in `ts` have the same text.
pub open spec fn distinct_views(ts: Seq<String>) -> bool {
    forall|i: int, j: int| 0 <= i < j < ts.len() ==> #[trigger] ts[i]@ != #[trigger] ts[j]@
}

/// Whether the document contains the term as a whole token.
pub open spec fn doc_has(doc: Seq<char>, term: Seq<char>) -> bool {
    contains_view(spec_tokens(doc), term)
}

/// Document frequency: in how many documents of the corpus the term occurs.
pub open spec fn spec_df(corpus: Seq<Seq<char>>, term: Seq<char>) -> nat
    decreases corpus.len(),
{
    if corpus.len() == 0 {
        0
    } else {
        spec_df(corpus.drop_last(), term) + if doc_has(corpus.last(), term) {
            1nat
        } else {
            0nat
        }
    }
}

/// Number of occurrences of `term` among `tokens` (term frequency).
pub open spec fn count_in(tokens: Seq<Seq<char>>, term: Seq<char>) -> nat
    decreases tokens.len(),
{
    if tokens.len() == 0 {
        0
    } else {
        count_in(tokens.drop_last(), term) + if tokens.last() == term {
            1nat
        } else {
            0nat
        }
    }
}

/// Total number of tokens across the corpus.
pub open spec fn spec_total_len(corpus: Seq<Seq<char>>) -> int
    decreases corpus.len(),
{
    if corpus.len() == 0 {
        0
    } else {
        spec_total_len(corpus.drop_last()) + spec_tokens(corpus.last()).len()
    }
}

/// Total number of characters across the corpus.
pub open spec fn sum_lens(corpus: Seq<Seq<char>>) -> int
    decreases corpus.len(),
{
    if corpus.len() == 0 {
        0
    } else {
        sum_lens(corpus.drop_last()) + corpus.last().len()
    }
}

pub proof fn lemma_df_le_len(corpus: Seq<Seq<char>>, term: Seq<char>)
    ensures
        spec_df(corpus, term) <= corpus.len(),
    decreases corpus.len(),
{
    if corpus.len() > 0 {
        lemma_df_le_len(corpus.drop_last(), term);
    }
}

pub proof fn lemma_df_push(corpus: Seq<Seq<char>>, doc: Seq<char>, term: Seq<char>)
    ensures
        spec_df(corpus.push(doc), term) == spec_df(corpus, term) + if doc_has(doc, term) {
            1int
        } else {
            0int
        },
{
    assert(corpus.push(doc).drop_last() =~= corpus);
    assert(corpus.push(doc).last() == doc);
}

pub proof fn lemma_count_in_le(tokens: Seq<Seq<char>>, term: Seq<char>)
    ensures
        count_in(tokens, term) <= tokens.len(),
    decreases tokens.len(),
{
    if tokens.len() > 0 {
        lemma_count_in_le(tokens.drop_last(), term);
    }
}

pub proof fn lemma_count_in_pos(tokens: Seq<Seq<char>>, term: Seq<char>)
    ensures
        count_in(tokens, term) > 0 <==> contains_view(tokens, term),
    decreases tokens.len(),
{
    if tokens.len() > 0 {
        lemma_count_in_pos(tokens.drop_last(), term);
        if contains_view(tokens, term) && tokens.last() != term {
            let i = choose|i: int| 0 <= i < tokens.len() && #[trigger] tokens[i] == term;
            assert(tokens.drop_last()[i] == term);
        }
        if contains_view(tokens.drop_last(), term) {
            let i = choose|i: int|
                0 <= i < tokens.drop_last().len() && #[trigger] tokens.drop_last()[i] == term;
            assert(tokens[i] == term);
        }
    }
}

pub proof fn lemma_total_len_push(corpus: Seq<Seq<char>>, doc: Seq<char>)
    ensures
        spec_total_len(corpus.push(doc)) == spec_total_len(corpus) + spec_tokens(doc).len(),
        sum_lens(corpus.push(doc)) == sum_lens(corpus) + doc.len(),
{
    assert(corpus.push(doc).drop_last() =~= corpus);
    assert(corpus.push(doc).last() == doc);
}

pub proof fn lemma_total_len_nonneg(corpus: Seq<Seq<char>>)
    ensures
        spec_total_len(corpus) >= 0,
        sum_lens(corpus) >= 0,
    decreases corpus.len(),
{
    if corpus.len() > 0 {
        lemma_total_len_nonneg(corpus.drop_last());
    }
}

/// A prefix of the corpus has no more tokens or characters than the whole,
/// and the token count never exceeds the character count.
pub proof fn lemma_total_len_take(corpus: Seq<Seq<char>>, k: int)
    requires
        0 <= k <= corpus.len(),
    ensures
        spec_total_len(corpus.take(k)) <= sum_lens(corpus.take(k)),
        sum_lens(corpus.take(k)) <= sum_lens(corpus),
    decreases corpus.len(),
{
    if k == corpus.len() {
        assert(corpus.take(k) =~= corpus);
        lemma_total_len_le(corpus);
    } else {
        assert(corpus.drop_last().take(k) =~= corpus.take(k));
        lemma_total_len_take(corpus.drop_last(), k);
        assert(corpus.last().len() >= 0);
    }
}

/// Each document is no longer than the whole corpus.
pub proof fn lemma_doc_len_le_sum(corpus: Seq<Seq<char>>, i: int)
    requires
        0 <= i < corpus.len(),
    ensures
        corpus[i].len() <= sum_lens(corpus),
    decreases corpus.len(),
{
    if i == corpus.len() - 1 {
        lemma_total_len_nonneg(corpus.drop_last());
    } else {
        lemma_doc_len_le_sum(corpus.drop_last(), i);
    }
}

pub proof fn lemma_total_len_le(corpus: Seq<Seq<char>>)
    ensures
        spec_total_len(corpus) <= sum_lens(corpus),
    decreases corpus.len(),
{
    if corpus.len() > 0 {
        lemma_total_len_le(corpus.drop_last());
        lemma_tokens_count_le(corpus.last());
    }
}

/// Finds the position of a term in the vocabulary, comparing by text.
fn find_term(terms: &Vec<String>, t: &String) -> (r: Option<usize>)
    ensures
        match r {
            Some(pos) => pos < terms@.len() && terms@[pos as int]@ == t@,
            None => forall|i: int| 0 <= i < terms@.len() ==> #[trigger] terms@[i]@ != t@,
        },
{
    let n = terms.len();
    let mut i: usize = 0;
    while i < n
        invariant
            n == terms@.len(),
            i <= n,
            forall|j: int| 0 <= j < i ==> #[trigger] terms@[j]@ != t@,
        decreases n - i,
    {
        if terms[i] == *t {
            return Some(i);
        }
        i = i + 1;
    }
    None
}

/// The distinct texts among `tokens`, each kept once.
fn unique_terms(tokens: &Vec<String>) -> (r: Vec<String>)
    ensures
        distinct_views(r@),
        forall|t: Seq<char>| contains_view(views_of(r@), t) <==> contains_view(
            views_of(tokens@),
            t,
        ),
        r@.len() <= tokens@.len(),
{
    let n = tokens.len();
    let mut r: Vec<String> = Vec::new();
    let mut i: usize = 0;
    while i < n
        invariant
            n == tokens@.len(),
            i <= n,
            distinct_views(r@),
            r@.len() <= i,
            forall|t: Seq<char>| contains_view(views_of(r@), t) <==> contains_view(
                views_of(tokens@.take(i as int)),
                t,
            ),
        decreases n - i,
    {
        let ghost old_r = r@;
        match find_term(&r, &tokens[i]) {
            Some(pos) => {
                proof {
                    assert(views_of(r@)[pos as int] == tokens@[i as int]@);
                }
            },
            None => {
                r.push(tokens[i].clone());
                proof {
                    assert(views_of(r@)[r@.len() - 1] == tokens@[i as int]@);
                }
            },
        }
        proof {
            assert(views_of(tokens@.take(i as int + 1)) =~= views_of(
                tokens@.take(i as int),
            ).push(tokens@[i as int]@));
            assert forall|t: Seq<char>|
                contains_view(views_of(r@), t) <==> contains_view(
                    views_of(tokens@.take(i as int + 1)),
                    t,
                ) by {
                lemma_contains_view_push(views_of(tokens@.take(i as int)), tokens@[i as int]@, t);
                if r@.len() > old_r.len() {
                    lemma_contains_view_push(views_of(old_r), tokens@[i as int]@, t);
                    assert(views_of(r@) =~= views_of(old_r).push(tokens@[i as int]@));
                }
            }
        }
        i = i + 1;
    }
    proof {
        assert(tokens@.take(n as int) =~= tokens@);
    }
    r
}

pub proof fn lemma_contains_view_push(ts: Seq<Seq<char>>, v: Seq<char>, t: Seq<char>)
    ensures
        contains_view(ts.push(v), t) <==> (contains_view(ts, t) || v == t),
{
    if contains_view(ts, t) {
        let i = choose|i: int| 0 <= i < ts.len() && #[trigger] ts[i] == t;
        assert(ts.push(v)[i] == t);
    }
    if v == t {
        assert(ts.push(v)[ts.len() as int] == t);
    }
    if contains_view(ts.push(v), t) {
        let i = choose|i: int| 0 <= i < ts.push(v).len() && #[trigger] ts.push(v)[i] == t;
        if i < ts.len() {
            assert(ts[i] == t);
        }
    }
}

/// Inverse-document-frequency statistics and length normalization data for
/// BM25 over a fixed document collection.
///
/// `terms` and `doc_freqs` are parallel: `doc_freqs[i]` is the number of
/// corpus documents containing `terms[i]`. The corpus the index was built
/// from is carried as ghost state so that contracts can speak about it.
/// The index is never patched incrementally; a changed document set needs a
/// fresh build.
pub struct LexicalIndex {
    terms: Vec<String>,
    doc_freqs: Vec<u32>,
    doc_count: u32,
    total_len: u64,
    corpus: Ghost<Seq<Seq<char>>>,
}

/// Largest corpus the index accepts: documents and total characters.
pub const MAX_CORPUS_DOCS: usize = 1_000_000;

pub const MAX_CORPUS_CHARS: u64 = 1_000_000_000;

impl LexicalIndex {
    /// The texts of the documents the index was built from.
    pub closed spec fn corpus(&self) -> Seq<Seq<char>> {
        self.corpus@
    }

    pub closed spec fn wf(&self) -> bool {
        &&& self.terms@.len() == self.doc_freqs@.len()
        &&& distinct_views(self.terms@)
        &&& forall|i: int|
            0 <= i < self.terms@.len() ==> #[trigger] self.doc_freqs@[i] == spec_df(
                self.corpus@,
                self.terms@[i]@,
            )
        &&& forall|t: Seq<char>|
            #[trigger] spec_df(self.corpus@, t) > 0 ==> contains_view(views_of(self.terms@), t)
        &&& self.doc_count == self.corpus@.len()
        &&& self.total_len == spec_total_len(self.corpus@)
        &&& self.doc_count <= MAX_CORPUS_DOCS
        &&& self.total_len <= MAX_CORPUS_CHARS
    }

    /// Number of documents the index was built from.
    pub fn doc_count(&self) -> (n: u32)
        requires
            self.wf(),
        ensures
            n == self.corpus().len(),
    {
        self.doc_count
    }

    /// Builds the index for a fixed document collection: tokenizes every
    /// document, records per-term document frequencies, and accumulates the
    /// total token count from which the average document length derives.
    pub fn build(documents: &Vec<String>) -> (r: Self)
        requires
            documents@.len() <= MAX_CORPUS_DOCS,
            sum_lens(views_of(documents@)) <= MAX_CORPUS_CHARS,
        ensures
            r.wf(),
            r.corpus() == views_of(documents@),
    {
        let ghost whole = views_of(documents@);
        let n = documents.len();
        let mut terms: Vec<String> = Vec::new();
        let mut doc_freqs: Vec<u32> = Vec::new();
        let mut total_len: u64 = 0;
        let mut k: usize = 0;
        proof {
            assert(whole.take(0) =~= Seq::<Seq<char>>::empty());
        }
        while k < n
            invariant
                n == documents@.len(),
                n <= MAX_CORPUS_DOCS,
                sum_lens(whole) <= MAX_CORPUS_CHARS,
                whole == views_of(documents@),
                k <= n,
                terms@.len() == doc_freqs@.len(),
                distinct_views(terms@),
                forall|i: int|
                    0 <= i < terms@.len() ==> #[trigger] doc_freqs@[i] == spec_df(
                        whole.take(k as int),
                        terms@[i]@,
                    ),
                forall|t: Seq<char>|
                    #[trigger] spec_df(whole.take(k as int), t) > 0 ==> contains_view(
                        views_of(terms@),
                        t,
                    ),
                total_len == spec_total_len(whole.take(k as int)),
                total_len <= MAX_CORPUS_CHARS,
            decreases n - k,
        {
            let ghost done = whole.take(k as int);
            let doc_tokens = tokenize(&documents[k]);
            proof {
                assert(whole[k as int] == documents@[k as int]@);
                assert(views_of(doc_tokens@) == spec_tokens(whole[k as int]));
                lemma_total_len_take(whole, k as int + 1);
                lemma_total_len_nonneg(whole.take(k as int + 1));
                assert(whole.take(k as int + 1) =~= done.push(whole[k as int]));
                lemma_total_len_push(done, whole[k as int]);
            }
            total_len = total_len + doc_tokens.len() as u64;
            let uniq = unique_terms(&doc_tokens);
            let ghost uqv = views_of(uniq@);
            let m_total = uniq.len();
            let mut m: usize = 0;
            proof {
                assert(uqv.take(0) =~= Seq::<Seq<char>>::empty());
            }
            while m < m_total
                invariant
                    m_total == uniq@.len(),
                    m <= m_total,
                    uqv == views_of(uniq@),
                    distinct_views(uniq@),
                    terms@.len() == doc_freqs@.len(),
                    distinct_views(terms@),
                    k < n,
                    n <= MAX_CORPUS_DOCS,
                    done == whole.take(k as int),
                    done.len() == k,
                    forall|i: int|
                        0 <= i < terms@.len() ==> #[trigger] doc_freqs@[i] == spec_df(
                            done,
                            terms@[i]@,
                        ) + if contains_view(uqv.take(m as int), terms@[i]@) {
                            1int
                        } else {
                            0int
                        },
                    forall|t: Seq<char>|
                        #[trigger] spec_df(done, t) > 0 ==> contains_view(views_of(terms@), t),
                    forall|t: Seq<char>|
                        #[trigger] contains_view(uqv.take(m as int), t) ==> contains_view(
                            views_of(terms@),
                            t,
                        ),
                decreases m_total - m,
            {
                let ghost t = uqv[m as int];
                let ghost old_terms = terms@;
                let ghost old_freqs = doc_freqs@;
                proof {
                    assert(uqv.take(m as int + 1) =~= uqv.take(m as int).push(t));
                    // the current term was not seen earlier in this document
                    assert(!contains_view(uqv.take(m as int), t)) by {
                        if contains_view(uqv.take(m as int), t) {
                            let i = choose|i: int|
                                0 <= i < m && #[trigger] uqv.take(m as int)[i] == t;
                            assert(uniq@[i]@ == uniq@[m as int]@);
                        }
                    }
                    lemma_df_le_len(done, t);
                }
                match find_term(&terms, &uniq[m]) {
                    Some(pos) => {
                        proof {
                            assert(terms@[pos as int]@ == t);
                            assert(doc_freqs@[pos as int] == spec_df(done, t));
                            assert(spec_df(done, t) <= k);
                        }
                        let df = doc_freqs[pos];
                        doc_freqs[pos] = df + 1;
                        proof {
                            assert(doc_freqs@ =~= old_freqs.update(pos as int, (df + 1) as u32));
                            assert(terms@[pos as int]@ == t);
                        }
                    },
                    None => {
                        terms.push(uniq[m].clone());
                        doc_freqs.push(1);
                        proof {
                            assert(terms@[terms@.len() - 1]@ == t);
                            assert(spec_df(done, t) == 0) by {
                                if spec_df(done, t) > 0 {
                                    let i = choose|i: int|
                                        0 <= i < old_terms.len() && #[trigger] views_of(
                                            old_terms,
                                        )[i] == t;
                                    assert(old_terms[i]@ == t);
                                }
                            }
                            assert forall|i: int, j: int|
                                0 <= i < j < terms@.len() implies #[trigger] terms@[i]@
                                != #[trigger] terms@[j]@ by {
                                if j == terms@.len() - 1 {
                                    assert(terms@[j]@ == t);
                                    if old_terms[i]@ == t {
                                        assert(views_of(old_terms)[i] == t);
                                    }
                                }
                            }
                        }
                    },
                }
                proof {
                    assert(exists|i: int| 0 <= i < terms@.len() && #[trigger] terms@[i]@ == t);
                    let witness = choose|i: int| 0 <= i < terms@.len() && #[trigger] terms@[i]@ == t;
                    assert(views_of(terms@)[witness] == t);
                    assert(contains_view(views_of(terms@), t));
                    assert forall|tt: Seq<char>| #[trigger] spec_df(done, tt)
                        > 0 implies contains_view(views_of(terms@), tt) by {
                        let i = choose|i: int|
                            0 <= i < old_terms.len() && #[trigger] views_of(old_terms)[i] == tt;
                        assert(terms@[i]@ == tt);
                        assert(views_of(terms@)[i] == tt);
                    }
                    assert forall|tt: Seq<char>| #[trigger] contains_view(
                        uqv.take(m as int + 1),
                        tt,
                    ) implies contains_view(views_of(terms@), tt) by {
                        lemma_contains_view_push(uqv.take(m as int), t, tt);
                        if tt != t {
                            assert(contains_view(uqv.take(m as int), tt));
                            let i = choose|i: int|
                                0 <= i < old_terms.len() && #[trigger] views_of(
                                    old_terms,
                                )[i] == tt;
                            assert(terms@[i]@ == tt);
                            assert(views_of(terms@)[i] == tt);
                        }
                    }
                    assert forall|i: int| 0 <= i < terms@.len() implies #[trigger] doc_freqs@[i]
                        == spec_df(done, terms@[i]@) + if contains_view(
                        uqv.take(m as int + 1),
                        terms@[i]@,
                    ) {
                        1int
                    } else {
                        0int
                    } by {
                        lemma_contains_view_push(uqv.take(m as int), t, terms@[i]@);
                    }
                }
                m = m + 1;
            }
            proof {
                assert(uqv.take(m_total as int) =~= uqv);
                let next = whole[k as int];
                assert(done.push(next) =~= whole.take(k as int + 1));
                assert forall|i: int| 0 <= i < terms@.len() implies #[trigger] doc_freqs@[i]
                    == spec_df(whole.take(k as int + 1), terms@[i]@) by {
                    lemma_df_push(done, next, terms@[i]@);
                    assert(contains_view(uqv, terms@[i]@) <==> doc_has(next, terms@[i]@));
                }
                assert forall|t: Seq<char>| #[trigger] spec_df(whole.take(k as int + 1), t)
                    > 0 implies contains_view(views_of(terms@), t) by {
                    lemma_df_push(done, next, t);
                    assert(contains_view(uqv, t) <==> doc_has(next, t));
                    if spec_df(done, t) == 0 {
                        assert(doc_has(next, t));
                        assert(contains_view(uqv.take(m_total as int), t));
                    }
                }
            }
            k = k + 1;
        }
        proof {
            assert(whole.take(n as int) =~= whole);
            lemma_total_len_nonneg(whole);
        }
        LexicalIndex {
            terms,
            doc_freqs,
            doc_count: k as u32,
            total_len,
            corpus: Ghost(whole),
        }
    }
}


/// BM25 contribution of one query term to one document's score, in Q16
/// fixed point. With `k1 = 3/2` and `b = 3/4` the textbook term
/// `idf * tf*(k1+1) / (tf + k1*(1 - b + b*dl/avgdl))`, with `avgdl = l/n`,
/// reduces to the integer ratio below. Terms absent from the index, or
/// absent from the document, contribute zero.
pub open spec fn spec_term_score(
    corpus: Seq<Seq<char>>,
    doc_tokens: Seq<Seq<char>>,
    term: Seq<char>,
) -> int {
    let df = spec_df(corpus, term);
    let tf = count_in(doc_tokens, term);
    let n = corpus.len();
    let l = spec_total_len(corpus);
    let dl = doc_tokens.len();
    if df == 0 || tf == 0 || l == 0 {
        0
    } else {
        let idf = spec_ln_q16(2 * (n + 1) as int, 2 * df + 1 as int);
        (idf * 20 * tf * l) / (8 * tf * l + 3 * l + 9 * dl * n)
    }
}

/// BM25 score of a document: the sum over the query's tokens, duplicates
/// counted as often as they occur in the query.
pub open spec fn spec_bm25_score(
    corpus: Seq<Seq<char>>,
    doc_tokens: Seq<Seq<char>>,
    query_tokens: Seq<Seq<char>>,
) -> int
    decreases query_tokens.len(),
{
    if query_tokens.len() == 0 {
        0
    } else {
        spec_bm25_score(corpus, doc_tokens, query_tokens.drop_last()) + spec_term_score(
            corpus,
            doc_tokens,
            query_tokens.last(),
        )
    }
}

/// Number of occurrences of `term` among `tokens`, compared by text.
fn count_occurrences(tokens: &Vec<String>, term: &String) -> (c: usize)
    ensures
        c == count_in(views_of(tokens@), term@),
{
    let n = tokens.len();
    let mut c: usize = 0;
    let mut i: usize = 0;
    proof {
        assert(views_of(tokens@).take(0) =~= Seq::<Seq<char>>::empty());
    }
    while i < n
        invariant
            n == tokens@.len(),
            i <= n,
            c <= i,
            c == count_in(views_of(tokens@).take(i as int), term@),
        decreases n - i,
    {
        proof {
            let v = views_of(tokens@);
            assert(v.take(i as int + 1).drop_last() =~= v.take(i as int));
            assert(v.take(i as int + 1).last() == tokens@[i as int]@);
        }
        if tokens[i] == *term {
            c = c + 1;
        }
        i = i + 1;
    }
    proof {
        assert(views_of(tokens@).take(n as int) =~= views_of(tokens@));
    }
    c
}

impl LexicalIndex {
    /// BM25 contribution of one query term for a document with the given
    /// tokens.
    fn term_score(&self, doc_tokens: &Vec<String>, term: &String) -> (ts: u64)
        requires
            self.wf(),
            doc_tokens@.len() <= MAX_CORPUS_CHARS,
        ensures
            ts == spec_term_score(self.corpus(), views_of(doc_tokens@), term@),
            ts <= 9_000_000,
    {
        match find_term(&self.terms, term) {
            None => {
                proof {
                    // absent from the vocabulary means absent from the corpus
                    if spec_df(self.corpus@, term@) > 0 {
                        let i = choose|i: int|
                            0 <= i < self.terms@.len() && #[trigger] views_of(
                                self.terms@,
                            )[i] == term@;
                        assert(self.terms@[i]@ == term@);
                    }
                }
                0
            },
            Some(pos) => {
                let df = self.doc_freqs[pos];
                proof {
                    assert(df == spec_df(self.corpus@, term@));
                }
                if df == 0 {
                    return 0;
                }
                let tf = count_occurrences(doc_tokens, term) as u64;
                proof {
                    lemma_count_in_le(views_of(doc_tokens@), term@);
                }
                if tf == 0 || self.total_len == 0 {
                    return 0;
                }
                proof {
                    lemma_df_le_len(self.corpus@, term@);
                    lemma_total_len_nonneg(self.corpus@);
                }
                let idf = ln_q16(2 * (self.doc_count as u64 + 1), 2 * (df as u64) + 1);
                let l = self.total_len as u128;
                let n = self.doc_count as u128;
                let dl = doc_tokens.len() as u128;
                let tf128 = tf as u128;
                proof {
                    assert((idf as int) * 20 < 0x1_0000_0000 && (idf as int) * 20 * (tf as int)
                        < 0x1_0000_0000_0000_0000 && (idf as int) * 20 * (tf as int) * (l as int)
                        < 0x1_0000_0000_0000_0000_0000_0000 && 8 * (tf as int) * (l as int) + 3 * (
                    l as int) + 9 * (dl as int) * (n as int) < 0x8000_0000_0000_0000 && 8 * (
                    tf as int) * (l as int) >= 8) by (nonlinear_arith)
                        requires
                            0 <= idf < 3_000_000,
                            1 <= tf <= dl,
                            dl <= 0x3B9ACA00,
                            1 <= l <= 0x3B9ACA00,
                            0 <= n <= 0xF4240,
                    ;
                }
                let num: u128 = (idf as u128) * 20 * tf128 * l;
                let den: u128 = 8 * tf128 * l + 3 * l + 9 * dl * n;
                let q = num / den;
                proof {
                    assert((num as int) <= (den as int) * (3 * (idf as int))) by (nonlinear_arith)
                        requires
                            idf >= 0,
                            num == (idf as int) * 20 * (tf as int) * (l as int),
                            den == 8 * (tf as int) * (l as int) + 3 * (l as int) + 9 * (dl as int)
                                * (n as int),
                            (l as int) >= 1,
                            (tf as int) >= 1,
                            (dl as int) >= 0,
                            (n as int) >= 0,
                    ;
                    lemma_multiply_divide_le(num as int, den as int, 3 * (idf as int));
                    vstd::arithmetic::div_mod::lemma_div_pos_is_pos(num as int, den as int);
                    assert(q <= 3 * (idf as int));
                    assert(q as int == spec_term_score(self.corpus@, views_of(doc_tokens@), term@));
                }
                q as u64
            },
        }
    }

    /// BM25 score of a document against a tokenized query, in Q16 fixed
    /// point. Query tokens are counted as often as they occur.
    pub fn bm25_score(&self, document: &str, query_terms: &Vec<String>) -> (score: u64)
        requires
            self.wf(),
            document@.len() <= MAX_CORPUS_CHARS,
            query_terms@.len() <= MAX_CORPUS_CHARS,
        ensures
            score == spec_bm25_score(
                self.corpus(),
                spec_tokens(document@),
                views_of(query_terms@),
            ),
            score <= 9_000_000 * query_terms@.len(),
    {
        let doc_tokens = tokenize(document);
        let ghost dtok = spec_tokens(document@);
        let ghost qv = views_of(query_terms@);
        proof {
            assert(views_of(doc_tokens@) == dtok);
            assert(qv.take(0) =~= Seq::<Seq<char>>::empty());
        }
        let nq = query_terms.len();
        let mut score: u64 = 0;
        let mut qi: usize = 0;
        while qi < nq
            invariant
                self.wf(),
                nq == query_terms@.len(),
                nq <= MAX_CORPUS_CHARS,
                qi <= nq,
                qv == views_of(query_terms@),
                views_of(doc_tokens@) == dtok,
                doc_tokens@.len() <= MAX_CORPUS_CHARS,
                score == spec_bm25_score(self.corpus(), dtok, qv.take(qi as int)),
                score <= 9_000_000 * qi,
            decreases nq - qi,
        {
            let ts = self.term_score(&doc_tokens, &query_terms[qi]);
            proof {
                assert(qv.take(qi as int + 1).drop_last() =~= qv.take(qi as int));
                assert(qv.take(qi as int + 1).last() == query_terms@[qi as int]@);
            }
            score = score + ts;
            qi = qi + 1;
        }
        proof {
            assert(qv.take(nq as int) =~= qv);
        }
        score
    }
}

/// Lexical scoring gives a document that contains none of the query's
/// terms a score of exactly zero, whatever the corpus.
pub proof fn lemma_unmatched_document_scores_zero(
    corpus: Seq<Seq<char>>,
    doc_tokens: Seq<Seq<char>>,
    query_tokens: Seq<Seq<char>>,
)
    requires
        forall|i: int|
            0 <= i < query_tokens.len() ==> !contains_view(
                doc_tokens,
                #[trigger] query_tokens[i],
            ),
    ensures
        spec_bm25_score(corpus, doc_tokens, query_tokens) == 0,
    decreases query_tokens.len(),
{
    if query_tokens.len() > 0 {
        lemma_unmatched_document_scores_zero(corpus, doc_tokens, query_tokens.drop_last());
        lemma_count_in_pos(doc_tokens, query_tokens.last());
        assert(count_in(doc_tokens, query_tokens.last()) == 0);
    }
}

} // verus!
