use vstd::prelude::*;
use crate::index::views_of;
use crate::models::embeddings::EmbeddingsInput;
use crate::models::rerank::RerankRequest;

verus! {

/// The embeddings cost heuristic's per-text base: one token per four
/// characters, rounded up.
pub open spec fn ceil_quarter(len: int) -> int {
    len / 4 + if len % 4 == 0 {
        0int
    } else {
        1int
    }
}

/// Summed per-text base estimates of a batch.
pub open spec fn spec_batch_estimate(texts: Seq<Seq<char>>) -> int
    decreases texts.len(),
{
    if texts.len() == 0 {
        0
    } else {
        spec_batch_estimate(texts.drop_last()) + ceil_quarter(texts.last().len() as int)
    }
}

/// Estimated token usage of an embeddings request: the per-text base plus a
/// fixed overhead of two per text. The estimate only gates admission; the
/// limiter is always fed the true usage afterwards.
pub open spec fn spec_embeddings_estimate(input: EmbeddingsInput) -> int {
    match input {
        EmbeddingsInput::Single(t) => ceil_quarter(t@.len() as int) + 2,
        EmbeddingsInput::Multiple(ts) => spec_batch_estimate(views_of(ts@)) + 2 * ts@.len(),
    }
}

/// Estimates the token usage of an embeddings request before it is sent.
pub fn estimate_embeddings_tokens(input: &EmbeddingsInput) -> (r: u64)
    requires
        input matches EmbeddingsInput::Single(t) ==> t@.len() <= 0x3B9ACA00,
        input matches EmbeddingsInput::Multiple(ts) ==> ts@.len() <= 0xF4240 && forall|i: int|
            0 <= i < ts@.len() ==> (#[trigger] ts@[i])@.len() <= 0x3B9ACA00,
    ensures
        r == spec_embeddings_estimate(*input),
{
    match input {
        EmbeddingsInput::Single(text) => {
            let len = text.unicode_len() as u64;
            len / 4 + (if len % 4 == 0 {
                0
            } else {
                1
            }) + 2
        },
        EmbeddingsInput::Multiple(texts) => {
            let n = texts.len();
            let ghost tv = views_of(texts@);
            let mut total: u64 = 0;
            let mut i: usize = 0;
            proof {
                assert(tv.take(0) =~= Seq::<Seq<char>>::empty());
            }
            while i < n
                invariant
                    n == texts@.len(),
                    n <= 0xF4240,
                    tv == views_of(texts@),
                    forall|k: int| 0 <= k < n ==> (#[trigger] texts@[k])@.len() <= 0x3B9ACA00,
                    i <= n,
                    total == spec_batch_estimate(tv.take(i as int)),
                    total <= i * 0xEE6B281,
                decreases n - i,
            {
                proof {
                    assert(tv.take(i as int + 1).drop_last() =~= tv.take(i as int));
                    assert(tv.take(i as int + 1).last() == texts@[i as int]@);
                    assert(i * 0xEE6B281 + 0xEE6B281 == (i + 1) * 0xEE6B281) by (nonlinear_arith);
                    assert(n * 0xEE6B281 <= 0xF4240 * 0xEE6B281) by (nonlinear_arith)
                        requires
                            n <= 0xF4240,
                    ;
                }
                let len = texts[i].as_str().unicode_len() as u64;
                let base = len / 4 + (if len % 4 == 0 {
                    0
                } else {
                    1
                });
                total = total + base;
                i = i + 1;
            }
            proof {
                assert(tv.take(n as int) =~= tv);
            }
            total + 2 * (n as u64)
        },
    }
}

/// A character the word-count heuristic keeps: an unaccented letter or a
/// digit. Everything else separates words.
pub open spec fn is_word_char(c: char) -> bool {
    ('a' <= c && c <= 'z') || ('A' <= c && c <= 'Z') || ('0' <= c && c <= '9')
}

/// Length of the leading run of word characters.
pub open spec fn word_run(s: Seq<char>) -> nat
    decreases s.len(),
{
    if s.len() == 0 || !is_word_char(s[0]) {
        0
    } else {
        1 + word_run(s.drop_first())
    }
}

pub proof fn lemma_word_run_le(s: Seq<char>)
    ensures
        word_run(s) <= s.len(),
    decreases s.len(),
{
    if s.len() > 0 && is_word_char(s[0]) {
        lemma_word_run_le(s.drop_first());
    }
}

pub proof fn lemma_word_run_is(s: Seq<char>, k: int)
    requires
        0 <= k <= s.len(),
        forall|j: int| 0 <= j < k ==> is_word_char(#[trigger] s[j]),
        k == s.len() || !is_word_char(s[k]),
    ensures
        word_run(s) == k,
    decreases k,
{
    if k > 0 {
        lemma_word_run_is(s.drop_first(), k - 1);
    }
}

/// Number of maximal runs of word characters in a text.
pub open spec fn spec_word_count(s: Seq<char>) -> nat
    decreases s.len(),
    via spec_word_count_decreases
{
    if s.len() == 0 {
        0
    } else if !is_word_char(s[0]) {
        spec_word_count(s.drop_first())
    } else {
        1 + spec_word_count(s.skip(word_run(s) as int))
    }
}

#[via_fn]
proof fn spec_word_count_decreases(s: Seq<char>) {
    if s.len() > 0 && is_word_char(s[0]) {
        lemma_word_run_le(s);
        assert(word_run(s) >= 1);
    }
}

/// Counts the words of a text, as the reranking cost heuristic defines them.
pub fn count_words(text: &str) -> (c: usize)
    ensures
        c == spec_word_count(text@),
        c <= text@.len(),
{
    let n = text.unicode_len();
    let mut c: usize = 0;
    let mut i: usize = 0;
    proof {
        assert(text@.skip(0) =~= text@);
        lemma_word_count_le(text@);
    }
    while i < n
        invariant
            n == text@.len(),
            i <= n,
            c <= i,
            spec_word_count(text@) == c + spec_word_count(text@.skip(i as int)),
        decreases n - i,
    {
        let ghost u = text@.skip(i as int);
        let ch = text.get_char(i);
        proof {
            assert(u[0] == text@[i as int]);
        }
        if !is_word_char_exec(ch) {
            proof {
                assert(u.drop_first() =~= text@.skip(i as int + 1));
            }
            i = i + 1;
        } else {
            let mut j = i + 1;
            while j < n && is_word_char_exec(text.get_char(j))
                invariant
                    n == text@.len(),
                    i < j <= n,
                    forall|m: int| i <= m < j ==> is_word_char(#[trigger] text@[m]),
                decreases n - j,
            {
                j = j + 1;
            }
            proof {
                assert forall|m: int| 0 <= m < j - i implies is_word_char(#[trigger] u[m]) by {
                    assert(u[m] == text@[m + i]);
                }
                assert(j - i == u.len() || !is_word_char(u[j - i]));
                lemma_word_run_is(u, j - i);
                assert(u.skip(j - i) =~= text@.skip(j as int));
                lemma_word_count_le(text@.skip(i as int));
            }
            c = c + 1;
            i = j;
        }
    }
    proof {
        assert(spec_word_count(text@.skip(n as int)) == 0);
    }
    c
}

/// A text has no more words than characters.
pub proof fn lemma_word_count_le(s: Seq<char>)
    ensures
        spec_word_count(s) <= s.len(),
    decreases s.len(),
{
    if s.len() == 0 {
    } else if !is_word_char(s[0]) {
        lemma_word_count_le(s.drop_first());
    } else {
        lemma_word_run_le(s);
        lemma_word_count_le(s.skip(word_run(s) as int));
    }
}

fn is_word_char_exec(c: char) -> (b: bool)
    ensures
        b == is_word_char(c),
{
    ('a' <= c && c <= 'z') || ('A' <= c && c <= 'Z') || ('0' <= c && c <= '9')
}

/// Summed word counts of the documents.
pub open spec fn spec_docs_word_count(docs: Seq<Seq<char>>) -> int
    decreases docs.len(),
{
    if docs.len() == 0 {
        0
    } else {
        spec_docs_word_count(docs.drop_last()) + spec_word_count(docs.last())
    }
}

/// Estimated token usage of a reranking request: the word count of the
/// query plus the word counts of all documents.
pub open spec fn spec_rerank_estimate(query: Seq<char>, docs: Seq<Seq<char>>) -> int {
    spec_word_count(query) + spec_docs_word_count(docs)
}

/// Estimates the token usage of a reranking request before it is sent.
pub fn estimate_rerank_tokens(request: &RerankRequest) -> (r: u64)
    requires
        request.query@.len() <= 0x3B9ACA00,
        request.documents@.len() <= 0xF4240,
        forall|i: int|
            0 <= i < request.documents@.len() ==> (#[trigger] request.documents@[i])@.len()
                <= 0x3B9ACA00,
    ensures
        r == spec_rerank_estimate(request.query@, views_of(request.documents@)),
{
    let query_words = count_words(request.query.as_str()) as u64;
    let n = request.documents.len();
    let ghost dv = views_of(request.documents@);
    let mut total: u64 = 0;
    let mut i: usize = 0;
    proof {
        assert(dv.take(0) =~= Seq::<Seq<char>>::empty());
    }
    while i < n
        invariant
            n == request.documents@.len(),
            n <= 0xF4240,
            dv == views_of(request.documents@),
            forall|k: int|
                0 <= k < n ==> (#[trigger] request.documents@[k])@.len() <= 0x3B9ACA00,
            i <= n,
            total == spec_docs_word_count(dv.take(i as int)),
            total <= i * 0x3B9ACA00,
        decreases n - i,
    {
        proof {
            assert(dv.take(i as int + 1).drop_last() =~= dv.take(i as int));
            assert(dv.take(i as int + 1).last() == request.documents@[i as int]@);
            assert(i * 0x3B9ACA00 + 0x3B9ACA00 == (i + 1) * 0x3B9ACA00) by (nonlinear_arith);
            assert(n * 0x3B9ACA00 <= 0xF4240 * 0x3B9ACA00) by (nonlinear_arith)
                requires
                    n <= 0xF4240,
            ;
        }
        let words = count_words(request.documents[i].as_str()) as u64;
        total = total + words;
        i = i + 1;
    }
    proof {
        assert(dv.take(n as int) =~= dv);
    }
    query_words + total
}

} // verus!
