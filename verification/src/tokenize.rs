use vstd::prelude::*;

verus! {

/// The separator characters of the tokenizer.
pub open spec fn is_space(c: char) -> bool {
    c == ' ' || c == '\t' || c == '\n' || c == '\r'
}

/// Length of the leading run of non-separator characters.
pub open spec fn run_len(s: Seq<char>) -> nat
    decreases s.len(),
{
    if s.len() == 0 || is_space(s[0]) {
        0
    } else {
        1 + run_len(s.drop_first())
    }
}

pub proof fn lemma_run_len_le(s: Seq<char>)
    ensures
        run_len(s) <= s.len(),
    decreases s.len(),
{
    if s.len() > 0 && !is_space(s[0]) {
        lemma_run_len_le(s.drop_first());
    }
}

/// `run_len` is exactly the position of the first separator (or the length).
pub proof fn lemma_run_len_is(s: Seq<char>, k: int)
    requires
        0 <= k <= s.len(),
        forall|j: int| 0 <= j < k ==> !is_space(#[trigger] s[j]),
        k == s.len() || is_space(s[k]),
    ensures
        run_len(s) == k,
    decreases k,
{
    if k == 0 {
    } else {
        assert(!is_space(s[0]));
        lemma_run_len_is(s.drop_first(), k - 1);
    }
}

/// The whitespace-split tokens of `s`, in order: maximal runs of
/// non-separator characters.
pub open spec fn spec_tokens(s: Seq<char>) -> Seq<Seq<char>>
    decreases s.len(),
    via spec_tokens_decreases
{
    if s.len() == 0 {
        Seq::empty()
    } else if is_space(s[0]) {
        spec_tokens(s.drop_first())
    } else {
        seq![s.take(run_len(s) as int)] + spec_tokens(s.skip(run_len(s) as int))
    }
}

#[via_fn]
proof fn spec_tokens_decreases(s: Seq<char>) {
    if s.len() > 0 && !is_space(s[0]) {
        lemma_run_len_le(s);
        assert(run_len(s) >= 1);
    }
}

/// A text has no more tokens than characters.
pub proof fn lemma_tokens_count_le(s: Seq<char>)
    ensures
        spec_tokens(s).len() <= s.len(),
    decreases s.len(),
{
    if s.len() == 0 {
    } else if is_space(s[0]) {
        lemma_tokens_count_le(s.drop_first());
    } else {
        lemma_run_len_le(s);
        lemma_tokens_count_le(s.skip(run_len(s) as int));
    }
}

fn is_space_char(c: char) -> (b: bool)
    ensures
        b == is_space(c),
{
    c == ' ' || c == '\t' || c == '\n' || c == '\r'
}

/// Splits a text into its whitespace-separated tokens.
pub fn tokenize(text: &str) -> (tokens: Vec<String>)
    ensures
        tokens@.map_values(|t: String| t@) == spec_tokens(text@),
        tokens@.len() <= text@.len(),
{
    let n = text.unicode_len();
    let mut tokens: Vec<String> = Vec::new();
    let mut i: usize = 0;
    proof {
        assert(text@.skip(0) =~= text@);
        lemma_tokens_count_le(text@);
    }
    while i < n
        invariant
            n == text@.len(),
            i <= n,
            spec_tokens(text@) == tokens@.map_values(|t: String| t@) + spec_tokens(
                text@.skip(i as int),
            ),
        decreases n - i,
    {
        let ghost u = text@.skip(i as int);
        let c = text.get_char(i);
        proof {
            assert(u[0] == text@[i as int]);
        }
        if is_space_char(c) {
            proof {
                assert(u.drop_first() =~= text@.skip(i as int + 1));
            }
            i = i + 1;
        } else {
            let mut j = i + 1;
            while j < n && !is_space_char(text.get_char(j))
                invariant
                    n == text@.len(),
                    i < j <= n,
                    forall|m: int| i <= m < j ==> !is_space(#[trigger] text@[m]),
                decreases n - j,
            {
                j = j + 1;
            }
            proof {
                assert(j == n || is_space(text@[j as int]));
                assert forall|m: int| 0 <= m < j - i implies !is_space(#[trigger] u[m]) by {
                    assert(u[m] == text@[m + i]);
                }
                assert(j - i == u.len() || is_space(u[j - i]));
                lemma_run_len_is(u, j - i);
            }
            let token_slice = text.substring_char(i, j);
            let token = token_slice.to_owned();
            proof {
                assert(u.take(j - i) =~= text@.subrange(i as int, j as int));
                assert(u.skip(j - i) =~= text@.skip(j as int));
                assert(spec_tokens(u) == seq![token@] + spec_tokens(text@.skip(j as int)));
            }
            tokens.push(token);
            proof {
                assert(tokens@.map_values(|t: String| t@) =~= tokens@.drop_last().map_values(
                    |t: String| t@,
                ).push(token@));
                assert(tokens@.map_values(|t: String| t@) + spec_tokens(text@.skip(j as int))
                    =~= tokens@.drop_last().map_values(|t: String| t@) + spec_tokens(u));
            }
            i = j;
        }
    }
    proof {
        assert(spec_tokens(text@.skip(n as int)) =~= Seq::<Seq<char>>::empty());
        assert(tokens@.map_values(|t: String| t@) + Seq::<Seq<char>>::empty() =~= tokens@
            .map_values(|t: String| t@));
        assert(tokens@.map_values(|t: String| t@).len() == tokens@.len());
    }
    tokens
}

} // verus!
