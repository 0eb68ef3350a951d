use vstd::prelude::*;
use crate::window::{SlidingWindowCounter, spec_wait, sum_weights, in_window, events_up_to, events_in_window};

verus! {

/// Length of the trailing window, in milliseconds.
pub const WINDOW_MS: u64 = 60_000;

/// The larger of two waits; both constraints must hold, so the longer wait wins.
pub open spec fn max_wait(a: int, b: int) -> int {
    if a >= b {
        a
    } else {
        b
    }
}

/// A dual-constraint gate for one API category: one window counts requests
/// against `rpm_limit`, the other sums token usage against `tpm_limit`.
pub struct ApiLimiter {
    requests: SlidingWindowCounter,
    tokens: SlidingWindowCounter,
    rpm_limit: u32,
    tpm_limit: u32,
}

impl ApiLimiter {
    pub closed spec fn requests_view(&self) -> Seq<(u64, u32)> {
        self.requests@
    }

    pub closed spec fn tokens_view(&self) -> Seq<(u64, u32)> {
        self.tokens@
    }

    pub closed spec fn spec_rpm_limit(&self) -> u32 {
        self.rpm_limit
    }

    pub closed spec fn spec_tpm_limit(&self) -> u32 {
        self.tpm_limit
    }

    pub closed spec fn wf(&self) -> bool {
        &&& self.requests.wf()
        &&& self.tokens.wf()
    }

    /// Every recorded timestamp is at or before `now`.
    pub open spec fn recorded_up_to(&self, now: u64) -> bool {
        &&& events_up_to(self.requests_view(), now)
        &&& events_up_to(self.tokens_view(), now)
    }

    /// Usage already committed can still absorb `tokens` more without
    /// overflowing the running totals.
    pub open spec fn can_absorb(&self, tokens: u32) -> bool {
        &&& sum_weights(self.requests_view()) + 1 <= u64::MAX
        &&& sum_weights(self.tokens_view()) + tokens <= u64::MAX
    }

    /// Wait demanded by the request-count dimension after purging at `now`.
    pub open spec fn spec_rpm_wait(&self, now: u64) -> int {
        spec_wait(
            self.requests_view().filter(|e: (u64, u32)| in_window(e, now, WINDOW_MS)),
            now,
            WINDOW_MS,
            self.spec_rpm_limit() as u64,
            1,
        )
    }

    /// Wait demanded by the token dimension after purging at `now`.
    pub open spec fn spec_tpm_wait(&self, now: u64, tokens: u32) -> int {
        spec_wait(
            self.tokens_view().filter(|e: (u64, u32)| in_window(e, now, WINDOW_MS)),
            now,
            WINDOW_MS,
            self.spec_tpm_limit() as u64,
            tokens as u64,
        )
    }

    pub fn new(rpm_limit: u32, tpm_limit: u32) -> (r: Self)
        ensures
            r.wf(),
            r.requests_view() == Seq::<(u64, u32)>::empty(),
            r.tokens_view() == Seq::<(u64, u32)>::empty(),
            r.spec_rpm_limit() == rpm_limit,
            r.spec_tpm_limit() == tpm_limit,
    {
        ApiLimiter {
            requests: SlidingWindowCounter::new(),
            tokens: SlidingWindowCounter::new(),
            rpm_limit,
            tpm_limit,
        }
    }

    /// Drops every entry older than one window from both dimensions.
    pub fn clean_old_entries(&mut self, now: u64)
        requires
            old(self).wf(),
        ensures
            final(self).wf(),
            final(self).requests_view() == old(self).requests_view().filter(
                |e: (u64, u32)| in_window(e, now, WINDOW_MS),
            ),
            final(self).tokens_view() == old(self).tokens_view().filter(
                |e: (u64, u32)| in_window(e, now, WINDOW_MS),
            ),
            final(self).spec_rpm_limit() == old(self).spec_rpm_limit(),
            final(self).spec_tpm_limit() == old(self).spec_tpm_limit(),
    {
        self.requests.purge(now, WINDOW_MS);
        self.tokens.purge(now, WINDOW_MS);
    }

    /// Wait demanded by the requests-per-minute limit alone.
    pub fn check_rpm_limit(&self, now: u64) -> (wait: u64)
        requires
            self.wf(),
            self.recorded_up_to(now),
            events_in_window(self.requests_view(), now, WINDOW_MS),
            now <= u64::MAX - WINDOW_MS,
            sum_weights(self.requests_view()) + 1 <= u64::MAX,
        ensures
            wait == spec_wait(
                self.requests_view(),
                now,
                WINDOW_MS,
                self.spec_rpm_limit() as u64,
                1,
            ),
    {
        self.requests.wait_until_capacity(now, WINDOW_MS, self.rpm_limit as u64, 1)
    }

    /// Wait demanded by the tokens-per-minute limit alone, for a request
    /// estimated to use `new_tokens`.
    pub fn check_tpm_limit(&self, now: u64, new_tokens: u32) -> (wait: u64)
        requires
            self.wf(),
            self.recorded_up_to(now),
            events_in_window(self.tokens_view(), now, WINDOW_MS),
            now <= u64::MAX - WINDOW_MS,
            sum_weights(self.tokens_view()) + new_tokens <= u64::MAX,
        ensures
            wait == spec_wait(
                self.tokens_view(),
                now,
                WINDOW_MS,
                self.spec_tpm_limit() as u64,
                new_tokens as u64,
            ),
    {
        self.tokens.wait_until_capacity(now, WINDOW_MS, self.tpm_limit as u64, new_tokens as u64)
    }

    /// Purges expired usage, then returns how long a request of estimated
    /// weight `tokens` must wait before both limits have room for it.
    /// The two dimensions are checked independently and the longer wait wins.
    /// Being over quota is represented purely as a wait, never as an error.
    pub fn check_limit(&mut self, now: u64, tokens: u32) -> (wait: u64)
        requires
            old(self).wf(),
            old(self).recorded_up_to(now),
            old(self).can_absorb(tokens),
            now <= u64::MAX - WINDOW_MS,
        ensures
            final(self).wf(),
            final(self).recorded_up_to(now),
            final(self).can_absorb(tokens),
            final(self).requests_view() == old(self).requests_view().filter(
                |e: (u64, u32)| in_window(e, now, WINDOW_MS),
            ),
            final(self).tokens_view() == old(self).tokens_view().filter(
                |e: (u64, u32)| in_window(e, now, WINDOW_MS),
            ),
            final(self).spec_rpm_limit() == old(self).spec_rpm_limit(),
            final(self).spec_tpm_limit() == old(self).spec_tpm_limit(),
            wait == max_wait(old(self).spec_rpm_wait(now), old(self).spec_tpm_wait(now, tokens)),
            wait <= WINDOW_MS,
    {
        proof {
            crate::window::lemma_sum_weights_nonneg(self.requests_view());
            crate::window::lemma_sum_weights_nonneg(self.tokens_view());
            lemma_sum_weights_filter_le(self.requests_view(), |e: (u64, u32)| in_window(e, now, WINDOW_MS));
            lemma_sum_weights_filter_le(self.tokens_view(), |e: (u64, u32)| in_window(e, now, WINDOW_MS));
        }
        self.requests.purge(now, WINDOW_MS);
        self.tokens.purge(now, WINDOW_MS);
        proof {
            lemma_events_up_to_subset(self.requests_view(), old(self).requests_view(), now);
            lemma_events_up_to_subset(self.tokens_view(), old(self).tokens_view(), now);
        }
        let requests_wait = self.check_rpm_limit(now);
        let tokens_wait = self.check_tpm_limit(now, tokens);
        if requests_wait >= tokens_wait {
            requests_wait
        } else {
            tokens_wait
        }
    }

    /// Records one completed request and its actual token usage.
    /// A weight beyond the limit is still committed: the window then reports
    /// a long wait until it ages out, which is backpressure, not an error.
    pub fn update_usage(&mut self, now: u64, tokens: u32)
        requires
            old(self).wf(),
            old(self).recorded_up_to(now),
            old(self).can_absorb(tokens),
        ensures
            final(self).wf(),
            final(self).requests_view() == old(self).requests_view().push((now, 1u32)),
            final(self).tokens_view() == old(self).tokens_view().push((now, tokens)),
            final(self).spec_rpm_limit() == old(self).spec_rpm_limit(),
            final(self).spec_tpm_limit() == old(self).spec_tpm_limit(),
    {
        self.requests.record(now, 1);
        self.tokens.record(now, tokens);
    }
}

/// A sequence whose events all come from a sequence recorded up to `now`
/// is itself recorded up to `now`.
pub proof fn lemma_events_up_to_subset(sub: Seq<(u64, u32)>, sup: Seq<(u64, u32)>, now: u64)
    requires
        events_up_to(sup, now),
        forall|i: int| 0 <= i < sub.len() ==> sup.contains(#[trigger] sub[i]),
    ensures
        events_up_to(sub, now),
{
    assert forall|i: int| 0 <= i < sub.len() implies #[trigger] sub[i].0 <= now by {
        let j = choose|j: int| 0 <= j < sup.len() && sup[j] == sub[i];
        assert(sup[j].0 <= now);
    }
}

/// Filtering a sequence of events never increases the summed weight.
pub proof fn lemma_sum_weights_filter_le(s: Seq<(u64, u32)>, pred: spec_fn((u64, u32)) -> bool)
    ensures
        sum_weights(s.filter(pred)) <= sum_weights(s),
    decreases s.len(),
{
    reveal(Seq::filter);
    if s.len() > 0 {
        lemma_sum_weights_filter_le(s.drop_last(), pred);
        if pred(s.last()) {
            crate::window::lemma_sum_weights_push(s.drop_last().filter(pred), s.last());
        }
    }
}

/// One dual-constraint limiter per API category. The categories are fully
/// independent: operations on one never read or change the other.
pub struct RateLimiter {
    embeddings_limiter: ApiLimiter,
    reranking_limiter: ApiLimiter,
}

impl RateLimiter {
    pub closed spec fn embeddings(&self) -> ApiLimiter {
        self.embeddings_limiter
    }

    pub closed spec fn reranking(&self) -> ApiLimiter {
        self.reranking_limiter
    }

    pub open spec fn wf(&self) -> bool {
        &&& self.embeddings().wf()
        &&& self.reranking().wf()
    }

    /// Creates a limiter with the service's default per-minute quotas.
    pub fn new() -> (r: Self)
        ensures
            r.wf(),
            r.embeddings().requests_view() == Seq::<(u64, u32)>::empty(),
            r.embeddings().tokens_view() == Seq::<(u64, u32)>::empty(),
            r.reranking().requests_view() == Seq::<(u64, u32)>::empty(),
            r.reranking().tokens_view() == Seq::<(u64, u32)>::empty(),
            r.embeddings().spec_rpm_limit() == 300u32,
            r.embeddings().spec_tpm_limit() == 1_000_000u32,
            r.reranking().spec_rpm_limit() == 100u32,
            r.reranking().spec_tpm_limit() == 2_000_000u32,
    {
        RateLimiter {
            embeddings_limiter: ApiLimiter::new(300, 1_000_000),
            reranking_limiter: ApiLimiter::new(100, 2_000_000),
        }
    }

    /// Wait before an embeddings request of estimated weight `tokens`.
    /// The reranking category is untouched.
    pub fn check_embeddings_limit(&mut self, now: u64, tokens: u32) -> (wait: u64)
        requires
            old(self).wf(),
            old(self).embeddings().recorded_up_to(now),
            old(self).embeddings().can_absorb(tokens),
            now <= u64::MAX - WINDOW_MS,
        ensures
            final(self).wf(),
            final(self).reranking() == old(self).reranking(),
            final(self).embeddings().requests_view() == old(
                self,
            ).embeddings().requests_view().filter(|e: (u64, u32)| in_window(e, now, WINDOW_MS)),
            final(self).embeddings().tokens_view() == old(self).embeddings().tokens_view().filter(
                |e: (u64, u32)| in_window(e, now, WINDOW_MS),
            ),
            final(self).embeddings().spec_rpm_limit() == old(self).embeddings().spec_rpm_limit(),
            final(self).embeddings().spec_tpm_limit() == old(self).embeddings().spec_tpm_limit(),
            wait == max_wait(
                old(self).embeddings().spec_rpm_wait(now),
                old(self).embeddings().spec_tpm_wait(now, tokens),
            ),
            wait <= WINDOW_MS,
    {
        self.embeddings_limiter.check_limit(now, tokens)
    }

    /// Reports actual usage of a completed embeddings request.
    /// The reranking category is untouched.
    pub fn update_embeddings_usage(&mut self, now: u64, tokens: u32)
        requires
            old(self).wf(),
            old(self).embeddings().recorded_up_to(now),
            old(self).embeddings().can_absorb(tokens),
        ensures
            final(self).wf(),
            final(self).reranking() == old(self).reranking(),
            final(self).embeddings().requests_view() == old(self).embeddings().requests_view().push(
                (now, 1u32),
            ),
            final(self).embeddings().tokens_view() == old(self).embeddings().tokens_view().push(
                (now, tokens),
            ),
            final(self).embeddings().spec_rpm_limit() == old(self).embeddings().spec_rpm_limit(),
            final(self).embeddings().spec_tpm_limit() == old(self).embeddings().spec_tpm_limit(),
    {
        self.embeddings_limiter.update_usage(now, tokens);
    }

    /// Wait before a reranking request of estimated weight `tokens`.
    /// The embeddings category is untouched.
    pub fn check_reranking_limit(&mut self, now: u64, tokens: u32) -> (wait: u64)
        requires
            old(self).wf(),
            old(self).reranking().recorded_up_to(now),
            old(self).reranking().can_absorb(tokens),
            now <= u64::MAX - WINDOW_MS,
        ensures
            final(self).wf(),
            final(self).embeddings() == old(self).embeddings(),
            final(self).reranking().requests_view() == old(
                self,
            ).reranking().requests_view().filter(|e: (u64, u32)| in_window(e, now, WINDOW_MS)),
            final(self).reranking().tokens_view() == old(self).reranking().tokens_view().filter(
                |e: (u64, u32)| in_window(e, now, WINDOW_MS),
            ),
            final(self).reranking().spec_rpm_limit() == old(self).reranking().spec_rpm_limit(),
            final(self).reranking().spec_tpm_limit() == old(self).reranking().spec_tpm_limit(),
            wait == max_wait(
                old(self).reranking().spec_rpm_wait(now),
                old(self).reranking().spec_tpm_wait(now, tokens),
            ),
            wait <= WINDOW_MS,
    {
        self.reranking_limiter.check_limit(now, tokens)
    }

    /// Reports actual usage of a completed reranking request.
    /// The embeddings category is untouched.
    pub fn update_reranking_usage(&mut self, now: u64, tokens: u32)
        requires
            old(self).wf(),
            old(self).reranking().recorded_up_to(now),
            old(self).reranking().can_absorb(tokens),
        ensures
            final(self).wf(),
            final(self).embeddings() == old(self).embeddings(),
            final(self).reranking().requests_view() == old(self).reranking().requests_view().push(
                (now, 1u32),
            ),
            final(self).reranking().tokens_view() == old(self).reranking().tokens_view().push(
                (now, tokens),
            ),
            final(self).reranking().spec_rpm_limit() == old(self).reranking().spec_rpm_limit(),
            final(self).reranking().spec_tpm_limit() == old(self).reranking().spec_tpm_limit(),
    {
        self.reranking_limiter.update_usage(now, tokens);
    }
}

} // verus!
