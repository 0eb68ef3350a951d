use vstd::prelude::*;

verus! {

/// Sum of the weights of a sequence of recorded events.
pub open spec fn sum_weights(s: Seq<(u64, u32)>) -> int
    decreases s.len(),
{
    if s.len() == 0 {
        0
    } else {
        sum_weights(s.drop_last()) + s.last().1
    }
}

/// Timestamps appear in ascending order (insertion order is time order).
pub open spec fn ts_sorted(s: Seq<(u64, u32)>) -> bool {
    forall|i: int, j: int| 0 <= i < j < s.len() ==> #[trigger] s[i].0 <= #[trigger] s[j].0
}

/// An event is still inside the trailing window that ends at `now`.
pub open spec fn in_window(e: (u64, u32), now: u64, window: u64) -> bool {
    e.0 + window > now
}

/// Every timestamp in `s` is at or before `now`.
pub open spec fn events_up_to(s: Seq<(u64, u32)>, now: u64) -> bool {
    forall|i: int| 0 <= i < s.len() ==> #[trigger] s[i].0 <= now
}

/// Every event in `s` is still inside the window ending at `now`.
pub open spec fn events_in_window(s: Seq<(u64, u32)>, now: u64, window: u64) -> bool {
    forall|i: int| 0 <= i < s.len() ==> in_window(#[trigger] s[i], now, window)
}

pub proof fn lemma_sum_weights_nonneg(s: Seq<(u64, u32)>)
    ensures
        sum_weights(s) >= 0,
    decreases s.len(),
{
    if s.len() > 0 {
        lemma_sum_weights_nonneg(s.drop_last());
    }
}

pub proof fn lemma_sum_weights_push(s: Seq<(u64, u32)>, e: (u64, u32))
    ensures
        sum_weights(s.push(e)) == sum_weights(s) + e.1,
{
    assert(s.push(e).drop_last() =~= s);
}

pub proof fn lemma_sum_weights_split(s: Seq<(u64, u32)>, k: int)
    requires
        0 <= k <= s.len(),
    ensures
        sum_weights(s) == sum_weights(s.take(k)) + sum_weights(s.skip(k)),
    decreases s.len(),
{
    if k == s.len() {
        assert(s.take(k) =~= s);
        assert(s.skip(k).len() == 0);
    } else {
        lemma_sum_weights_split(s.drop_last(), k);
        assert(s.drop_last().take(k) =~= s.take(k));
        assert(s.skip(k).drop_last() =~= s.drop_last().skip(k));
        assert(s.skip(k).last() == s.last());
    }
}

/// If a prefix of `s` fails `pred` and the rest satisfies it, then filtering
/// by `pred` keeps exactly the suffix.
pub proof fn lemma_filter_is_skip(s: Seq<(u64, u32)>, k: int, pred: spec_fn((u64, u32)) -> bool)
    requires
        0 <= k <= s.len(),
        forall|j: int| 0 <= j < k ==> !#[trigger] pred(s[j]),
        forall|j: int| k <= j < s.len() ==> #[trigger] pred(s[j]),
    ensures
        s.filter(pred) == s.skip(k),
    decreases s.len(),
{
    reveal(Seq::filter);
    if s.len() == 0 {
        assert(s.filter(pred) =~= s.skip(k));
    } else if k == s.len() {
        lemma_filter_is_skip(s.drop_last(), k - 1, pred);
        assert(forall|j: int| 0 <= j < k - 1 ==> s.drop_last()[j] == s[j]);
        assert(s.filter(pred) =~= s.skip(k));
    } else {
        lemma_filter_is_skip(s.drop_last(), k, pred);
        assert(forall|j: int| 0 <= j < s.drop_last().len() ==> s.drop_last()[j] == s[j]);
        assert(s.filter(pred) == s.drop_last().filter(pred).push(s.last()));
        assert(s.filter(pred) =~= s.skip(k));
    }
}

/// Window correctness: purging keeps an event if and only if it was
/// recorded and its timestamp is still inside the trailing window, so the
/// count after a purge at `now` is exactly the number of recorded events
/// with `timestamp > now - window`, and only those events can contribute to
/// later capacity decisions.
pub proof fn lemma_window_correctness(s: Seq<(u64, u32)>, now: u64, window: u64)
    ensures
        forall|i: int|
            0 <= i < window_filter(s, now, window).len() ==> in_window(
                #[trigger] window_filter(s, now, window)[i],
                now,
                window,
            ),
        forall|i: int|
            0 <= i < s.len() && in_window(s[i], now, window) ==> window_filter(
                s,
                now,
                window,
            ).contains(s[i]),
        window_filter(s, now, window).len() <= s.len(),
{
    s.filter_lemma(|e: (u64, u32)| in_window(e, now, window));
}

/// The events still inside the window ending at `now`.
pub open spec fn window_filter(s: Seq<(u64, u32)>, now: u64, window: u64) -> Seq<(u64, u32)> {
    s.filter(|e: (u64, u32)| in_window(e, now, window))
}

/// Wait recommended before admitting an event of weight `incoming`:
/// zero if the window still has room, otherwise the time until the oldest
/// recorded event ages out of the window.
pub open spec fn spec_wait(
    events: Seq<(u64, u32)>,
    now: u64,
    window: u64,
    limit: u64,
    incoming: u64,
) -> int {
    if sum_weights(events) + incoming > limit && events.len() > 0 {
        events[0].0 + window - now
    } else {
        0
    }
}

/// A trailing-window record of weighted events, ordered by timestamp.
///
/// `total_weight` is kept equal to the sum of the recorded weights so that
/// occupancy queries are constant time.
pub struct SlidingWindowCounter {
    events: Vec<(u64, u32)>,
    total_weight: u64,
}

impl SlidingWindowCounter {
    /// Recorded events, oldest first.
    pub closed spec fn view(&self) -> Seq<(u64, u32)> {
        self.events@
    }

    /// Structural invariant: events are in time order and the running total
    /// matches the recorded weights.
    pub closed spec fn wf(&self) -> bool {
        &&& ts_sorted(self.events@)
        &&& self.total_weight == sum_weights(self.events@)
    }

    /// Every recorded timestamp is at or before `now`.
    pub open spec fn recorded_up_to(&self, now: u64) -> bool {
        events_up_to(self@, now)
    }

    /// Every recorded event is still inside the window ending at `now`.
    pub open spec fn purged_at(&self, now: u64, window: u64) -> bool {
        events_in_window(self@, now, window)
    }

    pub fn new() -> (r: Self)
        ensures
            r.wf(),
            r@ == Seq::<(u64, u32)>::empty(),
    {
        SlidingWindowCounter { events: Vec::new(), total_weight: 0 }
    }

    /// Number of events currently recorded.
    pub fn count(&self) -> (n: usize)
        ensures
            n == self@.len(),
    {
        self.events.len()
    }

    /// Summed weight of the events currently recorded.
    pub fn sum_weight(&self) -> (w: u64)
        requires
            self.wf(),
        ensures
            w == sum_weights(self@),
    {
        self.total_weight
    }

    /// Appends an event. Events must be recorded in time order.
    pub fn record(&mut self, now: u64, weight: u32)
        requires
            old(self).wf(),
            old(self).recorded_up_to(now),
            sum_weights(old(self)@) + weight <= u64::MAX,
        ensures
            final(self).wf(),
            final(self)@ == old(self)@.push((now, weight)),
    {
        proof {
            lemma_sum_weights_push(self.events@, (now, weight));
            lemma_sum_weights_nonneg(self.events@);
        }
        self.events.push((now, weight));
        self.total_weight = self.total_weight + weight as u64;
    }

    /// Removes every event whose timestamp has left the trailing window,
    /// that is every event with `timestamp <= now - window`.
    pub fn purge(&mut self, now: u64, window: u64)
        requires
            old(self).wf(),
        ensures
            final(self).wf(),
            final(self)@ == old(self)@.filter(|e: (u64, u32)| in_window(e, now, window)),
            final(self).purged_at(now, window),
            forall|i: int|
                0 <= i < final(self)@.len() ==> old(self)@.contains(#[trigger] final(self)@[i]),
    {
        let ghost s = self.events@;
        let n = self.events.len();
        let mut k: usize = 0;
        let mut removed: u64 = 0;
        while k < n && now >= window && self.events[k].0 <= now - window
            invariant
                self.events@ == s,
                n == s.len(),
                0 <= k <= n,
                self.wf(),
                forall|j: int| 0 <= j < k ==> !in_window(#[trigger] s[j], now, window),
                removed == sum_weights(s.take(k as int)),
            decreases n - k,
        {
            let (_ts, w) = self.events[k];
            proof {
                assert(s.take(k as int + 1).drop_last() =~= s.take(k as int));
                assert(s.take(k as int + 1).last() == s[k as int]);
                lemma_sum_weights_split(s, k as int + 1);
                lemma_sum_weights_nonneg(s.skip(k as int + 1));
                lemma_sum_weights_nonneg(s.take(k as int));
            }
            removed = removed + w as u64;
            k = k + 1;
        }
        proof {
            assert forall|j: int| k <= j < s.len() implies in_window(#[trigger] s[j], now, window) by {
                assert(s[k as int].0 <= s[j].0);
            }
            lemma_filter_is_skip(s, k as int, |e: (u64, u32)| in_window(e, now, window));
            lemma_sum_weights_split(s, k as int);
            lemma_sum_weights_nonneg(s.skip(k as int));
        }
        let mut kept: Vec<(u64, u32)> = Vec::new();
        let mut j: usize = k;
        while j < n
            invariant
                self.events@ == s,
                n == s.len(),
                k <= j <= n,
                kept@ =~= s.subrange(k as int, j as int),
            decreases n - j,
        {
            let e = self.events[j];
            kept.push(e);
            j = j + 1;
        }
        proof {
            assert(kept@ =~= s.skip(k as int));
            assert forall|i: int| 0 <= i < kept@.len() implies s.contains(#[trigger] kept@[i]) by {
                assert(kept@[i] == s[k + i]);
            }
        }
        self.events = kept;
        self.total_weight = self.total_weight - removed;
    }

    /// Computes how long a new event of weight `incoming` must wait before
    /// the window has capacity for it under `limit`. Returns zero when the
    /// event can be admitted now; never blocks by itself.
    pub fn wait_until_capacity(&self, now: u64, window: u64, limit: u64, incoming: u64) -> (wait: u64)
        requires
            self.wf(),
            self.recorded_up_to(now),
            self.purged_at(now, window),
            now <= u64::MAX - window,
            sum_weights(self@) + incoming <= u64::MAX,
        ensures
            wait == spec_wait(self@, now, window, limit, incoming),
            wait <= window,
    {
        if self.events.len() > 0 && self.total_weight + incoming > limit {
            proof {
                assert(in_window(self@[0], now, window));
                assert(self@[0].0 <= now);
            }
            let (oldest, _) = self.events[0];
            oldest + window - now
        } else {
            0
        }
    }
}

} // verus!
