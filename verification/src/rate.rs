//! A sliding one-minute window of counted events, timestamps in milliseconds.
use vstd::prelude::*;
use std::collections::VecDeque;

verus! {

/// The length of the window, in milliseconds.
pub const RATE_WINDOW_MS: u64 = 60000;

/// Counted events, oldest first, as `(timestamp in ms, count)`.
pub struct RateWindow {
    entries: VecDeque<(u64, usize)>,
}

/// Whether an event at `at` is inside the window that ends at `now` (an event in
/// the future counts as inside).
pub open spec fn in_window(now: u64, at: u64) -> bool {
    (if now >= at {
        now - at
    } else {
        0
    }) <= RATE_WINDOW_MS
}

/// The total count of the events inside the window that ends at `now`.
pub open spec fn window_sum(entries: Seq<(u64, usize)>, now: u64) -> nat
    decreases entries.len(),
{
    if entries.len() == 0 {
        0
    } else {
        window_sum(entries.drop_last(), now) + if in_window(now, entries.last().0) {
            entries.last().1 as nat
        } else {
            0nat
        }
    }
}

/// The events left after dropping, from the front, those outside the window.
pub open spec fn pruned(entries: Seq<(u64, usize)>, now: u64) -> Seq<(u64, usize)>
    decreases entries.len(),
{
    if entries.len() == 0 || in_window(now, entries[0].0) {
        entries
    } else {
        pruned(entries.drop_first(), now)
    }
}

proof fn lemma_window_sum_prepend(e: (u64, usize), rest: Seq<(u64, usize)>, now: u64)
    ensures
        window_sum(seq![e] + rest, now) == window_sum(rest, now) + if in_window(now, e.0) {
            e.1 as nat
        } else {
            0nat
        },
    decreases rest.len(),
{
    if rest.len() == 0 {
        assert(seq![e] + rest =~= seq![e]);
        assert(seq![e].drop_last() =~= Seq::<(u64, usize)>::empty());
        assert(seq![e].last() == e);
        assert(window_sum(Seq::<(u64, usize)>::empty(), now) == 0);
        assert(window_sum(seq![e].drop_last(), now) == 0);
    } else {
        lemma_window_sum_prepend(e, rest.drop_last(), now);
        assert((seq![e] + rest).drop_last() =~= seq![e] + rest.drop_last());
        assert((seq![e] + rest).last() == rest.last());
    }
}

/// Dropping events outside the window from the front leaves the window's total as
/// it was.
pub proof fn law_pruning_keeps_count(entries: Seq<(u64, usize)>, now: u64)
    ensures
        window_sum(pruned(entries, now), now) == window_sum(entries, now),
    decreases entries.len(),
{
    if entries.len() > 0 && !in_window(now, entries[0].0) {
        law_pruning_keeps_count(entries.drop_first(), now);
        assert(entries =~= seq![entries[0]] + entries.drop_first());
        lemma_window_sum_prepend(entries[0], entries.drop_first(), now);
    }
}

/// Events recorded at `now` are counted in the window that ends at `now`, on top of
/// the events already inside it.
pub proof fn law_recorded_events_are_counted(entries: Seq<(u64, usize)>, now: u64, count: usize)
    ensures
        window_sum(pruned(entries.push((now, count)), now), now) == window_sum(entries, now) + count,
{
    law_pruning_keeps_count(entries.push((now, count)), now);
    assert(entries.push((now, count)).drop_last() =~= entries);
}

impl View for RateWindow {
    type V = Seq<(u64, usize)>;

    closed spec fn view(&self) -> Seq<(u64, usize)> {
        self.entries@
    }
}

impl RateWindow {
    /// A window with no event.
    pub fn new() -> (r: RateWindow)
        ensures
            r@ == Seq::<(u64, usize)>::empty(),
    {
        RateWindow { entries: VecDeque::new() }
    }

    /// Drops, from the front, the events outside the window that ends at `now`.
    fn prune(&mut self, now: u64)
        ensures
            final(self)@ == pruned(old(self)@, now),
    {
        loop
            invariant
                pruned(old(self)@, now) == pruned(self@, now),
            decreases self@.len(),
        {
            if self.entries.len() == 0 {
                return;
            }
            let at = self.entries[0].0;
            let age = if now >= at {
                now - at
            } else {
                0
            };
            if age <= RATE_WINDOW_MS {
                return;
            }
            let ghost before = self@;
            self.entries.pop_front();
            assert(self@ =~= before.drop_first());
        }
    }

    /// Records `count` events at `now` (nothing for zero), then drops, from the
    /// front, the events outside the window.
    pub fn record(&mut self, now: u64, count: usize)
        ensures
            final(self)@ == pruned(
                if count == 0 {
                    old(self)@
                } else {
                    old(self)@.push((now, count))
                },
                now,
            ),
    {
        if count == 0 {
            self.prune(now);
            return;
        }
        self.entries.push_back((now, count));
        self.prune(now);
    }

    /// The number of events inside the window that ends at `now`.
    pub fn per_minute(&self, now: u64) -> (r: usize)
        requires
            window_sum(self@, now) <= usize::MAX,
        ensures
            r == window_sum(self@, now),
    {
        let n = self.entries.len();
        let mut total: usize = 0;
        let mut i: usize = 0;
        while i < n
            invariant
                n == self@.len(),
                i <= n,
                total == window_sum(self@.take(i as int), now),
                window_sum(self@, now) <= usize::MAX,
            decreases n - i,
        {
            proof {
                assert(self@.take(i + 1).drop_last() =~= self@.take(i as int));
                lemma_window_sum_prefix(self@, i + 1, now);
            }
            let (at, count) = self.entries[i];
            let age = if now >= at {
                now - at
            } else {
                0
            };
            if age <= RATE_WINDOW_MS {
                total = total + count;
            }
            i = i + 1;
        }
        proof {
            assert(self@.take(n as int) =~= self@);
        }
        total
    }
}

proof fn lemma_window_sum_prefix(entries: Seq<(u64, usize)>, k: int, now: u64)
    requires
        0 <= k <= entries.len(),
    ensures
        window_sum(entries.take(k), now) <= window_sum(entries, now),
    decreases entries.len() - k,
{
    if k < entries.len() {
        lemma_window_sum_prefix(entries, k + 1, now);
        assert(entries.take(k + 1).drop_last() =~= entries.take(k));
    } else {
        assert(entries.take(k) =~= entries);
    }
}

} // verus!
