//! Rolling event counts and inter-batch timing. Timestamps are monotonic
//! nanoseconds; the rates and the jitter in floating point are computed
//! from the integer figures here where they are reported.

use std::collections::VecDeque;
use vstd::prelude::*;

verus! {

/// Entries older than `cutoff` leave the front of the window; the scan stops
/// at the first entry that is not older.
pub open spec fn evict(s: Seq<(u64, u32)>, cutoff: int) -> Seq<(u64, u32)>
    decreases s.len(),
{
    if s.len() > 0 && (s[0].0 as int) < cutoff {
        evict(s.drop_first(), cutoff)
    } else {
        s
    }
}

/// The entries after recording `count` events at `t`: a zero count changes
/// nothing; otherwise the batch is appended and entries older than
/// `t - window` are evicted from the front.
pub open spec fn after_tick(s: Seq<(u64, u32)>, window: u64, t: u64, count: u32) -> Seq<(u64, u32)> {
    if count == 0 {
        s
    } else {
        evict(s.push((t, count)), t - window)
    }
}

/// The number of events the entries count.
pub open spec fn total_events(s: Seq<(u64, u32)>) -> nat
    decreases s.len(),
{
    if s.len() == 0 {
        0
    } else {
        total_events(s.drop_last()) + (s.last().1 as nat)
    }
}

/// `a - b`, or zero when `b` is later.
pub open spec fn elapsed(a: u64, b: u64) -> nat {
    if a >= b {
        (a - b) as nat
    } else {
        0
    }
}

/// The figures of the event rate: the events counted after the first (one
/// event stands for the window's open edge) and the time from the first
/// batch to the last; none with fewer than two batches or no elapsed time.
pub open spec fn rate_figures(s: Seq<(u64, u32)>) -> Option<(nat, nat)> {
    if s.len() < 2 {
        None
    } else {
        let d = elapsed(s.last().0, s[0].0);
        if d == 0 {
            None
        } else {
            Some((if total_events(s) >= 1 { (total_events(s) - 1) as nat } else { 0 }, d))
        }
    }
}

/// The time between each batch and the next.
pub open spec fn batch_gaps(s: Seq<(u64, u32)>) -> Seq<nat> {
    Seq::new((if s.len() > 0 { s.len() - 1 } else { 0 }) as nat, |i: int| elapsed(s[i + 1].0, s[i].0))
}

/// One timestamp per batch of events, within a time window.
pub struct RateMeter {
    window_ns: u64,
    ts: VecDeque<(u64, u32)>,
}

impl RateMeter {
    /// The batches in the window, oldest first.
    pub closed spec fn entries(&self) -> Seq<(u64, u32)> {
        self.ts@
    }

    pub closed spec fn window(&self) -> u64 {
        self.window_ns
    }

    pub fn new(window_ns: u64) -> (r: RateMeter)
        ensures
            r.entries() == Seq::<(u64, u32)>::empty(),
            r.window() == window_ns,
    {
        RateMeter { window_ns, ts: VecDeque::new() }
    }

    /// Records one event at `t`.
    pub fn tick(&mut self, t: u64)
        ensures
            final(self).window() == old(self).window(),
            final(self).entries() == after_tick(old(self).entries(), old(self).window(), t, 1),
    {
        self.tick_n(t, 1);
    }

    /// Records a batch of `count` events at `t` (see [`after_tick`]).
    pub fn tick_n(&mut self, t: u64, count: u32)
        ensures
            final(self).window() == old(self).window(),
            final(self).entries() == after_tick(old(self).entries(), old(self).window(), t, count),
    {
        if count == 0 {
            return;
        }
        self.ts.push_back((t, count));
        let ghost cutoff: int = t - self.window_ns;
        if t < self.window_ns {
            proof {
                let s = self.ts@;
                assert(s.len() > 0 && (s[0].0 as int) >= cutoff);
            }
            return;
        }
        let cut: u64 = t - self.window_ns;
        let ghost target = evict(self.ts@, cutoff);
        while self.ts.len() > 0 && self.ts[0].0 < cut
            invariant
                cut == cutoff,
                target == evict(self.ts@, cutoff),
                self.window_ns == old(self).window_ns,
                target == after_tick(old(self).ts@, old(self).window_ns, t, count),
            decreases self.ts.len(),
        {
            let ghost s = self.ts@;
            self.ts.pop_front();
            assert(self.ts@ =~= s.drop_first());
        }
    }

    /// Whether the counts in the window sum to a value that fits in 64 bits,
    /// as [`RateMeter::rate_parts`] needs.
    pub fn total_fits(&self) -> (r: bool)
        ensures
            r == (total_events(self.entries()) <= u64::MAX),
    {
        let len = self.ts.len();
        let mut total: u64 = 0;
        let mut i: usize = 0;
        while i < len
            invariant
                len == self.ts@.len(),
                i <= len,
                total == total_events(self.ts@.take(i as int)),
            decreases len - i,
        {
            assert(self.ts@.take(i + 1).drop_last() =~= self.ts@.take(i as int));
            let c = self.ts[i].1 as u64;
            if total > u64::MAX - c {
                proof {
                    lemma_total_prefix(self.ts@, i + 1, len as int);
                    assert(self.ts@.take(len as int) =~= self.ts@);
                }
                return false;
            }
            total = total + c;
            i = i + 1;
        }
        assert(self.ts@.take(len as int) =~= self.ts@);
        true
    }

    /// The integer figures of the event rate (see [`rate_figures`]); the sum
    /// of the counts must fit in 64 bits.
    pub fn rate_parts(&self) -> (r: Option<(u64, u64)>)
        requires
            total_events(self.entries()) <= u64::MAX,
        ensures
            match rate_figures(self.entries()) {
                None => r is None,
                Some((n, d)) => r == Some((n as u64, d as u64)),
            },
    {
        let len = self.ts.len();
        if len < 2 {
            return None;
        }
        let first = self.ts[0].0;
        let last = self.ts[len - 1].0;
        let dur: u64 = if last >= first {
            last - first
        } else {
            0
        };
        if dur == 0 {
            return None;
        }
        let mut total: u64 = 0;
        let mut i: usize = 0;
        while i < len
            invariant
                len == self.ts@.len(),
                i <= len,
                total_events(self.ts@) <= u64::MAX,
                total == total_events(self.ts@.take(i as int)),
            decreases len - i,
        {
            proof {
                lemma_total_prefix(self.ts@, i + 1, len as int);
                assert(self.ts@.take(len as int) =~= self.ts@);
                assert(self.ts@.take(i + 1).drop_last() =~= self.ts@.take(i as int));
            }
            total = total + (self.ts[i].1 as u64);
            i = i + 1;
        }
        assert(self.ts@.take(len as int) =~= self.ts@);
        let n: u64 = if total >= 1 {
            total - 1
        } else {
            0
        };
        Some((n, dur))
    }

    /// The time between each batch and the next (see [`batch_gaps`]); the
    /// jitter is their standard deviation.
    pub fn gaps(&self) -> (r: Vec<u64>)
        ensures
            r@.len() == batch_gaps(self.entries()).len(),
            forall|i: int| 0 <= i < r@.len() ==> r@[i] == batch_gaps(self.entries())[i],
    {
        let len = self.ts.len();
        let mut r: Vec<u64> = Vec::new();
        if len == 0 {
            return r;
        }
        let mut i: usize = 0;
        while i + 1 < len
            invariant
                len == self.ts@.len(),
                len > 0,
                i + 1 <= len,
                r@.len() == i,
                forall|k: int| 0 <= k < i ==> r@[k] == elapsed(self.ts@[k + 1].0, self.ts@[k].0),
            decreases len - i,
        {
            let a = self.ts[i + 1].0;
            let b = self.ts[i].0;
            r.push(if a >= b { a - b } else { 0 });
            i = i + 1;
        }
        r
    }
}

pub proof fn lemma_total_prefix(s: Seq<(u64, u32)>, i: int, j: int)
    requires
        0 <= i <= j <= s.len(),
    ensures
        total_events(s.take(i)) <= total_events(s.take(j)),
    decreases j - i,
{
    if i < j {
        assert(s.take(j).drop_last() =~= s.take(j - 1));
        lemma_total_prefix(s, i, j - 1);
    }
}

/// The entries after `n` single-event ticks at `t`.
pub open spec fn repeat_ticks(s: Seq<(u64, u32)>, window: u64, t: u64, n: nat) -> Seq<(u64, u32)>
    decreases n,
{
    if n == 0 {
        s
    } else {
        after_tick(repeat_ticks(s, window, t, (n - 1) as nat), window, t, 1)
    }
}

/// Eviction of a sequence with a new last entry that is not old evicts
/// what it evicts without it.
pub proof fn lemma_evict_push(s: Seq<(u64, u32)>, x: (u64, u32), cutoff: int)
    requires
        x.0 >= cutoff,
    ensures
        evict(s.push(x), cutoff) == evict(s, cutoff).push(x),
    decreases s.len(),
{
    if s.len() > 0 && (s[0].0 as int) < cutoff {
        assert(s.push(x).drop_first() =~= s.drop_first().push(x));
        lemma_evict_push(s.drop_first(), x, cutoff);
    } else {
        assert(s.push(x)[0] == (if s.len() > 0 { s[0] } else { x }));
    }
}

/// What eviction leaves has no old entry at its front.
pub proof fn lemma_evict_front(s: Seq<(u64, u32)>, cutoff: int)
    ensures
        evict(s, cutoff).len() > 0 ==> evict(s, cutoff)[0].0 >= cutoff,
        evict(evict(s, cutoff), cutoff) == evict(s, cutoff),
    decreases s.len(),
{
    if s.len() > 0 && (s[0].0 as int) < cutoff {
        lemma_evict_front(s.drop_first(), cutoff);
    }
}

pub proof fn lemma_total_push(s: Seq<(u64, u32)>, x: (u64, u32))
    ensures
        total_events(s.push(x)) == total_events(s) + x.1,
{
    assert(s.push(x).drop_last() =~= s);
}

/// After `m` single ticks (at least one), the window holds the evicted
/// entries followed by `m` single events at `t`.
pub proof fn lemma_repeat_shape(s: Seq<(u64, u32)>, window: u64, t: u64, m: nat)
    requires
        m >= 1,
    ensures
        repeat_ticks(s, window, t, m) == evict(s, t - window) + Seq::new(m, |i: int| (t, 1u32)),
        total_events(repeat_ticks(s, window, t, m)) == total_events(evict(s, t - window)) + m,
    decreases m,
{
    let c: int = t - window;
    let e = evict(s, c);
    if m == 1 {
        lemma_evict_push(s, (t, 1u32), c);
        assert(repeat_ticks(s, window, t, 0) == s);
        assert(repeat_ticks(s, window, t, 1) == after_tick(s, window, t, 1));
        assert(after_tick(s, window, t, 1) == evict(s.push((t, 1u32)), c));
        assert(e + Seq::new(1, |i: int| (t, 1u32)) =~= e.push((t, 1u32)));
        lemma_total_push(e, (t, 1u32));
    } else {
        lemma_repeat_shape(s, window, t, (m - 1) as nat);
        let prev = e + Seq::new((m - 1) as nat, |i: int| (t, 1u32));
        lemma_evict_push(prev, (t, 1u32), c);
        lemma_evict_front(s, c);
        assert(evict(prev, c) == prev) by {
            if e.len() > 0 {
                assert(prev[0] == e[0]);
            } else {
                assert(prev[0] == (t, 1u32));
            }
        }
        assert(repeat_ticks(s, window, t, m) == after_tick(repeat_ticks(s, window, t, (m - 1) as nat), window, t, 1));
        assert(after_tick(prev, window, t, 1) == evict(prev.push((t, 1u32)), c));
        assert(prev.push((t, 1u32)) =~= e + Seq::new(m, |i: int| (t, 1u32)));
        lemma_total_push(prev, (t, 1u32));
    }
}

/// Counting a batch of `n` events at once gives the same rate figures as
/// `n` single ticks at the same time.
pub proof fn lemma_tick_n_matches_repeated_ticks(s: Seq<(u64, u32)>, window: u64, t: u64, n: u32)
    ensures
        rate_figures(after_tick(s, window, t, n)) == rate_figures(repeat_ticks(s, window, t, n as nat)),
{
    if n > 0 {
        let c: int = t - window;
        let e = evict(s, c);
        lemma_evict_push(s, (t, n), c);
        lemma_total_push(e, (t, n));
        lemma_repeat_shape(s, window, t, n as nat);
        let a = after_tick(s, window, t, n);
        let b = repeat_ticks(s, window, t, n as nat);
        assert(a == e.push((t, n)));
        assert(b == e + Seq::new(n as nat, |i: int| (t, 1u32)));
        assert(a.last() == (t, n));
        assert(b.last() == (t, 1u32));
        if e.len() > 0 {
            assert(a[0] == e[0]);
            assert(b[0] == e[0]);
        } else {
            assert(a[0].0 == t);
            assert(b[0].0 == t);
        }
    }
}

} // verus!
