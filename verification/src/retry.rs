use vstd::prelude::*;

use crate::errors::Error;

verus! {

/// Schedule of the bounded-retry search.
///
/// The search runs one wait-and-scan cycle per poll interval: it waits one
/// full interval, then scans once; the first scan is therefore not
/// immediate. A cycle is begun only if it still fits wholly before the
/// deadline, so the k-th scan happens exactly when `k * interval_ms <=
/// total_ms`; otherwise the search fails with
/// [`Error::TimedOut`] carrying the total duration. A failed scan — no
/// match, or an adapter failure — is transient: it never ends the search
/// early, the next cycle simply follows.
///
/// The caller owning the timer and the adapter performs the waits and the
/// scans; this type makes every scheduling decision. Durations are whole
/// milliseconds.
pub struct RetrySearch {
    /// The poll interval. At least one millisecond; a timer cannot tick on
    /// a zero period.
    pub interval_ms: u64,
    /// The overall deadline, measured from the start of the search.
    pub total_ms: u64,
    /// Time consumed by the completed waits.
    pub elapsed_ms: u64,
    /// The number of wait-and-scan cycles begun.
    pub cycles: u64,
}

impl RetrySearch {
    /// The schedule's invariant: elapsed time is exactly the begun cycles'
    /// intervals, and never past the deadline.
    pub open spec fn wf(self) -> bool {
        &&& 1 <= self.interval_ms
        &&& self.elapsed_ms <= self.total_ms
        &&& self.elapsed_ms == self.cycles * self.interval_ms
    }

    /// Whether one more wait-and-scan cycle completes its wait by the
    /// deadline.
    pub open spec fn cycle_fits(self) -> bool {
        (self.cycles + 1) * self.interval_ms <= self.total_ms
    }

    /// Start a search: nothing elapsed, no scan performed.
    pub fn new(interval_ms: u64, total_ms: u64) -> (s: RetrySearch)
        requires
            1 <= interval_ms,
        ensures
            s.wf(),
            s.interval_ms == interval_ms,
            s.total_ms == total_ms,
            s.elapsed_ms == 0,
            s.cycles == 0,
    {
        let s = RetrySearch { interval_ms, total_ms, elapsed_ms: 0, cycles: 0 };
        proof {
            assert(0 == 0 * s.interval_ms) by (nonlinear_arith);
        }
        s
    }

    /// Decide the next step. If one more full interval fits before the
    /// deadline, charge it and answer `true`: the caller waits that
    /// interval and scans once. Otherwise answer `false` and change
    /// nothing: the deadline is reached and the search has timed out.
    pub fn begin_cycle(&mut self) -> (fits: bool)
        requires
            old(self).wf(),
        ensures
            final(self).wf(),
            fits == old(self).cycle_fits(),
            final(self).interval_ms == old(self).interval_ms,
            final(self).total_ms == old(self).total_ms,
            fits ==> final(self).cycles == old(self).cycles + 1 && final(self).elapsed_ms == old(
                self,
            ).elapsed_ms + old(self).interval_ms,
            !fits ==> *final(self) == *old(self),
    {
        proof {
            let c = old(self).cycles;
            let iv = old(self).interval_ms;
            assert((c + 1) * iv == c * iv + iv) by (nonlinear_arith);
        }
        if self.total_ms - self.elapsed_ms >= self.interval_ms {
            proof {
                let c = old(self).cycles;
                let iv = old(self).interval_ms;
                assert(c <= c * iv) by (nonlinear_arith)
                    requires
                        1 <= iv,
                        0 <= c,
                ;
            }
            self.elapsed_ms = self.elapsed_ms + self.interval_ms;
            self.cycles = self.cycles + 1;
            true
        } else {
            false
        }
    }

    /// The error the search ends with once no further cycle fits.
    pub fn timeout_error(&self) -> (e: Error)
        ensures
            e == Error::TimedOut(self.total_ms),
    {
        Error::TimedOut(self.total_ms)
    }
}

/// With a total duration of zero, the very first cycle already misses the
/// deadline: a search times out at once, before any scan occurs.
pub proof fn lemma_zero_total_times_out(s: RetrySearch)
    requires
        s.wf(),
        s.total_ms == 0,
    ensures
        !s.cycle_fits(),
{
    assert((s.cycles + 1) * s.interval_ms >= 1) by (nonlinear_arith)
        requires
            1 <= s.interval_ms,
            0 <= s.cycles,
    ;
}

/// When the deadline admits n+1 full poll intervals, every one of the
/// first n+1 scans stays within it. By [`lemma_kth_scan_bound`] and
/// [`RetrySearch::begin_cycle`] each of those scans is then performed, so
/// a peripheral whose name is discoverable from the (n+1)-th scan on is
/// seen and returned.
pub proof fn lemma_search_reaches_late_device(interval_ms: u64, total_ms: u64, n: u64)
    requires
        1 <= interval_ms,
        (n + 1) * interval_ms <= total_ms,
    ensures
        forall|k: u64| 1 <= k <= n + 1 ==> #[trigger] (k * interval_ms) <= total_ms,
{
    assert forall|k: u64| 1 <= k <= n + 1 implies #[trigger] (k * interval_ms) <= total_ms by {
        assert(k * interval_ms <= (n + 1) * interval_ms) by (nonlinear_arith)
            requires
                1 <= interval_ms,
                k <= n + 1,
                0 <= k,
        ;
    }
}

/// When the deadline admits fewer than n+1 full poll intervals, no scan
/// from the (n+1)-th on stays within it. By [`lemma_kth_scan_bound`] and
/// [`RetrySearch::begin_cycle`] none of those scans is performed, so a
/// peripheral whose name is discoverable only from the (n+1)-th scan on
/// is never seen and the search times out.
pub proof fn lemma_search_misses_late_device(interval_ms: u64, total_ms: u64, n: u64)
    requires
        1 <= interval_ms,
        total_ms < (n + 1) * interval_ms,
    ensures
        forall|k: u64| n + 1 <= k ==> !(#[trigger] (k * interval_ms) <= total_ms),
{
    assert forall|k: u64| n + 1 <= k implies !(#[trigger] (k * interval_ms) <= total_ms) by {
        assert((n + 1) * interval_ms <= k * interval_ms) by (nonlinear_arith)
            requires
                1 <= interval_ms,
                n + 1 <= k,
        ;
    }
}

/// The k-th scan of a search happens exactly when `k * interval_ms <=
/// total_ms`: a cycle begun from a well-formed schedule whose begun cycles
/// number k - 1 fits precisely under that bound.
pub proof fn lemma_kth_scan_bound(s: RetrySearch, k: u64)
    requires
        s.wf(),
        s.cycles + 1 == k,
    ensures
        s.cycle_fits() <==> k * s.interval_ms <= s.total_ms,
{
}

} // verus!
