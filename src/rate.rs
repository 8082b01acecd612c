//! Per-connection rate limiting over fixed one-second windows.
//!
//! Time is a count of milliseconds on the caller's monotonic clock.

use vstd::prelude::*;
use crate::limits::{RATE_LIMIT_CLOSE_THRESHOLD, RATE_LIMIT_PER_SECOND};

verus! {

/// Length of a rate window, in milliseconds.
pub const WINDOW_MILLIS: u64 = 1000;

/// One connection's rate window.
#[derive(Clone, Copy, Debug, PartialEq, Eq, Structural)]
pub struct RateLimit {
    /// Messages still allowed in the current window.
    pub remaining: u32,
    /// When the current window began.
    pub window_start: u64,
    /// Rejections since the last allowed message.
    pub consecutive_violations: u32,
}

/// What a check decides: allowed, or rejected with whether to close the connection.
pub type RateVerdict = Result<(), bool>;

/// A fresh window that begins at `now`.
pub open spec fn fresh_window(now: u64) -> RateLimit {
    RateLimit { remaining: RATE_LIMIT_PER_SECOND, window_start: now, consecutive_violations: 0 }
}

/// At least one window length has passed between `start` and `now`.
pub open spec fn window_elapsed(start: u64, now: u64) -> bool {
    now >= start && now - start >= WINDOW_MILLIS
}

/// The state and verdict of one check at time `now`.
pub open spec fn checked(s: RateLimit, now: u64) -> (RateLimit, RateVerdict) {
    let s1 = if window_elapsed(s.window_start, now) { fresh_window(now) } else { s };
    if s1.remaining > 0 {
        (RateLimit { remaining: (s1.remaining - 1) as u32, consecutive_violations: 0, ..s1 }, Ok(()))
    } else {
        let v: u32 = if s1.consecutive_violations < u32::MAX {
            (s1.consecutive_violations + 1) as u32
        } else {
            u32::MAX
        };
        (
            RateLimit { consecutive_violations: v, ..s1 },
            Err(v >= RATE_LIMIT_CLOSE_THRESHOLD),
        )
    }
}

/// The state after one check at each time of `times`, in order.
pub open spec fn after_times(s: RateLimit, times: Seq<u64>) -> RateLimit
    decreases times.len(),
{
    if times.len() == 0 {
        s
    } else {
        checked(after_times(s, times.drop_last()), times.last()).0
    }
}

/// The verdict of check number `k` (counting from zero) when checks are made at `times`.
pub open spec fn verdict_at(s: RateLimit, times: Seq<u64>, k: int) -> RateVerdict {
    checked(after_times(s, times.subrange(0, k)), times[k]).1
}

/// Every time of `times` lies in the window that begins at `start`.
pub open spec fn within_window(times: Seq<u64>, start: u64) -> bool {
    forall|i: int| 0 <= i < times.len() ==> start <= #[trigger] times[i] && times[i] - start < WINDOW_MILLIS
}

impl RateLimit {
    /// A limiter whose first window begins at `now`.
    pub fn new(now: u64) -> (r: RateLimit)
        ensures
            r == fresh_window(now),
    {
        RateLimit { remaining: RATE_LIMIT_PER_SECOND, window_start: now, consecutive_violations: 0 }
    }

    /// Counts one message at time `now`: `Ok` if allowed, `Err(true)` if the connection
    /// is to be closed, `Err(false)` if the message is refused but the connection stays.
    pub fn check(&mut self, now: u64) -> (r: RateVerdict)
        ensures
            (*final(self), r) == checked(*old(self), now),
    {
        if now >= self.window_start && now - self.window_start >= WINDOW_MILLIS {
            self.remaining = RATE_LIMIT_PER_SECOND;
            self.window_start = now;
            self.consecutive_violations = 0;
        }
        if self.remaining > 0 {
            self.remaining = self.remaining - 1;
            self.consecutive_violations = 0;
            Ok(())
        } else {
            if self.consecutive_violations < u32::MAX {
                self.consecutive_violations = self.consecutive_violations + 1;
            }
            Err(self.consecutive_violations >= RATE_LIMIT_CLOSE_THRESHOLD)
        }
    }
}

/// The state of a fresh limiter after `k` checks inside its first window.
spec fn spent(start: u64, k: nat) -> RateLimit {
    RateLimit {
        remaining: if k < RATE_LIMIT_PER_SECOND { (RATE_LIMIT_PER_SECOND - k) as u32 } else { 0 },
        window_start: start,
        consecutive_violations: if k <= RATE_LIMIT_PER_SECOND {
            0
        } else if k - RATE_LIMIT_PER_SECOND < u32::MAX {
            (k - RATE_LIMIT_PER_SECOND) as u32
        } else {
            u32::MAX
        },
    }
}

proof fn lemma_spent(start: u64, times: Seq<u64>, k: nat)
    requires
        within_window(times, start),
        k <= times.len(),
    ensures
        after_times(fresh_window(start), times.subrange(0, k as int)) == spent(start, k),
    decreases k,
{
    if k > 0 {
        lemma_spent(start, times, (k - 1) as nat);
        let t = times.subrange(0, k as int);
        assert(t.drop_last() =~= times.subrange(0, k - 1));
        assert(t.last() == times[k - 1]);
    } else {
        assert(times.subrange(0, 0) =~= Seq::<u64>::empty());
    }
}

/// Checks made at any instants inside the first window of a fresh limiter: the first
/// `RATE_LIMIT_PER_SECOND` are allowed and no others; the next ones are refused, without
/// closing until the violations reach `RATE_LIMIT_CLOSE_THRESHOLD`, and with closing
/// from then on.
pub proof fn lemma_budget_per_window(start: u64, times: Seq<u64>)
    requires
        within_window(times, start),
    ensures
        forall|k: int| 0 <= k < times.len() ==> #[trigger] verdict_at(fresh_window(start), times, k) == if k
            < RATE_LIMIT_PER_SECOND {
            Ok::<(), bool>(())
        } else {
            Err::<(), bool>(k >= RATE_LIMIT_PER_SECOND + RATE_LIMIT_CLOSE_THRESHOLD - 1)
        },
{
    assert forall|k: int| 0 <= k < times.len() implies #[trigger] verdict_at(fresh_window(start), times, k)
        == if k < RATE_LIMIT_PER_SECOND {
        Ok::<(), bool>(())
    } else {
        Err::<(), bool>(k >= RATE_LIMIT_PER_SECOND + RATE_LIMIT_CLOSE_THRESHOLD - 1)
    } by {
        lemma_spent(start, times, k as nat);
    }
}

/// Inside a window whose budget is spent, a check is refused: the violation count goes
/// up by one and the connection is to close once it reaches the threshold.
pub proof fn lemma_exhausted_rejects(s: RateLimit, now: u64)
    requires
        !window_elapsed(s.window_start, now),
        s.remaining == 0,
        s.consecutive_violations < u32::MAX,
    ensures
        checked(s, now) == (RateLimit {
            consecutive_violations: (s.consecutive_violations + 1) as u32,
            ..s
        }, Err::<(), bool>(s.consecutive_violations + 1 >= RATE_LIMIT_CLOSE_THRESHOLD)),
{
}

/// An allowed check clears the violation count, so an exhausted window after a success
/// refuses the next message without closing.
pub proof fn lemma_success_resets_violations(s: RateLimit, now: u64, later: u64)
    requires
        checked(s, now).1 is Ok,
        checked(s, now).0.remaining == 0,
        !window_elapsed(checked(s, now).0.window_start, later),
    ensures
        checked(s, now).0.consecutive_violations == 0,
        checked(checked(s, now).0, later).1 == Err::<(), bool>(false),
{
}

/// Once a window has elapsed, the budget is whole again: the check is allowed and leaves
/// all but one unit of a new window.
pub proof fn lemma_window_refills(s: RateLimit, now: u64)
    requires
        window_elapsed(s.window_start, now),
    ensures
        checked(s, now) == (RateLimit {
            remaining: (RATE_LIMIT_PER_SECOND - 1) as u32,
            window_start: now,
            consecutive_violations: 0,
        }, Ok::<(), bool>(())),
{
}

} // verus!
