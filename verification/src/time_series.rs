//! Rolling, retention-bounded history of one metric category.
//!
//! A `TimeSeries` is an append-ordered sequence of timestamped points.
//! Timestamps are strictly increasing from front to back; new points are
//! appended at the back, stale points are evicted from the front.

use vstd::prelude::*;

verus! {

/// One timestamped measurement.
pub struct DataPoint<T> {
    /// Milliseconds on the caller's monotonic clock.
    pub timestamp_ms: u64,
    pub value: T,
}

/// Append-ordered history of one metric category.
pub struct TimeSeries<T> {
    pub points: Vec<DataPoint<T>>,
}

/// How a series changes when one point is offered to it: accepted and
/// appended if it is newer than everything stored, dropped otherwise.
pub open spec fn appended<T>(pre: TimeSeries<T>, post: TimeSeries<T>, t: u64, v: T) -> bool {
    if pre.can_append(t) {
        post.points@ == pre.points@.push(DataPoint { timestamp_ms: t, value: v })
    } else {
        post == pre
    }
}

/// How a series changes when it is evicted at `now_ms` with window
/// `retention_ms`: exactly the stale prefix is removed, every survivor is
/// within the window, and the order invariant still holds.
pub open spec fn evicted<T>(
    pre: TimeSeries<T>,
    post: TimeSeries<T>,
    now_ms: u64,
    retention_ms: u64,
) -> bool {
    &&& post.wf()
    &&& forall|i: int|
        0 <= i < post.points@.len() ==> #[trigger] post.points@[i].timestamp_ms + retention_ms
            >= now_ms
    &&& exists|k: int|
        0 <= k <= pre.points@.len() && post.points@ == pre.points@.skip(k) && (forall|i: int|
            0 <= i < k ==> pre.stale_at(i, now_ms, retention_ms))
}

impl<T> TimeSeries<T> {
    /// Order invariant: timestamps are strictly increasing front-to-back.
    pub open spec fn wf(self) -> bool {
        forall|i: int, j: int|
            0 <= i < j < self.points@.len() ==> #[trigger] self.points@[i].timestamp_ms
                < #[trigger] self.points@[j].timestamp_ms
    }

    pub open spec fn len_spec(self) -> nat {
        self.points@.len()
    }

    /// Timestamp of the newest point; meaningful only when non-empty.
    pub open spec fn last_time(self) -> u64 {
        self.points@.last().timestamp_ms
    }

    /// Whether a point at `t` may be appended without breaking the order
    /// invariant.
    pub open spec fn can_append(self, t: u64) -> bool {
        self.points@.len() == 0 || self.last_time() < t
    }

    pub fn new() -> (s: Self)
        ensures
            s.wf(),
            s.points@.len() == 0,
    {
        TimeSeries { points: Vec::new() }
    }

    pub fn len(&self) -> (n: usize)
        ensures
            n == self.len_spec(),
    {
        self.points.len()
    }

    /// Appends one point, provided it is newer than everything stored.
    /// Returns whether the point was accepted; a point not newer than the
    /// newest stored one is dropped and the series is left unchanged.
    pub fn push(&mut self, timestamp_ms: u64, value: T) -> (accepted: bool)
        requires
            old(self).wf(),
        ensures
            final(self).wf(),
            appended(*old(self), *final(self), timestamp_ms, value),
            accepted == old(self).can_append(timestamp_ms),
            accepted ==> final(self).points@ == old(self).points@.push(
                DataPoint { timestamp_ms, value },
            ),
            !accepted ==> *final(self) == *old(self),
    {
        let n = self.points.len();
        if n == 0 || self.points[n - 1].timestamp_ms < timestamp_ms {
            self.points.push(DataPoint { timestamp_ms, value });
            true
        } else {
            false
        }
    }

    /// Whether the point at index `i` has outlived the retention window at
    /// time `now_ms`: its age strictly exceeds `retention_ms`.
    pub open spec fn stale_at(self, i: int, now_ms: u64, retention_ms: u64) -> bool {
        self.points@[i].timestamp_ms + retention_ms < now_ms
    }

    /// Drops every point whose age at `now_ms` strictly exceeds
    /// `retention_ms`. Because timestamps increase front-to-back, the stale
    /// points form a prefix, so the series is repeatedly stripped of its
    /// oldest point. Callable at any time, on any number of points; the
    /// series may end up empty.
    pub fn evict(&mut self, now_ms: u64, retention_ms: u64)
        requires
            old(self).wf(),
        ensures
            final(self).wf(),
            evicted(*old(self), *final(self), now_ms, retention_ms),
            // Retention invariant: every remaining point is within the window.
            forall|i: int|
                0 <= i < final(self).points@.len()
                    ==> #[trigger] final(self).points@[i].timestamp_ms + retention_ms >= now_ms,
            // Exactly the stale prefix is removed; the survivors keep their order.
            exists|k: int|
                0 <= k <= old(self).points@.len()
                    && final(self).points@ == old(self).points@.skip(k)
                    && (forall|i: int| 0 <= i < k ==> old(self).stale_at(i, now_ms, retention_ms)),
    {
        let ghost orig = self.points@;
        let n = self.points.len();
        let mut k: usize = 0;
        loop
            invariant
                k <= n,
                n == self.points@.len(),
                self.points@ == orig,
                old(self).wf(),
                forall|i: int|
                    0 <= i < k ==> #[trigger] orig[i].timestamp_ms + retention_ms < now_ms,
            ensures
                k <= n,
                self.points@ == orig,
                forall|i: int|
                    0 <= i < k ==> #[trigger] orig[i].timestamp_ms + retention_ms < now_ms,
                k < n ==> orig[k as int].timestamp_ms + retention_ms >= now_ms,
            decreases n - k,
        {
            if k >= n {
                break;
            }
            let ts = self.points[k].timestamp_ms;
            if now_ms > retention_ms && ts < now_ms - retention_ms {
                k = k + 1;
            } else {
                break;
            }
        }
        let tail = self.points.split_off(k);
        self.points = tail;
        assert(self.points@ =~= orig.skip(k as int));
        assert forall|i: int|
            0 <= i < self.points@.len() implies #[trigger] self.points@[i].timestamp_ms
            + retention_ms >= now_ms by {
            assert(self.points@[i] == orig[k + i]);
            if i > 0 {
                assert(orig[k as int].timestamp_ms < orig[k + i].timestamp_ms);
            }
        }
        assert forall|i: int, j: int|
            0 <= i < j < self.points@.len() implies #[trigger] self.points@[i].timestamp_ms
            < #[trigger] self.points@[j].timestamp_ms by {
            assert(self.points@[i] == orig[k + i]);
            assert(self.points@[j] == orig[k + j]);
        }
    }

    /// Clears the whole history without recreating the structure.
    pub fn reset(&mut self)
        ensures
            final(self).wf(),
            final(self).points@.len() == 0,
    {
        self.points.clear();
    }
}

} // verus!
