//! The recent motion of the cursor: a bounded, time-stamped record of its
//! positions, and the time windows over which speed and shaking are judged.
use std::collections::VecDeque;
use vstd::prelude::*;

verus! {

/// How many samples the history keeps; older ones are dropped first.
pub const MAX_HISTORY: usize = 100;

/// One recorded cursor position (`value`) and when it was recorded.
#[derive(Debug, Clone, Copy)]
pub struct Sample<T> {
    pub timestamp_ms: u64,
    pub value: T,
}

/// `samples` with `sample` appended, keeping only the newest `MAX_HISTORY`.
pub open spec fn bounded_push<T>(samples: Seq<Sample<T>>, sample: Sample<T>) -> Seq<Sample<T>> {
    let all = samples.push(sample);
    if all.len() > MAX_HISTORY {
        all.subrange(all.len() - MAX_HISTORY, all.len() as int)
    } else {
        all
    }
}

/// The timestamps of `samples`, oldest first.
pub open spec fn timestamps<T>(samples: Seq<Sample<T>>) -> Seq<u64> {
    samples.map_values(|s: Sample<T>| s.timestamp_ms)
}

/// Sample `j` is no newer than `now` and at most `window_ms` older.
pub open spec fn within_window(ts: Seq<u64>, now: u64, window_ms: u64, j: int) -> bool {
    ts[j] <= now && now - ts[j] <= window_ms
}

/// Walking back from the newest sample, every sample after `i` lies inside
/// the window, so a walk that stops at the first sample outside it looks at
/// sample `i`.
pub open spec fn walk_reaches(ts: Seq<u64>, window_ms: u64, i: int) -> bool {
    forall|j: int| i < j < ts.len() ==> within_window(ts, ts.last(), window_ms, j)
}

/// The walk back from the newest sample never meets a sample newer than the
/// newest one (its age would not be a `u64`).
pub open spec fn walk_is_defined(ts: Seq<u64>, window_ms: u64) -> bool {
    forall|i: int| 0 <= i < ts.len() && #[trigger] walk_reaches(ts, window_ms, i) ==> ts[i] <= ts.last()
}

/// Where a walk back from sample `i`, towards older samples, stops: the
/// oldest sample reached before the first one outside the window of
/// `window_ms` before the newest sample.
pub open spec fn walk_start(ts: Seq<u64>, window_ms: u64, i: int) -> int
    decreases i,
{
    if i <= 0 {
        0
    } else if within_window(ts, ts.last(), window_ms, i - 1) {
        walk_start(ts, window_ms, i - 1)
    } else {
        i
    }
}

/// The recorded motion, oldest sample first, at most `MAX_HISTORY` samples.
#[derive(Debug)]
pub struct MotionHistory<T> {
    samples: VecDeque<Sample<T>>,
}

impl<T> View for MotionHistory<T> {
    type V = Seq<Sample<T>>;

    closed spec fn view(&self) -> Seq<Sample<T>> {
        self.samples@
    }
}

impl<T> MotionHistory<T> {
    #[verifier::type_invariant]
    closed spec fn within_capacity(&self) -> bool {
        self.samples@.len() <= MAX_HISTORY
    }

    pub open spec fn stamps(&self) -> Seq<u64> {
        timestamps(self@)
    }

    /// An empty history.
    pub fn new() -> (history: Self)
        ensures
            history@ == Seq::<Sample<T>>::empty(),
    {
        MotionHistory { samples: VecDeque::with_capacity(MAX_HISTORY) }
    }

    pub fn len(&self) -> (n: usize)
        ensures
            n == self@.len(),
            n <= MAX_HISTORY,
    {
        proof {
            use_type_invariant(self);
        }
        self.samples.len()
    }

    /// Sample `i`, counted from the oldest.
    pub fn get(&self, i: usize) -> (sample: &Sample<T>)
        requires
            i < self@.len(),
        ensures
            *sample == self@[i as int],
    {
        &self.samples[i]
    }

    /// Records a sample at the newest end and drops the oldest ones while
    /// more than `MAX_HISTORY` remain.
    pub fn push(&mut self, timestamp_ms: u64, value: T)
        ensures
            final(self)@ == bounded_push(old(self)@, Sample { timestamp_ms, value }),
            final(self)@.len() <= MAX_HISTORY,
            final(self)@.last() == (Sample { timestamp_ms, value }),
    {
        let ghost all = old(self)@.push(Sample { timestamp_ms, value });
        let mut samples: VecDeque<Sample<T>> = VecDeque::new();
        std::mem::swap(&mut samples, &mut self.samples);
        samples.push_back(Sample { timestamp_ms, value });
        while samples.len() > MAX_HISTORY
            invariant
                samples@.len() >= 1,
                samples@.len() <= all.len(),
                samples@.len() >= MAX_HISTORY || samples@.len() == all.len(),
                samples@ == all.subrange(all.len() - samples@.len(), all.len() as int),
            decreases samples@.len(),
        {
            samples.pop_front();
        }
        assert(all.subrange(0, all.len() as int) =~= all);
        self.samples = samples;
    }

    /// Walks back from the newest sample while samples lie within `window_ms`
    /// of it, and gives the index of the oldest sample so reached.
    pub fn window_start(&self, window_ms: u64) -> (start: usize)
        requires
            self@.len() >= 1,
            walk_is_defined(self.stamps(), window_ms),
        ensures
            start == walk_start(self.stamps(), window_ms, self@.len() - 1),
            start < self@.len(),
            forall|j: int|
                start <= j < self@.len() ==> within_window(
                    self.stamps(),
                    self.stamps().last(),
                    window_ms,
                    j,
                ),
            start == 0 || !within_window(
                self.stamps(),
                self.stamps().last(),
                window_ms,
                start - 1,
            ),
    {
        let ghost ts = self.stamps();
        let n = self.samples.len();
        let now = self.samples[n - 1].timestamp_ms;
        let mut start: usize = n - 1;
        while start > 0
            invariant
                n == self@.len(),
                ts == self.stamps(),
                ts.len() == n,
                now == ts.last(),
                start < n,
                walk_is_defined(ts, window_ms),
                forall|j: int| start <= j < n ==> within_window(ts, now, window_ms, j),
                walk_start(ts, window_ms, n - 1) == walk_start(ts, window_ms, start as int),
            ensures
                start == 0 || !within_window(ts, now, window_ms, start - 1),
            decreases start,
        {
            let t = self.samples[start - 1].timestamp_ms;
            assert(walk_reaches(ts, window_ms, start - 1));
            assert(t == ts[start - 1]);
            if now - t <= window_ms {
                start -= 1;
            } else {
                break;
            }
        }
        start
    }

    /// The oldest sample that lies within `window_ms` of the newest one: the
    /// far end of the stretch over which shaking is measured. Only an empty
    /// history has none, since the newest sample lies within every window.
    pub fn oldest_within(&self, window_ms: u64) -> (found: Option<usize>)
        ensures
            self@.len() == 0 <==> found is None,
            found matches Some(i) ==> {
                &&& i < self@.len()
                &&& within_window(self.stamps(), self.stamps().last(), window_ms, i as int)
                &&& forall|j: int|
                    0 <= j < i ==> !within_window(self.stamps(), self.stamps().last(), window_ms, j)
            },
    {
        let ghost ts = self.stamps();
        let n = self.samples.len();
        if n == 0 {
            return None;
        }
        let now = self.samples[n - 1].timestamp_ms;
        let mut i: usize = 0;
        while i < n
            invariant
                n == self@.len(),
                ts == self.stamps(),
                ts.len() == n,
                n > 0,
                now == ts.last(),
                i <= n,
                forall|j: int| 0 <= j < i ==> !within_window(ts, now, window_ms, j),
            decreases n - i,
        {
            let t = self.samples[i].timestamp_ms;
            assert(t == ts[i as int]);
            if t <= now && now - t <= window_ms {
                return Some(i);
            }
            i += 1;
        }
        assert(within_window(ts, now, window_ms, n - 1));
        None
    }

    /// The stretch of history over which the cursor's velocity is measured:
    /// the oldest sample within `window_ms` of the newest, and the time
    /// between the two. There is none with fewer than two samples, or when
    /// no time has passed between the two.
    pub fn velocity_span(&self, window_ms: u64) -> (span: Option<(usize, u64)>)
        requires
            self@.len() >= 2 ==> walk_is_defined(self.stamps(), window_ms),
        ensures
            self@.len() < 2 ==> span is None,
            self@.len() >= 2 ==> {
                let ts = self.stamps();
                let start = walk_start(ts, window_ms, ts.len() - 1);
                let elapsed = ts.last() - ts[start];
                span == if elapsed == 0 {
                    None
                } else {
                    Some((start as usize, elapsed as u64))
                }
            },
    {
        let n = self.samples.len();
        if n < 2 {
            return None;
        }
        let start = self.window_start(window_ms);
        let now = self.samples[n - 1].timestamp_ms;
        assert(self.stamps()[start as int] == self@[start as int].timestamp_ms);
        assert(within_window(self.stamps(), self.stamps().last(), window_ms, start as int));
        let elapsed = now - self.samples[start].timestamp_ms;
        let span = if elapsed == 0 {
            None
        } else {
            Some((start, elapsed))
        };
        span
    }

    /// Whether the walk back from the newest sample over `window_ms` stays
    /// defined, which `window_start` and `velocity_span` ask of their caller.
    pub fn walk_defined(&self, window_ms: u64) -> (ok: bool)
        ensures
            self@.len() > 0 ==> ok == walk_is_defined(self.stamps(), window_ms),
            self@.len() == 0 ==> ok,
    {
        let ghost ts = self.stamps();
        let n = self.samples.len();
        if n == 0 {
            return true;
        }
        let now = self.samples[n - 1].timestamp_ms;
        let mut i: usize = n;
        while i > 0
            invariant
                n == self@.len(),
                n > 0,
                ts == self.stamps(),
                ts.len() == n,
                now == ts.last(),
                i <= n,
                forall|j: int| i <= j < n ==> within_window(ts, now, window_ms, j),
            decreases i,
        {
            i -= 1;
            let t = self.samples[i].timestamp_ms;
            assert(t == ts[i as int]);
            assert(walk_reaches(ts, window_ms, i as int));
            if t > now {
                return false;
            }
            if now - t > window_ms {
                assert forall|k: int| 0 <= k < n && #[trigger] walk_reaches(ts, window_ms, k) implies ts[k]
                    <= ts.last() by {
                    if k < i {
                        assert(within_window(ts, ts.last(), window_ms, i as int));
                        assert(false);
                    } else if k > i {
                        assert(within_window(ts, now, window_ms, k));
                    }
                }
                return true;
            }
        }
        assert forall|k: int| 0 <= k < n && #[trigger] walk_reaches(ts, window_ms, k) implies ts[k]
            <= ts.last() by {
            assert(within_window(ts, now, window_ms, k));
        }
        true
    }
}

/// The history is the newest `MAX_HISTORY` samples in the order they were
/// recorded, the sample just recorded last.
pub proof fn law_history_is_newest_samples<T>(samples: Seq<Sample<T>>, sample: Sample<T>)
    ensures
        ({
            let all = samples.push(sample);
            let kept = bounded_push(samples, sample);
            &&& kept.len() == if all.len() > MAX_HISTORY {
                MAX_HISTORY as int
            } else {
                all.len() as int
            }
            &&& kept.last() == sample
            &&& forall|i: int|
                0 <= i < kept.len() ==> #[trigger] kept[i] == all[all.len() - kept.len() + i]
        }),
{
}

/// The newest sample lies within every window, so the walk back over any
/// window starts from it.
pub proof fn law_newest_sample_in_every_window(ts: Seq<u64>, window_ms: u64)
    requires
        ts.len() > 0,
    ensures
        within_window(ts, ts.last(), window_ms, ts.len() - 1),
        walk_start(ts, window_ms, ts.len() - 1) <= ts.len() - 1,
{
    lemma_walk_start_bounded(ts, window_ms, ts.len() - 1);
}

proof fn lemma_walk_start_bounded(ts: Seq<u64>, window_ms: u64, i: int)
    ensures
        i >= 0 ==> 0 <= walk_start(ts, window_ms, i) <= i,
    decreases i,
{
    if i > 0 {
        lemma_walk_start_bounded(ts, window_ms, i - 1);
    }
}

/// Where the walk back over a window stops: every sample from there to the
/// newest lies within the window, and the one before it does not.
proof fn lemma_walk_start_stops(ts: Seq<u64>, window_ms: u64, i: int)
    requires
        0 <= i < ts.len(),
        forall|j: int| i <= j < ts.len() ==> within_window(ts, ts.last(), window_ms, j),
    ensures
        0 <= walk_start(ts, window_ms, i) <= i,
        forall|j: int|
            walk_start(ts, window_ms, i) <= j < ts.len() ==> within_window(
                ts,
                ts.last(),
                window_ms,
                j,
            ),
        walk_start(ts, window_ms, i) == 0 || !within_window(
            ts,
            ts.last(),
            window_ms,
            walk_start(ts, window_ms, i) - 1,
        ),
    decreases i,
{
    if i > 0 && within_window(ts, ts.last(), window_ms, i - 1) {
        lemma_walk_start_stops(ts, window_ms, i - 1);
    }
}

/// When the samples are in time order, the walk back over a window stops at
/// the oldest sample within the window: the stretch over which speed and
/// shaking are measured is everything recorded at most `window_ms` before
/// the newest sample.
pub proof fn law_walk_stops_at_oldest_within(ts: Seq<u64>, window_ms: u64)
    requires
        ts.len() > 0,
        forall|i: int, j: int| 0 <= i <= j < ts.len() ==> ts[i] <= ts[j],
    ensures
        0 <= walk_start(ts, window_ms, ts.len() - 1) < ts.len(),
        ts[walk_start(ts, window_ms, ts.len() - 1)] <= ts.last(),
        ts.last() - ts[walk_start(ts, window_ms, ts.len() - 1)] <= window_ms,
        forall|j: int|
            0 <= j < walk_start(ts, window_ms, ts.len() - 1) ==> ts.last() - ts[j] > window_ms,
        within_window(ts, ts.last(), window_ms, walk_start(ts, window_ms, ts.len() - 1)),
        forall|j: int|
            0 <= j < walk_start(ts, window_ms, ts.len() - 1) ==> !within_window(
                ts,
                ts.last(),
                window_ms,
                j,
            ),
{
    let n = ts.len();
    assert(within_window(ts, ts.last(), window_ms, n - 1));
    lemma_walk_start_stops(ts, window_ms, n - 1);
    let s = walk_start(ts, window_ms, n - 1);
    assert(within_window(ts, ts.last(), window_ms, s));
    assert forall|j: int| 0 <= j < s implies ts.last() - ts[j] > window_ms by {
        assert(ts[j] <= ts[s - 1]);
        assert(ts[s - 1] <= ts[n - 1]);
        assert(!within_window(ts, ts.last(), window_ms, s - 1));
    }
}

/// The walk back from the newest sample is defined for every history whose
/// samples are in time order, over every window: no sample is newer than the
/// newest one.
pub proof fn law_time_ordered_walk_is_defined(ts: Seq<u64>, window_ms: u64)
    requires
        forall|i: int, j: int| 0 <= i <= j < ts.len() ==> ts[i] <= ts[j],
    ensures
        walk_is_defined(ts, window_ms),
{
    assert forall|i: int| 0 <= i < ts.len() && #[trigger] walk_reaches(ts, window_ms, i) implies ts[i]
        <= ts.last() by {
        assert(ts[i] <= ts[ts.len() - 1]);
    }
}

/// In a time-ordered history the velocity is measured from the oldest sample
/// recorded at most `window_ms` before the newest one, over the time elapsed
/// between the two; there is none when no time has elapsed.
pub proof fn law_velocity_span_time_ordered(ts: Seq<u64>, window_ms: u64, start: int)
    requires
        ts.len() >= 2,
        forall|i: int, j: int| 0 <= i <= j < ts.len() ==> ts[i] <= ts[j],
        start == walk_start(ts, window_ms, ts.len() - 1),
    ensures
        walk_is_defined(ts, window_ms),
        0 <= start < ts.len(),
        ts[start] <= ts.last(),
        ts.last() - ts[start] <= window_ms,
        forall|j: int| 0 <= j < start ==> ts.last() - ts[j] > window_ms,
        forall|j: int| start <= j < ts.len() ==> ts.last() - ts[j] <= window_ms,
{
    law_time_ordered_walk_is_defined(ts, window_ms);
    law_walk_stops_at_oldest_within(ts, window_ms);
    assert forall|j: int| start <= j < ts.len() implies ts.last() - ts[j] <= window_ms by {
        assert(ts[start] <= ts[j]);
    }
}

/// Samples recorded more than the window before the newest one do not count:
/// putting any of them in front of a history moves the stop of the walk by
/// exactly their number, and none of them lies within the window.
pub proof fn law_older_samples_do_not_count(older: Seq<u64>, ts: Seq<u64>, window_ms: u64)
    requires
        ts.len() > 0,
        forall|k: int| 0 <= k < older.len() ==> older[k] + window_ms < ts.last(),
    ensures
        walk_start(older + ts, window_ms, older.len() + ts.len() - 1) == older.len() + walk_start(
            ts,
            window_ms,
            ts.len() - 1,
        ),
        forall|k: int|
            0 <= k < older.len() ==> !within_window(older + ts, ts.last(), window_ms, k),
{
    let all = older + ts;
    assert(all.last() == ts.last());
    lemma_walk_start_shift(older, ts, window_ms, ts.len() - 1);
}

proof fn lemma_walk_start_shift(older: Seq<u64>, ts: Seq<u64>, window_ms: u64, i: int)
    requires
        ts.len() > 0,
        0 <= i < ts.len(),
        forall|k: int| 0 <= k < older.len() ==> older[k] + window_ms < ts.last(),
    ensures
        walk_start(older + ts, window_ms, older.len() + i) == older.len() + walk_start(
            ts,
            window_ms,
            i,
        ),
    decreases i,
{
    let all = older + ts;
    assert(all.last() == ts.last());
    if i == 0 {
        if older.len() > 0 {
            assert(all[older.len() - 1] == older[older.len() - 1]);
            assert(!within_window(all, all.last(), window_ms, older.len() - 1));
        }
    } else {
        assert(all[older.len() + i - 1] == ts[i - 1]);
        lemma_walk_start_shift(older, ts, window_ms, i - 1);
    }
}

/// A sample lies within a window exactly when it was recorded no later than
/// `now` and at most `window_ms` before it.
pub proof fn law_within_window_means_recent(ts: Seq<u64>, now: u64, window_ms: u64, j: int)
    requires
        0 <= j < ts.len(),
    ensures
        within_window(ts, now, window_ms, j) <==> (ts[j] <= now && now - ts[j] <= window_ms),
{
}

} // verus!
