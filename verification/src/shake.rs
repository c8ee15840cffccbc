//! "Shake to find": the state machine that decides when a shake starts,
//! how long it has lasted, and when it has calmed down for long enough to end.
//!
//! How strongly the cursor is being shaken is measured on its positions;
//! the detector is told only how that measure compares with the configured
//! threshold.
use crate::history::MotionHistory;
use vstd::prelude::*;

verus! {

/// Length of the time window, in milliseconds, over which shaking is measured.
pub const SHAKE_WINDOW_MS: u64 = 200;

/// Fewest samples the history must hold before shaking is judged at all.
pub const MIN_SHAKE_SAMPLES: usize = 3;

/// The detector's state as plain values.
pub struct ShakeState {
    pub active: bool,
    /// When the current shake started.
    pub start: Option<u64>,
    /// The last time the shake was found still strong.
    pub last_update: u64,
}

/// What the magnification of the cursor becomes after one update.
#[derive(Debug, Clone, Copy, PartialEq, Eq, Structural)]
pub enum ShakeStep {
    /// Too few samples: nothing was judged and nothing changes.
    Skipped,
    /// No shake is going on: the magnification stays as it is.
    Idle,
    /// A shake is going on and has lasted `elapsed_ms`: the magnification
    /// grows with that duration and with the measured intensity.
    Magnify { elapsed_ms: u64 },
    /// The shake has ended: the magnification goes back to normal.
    Reset,
}

/// The arithmetic of an update is defined: a running shake did not start
/// after `now`, and a calm check does not look at a last update after `now`.
pub open spec fn update_defined(
    state: ShakeState,
    sample_count: int,
    now: u64,
    above_threshold: bool,
    below_half_threshold: bool,
) -> bool {
    sample_count >= MIN_SHAKE_SAMPLES ==> {
        &&& (state.active ==> (state.start matches Some(s) && s <= now))
        &&& ((state.active || above_threshold) && below_half_threshold ==> state.last_update <= now)
    }
}

/// The state after one update at time `now`.
pub open spec fn next_state(
    state: ShakeState,
    sample_count: int,
    now: u64,
    above_threshold: bool,
    below_half_threshold: bool,
    timeout_ms: u64,
) -> ShakeState {
    if sample_count < MIN_SHAKE_SAMPLES {
        state
    } else if !state.active && !above_threshold {
        state
    } else {
        let start = if state.active {
            state.start
        } else {
            Some(now)
        };
        if below_half_threshold {
            if now - state.last_update > timeout_ms {
                ShakeState { active: false, start: None, last_update: state.last_update }
            } else {
                ShakeState { active: true, start, last_update: state.last_update }
            }
        } else {
            ShakeState { active: true, start, last_update: now }
        }
    }
}

/// What one update at time `now` does to the magnification.
pub open spec fn step_of(
    state: ShakeState,
    sample_count: int,
    now: u64,
    above_threshold: bool,
    below_half_threshold: bool,
    timeout_ms: u64,
) -> ShakeStep {
    if sample_count < MIN_SHAKE_SAMPLES {
        ShakeStep::Skipped
    } else if !state.active && !above_threshold {
        ShakeStep::Idle
    } else {
        let start = if state.active {
            state.start.unwrap()
        } else {
            now
        };
        if below_half_threshold && now - state.last_update > timeout_ms {
            ShakeStep::Reset
        } else {
            ShakeStep::Magnify { elapsed_ms: (now - start) as u64 }
        }
    }
}

/// Tracks whether the cursor is being shaken.
#[derive(Debug)]
pub struct ShakeDetector {
    is_active: bool,
    shake_start: Option<u64>,
    last_update: u64,
}

impl View for ShakeDetector {
    type V = ShakeState;

    closed spec fn view(&self) -> ShakeState {
        ShakeState { active: self.is_active, start: self.shake_start, last_update: self.last_update }
    }
}

impl ShakeDetector {
    /// A shake is going on exactly when it has a start time.
    #[verifier::type_invariant]
    closed spec fn started_when_active(&self) -> bool {
        self.is_active == self.shake_start.is_some()
    }

    /// A detector that has seen no shake.
    pub fn new() -> (detector: Self)
        ensures
            detector@ == (ShakeState { active: false, start: None, last_update: 0 }),
    {
        ShakeDetector { is_active: false, shake_start: None, last_update: 0 }
    }

    pub fn is_active(&self) -> (active: bool)
        ensures
            active == self@.active,
            active == self@.start.is_some(),
    {
        proof {
            use_type_invariant(self);
        }
        self.is_active
    }

    /// Whether `update` may be asked with these arguments: whether its
    /// arithmetic on times stays defined.
    pub fn update_is_defined<T>(
        &self,
        history: &MotionHistory<T>,
        above_threshold: bool,
        below_half_threshold: bool,
    ) -> (ok: bool)
        ensures
            history@.len() > 0 ==> ok == update_defined(
                self@,
                history@.len() as int,
                history.stamps().last(),
                above_threshold,
                below_half_threshold,
            ),
    {
        proof {
            use_type_invariant(self);
        }
        let n = history.len();
        if n < MIN_SHAKE_SAMPLES {
            return true;
        }
        let now = history.get(n - 1).timestamp_ms;
        assert(now == history.stamps().last());
        let start_ok = match self.shake_start {
            Some(start) => start <= now,
            None => !self.is_active,
        };
        let calm_ok = !((self.is_active || above_threshold) && below_half_threshold)
            || self.last_update <= now;
        start_ok && calm_ok
    }

    /// Judges the newest sample of `history`. `above_threshold` tells
    /// whether the measured shake intensity exceeds the configured threshold,
    /// `below_half_threshold` whether it is below half of it. A shake starts
    /// when the intensity exceeds the threshold, and ends when, calm, more
    /// than `timeout_ms` have passed since it was last found strong.
    pub fn update<T>(
        &mut self,
        history: &MotionHistory<T>,
        above_threshold: bool,
        below_half_threshold: bool,
        timeout_ms: u64,
    ) -> (step: ShakeStep)
        requires
            history@.len() > 0 ==> update_defined(
                old(self)@,
                history@.len() as int,
                history.stamps().last(),
                above_threshold,
                below_half_threshold,
            ),
        ensures
            history@.len() < MIN_SHAKE_SAMPLES ==> final(self)@ == old(self)@ && step
                == ShakeStep::Skipped,
            history@.len() >= MIN_SHAKE_SAMPLES ==> {
                &&& final(self)@ == next_state(
                    old(self)@,
                    history@.len() as int,
                    history.stamps().last(),
                    above_threshold,
                    below_half_threshold,
                    timeout_ms,
                )
                &&& step == step_of(
                    old(self)@,
                    history@.len() as int,
                    history.stamps().last(),
                    above_threshold,
                    below_half_threshold,
                    timeout_ms,
                )
            },
            final(self)@.active == final(self)@.start.is_some(),
    {
        proof {
            use_type_invariant(&*self);
        }
        let n = history.len();
        if n < MIN_SHAKE_SAMPLES {
            return ShakeStep::Skipped;
        }
        let now = history.get(n - 1).timestamp_ms;
        assert(now == history.stamps().last());
        if !self.is_active && above_threshold {
            *self = ShakeDetector {
                is_active: true,
                shake_start: Some(now),
                last_update: self.last_update,
            };
        }
        if self.is_active {
            let start = match self.shake_start {
                Some(start) => start,
                None => now,
            };
            let elapsed_ms = now - start;
            if below_half_threshold {
                if now - self.last_update > timeout_ms {
                    *self = ShakeDetector {
                        is_active: false,
                        shake_start: None,
                        last_update: self.last_update,
                    };
                    return ShakeStep::Reset;
                }
            } else {
                self.last_update = now;
            }
            ShakeStep::Magnify { elapsed_ms }
        } else {
            ShakeStep::Idle
        }
    }
}

/// A shake starts only when the measured intensity exceeds the threshold.
pub proof fn law_shake_starts_only_above_threshold(
    state: ShakeState,
    sample_count: int,
    now: u64,
    above_threshold: bool,
    below_half_threshold: bool,
    timeout_ms: u64,
)
    requires
        !state.active,
        next_state(state, sample_count, now, above_threshold, below_half_threshold, timeout_ms).active,
    ensures
        above_threshold,
        sample_count >= MIN_SHAKE_SAMPLES,
{
}

/// A shake ends only when the intensity has dropped below half the threshold
/// and more than the timeout has passed since it was last found strong; the
/// magnification is then reset.
pub proof fn law_shake_ends_only_after_calm_timeout(
    state: ShakeState,
    sample_count: int,
    now: u64,
    above_threshold: bool,
    below_half_threshold: bool,
    timeout_ms: u64,
)
    requires
        state.active,
        !next_state(state, sample_count, now, above_threshold, below_half_threshold, timeout_ms).active,
    ensures
        sample_count >= MIN_SHAKE_SAMPLES,
        below_half_threshold,
        now - state.last_update > timeout_ms,
        step_of(state, sample_count, now, above_threshold, below_half_threshold, timeout_ms)
            == ShakeStep::Reset,
{
}

/// While the intensity stays at or above half the threshold, a running (or
/// just started) shake goes on, remembers `now` as the last time it was strong,
/// and the cursor is magnified.
pub proof fn law_strong_shake_continues(
    state: ShakeState,
    sample_count: int,
    now: u64,
    above_threshold: bool,
    timeout_ms: u64,
)
    requires
        sample_count >= MIN_SHAKE_SAMPLES,
        state.active || above_threshold,
    ensures
        next_state(state, sample_count, now, above_threshold, false, timeout_ms).active,
        next_state(state, sample_count, now, above_threshold, false, timeout_ms).last_update == now,
        step_of(state, sample_count, now, above_threshold, false, timeout_ms) is Magnify,
{
}

/// With enough samples, the cursor is magnified exactly while a shake is going
/// on after the update, by the time elapsed since that shake started; a shake
/// has a start time exactly while it goes on.
pub proof fn law_magnified_exactly_while_shaking(
    state: ShakeState,
    sample_count: int,
    now: u64,
    above_threshold: bool,
    below_half_threshold: bool,
    timeout_ms: u64,
)
    requires
        state.active == state.start.is_some(),
        update_defined(state, sample_count, now, above_threshold, below_half_threshold),
    ensures
        ({
            let next = next_state(
                state,
                sample_count,
                now,
                above_threshold,
                below_half_threshold,
                timeout_ms,
            );
            let step = step_of(
                state,
                sample_count,
                now,
                above_threshold,
                below_half_threshold,
                timeout_ms,
            );
            &&& next.active == next.start.is_some()
            &&& sample_count >= MIN_SHAKE_SAMPLES ==> (next.active <==> step is Magnify)
            &&& step matches ShakeStep::Magnify { elapsed_ms } ==> next.start matches Some(s)
                && s <= now && elapsed_ms == now - s
        }),
{
}

/// With too few samples an update changes nothing.
pub proof fn law_too_few_samples_change_nothing(
    state: ShakeState,
    sample_count: int,
    now: u64,
    above_threshold: bool,
    below_half_threshold: bool,
    timeout_ms: u64,
)
    requires
        sample_count < MIN_SHAKE_SAMPLES,
    ensures
        next_state(state, sample_count, now, above_threshold, below_half_threshold, timeout_ms)
            == state,
        step_of(state, sample_count, now, above_threshold, below_half_threshold, timeout_ms)
            == ShakeStep::Skipped,
{
}

/// A running shake that has calmed down ends exactly when more than the
/// timeout has passed since it was last found strong; otherwise it goes on.
pub proof fn law_calm_shake_ends_exactly_after_timeout(
    state: ShakeState,
    sample_count: int,
    now: u64,
    above_threshold: bool,
    timeout_ms: u64,
)
    requires
        state.active,
        sample_count >= MIN_SHAKE_SAMPLES,
    ensures
        ({
            let next = next_state(state, sample_count, now, above_threshold, true, timeout_ms);
            let step = step_of(state, sample_count, now, above_threshold, true, timeout_ms);
            &&& now - state.last_update > timeout_ms ==> !next.active && step == ShakeStep::Reset
            &&& now - state.last_update <= timeout_ms ==> next.active && step is Magnify
                && next.last_update == state.last_update
        }),
{
}

/// During one shake the time it has lasted never shrinks: of two updates in
/// a row that both magnify, the later one (at a time no earlier) reports at
/// least as long a shake.
pub proof fn law_shake_duration_grows(
    state: ShakeState,
    sample_count: int,
    now: u64,
    above_threshold: bool,
    below_half_threshold: bool,
    later_count: int,
    later: u64,
    later_above: bool,
    later_below_half: bool,
    timeout_ms: u64,
)
    requires
        state.active == state.start.is_some(),
        update_defined(state, sample_count, now, above_threshold, below_half_threshold),
        now <= later,
        step_of(state, sample_count, now, above_threshold, below_half_threshold, timeout_ms) is Magnify,
        step_of(
            next_state(state, sample_count, now, above_threshold, below_half_threshold, timeout_ms),
            later_count,
            later,
            later_above,
            later_below_half,
            timeout_ms,
        ) is Magnify,
    ensures
        step_of(state, sample_count, now, above_threshold, below_half_threshold, timeout_ms)->elapsed_ms
            <= step_of(
            next_state(state, sample_count, now, above_threshold, below_half_threshold, timeout_ms),
            later_count,
            later,
            later_above,
            later_below_half,
            timeout_ms,
        )->elapsed_ms,
{
}

/// A shake that goes on keeps the time it started, and the duration it
/// reports is the time elapsed since then.
pub proof fn law_running_shake_keeps_its_start(
    state: ShakeState,
    sample_count: int,
    now: u64,
    above_threshold: bool,
    below_half_threshold: bool,
    timeout_ms: u64,
    started: u64,
)
    requires
        sample_count >= MIN_SHAKE_SAMPLES,
        state.active,
        state.start == Some(started),
        started <= now,
        next_state(state, sample_count, now, above_threshold, below_half_threshold, timeout_ms).active,
    ensures
        next_state(state, sample_count, now, above_threshold, below_half_threshold, timeout_ms).start
            == Some(started),
        step_of(state, sample_count, now, above_threshold, below_half_threshold, timeout_ms)
            == (ShakeStep::Magnify { elapsed_ms: (now - started) as u64 }),
{
}

/// A shake that starts starts now: it reports no elapsed time yet, and later
/// updates measure from this moment.
pub proof fn law_new_shake_starts_now(
    state: ShakeState,
    sample_count: int,
    now: u64,
    below_half_threshold: bool,
    timeout_ms: u64,
)
    requires
        sample_count >= MIN_SHAKE_SAMPLES,
        !state.active,
        next_state(state, sample_count, now, true, below_half_threshold, timeout_ms).active,
    ensures
        next_state(state, sample_count, now, true, below_half_threshold, timeout_ms).start == Some(now),
        step_of(state, sample_count, now, true, below_half_threshold, timeout_ms)
            == (ShakeStep::Magnify { elapsed_ms: 0 }),
{
}

/// Without a shake going on, an intensity that does not exceed the threshold
/// changes nothing and leaves the magnification alone.
pub proof fn law_no_shake_below_threshold(
    state: ShakeState,
    sample_count: int,
    now: u64,
    below_half_threshold: bool,
    timeout_ms: u64,
)
    requires
        sample_count >= MIN_SHAKE_SAMPLES,
        !state.active,
    ensures
        next_state(state, sample_count, now, false, below_half_threshold, timeout_ms) == state,
        step_of(state, sample_count, now, false, below_half_threshold, timeout_ms) == ShakeStep::Idle,
{
}

/// An update may be asked whenever its time arithmetic stays defined: a
/// running shake started no later than `now`, and a calm check does not look
/// at a last strong moment after `now`. Nothing else is asked of it.
pub proof fn law_update_defined_by_time_alone(
    state: ShakeState,
    sample_count: int,
    now: u64,
    above_threshold: bool,
    below_half_threshold: bool,
)
    requires
        state.active ==> (state.start matches Some(s) && s <= now),
        (state.active || above_threshold) && below_half_threshold ==> state.last_update <= now,
    ensures
        update_defined(state, sample_count, now, above_threshold, below_half_threshold),
{
}

/// A detector that has not started a shake since it was made can be updated
/// with any judgement at any time.
pub proof fn law_fresh_detector_update_defined(
    sample_count: int,
    now: u64,
    above_threshold: bool,
    below_half_threshold: bool,
)
    ensures
        update_defined(
            ShakeState { active: false, start: None, last_update: 0 },
            sample_count,
            now,
            above_threshold,
            below_half_threshold,
        ),
{
}

} // verus!
