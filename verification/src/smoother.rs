//! Per-sample interpolation of a parameter toward its target.
//!
//! The gain parameter is smoothed logarithmically in amplitude, which is
//! the same thing as stepping linearly in decibels; the smoother therefore
//! works on the raw milli-decibel value and divides the remaining distance
//! by the number of samples left in the window. A window of zero samples
//! means an instant parameter. Setting a new target mid-ramp continues
//! from the current value: there is no reset discontinuity.

use vstd::prelude::*;

verus! {

use crate::range::div_trunc;

/// Largest magnitude a smoothed raw value or target may have.
pub const SMOOTH_LIMIT: i64 = 1_000_000_000_000;

/// Largest smoothing window, in samples.
pub const SMOOTH_MAX_WINDOW: u32 = 100_000_000;

/// Smoothing time of the gain parameter, in milliseconds.
pub const GAIN_SMOOTH_MS: u32 = 50;

/// Ramp length in samples for a smoothing time in milliseconds:
/// `time_ms * sample_rate / 1000`.
pub fn smoothing_window(time_ms: u32, sample_rate: u32) -> (w: u32)
    requires
        time_ms <= 10_000,
        sample_rate <= 10_000_000,
    ensures
        w == time_ms * sample_rate / 1000,
        w <= SMOOTH_MAX_WINDOW,
{
    proof {
        assert((time_ms as int) * (sample_rate as int) <= 100_000_000_000) by (nonlinear_arith)
            requires
                0 <= time_ms as int <= 10_000,
                0 <= sample_rate as int <= 10_000_000,
        {}
        vstd::arithmetic::div_mod::lemma_div_is_ordered(
            (time_ms as int) * (sample_rate as int), 100_000_000_000, 1000);
        crate::range::lemma_div_nonneg((time_ms as int) * (sample_rate as int), 1000);
    }
    (((time_ms as u64) * (sample_rate as u64)) / 1000) as u32
}

pub struct Smoother {
    /// Value returned by the previous step, in raw units.
    pub current: i64,
    /// Value being approached.
    pub target: i64,
    /// Samples left until `current` must reach `target`.
    pub steps_left: u32,
    /// Full ramp length in samples after a target change; `0` is instant.
    pub window: u32,
}

impl Smoother {
    pub open spec fn wf(&self) -> bool {
        &&& -SMOOTH_LIMIT <= self.current <= SMOOTH_LIMIT
        &&& -SMOOTH_LIMIT <= self.target <= SMOOTH_LIMIT
        &&& self.steps_left <= self.window <= SMOOTH_MAX_WINDOW
    }

    /// A smoother at rest on `value` with the given ramp window.
    pub fn new(value: i64, window: u32) -> (s: Smoother)
        requires
            -SMOOTH_LIMIT <= value <= SMOOTH_LIMIT,
            window <= SMOOTH_MAX_WINDOW,
        ensures
            s.wf(),
            s == (Smoother { current: value, target: value, steps_left: 0u32, window }),
    {
        Smoother { current: value, target: value, steps_left: 0, window }
    }

    /// Begins a ramp toward `t` over the full window, continuing from the
    /// current value.
    pub fn set_target(&mut self, t: i64)
        requires
            old(self).wf(),
            -SMOOTH_LIMIT <= t <= SMOOTH_LIMIT,
        ensures
            final(self).wf(),
            *final(self) == (Smoother { target: t, steps_left: old(self).window, ..*old(self) }),
    {
        self.target = t;
        self.steps_left = self.window;
    }

    /// Advances one sample and returns the interpolated value.
    pub fn next(&mut self) -> (v: i64)
        requires
            old(self).wf(),
        ensures
            final(self).wf(),
            *final(self) == step_spec(*old(self)),
            v == final(self).current,
    {
        if self.steps_left <= 1 {
            self.current = self.target;
            self.steps_left = 0;
        } else {
            let diff: i64 = self.target - self.current;
            let k: i64 = self.steps_left as i64;
            let step: i64 = if diff >= 0 { diff / k } else { -((-diff) / k) };
            proof {
                lemma_div_trunc_bounds(diff as int, k as int);
            }
            self.current = self.current + step;
            self.steps_left = self.steps_left - 1;
        }
        self.current
    }
}

/// One smoothing step: with more than one sample left, move a proportional
/// share of the remaining distance; on the last sample (or at rest) snap
/// exactly to the target.
pub open spec fn step_spec(s: Smoother) -> Smoother {
    if s.steps_left <= 1 {
        Smoother { current: s.target, steps_left: 0u32, ..s }
    } else {
        Smoother {
            current: (s.current + div_trunc(s.target - s.current, s.steps_left as int)) as i64,
            steps_left: (s.steps_left - 1) as u32,
            ..s
        }
    }
}

/// The state after `n` smoothing steps.
pub open spec fn run_spec(s: Smoother, n: nat) -> Smoother
    decreases n,
{
    if n == 0 {
        s
    } else {
        step_spec(run_spec(s, (n - 1) as nat))
    }
}

/// A share of the distance never exceeds the distance and has its sign.
proof fn lemma_div_trunc_bounds(d: int, k: int)
    requires
        1 <= k,
        -2 * SMOOTH_LIMIT <= d <= 2 * SMOOTH_LIMIT,
    ensures
        d >= 0 ==> 0 <= div_trunc(d, k) <= d,
        d < 0 ==> d <= div_trunc(d, k) <= 0,
{
    if d >= 0 {
        vstd::arithmetic::div_mod::lemma_div_is_ordered_by_denominator(d, 1, k);
        crate::range::lemma_div_nonneg(d, k);
        assert(d / 1 == d) by {
            vstd::arithmetic::div_mod::lemma_div_multiples_vanish(d, 1);
        }
    } else {
        vstd::arithmetic::div_mod::lemma_div_is_ordered_by_denominator(-d, 1, k);
        crate::range::lemma_div_nonneg(-d, k);
        assert((-d) / 1 == -d) by {
            vstd::arithmetic::div_mod::lemma_div_multiples_vanish(-d, 1);
        }
    }
}

/// One step keeps the state well-formed, keeps the target and window, and
/// never overshoots: the new value lies between the old value and the
/// target.
pub proof fn lemma_step_no_overshoot(s: Smoother)
    requires
        s.wf(),
    ensures
        step_spec(s).wf(),
        step_spec(s).target == s.target,
        step_spec(s).window == s.window,
        s.current <= s.target ==> s.current <= step_spec(s).current <= s.target,
        s.target <= s.current ==> s.target <= step_spec(s).current <= s.current,
{
    if s.steps_left > 1 {
        lemma_div_trunc_bounds(s.target - s.current, s.steps_left as int);
    }
}

/// Convergence: after any `n >= 1` steps that cover the rest of the
/// window, the smoothed value has reached the target exactly.
pub proof fn lemma_smoother_converges(s: Smoother, n: nat)
    requires
        s.wf(),
        1 <= n,
        s.steps_left <= n,
    ensures
        run_spec(s, n).current == s.target,
        run_spec(s, n).target == s.target,
{
    lemma_run_wf(s, (n - 1) as nat);
    lemma_run_steps(s, (n - 1) as nat);
    let r = run_spec(s, (n - 1) as nat);
    assert(r.steps_left <= 1);
    assert(run_spec(s, n) == step_spec(r));
}

/// The samples left shrink by at least one per step until they hit zero.
pub proof fn lemma_run_steps(s: Smoother, n: nat)
    requires
        s.wf(),
    ensures
        run_spec(s, n).steps_left
            <= if s.steps_left > n { s.steps_left - n } else { 0 },
    decreases n,
{
    if n > 0 {
        lemma_run_steps(s, (n - 1) as nat);
    }
}

/// Every prefix of a run is well-formed and keeps the target.
pub proof fn lemma_run_wf(s: Smoother, n: nat)
    requires
        s.wf(),
    ensures
        run_spec(s, n).wf(),
        run_spec(s, n).target == s.target,
        run_spec(s, n).window == s.window,
    decreases n,
{
    if n > 0 {
        lemma_run_wf(s, (n - 1) as nat);
        lemma_step_no_overshoot(run_spec(s, (n - 1) as nat));
    }
}

/// No overshoot over a whole run: every intermediate value stays between
/// the starting value and the target.
pub proof fn lemma_smoother_no_overshoot(s: Smoother, n: nat)
    requires
        s.wf(),
    ensures
        s.current <= s.target ==> s.current <= run_spec(s, n).current <= s.target,
        s.target <= s.current ==> s.target <= run_spec(s, n).current <= s.current,
    decreases n,
{
    if n > 0 {
        lemma_smoother_no_overshoot(s, (n - 1) as nat);
        lemma_run_wf(s, (n - 1) as nat);
        lemma_step_no_overshoot(run_spec(s, (n - 1) as nat));
    }
}

} // verus!
