//! Single-pole low-pass filter over fixed-point samples.
//!
//! The filter is the exponential moving average
//! `output = prev_output + alpha * (input - prev_output)` with
//! `alpha = dt / (rc + dt)`, `rc = 1 / (2 * pi * cutoff_hz)` and
//! `dt = 1 / sample_rate_hz`. In fixed-point form `alpha` is the rational
//! `alpha_num / alpha_den` with
//! `alpha_num = TWO_PI_MILLI * cutoff_hz` and
//! `alpha_den = TWO_PI_MILLI * cutoff_hz + 1000 * sample_rate_hz`,
//! where `TWO_PI_MILLI` is `2 * pi` in thousandths. The step rounds the
//! correction toward `prev_output`, so the output never overshoots the
//! input.

use vstd::prelude::*;
use crate::SCALE;
use vstd::arithmetic::div_mod::lemma_basic_div;
use vstd::arithmetic::div_mod::lemma_div_by_self;
use vstd::arithmetic::div_mod::lemma_div_is_ordered;
use vstd::arithmetic::div_mod::lemma_div_multiples_vanish;
use vstd::arithmetic::div_mod::lemma_div_pos_is_pos;
use vstd::arithmetic::mul::lemma_mul_inequality;
use vstd::arithmetic::mul::lemma_mul_nonnegative;
use vstd::arithmetic::mul::lemma_mul_upper_bound;

verus! {

/// `2 * pi` scaled by 1000, the precision used for the filter coefficient.
pub const TWO_PI_MILLI: u64 = 6283;

/// Largest accepted cutoff frequency, in Hz (the top of the audible band);
/// keeps the fixed-point coefficient arithmetic within `u64`.
pub const MAX_CUTOFF_HZ: u32 = 20_000;

/// Largest accepted sample rate, in Hz; keeps the fixed-point coefficient
/// arithmetic within `u64`.
pub const MAX_SAMPLE_RATE_HZ: u32 = 1_000_000;

/// Distance between two integers.
pub open spec fn dist(a: int, b: int) -> int {
    if a >= b {
        a - b
    } else {
        b - a
    }
}

/// How far one filter step moves the state toward the input: the fraction
/// `num / den` of the remaining distance `d`, rounded down.
pub open spec fn lpf_pull(d: int, num: int, den: int) -> int {
    (num * d) / den
}

/// One step of the filter on mathematical integers: move `prev` toward
/// `input` by `lpf_pull` of the distance. This is the fixed-point form of
/// `output = prev + alpha * (input - prev)` with `alpha = num / den`.
pub open spec fn lpf_step(prev: int, input: int, num: int, den: int) -> int {
    if input >= prev {
        prev + lpf_pull(input - prev, num, den)
    } else {
        prev - lpf_pull(prev - input, num, den)
    }
}

/// The filter state after feeding the constant `input` for `n` steps.
pub open spec fn lpf_iter(prev: int, input: int, num: int, den: int, n: nat) -> int
    decreases n,
{
    if n == 0 {
        prev
    } else {
        lpf_iter(lpf_step(prev, input, num, den), input, num, den, (n - 1) as nat)
    }
}

/// A single-pole IIR low-pass filter; `prev_output` is its entire memory.
pub struct LowPassFilter {
    pub cutoff_hz: u32,
    pub sample_rate_hz: u32,
    pub alpha_num: u64,
    pub alpha_den: u64,
    pub prev_output: i64,
}

impl LowPassFilter {
    /// The coefficient is the stated function of cutoff and sample rate,
    /// and the state is a sample in range.
    pub open spec fn wf(self) -> bool {
        &&& 0 < self.cutoff_hz <= MAX_CUTOFF_HZ
        &&& 0 < self.sample_rate_hz <= MAX_SAMPLE_RATE_HZ
        &&& self.alpha_num == TWO_PI_MILLI * self.cutoff_hz
        &&& self.alpha_den == TWO_PI_MILLI * self.cutoff_hz + 1000 * self.sample_rate_hz
        &&& -SCALE <= self.prev_output <= SCALE
    }

    /// Build a filter at rest. Zero or out-of-range frequencies are
    /// rejected by the precondition: a zero sample rate would make the
    /// coefficient meaningless.
    pub fn new(cutoff_hz: u32, sample_rate_hz: u32) -> (r: LowPassFilter)
        requires
            0 < cutoff_hz <= MAX_CUTOFF_HZ,
            0 < sample_rate_hz <= MAX_SAMPLE_RATE_HZ,
        ensures
            r.wf(),
            r.cutoff_hz == cutoff_hz,
            r.sample_rate_hz == sample_rate_hz,
            r.prev_output == 0,
    {
        let num: u64 = TWO_PI_MILLI * (cutoff_hz as u64);
        let den: u64 = num + 1000 * (sample_rate_hz as u64);
        LowPassFilter {
            cutoff_hz,
            sample_rate_hz,
            alpha_num: num,
            alpha_den: den,
            prev_output: 0,
        }
    }

    /// Feed one sample through the filter. The result is exactly one
    /// `lpf_step`, it becomes the new state, and it stays between the old
    /// state and the input, hence within full scale.
    pub fn apply(&mut self, input: i64) -> (out: i64)
        requires
            old(self).wf(),
            -SCALE <= input <= SCALE,
        ensures
            final(self).wf(),
            out == lpf_step(
                old(self).prev_output as int,
                input as int,
                old(self).alpha_num as int,
                old(self).alpha_den as int,
            ),
            final(self).prev_output == out,
            final(self).cutoff_hz == old(self).cutoff_hz,
            final(self).sample_rate_hz == old(self).sample_rate_hz,
            final(self).alpha_num == old(self).alpha_num,
            final(self).alpha_den == old(self).alpha_den,
            -SCALE <= out <= SCALE,
    {
        let prev = self.prev_output;
        let out: i64;
        if input >= prev {
            let diff: u64 = (input - prev) as u64;
            proof {
                lemma_mul_upper_bound(
                    self.alpha_num as int,
                    (TWO_PI_MILLI * MAX_CUTOFF_HZ) as int,
                    diff as int,
                    2 * SCALE,
                );
                lemma_pull_bounds(diff as int, self.alpha_num as int, self.alpha_den as int);
            }
            let step: u64 = (self.alpha_num * diff) / self.alpha_den;
            out = prev + (step as i64);
        } else {
            let diff: u64 = (prev - input) as u64;
            proof {
                lemma_mul_upper_bound(
                    self.alpha_num as int,
                    (TWO_PI_MILLI * MAX_CUTOFF_HZ) as int,
                    diff as int,
                    2 * SCALE,
                );
                lemma_pull_bounds(diff as int, self.alpha_num as int, self.alpha_den as int);
            }
            let step: u64 = (self.alpha_num * diff) / self.alpha_den;
            out = prev - (step as i64);
        }
        self.prev_output = out;
        out
    }
}

/// The pull is a genuine fraction of the distance: it is nonnegative and
/// never exceeds the distance itself.
pub proof fn lemma_pull_bounds(d: int, num: int, den: int)
    requires
        0 <= d,
        0 < num < den,
    ensures
        0 <= lpf_pull(d, num, den) <= d,
{
    lemma_mul_nonnegative(num, d);
    if num * d > 0 {
        lemma_div_pos_is_pos(num * d, den);
    } else {
        lemma_basic_div(0, den);
    }
    lemma_mul_inequality(num, den, d);
    lemma_div_is_ordered(num * d, den * d, den);
    lemma_div_multiples_vanish(d, den);
}

/// One filter step shortens the distance to the input by exactly the pull;
/// in particular the distance never grows. For a constant input this is the
/// geometric decay of the error, one step at a time.
pub proof fn lemma_step_dist(prev: int, input: int, num: int, den: int)
    requires
        0 < num < den,
    ensures
        dist(input, lpf_step(prev, input, num, den)) == dist(input, prev) - lpf_pull(
            dist(input, prev),
            num,
            den,
        ),
        dist(input, lpf_step(prev, input, num, den)) <= dist(input, prev),
{
    lemma_pull_bounds(dist(input, prev), num, den);
}

/// While the error is still at least `den / num` sample ticks, each step
/// shaves off at least one tick.
proof fn lemma_step_progress(prev: int, input: int, num: int, den: int)
    requires
        0 < num < den,
        num * dist(input, prev) >= den,
    ensures
        dist(input, lpf_step(prev, input, num, den)) <= dist(input, prev) - 1,
{
    lemma_step_dist(prev, input, num, den);
    lemma_div_by_self(den);
    lemma_div_is_ordered(den, num * dist(input, prev), den);
}

/// Once the error is below `den / num` ticks the step rounds to nothing:
/// the state is a fixed point, so the filter settles rather than
/// oscillating around the input.
pub proof fn lemma_lpf_settled(prev: int, input: int, num: int, den: int, n: nat)
    requires
        0 < num < den,
        num * dist(input, prev) < den,
    ensures
        lpf_iter(prev, input, num, den, n) == prev,
    decreases n,
{
    lemma_mul_nonnegative(num, dist(input, prev));
    lemma_basic_div(num * dist(input, prev), den);
    lemma_step_dist(prev, input, num, den);
    if n > 0 {
        assert(lpf_step(prev, input, num, den) == prev);
        lemma_lpf_settled(prev, input, num, den, (n - 1) as nat);
    }
}

/// Steady-state convergence of the filter: feed any constant input for at
/// least as many steps as the initial error in ticks, and the remaining
/// error is below `den / num` ticks (below `1 / alpha` ticks, a fraction of
/// one fixed-point unit per the coefficient). With input `0` this is the
/// decay of the state toward silence.
pub proof fn lemma_lpf_converges(prev: int, input: int, num: int, den: int, n: nat)
    requires
        0 < num < den,
        n >= dist(input, prev),
    ensures
        num * dist(input, lpf_iter(prev, input, num, den, n)) < den,
    decreases n,
{
    if num * dist(input, prev) < den {
        lemma_lpf_settled(prev, input, num, den, n);
    } else {
        lemma_step_progress(prev, input, num, den);
        let next = lpf_step(prev, input, num, den);
        lemma_mul_nonnegative(num, dist(input, prev));
        assert(dist(input, prev) >= 1);
        lemma_lpf_converges(next, input, num, den, (n - 1) as nat);
    }
}

/// The error to a constant input never grows, at any horizon: the filter
/// output trajectory stays within the band spanned by the state and the
/// input.
pub proof fn lemma_lpf_dist_nonincreasing(prev: int, input: int, num: int, den: int, n: nat)
    requires
        0 < num < den,
    ensures
        dist(input, lpf_iter(prev, input, num, den, n)) <= dist(input, prev),
    decreases n,
{
    if n > 0 {
        lemma_step_dist(prev, input, num, den);
        lemma_lpf_dist_nonincreasing(lpf_step(prev, input, num, den), input, num, den, (n - 1) as nat);
    }
}

} // verus!
