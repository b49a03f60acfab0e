//! Brown-noise generator: random walk, fade envelope, and filtering.
//!
//! Each sample is produced in four steps: the random walk moves by a draw
//! in `[-CHANGE_MAX, CHANGE_MAX]` ticks and is clamped to full scale; the
//! raw sample is the walk value scaled by the fade envelope; the envelope
//! advances at a rate set by the shared control cell (toward full volume
//! while the cell is positive, back toward silence otherwise); and the raw
//! sample runs through the low-pass filter.
//!
//! The envelope position is a count of `1 / sample_rate_hz` units: the
//! real-valued envelope is `fade_pos / sample_rate_hz` in `[0, 1]`, and a
//! cell value `v` moves it by `2 * v / sample_rate_hz` per sample, the
//! fixed-point form of the fade rate `2 * volume / sample_rate`.

use vstd::prelude::*;
use crate::CHANGE_MAX;
use crate::SCALE;
use crate::clamp_i64;
use crate::clamped;
use crate::lowpass::LowPassFilter;
use crate::lowpass::MAX_SAMPLE_RATE_HZ;
use crate::lowpass::dist;
use crate::lowpass::lpf_step;
use vstd::arithmetic::div_mod::lemma_div_is_ordered;
use vstd::arithmetic::div_mod::lemma_div_multiples_vanish;
use vstd::arithmetic::div_mod::lemma_div_pos_is_pos;
use vstd::arithmetic::div_mod::lemma_basic_div;
use vstd::arithmetic::mul::lemma_mul_nonnegative;
use vstd::arithmetic::mul::lemma_mul_upper_bound;
use vstd::arithmetic::mul::lemma_mul_inequality;
use crate::control::Command;
use crate::control::lemma_last_command_wins;
use crate::control::run_commands;

verus! {

/// Cutoff frequency of the smoothing filter, in Hz.
pub const CUTOFF_HZ: u32 = 40;

/// One step of the brown-noise random walk: integrate the draw and reflect
/// at full scale by clamping.
pub open spec fn walk_next(current: int, change: int) -> int {
    clamped(current + change, -SCALE as int, SCALE as int)
}

/// The walk after a whole sequence of draws.
pub open spec fn walk_iter(current: int, changes: Seq<int>) -> int
    decreases changes.len(),
{
    if changes.len() == 0 {
        current
    } else {
        walk_iter(walk_next(current, changes[0]), changes.subrange(1, changes.len() as int))
    }
}

/// One step of the fade envelope under control cell value `cell`:
/// move by `2 * cell` envelope units and clamp to `[0, full]`.
pub open spec fn fade_next(fade: int, cell: int, full: int) -> int {
    clamped(fade + 2 * cell, 0, full)
}

/// The envelope after `n` samples with the control cell held at `cell`.
pub open spec fn fade_iter(fade: int, cell: int, full: int, n: nat) -> int
    decreases n,
{
    if n == 0 {
        fade
    } else {
        fade_iter(fade_next(fade, cell, full), cell, full, (n - 1) as nat)
    }
}

/// The raw sample: the walk value scaled by the envelope `fade / full`,
/// rounded toward zero.
pub open spec fn raw_of(fade: int, current: int, full: int) -> int {
    if current >= 0 {
        (fade * current) / full
    } else {
        -((fade * (-current)) / full)
    }
}

/// The brown-noise source: walk accumulator, fade envelope, and the filter
/// it feeds. Owned by a single thread; nothing here is shared.
pub struct NoiseGenerator {
    pub current_value: i64,
    pub fade_pos: i64,
    pub sample_rate_hz: u32,
    pub filter: LowPassFilter,
}

impl NoiseGenerator {
    /// The walk is within full scale, the envelope within `[0, 1]` in
    /// envelope units, and the filter is consistent.
    pub open spec fn wf(self) -> bool {
        &&& 0 < self.sample_rate_hz <= MAX_SAMPLE_RATE_HZ
        &&& -SCALE <= self.current_value <= SCALE
        &&& 0 <= self.fade_pos <= self.sample_rate_hz
        &&& self.filter.wf()
        &&& self.filter.sample_rate_hz == self.sample_rate_hz
    }

    /// A generator at rest: silent walk, envelope at zero, filter at rest,
    /// so the stream ramps up from silence instead of starting abruptly.
    pub fn new(sample_rate_hz: u32) -> (r: NoiseGenerator)
        requires
            0 < sample_rate_hz <= MAX_SAMPLE_RATE_HZ,
        ensures
            r.wf(),
            r.current_value == 0,
            r.fade_pos == 0,
            r.sample_rate_hz == sample_rate_hz,
            r.filter.prev_output == 0,
    {
        NoiseGenerator {
            current_value: 0,
            fade_pos: 0,
            sample_rate_hz,
            filter: LowPassFilter::new(CUTOFF_HZ, sample_rate_hz),
        }
    }

    /// Produce one sample from a given walk draw and the control cell value
    /// read for this sample. Every part of the result is pinned: the walk
    /// integrates and clamps the draw, the raw sample is the new walk value
    /// scaled by the envelope before this step, the envelope then advances
    /// by `2 * cell` units, and the output is one filter step on the raw
    /// sample.
    pub fn step(&mut self, change: i64, cell: i8) -> (out: i64)
        requires
            old(self).wf(),
            -CHANGE_MAX <= change <= CHANGE_MAX,
        ensures
            final(self).wf(),
            final(self).current_value == walk_next(old(self).current_value as int, change as int),
            final(self).fade_pos == fade_next(
                old(self).fade_pos as int,
                cell as int,
                old(self).sample_rate_hz as int,
            ),
            out == lpf_step(
                old(self).filter.prev_output as int,
                raw_of(
                    old(self).fade_pos as int,
                    walk_next(old(self).current_value as int, change as int),
                    old(self).sample_rate_hz as int,
                ),
                old(self).filter.alpha_num as int,
                old(self).filter.alpha_den as int,
            ),
            final(self).filter.prev_output == out,
            final(self).sample_rate_hz == old(self).sample_rate_hz,
            final(self).filter.alpha_num == old(self).filter.alpha_num,
            final(self).filter.alpha_den == old(self).filter.alpha_den,
            -SCALE <= out <= SCALE,
    {
        let c = clamp_i64(self.current_value + change, -SCALE, SCALE);
        self.current_value = c;

        let k = self.fade_pos;
        let sr: u64 = self.sample_rate_hz as u64;
        let raw: i64;
        if c >= 0 {
            proof {
                lemma_raw_scale_bounds(k as int, c as int, sr as int);
            }
            let prod: u64 = (k as u64) * (c as u64);
            raw = (prod / sr) as i64;
        } else {
            proof {
                lemma_raw_scale_bounds(k as int, -(c as int), sr as int);
            }
            let prod: u64 = (k as u64) * ((-c) as u64);
            raw = -((prod / sr) as i64);
        }

        let delta: i64 = 2 * (cell as i64);
        self.fade_pos = clamp_i64(k + delta, 0, self.sample_rate_hz as i64);

        self.filter.apply(raw)
    }

    /// Produce one sample, drawing the walk step at random. The draw is the
    /// only part left open: whatever comes back, the result is one genuine
    /// `step` on some draw within range, the envelope moves exactly as
    /// `fade_next` says, and the sample stays within full scale.
    pub fn next_sample(&mut self, cell: i8) -> (out: i64)
        requires
            old(self).wf(),
        ensures
            final(self).wf(),
            final(self).fade_pos == fade_next(
                old(self).fade_pos as int,
                cell as int,
                old(self).sample_rate_hz as int,
            ),
            final(self).sample_rate_hz == old(self).sample_rate_hz,
            final(self).filter.alpha_num == old(self).filter.alpha_num,
            final(self).filter.alpha_den == old(self).filter.alpha_den,
            -SCALE <= out <= SCALE,
            exists|change: int|
                -CHANGE_MAX <= change <= CHANGE_MAX && final(self).current_value == #[trigger] walk_next(
                    old(self).current_value as int,
                    change,
                ) && out == lpf_step(
                    old(self).filter.prev_output as int,
                    raw_of(
                        old(self).fade_pos as int,
                        walk_next(old(self).current_value as int, change),
                        old(self).sample_rate_hz as int,
                    ),
                    old(self).filter.alpha_num as int,
                    old(self).filter.alpha_den as int,
                ) && final(self).filter.prev_output == out,
    {
        let draw: u32 = draw_below(2 * (CHANGE_MAX as u32) + 1);
        let change: i64 = (draw as i64) - CHANGE_MAX;
        self.step(change, cell)
    }
}

/// Relies on rand's `Rng::gen_range` on the thread-local generator from
/// `rand::thread_rng`: for a non-empty range `0..n` the result lies in
/// `[0, n)`, and the call does not panic.
#[verifier::external_body]
fn draw_below(n: u32) -> (r: u32)
    requires
        n > 0,
    ensures
        r < n,
{
    rand::Rng::gen_range(&mut rand::thread_rng(), 0..n)
}

/// Scaling by the envelope keeps a sample within full scale: with
/// `0 <= fade <= full` and `0 <= value <= SCALE`, the scaled value
/// `(fade * value) / full` is in `[0, SCALE]` (and the product fits the
/// machine word).
proof fn lemma_raw_scale_bounds(fade: int, value: int, full: int)
    requires
        0 <= fade <= full,
        0 < full <= MAX_SAMPLE_RATE_HZ,
        0 <= value <= SCALE,
    ensures
        0 <= fade * value <= MAX_SAMPLE_RATE_HZ * SCALE,
        0 <= (fade * value) / full <= SCALE,
{
    lemma_mul_nonnegative(fade, value);
    lemma_mul_upper_bound(fade, MAX_SAMPLE_RATE_HZ as int, value, SCALE as int);
    if fade * value > 0 {
        lemma_div_pos_is_pos(fade * value, full);
    } else {
        lemma_basic_div(0, full);
    }
    lemma_mul_inequality(fade, full, value);
    lemma_div_is_ordered(fade * value, full * value, full);
    lemma_div_multiples_vanish(value, full);
}

/// Clamping invariant of the random walk: however long it runs and
/// whatever the draws are, the accumulator stays within full scale.
pub proof fn lemma_walk_in_range(current: int, changes: Seq<int>)
    requires
        -SCALE <= current <= SCALE,
    ensures
        -SCALE <= walk_iter(current, changes) <= SCALE,
    decreases changes.len(),
{
    if changes.len() > 0 {
        lemma_walk_in_range(
            walk_next(current, changes[0]),
            changes.subrange(1, changes.len() as int),
        );
    }
}

/// While the control cell is positive the envelope never falls: the fade-in
/// is monotone.
pub proof fn lemma_fade_monotone_up(fade: int, cell: int, full: int, n: nat)
    requires
        0 <= fade <= full,
        cell >= 1,
    ensures
        fade <= fade_iter(fade, cell, full, n) <= full,
    decreases n,
{
    if n > 0 {
        lemma_fade_monotone_up(fade_next(fade, cell, full), cell, full, (n - 1) as nat);
    }
}

/// With the cell held at the unmute value from some point on, the envelope
/// reaches full volume within a bounded number of samples: `n` samples
/// suffice once `2 * n` covers the remaining envelope distance, so from
/// silence about half a second of samples.
pub proof fn lemma_fade_reaches_full(fade: int, full: int, n: nat)
    requires
        0 <= fade <= full,
        2 * n >= full - fade,
    ensures
        fade_iter(fade, 1, full, n) == full,
    decreases n,
{
    if n > 0 {
        lemma_fade_reaches_full(fade_next(fade, 1, full), full, (n - 1) as nat);
    }
}

/// While the control cell is at the mute value the envelope never rises,
/// and it reaches silence within a bounded number of samples: `n` samples
/// suffice once `2 * n` covers the current envelope position. Muting fades
/// out; it does not cut the signal.
pub proof fn lemma_fade_reaches_zero(fade: int, full: int, n: nat)
    requires
        0 <= fade <= full,
    ensures
        fade_iter(fade, -1, full, n) <= fade,
        2 * n >= fade ==> fade_iter(fade, -1, full, n) == 0,
    decreases n,
{
    if n > 0 {
        lemma_fade_reaches_zero(fade_next(fade, -1, full), full, (n - 1) as nat);
    }
}

/// Iterating the envelope one more sample is one more `fade_next` on the
/// result so far.
pub proof fn lemma_fade_iter_snoc(fade: int, cell: int, full: int, n: nat)
    ensures
        fade_iter(fade, cell, full, n + 1) == fade_next(fade_iter(fade, cell, full, n), cell, full),
    decreases n,
{
    assert(fade_iter(fade, cell, full, n + 1) == fade_iter(
        fade_next(fade, cell, full),
        cell,
        full,
        n,
    ));
    if n > 0 {
        lemma_fade_iter_snoc(fade_next(fade, cell, full), cell, full, (n - 1) as nat);
    }
}

/// End to end, from queue to envelope: once the worker has caught up with a
/// non-empty command queue, the cell it stored drives the fade. If the last
/// command was an unmute, the envelope is at full volume within `full / 2`
/// further samples; if it was a mute, the envelope is at silence within the
/// same bound. The commands before the last one do not matter.
pub proof fn lemma_commands_drive_fade(init: int, cmds: Seq<Command>, fade: int, full: int, n: nat)
    requires
        cmds.len() > 0,
        0 <= fade <= full,
    ensures
        cmds.last() == Command::Unmute && 2 * n >= full - fade ==> fade_iter(
            fade,
            run_commands(init, cmds),
            full,
            n,
        ) == full,
        cmds.last() == Command::Mute && 2 * n >= fade ==> fade_iter(
            fade,
            run_commands(init, cmds),
            full,
            n,
        ) == 0,
{
    lemma_last_command_wins(init, cmds);
    if cmds.last() == Command::Unmute {
        if 2 * n >= full - fade {
            lemma_fade_reaches_full(fade, full, n);
        }
    } else {
        lemma_fade_reaches_zero(fade, full, n);
    }
}

/// No clicks: one sample moves the envelope by at most two units, whichever
/// way the cell points, so the gain never jumps.
pub proof fn lemma_fade_step_bounded(fade: int, cell: int, full: int)
    requires
        0 <= fade <= full,
        -1 <= cell <= 1,
    ensures
        dist(fade_next(fade, cell, full), fade) <= 2,
{
}

} // verus!
