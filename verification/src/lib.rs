//! Brown-noise synthesis engine.
//!
//! The library holds the verified core of a brown-noise player: a random-walk
//! noise generator, a single-pole low-pass filter, the fade envelope that
//! avoids audible clicks, the mute/unmute control protocol, and the sample
//! format negotiation for the output device. Audio samples are carried as
//! fixed-point integers: one full-scale unit is `SCALE` ticks, so a sample
//! `s` stands for the real amplitude `s / SCALE` in `[-1.0, 1.0]`.

use vstd::prelude::*;

pub mod control;
pub mod lowpass;
pub mod noise;
pub mod stream;

verus! {

/// Fixed-point scale: the number of ticks in one full-scale amplitude unit.
pub const SCALE: i64 = 1_000_000;

/// Largest per-step movement of the random walk, in ticks (0.2 full scale).
pub const CHANGE_MAX: i64 = 200_000;

/// What `clamp` means on mathematical integers.
pub open spec fn clamped(x: int, lo: int, hi: int) -> int {
    if x < lo {
        lo
    } else if x > hi {
        hi
    } else {
        x
    }
}

/// Clamp a value into `[lo, hi]`.
pub fn clamp_i64(x: i64, lo: i64, hi: i64) -> (r: i64)
    requires
        lo <= hi,
    ensures
        r == clamped(x as int, lo as int, hi as int),
{
    if x < lo {
        lo
    } else if x > hi {
        hi
    } else {
        x
    }
}

} // verus!
