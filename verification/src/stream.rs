//! Output stream negotiation and buffer layout.
//!
//! Opening a stream means finding the default output device, taking its
//! default configuration, and dispatching on the sample format it asks
//! for. The device layer itself (host, device handles, callbacks) is I/O
//! owned by the caller; this module holds the decisions: which outcomes of
//! the queries are usable, which error each unusable outcome maps to, and
//! how a delivered output buffer is laid out from generator samples (one
//! mono sample per frame, duplicated into every channel).

use vstd::prelude::*;
use crate::SCALE;
use crate::lowpass::MAX_SAMPLE_RATE_HZ;
use crate::noise::NoiseGenerator;
use crate::noise::fade_iter;
use crate::noise::lemma_fade_iter_snoc;
use vstd::arithmetic::mul::lemma_mul_inequality;
use vstd::arithmetic::mul::lemma_mul_is_distributive_add_other_way;

verus! {

/// The sample representations a device may ask for. `Other` stands for any
/// representation outside this list; the device layer maps each format it
/// reports onto one of these.
#[derive(Clone, Copy, PartialEq, Eq, Structural, Debug)]
pub enum SampleFormat {
    I8,
    I16,
    I32,
    I64,
    U8,
    U16,
    U32,
    U64,
    F32,
    F64,
    Other,
}

/// Why a stream could not be opened. Each of these is fatal to stream
/// startup and is reported to whoever asked for the stream; the controller
/// stays usable for status queries regardless.
#[derive(Clone, Copy, PartialEq, Eq, Structural, Debug)]
pub enum StreamError {
    /// No default output device is present.
    DeviceNotFound,
    /// The device exposes no usable default output configuration.
    ConfigUnavailable,
    /// The negotiated sample representation is not one this engine covers.
    UnsupportedFormat,
    /// The device rejected the requested stream construction.
    StreamBuildFailure,
}

/// A device's default output configuration, as plain values.
#[derive(Clone, Copy, PartialEq, Eq, Structural, Debug)]
pub struct StreamConfig {
    pub channels: u16,
    pub sample_rate_hz: u32,
    pub format: SampleFormat,
}

/// Whether the generic callback dispatch covers a sample format.
pub open spec fn format_ok(f: SampleFormat) -> bool {
    f != SampleFormat::Other
}

/// Whether a reported configuration can drive the engine: at least one
/// channel, and a sample rate the fixed-point arithmetic accepts.
pub open spec fn config_usable(c: StreamConfig) -> bool {
    &&& c.channels > 0
    &&& 0 < c.sample_rate_hz <= MAX_SAMPLE_RATE_HZ
}

/// The callback dispatch covers exactly the listed representations.
pub fn format_supported(f: SampleFormat) -> (r: bool)
    ensures
        r == format_ok(f),
{
    match f {
        SampleFormat::Other => false,
        _ => true,
    }
}

/// Decide stream startup from what the device layer found: `device_found`
/// says whether a default output device exists, and `config` is its default
/// output configuration, if it exposed one. Success is owed exactly when a
/// device was found, a usable configuration was reported, and its format is
/// covered; each failure maps to the one error of its cause.
pub fn negotiate(device_found: bool, config: Option<StreamConfig>) -> (r: Result<
    StreamConfig,
    StreamError,
>)
    ensures
        match r {
            Ok(c) => {
                &&& device_found
                &&& config == Some(c)
                &&& config_usable(c)
                &&& format_ok(c.format)
            },
            Err(e) => match e {
                StreamError::DeviceNotFound => !device_found,
                StreamError::ConfigUnavailable => device_found && (config is None
                    || !config_usable(config->0)),
                StreamError::UnsupportedFormat => device_found && config is Some && config_usable(
                    config->0,
                ) && !format_ok(config->0.format),
                StreamError::StreamBuildFailure => false,
            },
        },
{
    if !device_found {
        return Err(StreamError::DeviceNotFound);
    }
    match config {
        None => Err(StreamError::ConfigUnavailable),
        Some(c) => {
            if c.channels == 0 || c.sample_rate_hz == 0 || c.sample_rate_hz > MAX_SAMPLE_RATE_HZ {
                Err(StreamError::ConfigUnavailable)
            } else if !format_supported(c.format) {
                Err(StreamError::UnsupportedFormat)
            } else {
                Ok(c)
            }
        },
    }
}

/// Fill one output buffer: one generator sample per frame, written into
/// every channel of that frame. The envelope advances exactly one
/// `fade_next` per frame, whatever the random draws were, and every written
/// sample is within full scale.
pub fn fill_frames(gen: &mut NoiseGenerator, frames: usize, channels: usize, cell: i8) -> (buf: Vec<
    i64,
>)
    requires
        old(gen).wf(),
        0 < channels,
        frames * channels <= usize::MAX,
    ensures
        final(gen).wf(),
        final(gen).sample_rate_hz == old(gen).sample_rate_hz,
        final(gen).fade_pos == fade_iter(
            old(gen).fade_pos as int,
            cell as int,
            old(gen).sample_rate_hz as int,
            frames as nat,
        ),
        buf@.len() == frames * channels,
        forall|f: int, c: int|
            0 <= f < frames && 0 <= c < channels ==> #[trigger] buf@[f * (channels as int) + c]
                == buf@[f * (channels as int)],
        forall|i: int| 0 <= i < buf@.len() ==> -SCALE <= #[trigger] buf@[i] <= SCALE,
{
    let ghost fade0 = gen.fade_pos as int;
    let ghost sr = gen.sample_rate_hz as int;
    let mut buf: Vec<i64> = Vec::new();
    let mut f: usize = 0;
    while f < frames
        invariant
            f <= frames,
            0 < channels,
            frames * channels <= usize::MAX,
            gen.wf(),
            gen.sample_rate_hz == old(gen).sample_rate_hz,
            sr == gen.sample_rate_hz as int,
            gen.fade_pos == fade_iter(fade0, cell as int, sr, f as nat),
            buf@.len() == f * channels,
            forall|f0: int, c0: int|
                0 <= f0 < f && 0 <= c0 < channels ==> #[trigger] buf@[f0 * (channels as int) + c0]
                    == buf@[f0 * (channels as int)],
            forall|i: int| 0 <= i < buf@.len() ==> -SCALE <= #[trigger] buf@[i] <= SCALE,
        decreases frames - f,
    {
        proof {
            lemma_mul_inequality(f as int + 1, frames as int, channels as int);
            lemma_mul_is_distributive_add_other_way(channels as int, f as int, 1);
        }
        let value = gen.next_sample(cell);
        proof {
            lemma_fade_iter_snoc(fade0, cell as int, sr, f as nat);
        }
        let ghost frame_start = buf@;
        let mut c: usize = 0;
        while c < channels
            invariant
                c <= channels,
                buf@ == frame_start + Seq::new(c as nat, |i: int| value),
            decreases channels - c,
        {
            buf.push(value);
            proof {
                assert(buf@ =~= frame_start + Seq::new((c + 1) as nat, |i: int| value));
            }
            c = c + 1;
        }
        proof {
            assert(frame_start.len() == f * channels);
            assert forall|f0: int, c0: int|
                0 <= f0 < f + 1 && 0 <= c0 < channels implies #[trigger] buf@[f0 * (channels
                as int) + c0] == buf@[f0 * (channels as int)] by {
                lemma_mul_is_distributive_add_other_way(channels as int, f0, 1);
                lemma_mul_inequality(0, f0, channels as int);
                if f0 < f {
                    lemma_mul_inequality(f0 + 1, f as int, channels as int);
                    assert(f0 * (channels as int) + c0 < frame_start.len());
                    assert(buf@[f0 * (channels as int) + c0] == frame_start[f0 * (channels as int)
                        + c0]);
                    assert(buf@[f0 * (channels as int)] == frame_start[f0 * (channels as int)]);
                } else {
                    assert(f0 == f);
                    assert(buf@[f0 * (channels as int) + c0] == value);
                    assert(buf@[f0 * (channels as int)] == value);
                }
            }
        }
        f = f + 1;
    }
    buf
}

} // verus!
