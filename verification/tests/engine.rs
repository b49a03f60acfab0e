use brownie::control::{
    cell_is_muted, cell_is_playing, cell_value, initial_cell, run_all, toggle_command, Command,
};
use brownie::lowpass::LowPassFilter;
use brownie::noise::NoiseGenerator;
use brownie::stream::{fill_frames, format_supported, negotiate, SampleFormat, StreamConfig, StreamError};
use brownie::{CHANGE_MAX, SCALE};

fn usable_config(format: SampleFormat) -> StreamConfig {
    StreamConfig { channels: 2, sample_rate_hz: 48_000, format }
}

#[test]
fn filter_coefficient_exact() {
    let lpf = LowPassFilter::new(40, 48_000);
    assert_eq!(lpf.alpha_num, 251_320);
    assert_eq!(lpf.alpha_den, 48_251_320);
    assert_eq!(lpf.prev_output, 0);
}

#[test]
fn filter_first_step_exact() {
    let mut lpf = LowPassFilter::new(40, 48_000);
    let out = lpf.apply(500_000);
    // (251_320 * 500_000) / 48_251_320, rounded toward the old state.
    assert_eq!(out, 2_604);
    assert_eq!(lpf.prev_output, 2_604);
}

#[test]
fn filter_converges_to_constant_input() {
    let mut lpf = LowPassFilter::new(40, 48_000);
    let c: i64 = 500_000;
    let mut out = 0;
    for _ in 0..500_000 {
        out = lpf.apply(c);
    }
    // Steady state: the remaining error is below alpha_den / alpha_num ticks.
    let eps = (48_251_320 / 251_320) + 1;
    assert!((c - out).abs() < eps);
    // And it is a fixed point: one more step does not move.
    let again = lpf.apply(c);
    assert_eq!(again, out);
}

#[test]
fn filter_decays_to_silence() {
    let mut lpf = LowPassFilter::new(40, 48_000);
    // Drive the state up, then feed silence.
    for _ in 0..500_000 {
        lpf.apply(SCALE);
    }
    let mut prev = lpf.prev_output.abs();
    let mut out = prev;
    for _ in 0..500_000 {
        out = lpf.apply(0);
        assert!(out.abs() <= prev, "distance to 0 must not grow");
        prev = out.abs();
    }
    let eps = (48_251_320 / 251_320) + 1;
    assert!(out.abs() < eps);
}

#[test]
fn generator_steps_exact() {
    let mut gen = NoiseGenerator::new(1_000);
    let out1 = gen.step(200_000, 1);
    // Walk moved to 200_000, but the envelope was still at 0: silence.
    assert_eq!(gen.current_value, 200_000);
    assert_eq!(gen.fade_pos, 2);
    assert_eq!(out1, 0);
    let out2 = gen.step(200_000, 1);
    // raw = (2 * 400_000) / 1_000 = 800; one filter step from 0 on it.
    assert_eq!(gen.current_value, 400_000);
    assert_eq!(gen.fade_pos, 4);
    assert_eq!(out2, (251_320i64 * 800) / 1_251_320);
    assert_eq!(out2, 160);
}

#[test]
fn generator_walk_clamps_at_full_scale() {
    let mut gen = NoiseGenerator::new(1_000);
    for _ in 0..20 {
        gen.step(CHANGE_MAX, 1);
    }
    assert_eq!(gen.current_value, SCALE);
    for _ in 0..40 {
        gen.step(-CHANGE_MAX, 1);
    }
    assert_eq!(gen.current_value, -SCALE);
}

#[test]
fn generator_random_walk_stays_in_range() {
    let mut gen = NoiseGenerator::new(48_000);
    for _ in 0..10_000 {
        let out = gen.next_sample(1);
        assert!(-SCALE <= gen.current_value && gen.current_value <= SCALE);
        assert!(-SCALE <= out && out <= SCALE);
    }
}

#[test]
fn generator_random_draws_vary() {
    // next_sample draws through the random source; over many samples the
    // walk must actually move (a draw stuck at one value would keep it at 0
    // or walk it monotonically).
    let mut gen = NoiseGenerator::new(48_000);
    let mut seen_nonzero = false;
    let mut seen_decrease = false;
    let mut prev = gen.current_value;
    for _ in 0..10_000 {
        gen.next_sample(1);
        if gen.current_value != 0 {
            seen_nonzero = true;
        }
        if gen.current_value < prev {
            seen_decrease = true;
        }
        prev = gen.current_value;
    }
    assert!(seen_nonzero);
    assert!(seen_decrease);
}

#[test]
fn fade_in_is_monotone_and_reaches_full() {
    let mut gen = NoiseGenerator::new(1_000);
    let cell = cell_value(Command::Unmute);
    assert!(!cell_is_muted(cell));
    let mut prev_fade = gen.fade_pos;
    for _ in 0..500 {
        gen.next_sample(cell);
        assert!(gen.fade_pos >= prev_fade, "fade-in must not fall");
        prev_fade = gen.fade_pos;
    }
    // 2 envelope units per sample: full after sample_rate / 2 samples.
    assert_eq!(gen.fade_pos, 1_000);
}

#[test]
fn fade_out_is_gradual_and_reaches_silence() {
    let mut gen = NoiseGenerator::new(1_000);
    for _ in 0..500 {
        gen.next_sample(cell_value(Command::Unmute));
    }
    assert_eq!(gen.fade_pos, 1_000);
    // Mute while the envelope is at full volume: it must ramp down, two
    // units per sample, never jumping to silence.
    let cell = cell_value(Command::Mute);
    let mut prev_fade = gen.fade_pos;
    for _ in 0..500 {
        gen.next_sample(cell);
        assert!(gen.fade_pos <= prev_fade, "fade-out must not rise");
        assert!(prev_fade - gen.fade_pos <= 2, "no jump in the envelope");
        prev_fade = gen.fade_pos;
    }
    assert_eq!(gen.fade_pos, 0);
}

#[test]
fn mute_twice_equals_mute_once() {
    let init = initial_cell();
    let once = run_all(init, &vec![Command::Mute]);
    let twice = run_all(init, &vec![Command::Mute, Command::Mute]);
    assert_eq!(once, twice);
    assert_eq!(cell_is_muted(once), cell_is_muted(twice));

    let from_unmuted = run_all(cell_value(Command::Unmute), &vec![Command::Mute, Command::Mute]);
    assert_eq!(from_unmuted, once);
}

#[test]
fn alternating_commands_last_one_wins() {
    let mut cmds = Vec::new();
    for i in 0..10 {
        if i % 2 == 0 {
            cmds.push(Command::Mute);
        } else {
            cmds.push(Command::Unmute);
        }
    }
    // Last pushed is Unmute.
    let v = run_all(initial_cell(), &cmds);
    assert_eq!(v, cell_value(Command::Unmute));
    assert!(!cell_is_muted(v));

    cmds.push(Command::Mute);
    let v2 = run_all(initial_cell(), &cmds);
    assert_eq!(v2, cell_value(Command::Mute));
    assert!(cell_is_muted(v2));
}

#[test]
fn controller_starts_muted() {
    // Default state of a fresh controller: muted, not playing.
    let v = initial_cell();
    assert!(cell_is_muted(v));
    assert!(!cell_is_playing(v));
}

#[test]
fn toggle_flips_state() {
    let start = initial_cell();
    assert_eq!(toggle_command(start), Command::Unmute);
    let after_one = run_all(start, &vec![toggle_command(start)]);
    assert!(!cell_is_muted(after_one));
    assert_eq!(toggle_command(after_one), Command::Mute);
    let after_two = run_all(after_one, &vec![toggle_command(after_one)]);
    assert!(cell_is_muted(after_two));
}

#[test]
fn playing_is_exactly_not_muted() {
    for v in [-128i8, -1, 0, 1, 2, 127] {
        assert_eq!(cell_is_playing(v), !cell_is_muted(v));
    }
}

#[test]
fn unmute_is_observable_and_starts_fade() {
    let v = run_all(initial_cell(), &vec![Command::Unmute]);
    assert!(!cell_is_muted(v));
    // The generator driven by that cell value fades up from silence.
    let mut gen = NoiseGenerator::new(1_000);
    assert_eq!(gen.fade_pos, 0);
    gen.next_sample(v);
    assert_eq!(gen.fade_pos, 2);
    gen.next_sample(v);
    assert_eq!(gen.fade_pos, 4);
}

#[test]
fn negotiate_no_device() {
    assert_eq!(
        negotiate(false, None),
        Err(StreamError::DeviceNotFound)
    );
    assert_eq!(
        negotiate(false, Some(usable_config(SampleFormat::F32))),
        Err(StreamError::DeviceNotFound)
    );
}

#[test]
fn negotiate_no_config() {
    assert_eq!(negotiate(true, None), Err(StreamError::ConfigUnavailable));
    let zero_channels = StreamConfig { channels: 0, sample_rate_hz: 48_000, format: SampleFormat::F32 };
    assert_eq!(
        negotiate(true, Some(zero_channels)),
        Err(StreamError::ConfigUnavailable)
    );
    let zero_rate = StreamConfig { channels: 2, sample_rate_hz: 0, format: SampleFormat::F32 };
    assert_eq!(
        negotiate(true, Some(zero_rate)),
        Err(StreamError::ConfigUnavailable)
    );
}

#[test]
fn negotiate_unsupported_format() {
    // An unknown sample representation is fatal to stream startup ...
    assert_eq!(
        negotiate(true, Some(usable_config(SampleFormat::Other))),
        Err(StreamError::UnsupportedFormat)
    );
    // ... and the control protocol stays usable for status queries.
    assert!(cell_is_muted(initial_cell()));
    assert!(!cell_is_muted(run_all(initial_cell(), &vec![Command::Unmute])));
}

#[test]
fn negotiate_accepts_every_covered_format() {
    let formats = [
        SampleFormat::I8,
        SampleFormat::I16,
        SampleFormat::I32,
        SampleFormat::I64,
        SampleFormat::U8,
        SampleFormat::U16,
        SampleFormat::U32,
        SampleFormat::U64,
        SampleFormat::F32,
        SampleFormat::F64,
    ];
    for f in formats {
        assert!(format_supported(f));
        assert_eq!(negotiate(true, Some(usable_config(f))), Ok(usable_config(f)));
    }
    assert!(!format_supported(SampleFormat::Other));
}

#[test]
fn stream_build_failure_is_distinct() {
    // The device layer maps a rejected stream construction onto this
    // variant; it is never produced by negotiation itself.
    let e = StreamError::StreamBuildFailure;
    assert_ne!(e, StreamError::UnsupportedFormat);
    assert_ne!(e, StreamError::DeviceNotFound);
    assert_ne!(e, StreamError::ConfigUnavailable);
}

#[test]
fn buffer_duplicates_sample_across_channels() {
    let mut gen = NoiseGenerator::new(48_000);
    let channels = 2;
    let frames = 3;
    let buf = fill_frames(&mut gen, frames, channels, 1);
    assert_eq!(buf.len(), frames * channels);
    for f in 0..frames {
        for c in 0..channels {
            assert_eq!(buf[f * channels + c], buf[f * channels]);
        }
    }
    // Samples stay within full scale.
    for s in &buf {
        assert!(-SCALE <= *s && *s <= SCALE);
    }
}

#[test]
fn buffer_advances_fade_once_per_frame() {
    let mut gen = NoiseGenerator::new(1_000);
    let buf = fill_frames(&mut gen, 5, 4, 1);
    assert_eq!(buf.len(), 20);
    // One envelope step of +2 per frame, not per channel slot.
    assert_eq!(gen.fade_pos, 10);
}
