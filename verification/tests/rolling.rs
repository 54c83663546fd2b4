use st_conductor::rolling::{compute_rolling_update_at, get_incremented_bar_beat, RollingUpdate};

/// Beat timing at a fixed tempo with two half-beats per beat: the frame of
/// the boundary after `(bar, beat)` and the whole ticks (of 1920 per beat)
/// that one period of `nframes` frames spans.
fn timing(nframes: u32, frame_rate: u32, bar: i32, beat: i32, beats_per_bar: f32, tempo: f64) -> (u64, i32) {
    let frames_per_beat = frame_rate as f64 * 60.0 / tempo * 2.0;
    let abs_beat = (bar - 1) as f64 * beats_per_bar as f64 + beat as f64;
    let next_beat_frame = ((abs_beat + 1.0) * frames_per_beat) as u64;
    let periods_per_beat = frames_per_beat / nframes as f64;
    let ticks_per_period = 1920.0 / periods_per_beat;
    (next_beat_frame, ticks_per_period as i32)
}

fn update_at(
    nframes: u32,
    frame_rate: u32,
    current_frame: u32,
    bar: i32,
    beat: i32,
    tick: i32,
    beats_per_bar: f32,
    tempo: f64,
) -> RollingUpdate {
    let (next_beat_frame, ticks_per_period) = timing(nframes, frame_rate, bar, beat, beats_per_bar, tempo);
    compute_rolling_update_at(
        nframes,
        current_frame,
        bar,
        beat,
        tick,
        beats_per_bar as u16,
        next_beat_frame,
        ticks_per_period,
    )
}

#[test]
fn increment_within_bar() {
    assert_eq!(get_incremented_bar_beat(1, 1, 4), (1, 2));
    assert_eq!(get_incremented_bar_beat(1, 3, 4), (1, 4));
}

#[test]
fn increment_wraps_to_next_bar() {
    assert_eq!(get_incremented_bar_beat(1, 4, 4), (2, 1));
    assert_eq!(get_incremented_bar_beat(5, 7, 7), (6, 1));
}

#[test]
fn increment_handles_odd_meter() {
    assert_eq!(get_incremented_bar_beat(2, 6, 7), (2, 7));
    assert_eq!(get_incremented_bar_beat(2, 7, 7), (3, 1));
}

#[test]
fn rolling_update_does_not_cross_beat_within_short_cycle() {
    let u = update_at(1024, 48000, 0, 1, 1, 0, 4.0, 120.0);
    assert_eq!(u.next_beat_frame, 96_000);
    assert_eq!(u.end_frame, 1024);
    assert!(!u.crossed_beat, "1024-frame cycle should not cross beat at 96000");
    assert_eq!(u.bar, 1);
    assert_eq!(u.beat, 1);
    assert!(u.tick > 0, "tick should advance within the beat");
}

#[test]
fn rolling_update_crosses_beat_when_cycle_spans_boundary() {
    let u = update_at(100_000, 48000, 0, 1, 1, 0, 4.0, 120.0);
    assert_eq!(u.next_beat_frame, 96_000);
    assert_eq!(u.end_frame, 100_000);
    assert!(u.crossed_beat);
    assert_eq!(u.bar, 1);
    assert_eq!(u.beat, 2);
    assert_eq!(u.tick, 0);
}

#[test]
fn rolling_update_crosses_bar_boundary() {
    let u = update_at(300_000, 48000, 0, 1, 4, 0, 4.0, 120.0);
    assert_eq!(u.next_beat_frame, 240_000);
    assert!(u.crossed_beat);
    assert_eq!(u.bar, 2);
    assert_eq!(u.beat, 1);
    assert_eq!(u.tick, 0);
}

#[test]
fn next_beat_frame_sequence_is_strictly_monotonic() {
    const FRAME_RATE: u32 = 48_000;
    const TEMPO: f64 = 120.0;
    const BEATS_PER_BAR: f32 = 4.0;
    const NFRAMES: u32 = 1024;
    const TOTAL_CYCLES: u32 = 4000;

    let mut bar = 1i32;
    let mut beat = 1i32;
    let mut tick = 0i32;
    let mut current_frame: u32 = 0;
    let mut last_unique: u64 = 0;
    let mut distinct_beats = 0u64;

    for _ in 0..TOTAL_CYCLES {
        let u = update_at(NFRAMES, FRAME_RATE, current_frame, bar, beat, tick, BEATS_PER_BAR, TEMPO);
        if u.next_beat_frame != last_unique {
            assert!(
                u.next_beat_frame > last_unique,
                "next_beat_frame regressed: was {}, now {}",
                last_unique,
                u.next_beat_frame
            );
            last_unique = u.next_beat_frame;
            distinct_beats += 1;
        }
        bar = u.bar;
        beat = u.beat;
        tick = u.tick;
        current_frame = u.end_frame as u32;
    }

    assert!(
        distinct_beats > 50,
        "expected many distinct beats in the simulation, got {}",
        distinct_beats
    );
}

#[test]
fn next_beat_frame_monotonic_at_fast_tempo() {
    const FRAME_RATE: u32 = 48_000;
    const TEMPO: f64 = 240.0;
    const BEATS_PER_BAR: f32 = 7.0;
    const NFRAMES: u32 = 256;
    const TOTAL_CYCLES: u32 = 8000;

    let mut bar = 1i32;
    let mut beat = 1i32;
    let mut tick = 0i32;
    let mut current_frame: u32 = 0;
    let mut last_unique: u64 = 0;

    for _ in 0..TOTAL_CYCLES {
        let u = update_at(NFRAMES, FRAME_RATE, current_frame, bar, beat, tick, BEATS_PER_BAR, TEMPO);
        if u.next_beat_frame != last_unique {
            assert!(
                u.next_beat_frame > last_unique,
                "regressed at tempo={} meter={}: {} -> {}",
                TEMPO,
                BEATS_PER_BAR,
                last_unique,
                u.next_beat_frame
            );
            last_unique = u.next_beat_frame;
        }
        bar = u.bar;
        beat = u.beat;
        tick = u.tick;
        current_frame = u.end_frame as u32;
    }
}

#[test]
fn rolling_update_accumulates_two_periods_of_ticks() {
    // 1024 frames at 48 kHz and 120 BPM span 40 whole ticks per period.
    let u = compute_rolling_update_at(1024, 2048, 3, 2, 100, 4, 96_000, 40);
    assert_eq!(
        u,
        RollingUpdate { next_beat_frame: 96_000, bar: 3, beat: 2, tick: 180, end_frame: 3072, crossed_beat: false }
    );
}

#[test]
fn rolling_update_crosses_exactly_at_boundary() {
    // A cycle that ends exactly on the boundary frame crosses it.
    let u = compute_rolling_update_at(1000, 95_000, 1, 2, 500, 4, 96_000, 40);
    assert_eq!(
        u,
        RollingUpdate { next_beat_frame: 96_000, bar: 1, beat: 3, tick: 0, end_frame: 96_000, crossed_beat: true }
    );
    // One frame short of it does not.
    let v = compute_rolling_update_at(999, 95_000, 1, 2, 500, 4, 96_000, 40);
    assert!(!v.crossed_beat);
    assert_eq!(v.tick, 580);
}

#[test]
fn rolling_update_negative_ticks_per_period() {
    let u = compute_rolling_update_at(10, 0, 1, 1, 5, 4, 1_000, -3);
    assert_eq!(u.tick, -1);
}

#[test]
fn increment_single_beat_meter_and_beat_past_bar_end() {
    assert_eq!(get_incremented_bar_beat(1, 1, 1), (2, 1));
    // A beat beyond the bar's last beat also wraps to the next bar.
    assert_eq!(get_incremented_bar_beat(3, 9, 4), (4, 1));
    assert_eq!(get_incremented_bar_beat(3, 0, 4), (3, 1));
}

#[test]
fn beat_position_advances_by_crossings_over_a_run() {
    // Feed 300 cycles of 1000 frames at a boundary every 48000 frames; the
    // bar/beat position must end one beat later per crossing.
    let mut u = RollingUpdate { next_beat_frame: 0, bar: 1, beat: 1, tick: 0, end_frame: 0, crossed_beat: false };
    let mut crossings = 0;
    for _ in 0..300 {
        let position = (u.bar - 1) * 4 + u.beat;
        let next_beat_frame = (position as u64 + 1) * 48_000;
        u = compute_rolling_update_at(1000, u.end_frame as u32, u.bar, u.beat, u.tick, 4, next_beat_frame, 40);
        if u.crossed_beat {
            crossings += 1;
        }
        assert!(1 <= u.beat && u.beat <= 4);
    }
    assert_eq!(u.end_frame, 300_000);
    assert_eq!((u.bar - 1) * 4 + u.beat, 1 + crossings);
    assert_eq!(crossings, 5);
}
