use vstd::prelude::*;

verus! {

/// Pure result of advancing the transport one process cycle: the values
/// that the timebase callback writes back into the JACK position and into
/// the shared "next beat frame" slot.
#[derive(Debug, Clone, Copy, PartialEq, Eq, Structural)]
pub struct RollingUpdate {
    /// Sample frame of the next beat boundary.
    pub next_beat_frame: u64,
    /// Next-cycle bar (1-indexed).
    pub bar: i32,
    /// Next-cycle beat within the bar (1-indexed).
    pub beat: i32,
    /// Next-cycle tick within the beat.
    pub tick: i32,
    /// Frame at the end of this process cycle.
    pub end_frame: u64,
    /// `true` if a beat boundary falls within this process cycle.
    pub crossed_beat: bool,
}

/// The bar and beat that follow `(bar, beat)` in a bar of `beats_per_bar`
/// beats: the next beat of the same bar, or beat 1 of the next bar once the
/// last beat of the bar has been reached.
pub open spec fn incremented_bar_beat(bar: int, beat: int, beats_per_bar: int) -> (int, int) {
    if beat < beats_per_bar {
        (bar, beat + 1)
    } else {
        (bar + 1, 1)
    }
}

/// Advances `(bar, beat)` by one beat in a meter of `beats_per_bar` beats
/// per bar.
pub fn get_incremented_bar_beat(bar: i32, beat: i32, beats_per_bar: u16) -> (r: (i32, i32))
    requires
        beat >= beats_per_bar ==> bar < i32::MAX,
    ensures
        r.0 == incremented_bar_beat(bar as int, beat as int, beats_per_bar as int).0,
        r.1 == incremented_bar_beat(bar as int, beat as int, beats_per_bar as int).1,
        beat_in_bar(beat as int, beats_per_bar as int) ==> {
            &&& beat_in_bar(r.1 as int, beats_per_bar as int)
            &&& beat_position(r.0 as int, r.1 as int, beats_per_bar as int) == beat_position(
                bar as int,
                beat as int,
                beats_per_bar as int,
            ) + 1
        },
        beat < 1 && beats_per_bar >= 1 ==> r.0 == bar && r.1 == beat + 1,
        beat > beats_per_bar ==> r.0 == bar + 1 && r.1 == 1,
{
    proof {
        lemma_incremented_bar_beat_is_next_beat(bar as int, beat as int, beats_per_bar as int);
    }
    if beat < beats_per_bar as i32 {
        return (bar, beat + 1);
    }
    (bar + 1, 1)
}

/// Stepping a beat that lies within its bar gives the beat that comes next
/// in musical order: its position is one more, and it lies within its bar
/// too. So the step stays in the bar until its last beat, and only then
/// moves to beat 1 of the following bar.
pub proof fn lemma_incremented_bar_beat_is_next_beat(bar: int, beat: int, beats_per_bar: int)
    ensures
        beat_in_bar(beat, beats_per_bar) ==> {
            let r = incremented_bar_beat(bar, beat, beats_per_bar);
            &&& beat_in_bar(r.1, beats_per_bar)
            &&& beat_position(r.0, r.1, beats_per_bar) == beat_position(bar, beat, beats_per_bar) + 1
            &&& (beat < beats_per_bar ==> r.0 == bar)
            &&& (beat == beats_per_bar ==> r.0 == bar + 1 && r.1 == 1)
        },
        beat < 1 && beats_per_bar >= 1 ==> incremented_bar_beat(bar, beat, beats_per_bar) == (bar, beat + 1),
        beat > beats_per_bar ==> incremented_bar_beat(bar, beat, beats_per_bar) == (bar + 1, 1int),
{
    if beat_in_bar(beat, beats_per_bar) && beat >= beats_per_bar {
        assert(bar * beats_per_bar + 1 == (bar - 1) * beats_per_bar + beats_per_bar + 1)
            by (nonlinear_arith);
    }
}


/// Whether a process cycle of `nframes` frames starting at `current_frame`
/// stays inside the current beat, i.e. ends before `next_beat_frame`.
pub open spec fn stays_in_beat(nframes: u32, current_frame: u32, next_beat_frame: u64) -> bool {
    next_beat_frame > current_frame + nframes
}

/// What advancing the transport one process cycle yields: inside the beat
/// the tick accumulates two periods' worth of ticks; when the cycle reaches
/// the next beat boundary the position moves to the following beat at tick 0.
pub open spec fn rolling_update(
    nframes: u32,
    current_frame: u32,
    bar: i32,
    beat: i32,
    tick: i32,
    beats_per_bar: u16,
    next_beat_frame: u64,
    ticks_per_period: i32,
) -> RollingUpdate {
    let end_frame = (current_frame + nframes) as u64;
    if stays_in_beat(nframes, current_frame, next_beat_frame) {
        RollingUpdate {
            next_beat_frame,
            bar,
            beat,
            tick: (tick + ticks_per_period * 2) as i32,
            end_frame,
            crossed_beat: false,
        }
    } else {
        let next = incremented_bar_beat(bar as int, beat as int, beats_per_bar as int);
        RollingUpdate {
            next_beat_frame,
            bar: next.0 as i32,
            beat: next.1 as i32,
            tick: 0,
            end_frame,
            crossed_beat: true,
        }
    }
}

/// The inputs on which one rolling cycle stays within the machine integers:
/// the end frame fits a `u32`, the accumulated tick fits an `i32` when the
/// cycle stays inside the beat, and the bar number can grow when the cycle
/// leaves the last beat of a bar.
pub open spec fn rolling_update_fits(
    nframes: u32,
    current_frame: u32,
    bar: i32,
    beat: i32,
    tick: i32,
    beats_per_bar: u16,
    next_beat_frame: u64,
    ticks_per_period: i32,
) -> bool {
    &&& current_frame + nframes <= u32::MAX
    &&& stays_in_beat(nframes, current_frame, next_beat_frame) ==> {
        &&& i32::MIN <= ticks_per_period * 2 <= i32::MAX
        &&& i32::MIN <= tick + ticks_per_period * 2 <= i32::MAX
    }
    &&& !stays_in_beat(nframes, current_frame, next_beat_frame) && beat >= beats_per_bar
        ==> bar < i32::MAX
}

/// Advances the transport by one process cycle of `nframes` frames that
/// starts at `current_frame` with position `(bar, beat, tick)`.
///
/// `next_beat_frame` is the frame of the beat boundary that follows the
/// current beat, and `ticks_per_period` the whole number of ticks that one
/// period of `nframes` frames spans at the current tempo; both come from the
/// tempo map. A cycle that ends before `next_beat_frame` stays in its beat
/// and adds `2 * ticks_per_period` ticks; otherwise it crosses the boundary
/// to the next beat (and bar, after the last beat of a bar) at tick 0.
pub fn compute_rolling_update_at(
    nframes: u32,
    current_frame: u32,
    bar: i32,
    beat: i32,
    tick: i32,
    beats_per_bar: u16,
    next_beat_frame: u64,
    ticks_per_period: i32,
) -> (r: RollingUpdate)
    requires
        rolling_update_fits(
            nframes,
            current_frame,
            bar,
            beat,
            tick,
            beats_per_bar,
            next_beat_frame,
            ticks_per_period,
        ),
    ensures
        r == rolling_update(
            nframes,
            current_frame,
            bar,
            beat,
            tick,
            beats_per_bar,
            next_beat_frame,
            ticks_per_period,
        ),
        r.next_beat_frame == next_beat_frame,
        r.end_frame == current_frame + nframes,
        r.crossed_beat <==> next_beat_frame <= current_frame + nframes,
        !r.crossed_beat ==> r.bar == bar && r.beat == beat && r.tick == tick + 2 * ticks_per_period,
        r.crossed_beat ==> r.tick == 0,
        r.crossed_beat && beat_in_bar(beat as int, beats_per_bar as int) ==> {
            &&& beat_in_bar(r.beat as int, beats_per_bar as int)
            &&& beat_position(r.bar as int, r.beat as int, beats_per_bar as int) == beat_position(
                bar as int,
                beat as int,
                beats_per_bar as int,
            ) + 1
        },
        r.crossed_beat && beat < 1 && beats_per_bar >= 1 ==> r.bar == bar && r.beat == beat + 1,
        r.crossed_beat && beat > beats_per_bar ==> r.bar == bar + 1 && r.beat == 1,
{
    let end_frame: u64 = (current_frame + nframes) as u64;

    let (out_bar, out_beat, out_tick, crossed_beat) = if next_beat_frame > end_frame {
        // Still inside the current beat: accumulate ticks.
        (bar, beat, tick + ticks_per_period * 2, false)
    } else {
        // Cross a beat boundary.
        let (b2, beat2) = get_incremented_bar_beat(bar, beat, beats_per_bar);
        (b2, beat2, 0, true)
    };

    RollingUpdate {
        next_beat_frame,
        bar: out_bar,
        beat: out_beat,
        tick: out_tick,
        end_frame,
        crossed_beat,
    }
}


/// Within a beat the tick advances by two periods' worth of ticks from
/// wherever it stood, position and bar unchanged; a cycle that reaches the
/// boundary starts the next beat at tick 0, whatever the tick was.
pub proof fn lemma_rolling_update_ticks(
    nframes: u32,
    current_frame: u32,
    bar: i32,
    beat: i32,
    tick: i32,
    beats_per_bar: u16,
    next_beat_frame: u64,
    ticks_per_period: i32,
)
    requires
        rolling_update_fits(
            nframes,
            current_frame,
            bar,
            beat,
            tick,
            beats_per_bar,
            next_beat_frame,
            ticks_per_period,
        ),
    ensures
        ({
            let r = rolling_update(
                nframes,
                current_frame,
                bar,
                beat,
                tick,
                beats_per_bar,
                next_beat_frame,
                ticks_per_period,
            );
            &&& next_beat_frame > current_frame + nframes ==> {
                &&& !r.crossed_beat
                &&& r.bar == bar
                &&& r.beat == beat
                &&& r.tick == tick + 2 * ticks_per_period
            }
            &&& next_beat_frame <= current_frame + nframes ==> r.crossed_beat && r.tick == 0
        }),
{
}

/// The number of beats from the first beat of bar 1 to `(bar, beat)`, counting
/// that first beat as 1, in a meter of `beats_per_bar` beats per bar.
pub open spec fn beat_position(bar: int, beat: int, beats_per_bar: int) -> int {
    (bar - 1) * beats_per_bar + beat
}

/// A beat lies within a bar of `beats_per_bar` beats.
pub open spec fn beat_in_bar(beat: int, beats_per_bar: int) -> bool {
    1 <= beat <= beats_per_bar
}

/// One rolling cycle moves the transport forward by exactly the beats it
/// crosses: a cycle that stays in its beat keeps bar and beat, one that
/// crosses a boundary moves to the next beat in musical order, and the beat
/// stays within the bar either way. The frame moves on by `nframes`, and a
/// boundary is crossed exactly when the cycle reaches `next_beat_frame`.
pub proof fn lemma_rolling_update_advances_one_beat(
    nframes: u32,
    current_frame: u32,
    bar: i32,
    beat: i32,
    tick: i32,
    beats_per_bar: u16,
    next_beat_frame: u64,
    ticks_per_period: i32,
)
    requires
        rolling_update_fits(
            nframes,
            current_frame,
            bar,
            beat,
            tick,
            beats_per_bar,
            next_beat_frame,
            ticks_per_period,
        ),
        beat_in_bar(beat as int, beats_per_bar as int),
    ensures
        ({
            let r = rolling_update(
                nframes,
                current_frame,
                bar,
                beat,
                tick,
                beats_per_bar,
                next_beat_frame,
                ticks_per_period,
            );
            &&& beat_in_bar(r.beat as int, beats_per_bar as int)
            &&& beat_position(r.bar as int, r.beat as int, beats_per_bar as int) == beat_position(
                bar as int,
                beat as int,
                beats_per_bar as int,
            ) + if r.crossed_beat {
                1int
            } else {
                0int
            }
            &&& r.end_frame == current_frame + nframes
            &&& r.crossed_beat <==> next_beat_frame <= current_frame + nframes
            &&& r.next_beat_frame == next_beat_frame
        }),
{
    let b = beats_per_bar as int;
    let br = bar as int;
    if !stays_in_beat(nframes, current_frame, next_beat_frame) && beat >= beats_per_bar {
        assert(br * b + 1 == (br - 1) * b + b + 1) by (nonlinear_arith);
    }
}


/// The state after feeding `cycles` one after another into the rolling
/// update, each cycle starting where the previous one ended. A cycle is
/// `(nframes, next_beat_frame, ticks_per_period)`.
pub open spec fn rolling_run(
    start: RollingUpdate,
    beats_per_bar: u16,
    cycles: Seq<(u32, u64, i32)>,
) -> RollingUpdate
    decreases cycles.len(),
{
    if cycles.len() == 0 {
        start
    } else {
        let prev = rolling_run(start, beats_per_bar, cycles.drop_last());
        let c = cycles.last();
        rolling_update(c.0, prev.end_frame as u32, prev.bar, prev.beat, prev.tick, beats_per_bar, c.1, c.2)
    }
}

/// Every cycle of the run stays within the machine integers.
pub open spec fn rolling_run_fits(
    start: RollingUpdate,
    beats_per_bar: u16,
    cycles: Seq<(u32, u64, i32)>,
) -> bool
    decreases cycles.len(),
{
    if cycles.len() == 0 {
        start.end_frame <= u32::MAX
    } else {
        let prev = rolling_run(start, beats_per_bar, cycles.drop_last());
        let c = cycles.last();
        &&& rolling_run_fits(start, beats_per_bar, cycles.drop_last())
        &&& rolling_update_fits(c.0, prev.end_frame as u32, prev.bar, prev.beat, prev.tick, beats_per_bar, c.1, c.2)
    }
}

/// The number of beat boundaries crossed during the run.
pub open spec fn rolling_run_crossings(
    start: RollingUpdate,
    beats_per_bar: u16,
    cycles: Seq<(u32, u64, i32)>,
) -> nat
    decreases cycles.len(),
{
    if cycles.len() == 0 {
        0
    } else {
        rolling_run_crossings(start, beats_per_bar, cycles.drop_last()) + if rolling_run(
            start,
            beats_per_bar,
            cycles,
        ).crossed_beat {
            1nat
        } else {
            0nat
        }
    }
}

/// The total number of frames that the cycles of the run span.
pub open spec fn total_frames(cycles: Seq<(u32, u64, i32)>) -> nat
    decreases cycles.len(),
{
    if cycles.len() == 0 {
        0
    } else {
        total_frames(cycles.drop_last()) + cycles.last().0 as nat
    }
}

/// Over any run of process cycles the transport position only moves
/// forward: it ends exactly as many beats later as boundaries were crossed,
/// the beat stays within its bar, and the end frame has moved on by the
/// frames that the cycles span.
pub proof fn lemma_rolling_run_counts_crossed_beats(
    start: RollingUpdate,
    beats_per_bar: u16,
    cycles: Seq<(u32, u64, i32)>,
)
    requires
        rolling_run_fits(start, beats_per_bar, cycles),
        beat_in_bar(start.beat as int, beats_per_bar as int),
    ensures
        ({
            let end = rolling_run(start, beats_per_bar, cycles);
            &&& beat_in_bar(end.beat as int, beats_per_bar as int)
            &&& beat_position(end.bar as int, end.beat as int, beats_per_bar as int)
                == beat_position(start.bar as int, start.beat as int, beats_per_bar as int)
                + rolling_run_crossings(start, beats_per_bar, cycles)
            &&& end.end_frame == start.end_frame + total_frames(cycles)
            &&& end.end_frame <= u32::MAX
        }),
    decreases cycles.len(),
{
    if cycles.len() > 0 {
        let prefix = cycles.drop_last();
        lemma_rolling_run_counts_crossed_beats(start, beats_per_bar, prefix);
        let prev = rolling_run(start, beats_per_bar, prefix);
        let c = cycles.last();
        lemma_rolling_update_advances_one_beat(
            c.0,
            prev.end_frame as u32,
            prev.bar,
            prev.beat,
            prev.tick,
            beats_per_bar,
            c.1,
            c.2,
        );
    }
}

/// The beat position never goes backwards along a run: the state after any
/// prefix of the cycles is no later than the state after a longer prefix.
pub proof fn lemma_rolling_run_is_monotonic(
    start: RollingUpdate,
    beats_per_bar: u16,
    cycles: Seq<(u32, u64, i32)>,
    i: int,
    j: int,
)
    requires
        rolling_run_fits(start, beats_per_bar, cycles),
        beat_in_bar(start.beat as int, beats_per_bar as int),
        0 <= i <= j <= cycles.len(),
    ensures
        ({
            let a = rolling_run(start, beats_per_bar, cycles.take(i));
            let b = rolling_run(start, beats_per_bar, cycles.take(j));
            &&& beat_position(a.bar as int, a.beat as int, beats_per_bar as int)
                <= beat_position(b.bar as int, b.beat as int, beats_per_bar as int)
            &&& a.end_frame <= b.end_frame
        }),
    decreases j - i,
{
    lemma_rolling_run_fits_prefix(start, beats_per_bar, cycles, j);
    if i < j {
        lemma_rolling_run_is_monotonic(start, beats_per_bar, cycles, i, j - 1);
        let shorter = cycles.take(j - 1);
        let longer = cycles.take(j);
        assert(longer.drop_last() =~= shorter);
        lemma_rolling_run_fits_prefix(start, beats_per_bar, cycles, j - 1);
        let prev = rolling_run(start, beats_per_bar, shorter);
        let c = longer.last();
        lemma_rolling_run_counts_crossed_beats(start, beats_per_bar, shorter);
        lemma_rolling_update_advances_one_beat(
            c.0,
            prev.end_frame as u32,
            prev.bar,
            prev.beat,
            prev.tick,
            beats_per_bar,
            c.1,
            c.2,
        );
    }
}

/// A run whose cycles all fit also fits on each of its prefixes.
proof fn lemma_rolling_run_fits_prefix(
    start: RollingUpdate,
    beats_per_bar: u16,
    cycles: Seq<(u32, u64, i32)>,
    n: int,
)
    requires
        rolling_run_fits(start, beats_per_bar, cycles),
        0 <= n <= cycles.len(),
    ensures
        rolling_run_fits(start, beats_per_bar, cycles.take(n)),
    decreases cycles.len(),
{
    if n < cycles.len() {
        assert(cycles.drop_last().take(n) =~= cycles.take(n));
        lemma_rolling_run_fits_prefix(start, beats_per_bar, cycles.drop_last(), n);
    } else {
        assert(cycles.take(n) =~= cycles);
    }
}

} // verus!
