use vstd::prelude::*;

use crate::rolling::{
    beat_in_bar, beat_position, rolling_run, rolling_run_fits, RollingUpdate,
    lemma_rolling_run_is_monotonic,
};

verus! {

/// The conductor's fixed meter and tempo.
pub struct Timekeeper {
    numerator: u16,
    denominator: u16,
    tempo: u16,
}

impl View for Timekeeper {
    /// `(numerator, denominator, tempo)`.
    type V = (u16, u16, u16);

    closed spec fn view(&self) -> (u16, u16, u16) {
        (self.numerator, self.denominator, self.tempo)
    }
}

impl Timekeeper {
    /// A timekeeper for a time signature of `numerator / denominator` at
    /// `tempo` beats per minute.
    pub fn new(numerator: u16, denominator: u16, tempo: u16) -> (tk: Timekeeper)
        ensures
            tk@ == (numerator, denominator, tempo),
    {
        Timekeeper { numerator, denominator, tempo }
    }

    /// Beats per bar.
    pub fn numerator(&self) -> (n: u16)
        ensures
            n == self@.0,
    {
        self.numerator
    }

    /// The note value that counts as one beat.
    pub fn denominator(&self) -> (d: u16)
        ensures
            d == self@.1,
    {
        self.denominator
    }

    /// Beats per minute.
    pub fn tempo(&self) -> (t: u16)
        ensures
            t == self@.2,
    {
        self.tempo
    }
}

/// Notes a newly observed value of the shared next-beat-frame slot: `last`
/// becomes `observed`, and the result says whether it differs from the value
/// seen before, that is, whether the conductor moved to a new beat.
pub fn detect_beat_edge(last: &mut u64, observed: u64) -> (changed: bool)
    ensures
        changed == (observed != *old(last)),
        *final(last) == observed,
{
    let changed = observed != *last;
    if changed {
        *last = observed;
    }
    changed
}

/// Forwards the beat boundaries that the timebase callback publishes to the
/// synchronisation controller: each change of the published next-beat frame
/// is sent once, except the very first change, which is skipped.
pub struct BeatForwarder {
    last_val: u64,
    skip: bool,
}

/// The forwarder's state: the last value seen, and whether the next change
/// is still to be skipped.
pub struct ForwarderState {
    pub last_val: u64,
    pub skip: bool,
}

impl View for BeatForwarder {
    type V = ForwarderState;

    closed spec fn view(&self) -> ForwarderState {
        ForwarderState { last_val: self.last_val, skip: self.skip }
    }
}

/// The forwarder's state after observing `val`, and the value it sends, if
/// any.
pub open spec fn forward_step(s: ForwarderState, val: u64) -> (ForwarderState, Option<u64>) {
    if val != s.last_val {
        (ForwarderState { last_val: val, skip: false }, if s.skip {
            None
        } else {
            Some(val)
        })
    } else {
        (s, None)
    }
}

/// The state in which forwarding starts: nothing seen yet (the slot starts
/// at 0), and the first change still to be skipped.
pub open spec fn forwarder_start() -> ForwarderState {
    ForwarderState { last_val: 0, skip: true }
}

impl BeatForwarder {
    /// A forwarder that has seen the slot's initial value 0 and will skip the
    /// first change.
    pub fn new() -> (f: BeatForwarder)
        ensures
            f@ == forwarder_start(),
    {
        BeatForwarder { last_val: 0, skip: true }
    }

    /// Observes the current value of the next-beat-frame slot and returns the
    /// value to send to the controller, if any.
    pub fn observe(&mut self, val: u64) -> (sent: Option<u64>)
        ensures
            (final(self)@, sent) == forward_step(old(self)@, val),
            final(self)@.last_val == val,
            val == old(self)@.last_val ==> sent is None && final(self)@ == old(self)@,
            val != old(self)@.last_val ==> !final(self)@.skip,
            val != old(self)@.last_val && old(self)@.skip ==> sent is None,
            val != old(self)@.last_val && !old(self)@.skip ==> sent == Some(val),
    {
        let mut last_val = self.last_val;
        if detect_beat_edge(&mut last_val, val) {
            let sent = if !self.skip {
                Some(val)
            } else {
                None
            };
            self.last_val = last_val;
            self.skip = false;
            sent
        } else {
            None
        }
    }
}


/// The forwarder's state after observing `vals` in order from state `s`,
/// and the values it sent, in the order it sent them.
pub open spec fn forward_run(s: ForwarderState, vals: Seq<u64>) -> (ForwarderState, Seq<u64>)
    decreases vals.len(),
{
    if vals.len() == 0 {
        (s, Seq::empty())
    } else {
        let prev = forward_run(s, vals.drop_last());
        let step = forward_step(prev.0, vals.last());
        (step.0, match step.1 {
            Some(v) => prev.1.push(v),
            None => prev.1,
        })
    }
}

/// The values of `vals` that differ from the value observed just before
/// them, the first one being compared with `initial`.
pub open spec fn value_changes(initial: u64, vals: Seq<u64>) -> Seq<u64>
    decreases vals.len(),
{
    if vals.len() == 0 {
        Seq::empty()
    } else {
        let before = if vals.len() == 1 {
            initial
        } else {
            vals[vals.len() - 2]
        };
        let earlier = value_changes(initial, vals.drop_last());
        if vals.last() != before {
            earlier.push(vals.last())
        } else {
            earlier
        }
    }
}

/// Every change of the observed slot is sent to the controller exactly once
/// and in order, except the first change after start, which is skipped.
pub proof fn lemma_forwarder_sends_changes_after_first(vals: Seq<u64>)
    ensures
        ({
            let changes = value_changes(0, vals);
            let run = forward_run(forwarder_start(), vals);
            &&& run.0.last_val == if vals.len() == 0 {
                0
            } else {
                vals.last()
            }
            &&& run.0.skip == (changes.len() == 0)
            &&& run.1 == if changes.len() == 0 {
                changes
            } else {
                changes.drop_first()
            }
        }),
    decreases vals.len(),
{
    if vals.len() > 0 {
        let prefix = vals.drop_last();
        lemma_forwarder_sends_changes_after_first(prefix);
        let changes = value_changes(0, vals);
        let earlier = value_changes(0, prefix);
        if earlier.len() > 0 && changes.len() > earlier.len() {
            assert(changes.drop_first() =~= earlier.drop_first().push(vals.last()));
        }
        if vals.len() >= 2 {
            assert(prefix.last() == vals[vals.len() - 2]);
        }
    }
}

/// The forwarder never sends the same value twice in a row.
pub proof fn lemma_forwarder_never_repeats(vals: Seq<u64>, k: int)
    requires
        0 <= k < forward_run(forwarder_start(), vals).1.len() - 1,
    ensures
        forward_run(forwarder_start(), vals).1[k] != forward_run(forwarder_start(), vals).1[k + 1],
{
    lemma_forwarder_changes_alternate(vals);
    lemma_forwarder_sends_changes_after_first(vals);
}

/// Consecutive changes differ from each other.
proof fn lemma_forwarder_changes_alternate(vals: Seq<u64>)
    ensures
        forall|k: int|
            0 <= k < value_changes(0, vals).len() - 1 ==> value_changes(0, vals)[k]
                != #[trigger] value_changes(0, vals)[k + 1],
        value_changes(0, vals).len() > 0 ==> value_changes(0, vals).last() == vals.last(),
    decreases vals.len(),
{
    if vals.len() > 0 {
        let prefix = vals.drop_last();
        lemma_forwarder_changes_alternate(prefix);
        if vals.len() >= 2 {
            assert(prefix.last() == vals[vals.len() - 2]);
        }
        if value_changes(0, prefix).len() > 0 {
            lemma_changes_last_is_latest(prefix);
        }
    }
}

/// The latest change is the latest observed value, once anything changed.
proof fn lemma_changes_last_is_latest(vals: Seq<u64>)
    requires
        value_changes(0, vals).len() > 0,
    ensures
        value_changes(0, vals).last() == vals.last(),
    decreases vals.len(),
{
    let prefix = vals.drop_last();
    if value_changes(0, prefix).len() > 0 && value_changes(0, vals).len() == value_changes(0, prefix).len() {
        lemma_changes_last_is_latest(prefix);
        if vals.len() >= 2 {
            assert(prefix.last() == vals[vals.len() - 2]);
        }
    }
}

/// When the observed values never decrease, as the next-beat frames that a
/// rolling transport publishes do, the values sent to the controller are
/// strictly increasing.
pub proof fn lemma_forwarder_sends_increasing(vals: Seq<u64>)
    requires
        forall|i: int, j: int| 0 <= i <= j < vals.len() ==> vals[i] <= vals[j],
    ensures
        ({
            let sent = forward_run(forwarder_start(), vals).1;
            forall|i: int, j: int| 0 <= i < j < sent.len() ==> sent[i] < sent[j]
        }),
    decreases vals.len(),
{
    lemma_forwarder_sent_bounded(vals);
    if vals.len() > 0 {
        let prefix = vals.drop_last();
        lemma_forwarder_sends_increasing(prefix);
        lemma_forwarder_sent_bounded(prefix);
        lemma_forwarder_sends_changes_after_first(prefix);
    }
}

/// Everything sent so far is at most the value observed last.
proof fn lemma_forwarder_sent_bounded(vals: Seq<u64>)
    requires
        forall|i: int, j: int| 0 <= i <= j < vals.len() ==> vals[i] <= vals[j],
    ensures
        forall|i: int|
            0 <= i < forward_run(forwarder_start(), vals).1.len() ==> #[trigger] forward_run(
                forwarder_start(),
                vals,
            ).1[i] <= vals.last(),
    decreases vals.len(),
{
    if vals.len() > 0 {
        let prefix = vals.drop_last();
        lemma_forwarder_sent_bounded(prefix);
        let sent = forward_run(forwarder_start(), vals).1;
        let earlier = forward_run(forwarder_start(), prefix).1;
        assert forall|i: int| 0 <= i < sent.len() implies #[trigger] sent[i] <= vals.last() by {
            if i < earlier.len() {
                assert(sent[i] == earlier[i]);
                assert(prefix.last() == vals[vals.len() - 2]);
            }
        }
    }
}


/// The next-beat frames that a rolling transport publishes over `cycles`,
/// one per cycle.
pub open spec fn published_frames(cycles: Seq<(u32, u64, i32)>) -> Seq<u64> {
    Seq::new(cycles.len(), |k: int| cycles[k].1)
}

/// When each cycle's next-beat frame is taken from a tempo map that never
/// maps a later beat position to an earlier frame, the frames that reach the
/// controller are strictly increasing, whatever the cycle lengths: the beat
/// position of a rolling transport never goes back, and the forwarder drops
/// repeats.
pub proof fn lemma_sent_beat_frames_strictly_increase(
    start: RollingUpdate,
    beats_per_bar: u16,
    cycles: Seq<(u32, u64, i32)>,
    tempo_map: spec_fn(int) -> u64,
)
    requires
        rolling_run_fits(start, beats_per_bar, cycles),
        beat_in_bar(start.beat as int, beats_per_bar as int),
        forall|p: int, q: int| p <= q ==> #[trigger] tempo_map(p) <= #[trigger] tempo_map(q),
        forall|k: int|
            0 <= k < cycles.len() ==> #[trigger] cycles[k].1 == tempo_map(
                {
                    let at = rolling_run(start, beats_per_bar, cycles.take(k));
                    beat_position(at.bar as int, at.beat as int, beats_per_bar as int)
                },
            ),
    ensures
        ({
            let sent = forward_run(forwarder_start(), published_frames(cycles)).1;
            forall|i: int, j: int| 0 <= i < j < sent.len() ==> sent[i] < sent[j]
        }),
{
    let published = published_frames(cycles);
    assert forall|i: int, j: int| 0 <= i <= j < published.len() implies published[i]
        <= published[j] by {
        lemma_rolling_run_is_monotonic(start, beats_per_bar, cycles, i, j);
        let a = rolling_run(start, beats_per_bar, cycles.take(i));
        let b = rolling_run(start, beats_per_bar, cycles.take(j));
        assert(cycles[i].1 == tempo_map(
            beat_position(a.bar as int, a.beat as int, beats_per_bar as int),
        ));
        assert(cycles[j].1 == tempo_map(
            beat_position(b.bar as int, b.beat as int, beats_per_bar as int),
        ));
    }
    lemma_forwarder_sends_increasing(published);
}

} // verus!
