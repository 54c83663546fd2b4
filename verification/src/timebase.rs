use vstd::prelude::*;

use crate::rolling::{
    beat_position, rolling_run, rolling_run_crossings, rolling_run_fits, RollingUpdate,
    lemma_rolling_run_counts_crossed_beats,
};

verus! {

/// The state of the JACK transport, as the timebase callback and the
/// status display see it.
#[derive(Debug, Clone, Copy, PartialEq, Eq, Structural)]
pub enum TransportState {
    Stopped,
    Rolling,
    Looping,
    Starting,
    NetStarting,
    /// A state value that the transport does not define.
    Unknown,
}

/// The label under which a transport state is shown to the user.
pub open spec fn state_label_of(state: TransportState) -> Seq<char> {
    match state {
        TransportState::Stopped => "Stopped"@,
        TransportState::Rolling => "Rolling"@,
        TransportState::Starting => "Starting"@,
        _ => "Unknown"@,
    }
}

impl TransportState {
    /// The label under which this state is shown: "Stopped", "Rolling",
    /// "Starting", and "Unknown" for every other state.
    pub fn state_label(&self) -> (label: &'static str)
        ensures
            label@ == state_label_of(*self),
            *self == TransportState::Stopped ==> label@ == "Stopped"@,
            *self == TransportState::Rolling ==> label@ == "Rolling"@,
            *self == TransportState::Starting ==> label@ == "Starting"@,
            *self != TransportState::Stopped && *self != TransportState::Rolling && *self
                != TransportState::Starting ==> label@ == "Unknown"@,
    {
        match self {
            TransportState::Stopped => "Stopped",
            TransportState::Rolling => "Rolling",
            TransportState::Starting => "Starting",
            _ => "Unknown",
        }
    }
}

/// What the timebase master does in one invocation of its callback.
#[derive(Debug, Clone, Copy, PartialEq, Eq, Structural)]
pub enum TimebaseAction {
    /// The transport sits at frame 0: publish the meter and tempo and put the
    /// position at the given bar, beat and tick.
    Reposition { bar: i32, beat: i32, tick: i32 },
    /// The transport is stopped: report it.
    ReportStopped,
    /// The transport is rolling: advance the position by one process cycle.
    Roll,
    /// The transport is starting: report it.
    ReportStarting,
    /// Nothing to do in any other state.
    Ignore,
}

/// The action that the timebase callback takes for transport `state` at
/// position `frame`.
pub open spec fn timebase_action_of(state: TransportState, frame: u32) -> TimebaseAction {
    if frame == 0 {
        TimebaseAction::Reposition { bar: 1, beat: 1, tick: 0 }
    } else {
        match state {
            TransportState::Stopped => TimebaseAction::ReportStopped,
            TransportState::Rolling => TimebaseAction::Roll,
            TransportState::Starting => TimebaseAction::ReportStarting,
            _ => TimebaseAction::Ignore,
        }
    }
}

/// Decides what the timebase callback does: at frame 0, whatever the
/// transport state, the position is reset to bar 1, beat 1, tick 0; at any
/// other frame a rolling transport advances by one cycle, a stopped or
/// starting one is reported, and every other state is left alone.
pub fn timebase_action(state: TransportState, frame: u32) -> (action: TimebaseAction)
    ensures
        action == timebase_action_of(state, frame),
        (action is Reposition) <==> frame == 0,
        frame == 0 ==> action == (TimebaseAction::Reposition { bar: 1, beat: 1, tick: 0 }),
        frame != 0 ==> ((action is Roll) <==> state == TransportState::Rolling),
        frame != 0 ==> ((action is ReportStopped) <==> state == TransportState::Stopped),
        frame != 0 ==> ((action is ReportStarting) <==> state == TransportState::Starting),
        frame != 0 ==> ((action is Ignore) <==> (state != TransportState::Rolling
            && state != TransportState::Stopped && state != TransportState::Starting)),
{
    if frame == 0 {
        TimebaseAction::Reposition { bar: 1, beat: 1, tick: 0 }
    } else {
        match state {
            TransportState::Stopped => TimebaseAction::ReportStopped,
            TransportState::Rolling => TimebaseAction::Roll,
            TransportState::Starting => TimebaseAction::ReportStarting,
            _ => TimebaseAction::Ignore,
        }
    }
}


/// Away from frame 0 the callback's action depends on the transport state
/// alone: two callbacks in the same state at any two non-zero frames act
/// alike. A rolling transport is always advanced, a stopped or starting one
/// is only reported (its position is never reset), and only frame 0 resets
/// the position, in every state, to bar 1, beat 1, tick 0.
pub proof fn lemma_timebase_action_by_state(state: TransportState, frame: u32, other_frame: u32)
    ensures
        frame != 0 && other_frame != 0 ==> timebase_action_of(state, frame) == timebase_action_of(
            state,
            other_frame,
        ),
        frame != 0 && state == TransportState::Rolling ==> timebase_action_of(state, frame)
            == TimebaseAction::Roll,
        frame != 0 && state == TransportState::Stopped ==> timebase_action_of(state, frame)
            == TimebaseAction::ReportStopped,
        frame != 0 && state == TransportState::Starting ==> timebase_action_of(state, frame)
            == TimebaseAction::ReportStarting,
        frame != 0 && state != TransportState::Rolling && state != TransportState::Stopped
            && state != TransportState::Starting ==> timebase_action_of(state, frame)
            == TimebaseAction::Ignore,
        (timebase_action_of(state, frame) is Reposition) <==> frame == 0,
        frame == 0 ==> timebase_action_of(state, frame) == (TimebaseAction::Reposition {
            bar: 1,
            beat: 1,
            tick: 0,
        }),
{
}

/// Once the timebase master has put the transport at frame 0, the beat
/// position of a rolling transport is always 1 plus the number of beat
/// boundaries crossed since: the first beat of the first bar counts as 1 and
/// every crossing moves one beat on.
pub proof fn lemma_position_counts_beats_since_reposition(
    state: TransportState,
    next_beat_frame: u64,
    beats_per_bar: u16,
    cycles: Seq<(u32, u64, i32)>,
)
    requires
        beats_per_bar >= 1,
        ({
            let action = timebase_action_of(state, 0);
            let start = RollingUpdate {
                next_beat_frame,
                bar: action->bar,
                beat: action->beat,
                tick: action->tick,
                end_frame: 0,
                crossed_beat: false,
            };
            rolling_run_fits(start, beats_per_bar, cycles)
        }),
    ensures
        ({
            let action = timebase_action_of(state, 0);
            let start = RollingUpdate {
                next_beat_frame,
                bar: action->bar,
                beat: action->beat,
                tick: action->tick,
                end_frame: 0,
                crossed_beat: false,
            };
            let end = rolling_run(start, beats_per_bar, cycles);
            &&& action is Reposition
            &&& beat_position(end.bar as int, end.beat as int, beats_per_bar as int) == 1
                + rolling_run_crossings(start, beats_per_bar, cycles)
        }),
{
    let action = timebase_action_of(state, 0);
    let start = RollingUpdate {
        next_beat_frame,
        bar: action->bar,
        beat: action->beat,
        tick: action->tick,
        end_frame: 0,
        crossed_beat: false,
    };
    lemma_rolling_run_counts_crossed_beats(start, beats_per_bar, cycles);
}

} // verus!
