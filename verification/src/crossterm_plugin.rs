//! The runner: its state, and the loop that alternates frame-paced idle passes
//! with unpaced resolving passes. What the terminal reports and what it
//! shows are in the two parts of this module.

pub mod input;
pub mod render;

pub use input::{
    char_key, crossterm_read_input, exit_on_esc, input_just_pressed, input_pressed,
    just_pressed_after, pressed_after, spec_char_key, KeyEventKind, KeyId, TerminalEvent, ESC_KEY,
};
pub use render::{
    cell_point, cell_shows, crossterm_render, drawn_over, frame_fits, on_top, shown_at,
    tile_glyph, window_fits, window_start, LayerId, Renderable,
};

use crate::actions::Ticks;
use vstd::prelude::*;

verus! {

/// The scheduler state: `None` while idle, `Some(n)` while resolving with
/// `n` ticks of the countdown left. `Some(0)` is a countdown that has run
/// out and waits for its flush pass, or is in it.
#[derive(Clone, Copy, Debug)]
pub struct CrosstermRunner {
    pub advance_world: Option<Ticks>,
}

impl CrosstermRunner {
    pub open spec fn spec_is_world_tick(&self) -> bool {
        self.advance_world is Some
    }

    /// Whether the runner is resolving: then no input is sampled, control
    /// proposes nothing, and nothing is drawn.
    #[verifier::when_used_as_spec(spec_is_world_tick)]
    pub fn is_world_tick(&self) -> (b: bool)
        ensures
            b == self.spec_is_world_tick(),
    {
        self.advance_world.is_some()
    }

    pub open spec fn spec_has_tick(&self) -> bool {
        self.advance_world matches Some(left) && left.0 >= 1
    }

    /// Whether the countdown has a tick left: then a pass advances the
    /// actions in flight.
    #[verifier::when_used_as_spec(spec_has_tick)]
    pub fn has_tick(&self) -> (b: bool)
        ensures
            b == self.spec_has_tick(),
    {
        match self.advance_world {
            Some(left) => left.0 >= 1,
            None => false,
        }
    }
}

/// Where the run loop stands between two of its steps.
#[derive(Clone, Copy, Debug, PartialEq, Eq, Structural)]
pub enum RunnerPhase {
    /// The loop is about to begin.
    FrameStart,
    /// The frame's idle pass has run.
    Settling,
    /// A resolving pass has run, and its tick is still to be counted.
    CountDown,
    /// The flush pass has run, and the countdown is still to be cleared.
    Flushing,
    /// The rest of the frame's time has been waited for.
    Paced,
    /// The exit signal has been looked for.
    FrameEnd,
    /// The loop has ended.
    Stopped,
}

/// What the run loop does next.
#[derive(Clone, Copy, Debug, PartialEq, Eq, Structural)]
pub enum RunnerAction {
    /// Note the time as the frame's start, then run the pipeline once.
    IdlePass,
    /// Run the pipeline once for one tick of the countdown, at once.
    ResolvingPass,
    /// Run the pipeline once more for the countdown that has run out.
    FlushPass,
    /// Wait for what is left of the frame's time.
    Pace,
    /// Look for the exit signal, and hand what was found to the next step.
    CheckExit,
    /// Leave the loop and restore the terminal.
    Stop,
}

/// The countdown after one of its ticks is counted.
pub open spec fn counted_down(left: Ticks) -> Ticks {
    if left.0 <= 1 {
        Ticks(0)
    } else {
        Ticks((left.0 - 1) as u32)
    }
}

/// What follows a pass that counts for no tick: with no countdown the frame
/// is waited out, a countdown that has run out is flushed, and any other is
/// resolved.
pub open spec fn settled(runner: CrosstermRunner) -> (CrosstermRunner, RunnerAction, RunnerPhase) {
    match runner.advance_world {
        None => (runner, RunnerAction::Pace, RunnerPhase::Paced),
        Some(left) => if left.0 == 0 {
            (runner, RunnerAction::FlushPass, RunnerPhase::Flushing)
        } else {
            (runner, RunnerAction::ResolvingPass, RunnerPhase::CountDown)
        },
    }
}

/// One step of the run loop: the runner, the action and the phase that
/// follow from the runner as the last pass left it and from the phase.
/// `exit_requested` counts only once the exit signal has been looked for.
///
/// After a resolving pass its tick is counted. The flush pass runs with the
/// countdown at zero, and only the step after it clears the countdown,
/// unless the flush pass has armed a new one.
pub open spec fn runner_step_spec(
    runner: CrosstermRunner,
    phase: RunnerPhase,
    exit_requested: bool,
) -> (CrosstermRunner, RunnerAction, RunnerPhase) {
    match phase {
        RunnerPhase::FrameStart => (runner, RunnerAction::IdlePass, RunnerPhase::Settling),
        RunnerPhase::Settling => settled(runner),
        RunnerPhase::CountDown => match runner.advance_world {
            None => settled(runner),
            Some(left) => settled(CrosstermRunner { advance_world: Some(counted_down(left)) }),
        },
        RunnerPhase::Flushing => if runner.has_tick() {
            settled(runner)
        } else {
            settled(CrosstermRunner { advance_world: None })
        },
        RunnerPhase::Paced => (runner, RunnerAction::CheckExit, RunnerPhase::FrameEnd),
        RunnerPhase::FrameEnd => if exit_requested {
            (runner, RunnerAction::Stop, RunnerPhase::Stopped)
        } else {
            (runner, RunnerAction::IdlePass, RunnerPhase::Settling)
        },
        RunnerPhase::Stopped => (runner, RunnerAction::Stop, RunnerPhase::Stopped),
    }
}

fn settle(runner: &CrosstermRunner) -> (next: (RunnerAction, RunnerPhase))
    ensures
        (*runner, next.0, next.1) == settled(*runner),
{
    match runner.advance_world {
        None => (RunnerAction::Pace, RunnerPhase::Paced),
        Some(left) => {
            if left.0 == 0 {
                (RunnerAction::FlushPass, RunnerPhase::Flushing)
            } else {
                (RunnerAction::ResolvingPass, RunnerPhase::CountDown)
            }
        },
    }
}

/// Decides the next step of the run loop.
///
/// A frame is one idle pass, then, as long as a countdown is armed, one
/// resolving pass for each of its ticks and a flush pass when it has run
/// out, then the wait for the rest of the frame's time, then the look for
/// the exit signal, which ends the loop or lets the next frame begin.
pub fn runner_step(
    runner: &mut CrosstermRunner,
    phase: RunnerPhase,
    exit_requested: bool,
) -> (next: (RunnerAction, RunnerPhase))
    ensures
        (*final(runner), next.0, next.1) == runner_step_spec(*old(runner), phase, exit_requested),
{
    match phase {
        RunnerPhase::FrameStart => (RunnerAction::IdlePass, RunnerPhase::Settling),
        RunnerPhase::Settling => settle(runner),
        RunnerPhase::CountDown => {
            if let Some(left) = runner.advance_world {
                let left = if left.0 <= 1 {
                    0
                } else {
                    left.0 - 1
                };
                runner.advance_world = Some(Ticks(left));
            }
            settle(runner)
        },
        RunnerPhase::Flushing => {
            if !runner.has_tick() {
                runner.advance_world = None;
            }
            settle(runner)
        },
        RunnerPhase::Paced => (RunnerAction::CheckExit, RunnerPhase::FrameEnd),
        RunnerPhase::FrameEnd => {
            if exit_requested {
                (RunnerAction::Stop, RunnerPhase::Stopped)
            } else {
                (RunnerAction::IdlePass, RunnerPhase::Settling)
            }
        },
        RunnerPhase::Stopped => (RunnerAction::Stop, RunnerPhase::Stopped),
    }
}

/// Frames per second while idle.
pub const FRAME_RATE: i32 = 60;

/// The time of one frame in nanoseconds: a sixtieth of a second.
pub const FRAME_TIME_NANOS: u64 = 1_000_000_000 / 60;

/// How long to wait at the end of a frame that took `elapsed_nanos`: what is
/// left of the frame's time, and nothing where the frame took as long or
/// longer.
pub fn frame_pause(elapsed_nanos: u64) -> (pause: Option<u64>)
    ensures
        elapsed_nanos < FRAME_TIME_NANOS ==> pause == Some(
            (FRAME_TIME_NANOS - elapsed_nanos) as u64,
        ),
        elapsed_nanos >= FRAME_TIME_NANOS ==> pause is None,
{
    if elapsed_nanos < FRAME_TIME_NANOS {
        Some(FRAME_TIME_NANOS - elapsed_nanos)
    } else {
        None
    }
}

/// The runner and the phase after `k` steps, where no pass in between
/// touches the runner and no exit is asked for.
pub open spec fn after_steps(runner: CrosstermRunner, phase: RunnerPhase, k: nat) -> (
    CrosstermRunner,
    RunnerPhase,
)
    decreases k,
{
    if k == 0 {
        (runner, phase)
    } else {
        let before = after_steps(runner, phase, (k - 1) as nat);
        let step = runner_step_spec(before.0, before.1, false);
        (step.0, step.2)
    }
}

/// The action that step `k`, counted from 0, decides on.
pub open spec fn action_at(runner: CrosstermRunner, phase: RunnerPhase, k: nat) -> RunnerAction {
    let before = after_steps(runner, phase, k);
    runner_step_spec(before.0, before.1, false).1
}

/// The runner while a countdown has `n` ticks left.
pub open spec fn armed(n: u32) -> CrosstermRunner {
    CrosstermRunner { advance_world: Some(Ticks(n)) }
}

/// A countdown armed with `d` ticks is drained by exactly `d` resolving
/// passes and one flush pass. During each of the resolving passes the runner
/// is resolving, with one tick less left from pass to pass. The flush pass
/// runs with the countdown at zero, so that no further tick is resolved in
/// it; only the step after it clears the countdown, and the frame is then
/// waited out.
pub proof fn lemma_drain(d: u32)
    requires
        d >= 1,
    ensures
        forall|k: nat|
            k < d ==> {
                &&& #[trigger] action_at(armed(d), RunnerPhase::Settling, k)
                    == RunnerAction::ResolvingPass
                &&& after_steps(armed(d), RunnerPhase::Settling, k + 1) == (
                    armed((d - k) as u32),
                    RunnerPhase::CountDown,
                )
            },
        action_at(armed(d), RunnerPhase::Settling, d as nat) == RunnerAction::FlushPass,
        after_steps(armed(d), RunnerPhase::Settling, (d + 1) as nat) == (
            armed(0),
            RunnerPhase::Flushing,
        ),
        !armed(0).has_tick(),
        action_at(armed(d), RunnerPhase::Settling, (d + 1) as nat) == RunnerAction::Pace,
        after_steps(armed(d), RunnerPhase::Settling, (d + 2) as nat) == (
            CrosstermRunner { advance_world: None },
            RunnerPhase::Paced,
        ),
{
    assert forall|k: nat| k < d implies {
        &&& #[trigger] action_at(armed(d), RunnerPhase::Settling, k) == RunnerAction::ResolvingPass
        &&& after_steps(armed(d), RunnerPhase::Settling, k + 1) == (
            armed((d - k) as u32),
            RunnerPhase::CountDown,
        )
    } by {
        lemma_draining(d, k);
    }
    lemma_draining(d, (d - 1) as nat);
    reveal_with_fuel(after_steps, 3);
}

/// Step `k` of draining a countdown of `d` ticks is a resolving pass that
/// leaves `d - k` ticks on the runner.
proof fn lemma_draining(d: u32, k: nat)
    requires
        k < d,
    ensures
        action_at(armed(d), RunnerPhase::Settling, k) == RunnerAction::ResolvingPass,
        after_steps(armed(d), RunnerPhase::Settling, k + 1) == (
            armed((d - k) as u32),
            RunnerPhase::CountDown,
        ),
    decreases k,
{
    reveal_with_fuel(after_steps, 2);
    if k > 0 {
        lemma_draining(d, (k - 1) as nat);
    }
}

/// At the end of an idle frame the loop first waits for the rest of the
/// frame's time and then looks for the exit signal; an exit that was asked
/// for ends the loop, and otherwise the next frame begins.
pub proof fn lemma_idle_frame(exit_requested: bool)
    ensures
        ({
            let idle = CrosstermRunner { advance_world: None };
            let wait = runner_step_spec(idle, RunnerPhase::Settling, exit_requested);
            let look = runner_step_spec(wait.0, wait.2, exit_requested);
            let end = runner_step_spec(look.0, look.2, exit_requested);
            &&& wait.1 == RunnerAction::Pace
            &&& look.1 == RunnerAction::CheckExit
            &&& end.1 == (if exit_requested {
                RunnerAction::Stop
            } else {
                RunnerAction::IdlePass
            })
            &&& end.0 == idle
        }),
{
}

} // verus!
