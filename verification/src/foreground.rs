use crate::job::{after_update, update_notice, JobTable};
use crate::reaper::{
    foreground_status, foreground_step, foreground_update, ForegroundStep, WaitOutcome,
};
use vstd::prelude::*;

verus! {

/// Where a foreground run stands.
#[derive(Debug, Clone, Copy, PartialEq, Eq, Structural)]
pub enum ForegroundPhase {
    /// The terminal is to be handed to the group. A job that is brought back
    /// to the foreground is continued after that.
    Start { pgid: i32, resume: bool },
    /// The group has the terminal and is to be continued.
    Resume { pgid: i32 },
    /// The group has the terminal and the shell waits for it.
    Waiting { pgid: i32 },
    /// The wait is over, however it went; the terminal is to be taken back.
    Reclaim { status: i32 },
    /// The terminal is the shell's again and the command's status is known.
    Done { status: i32 },
}

/// What the caller does for the shell in a phase.
#[derive(Debug, Clone, Copy, PartialEq, Eq, Structural)]
pub enum ForegroundAction {
    /// Make the group the terminal's foreground group.
    GiveTerminal { pgid: i32 },
    /// Send the continue signal to the group.
    Continue { pgid: i32 },
    /// Block until the group changes state.
    Wait { pgid: i32 },
    /// Make the shell's own group the terminal's foreground group.
    ReclaimTerminal,
    /// Hand the status back; nothing is left to do.
    Return { status: i32 },
}

/// What came of the action of a phase.
#[derive(Debug, Clone, Copy)]
pub enum ForegroundEvent {
    /// The action was carried out, with or without success.
    Performed,
    /// The wait gave an outcome.
    Waited(WaitOutcome),
}

/// The action that a phase asks for.
pub open spec fn action_for(phase: ForegroundPhase) -> ForegroundAction {
    match phase {
        ForegroundPhase::Start { pgid, .. } => ForegroundAction::GiveTerminal { pgid },
        ForegroundPhase::Resume { pgid } => ForegroundAction::Continue { pgid },
        ForegroundPhase::Waiting { pgid } => ForegroundAction::Wait { pgid },
        ForegroundPhase::Reclaim { .. } => ForegroundAction::ReclaimTerminal,
        ForegroundPhase::Done { status } => ForegroundAction::Return { status },
    }
}

/// The phase that follows. The terminal is handed over first, then the job
/// is continued where it is resumed, then the shell waits. Every end of the
/// wait, a failure of the wait too, leads to the phase that takes the
/// terminal back, and only that phase leads to the end. An event that does
/// not belong to the phase changes nothing.
pub open spec fn next_phase(phase: ForegroundPhase, event: ForegroundEvent) -> ForegroundPhase {
    match phase {
        ForegroundPhase::Start { pgid, resume } => match event {
            ForegroundEvent::Performed => if resume {
                ForegroundPhase::Resume { pgid }
            } else {
                ForegroundPhase::Waiting { pgid }
            },
            ForegroundEvent::Waited(_) => phase,
        },
        ForegroundPhase::Resume { pgid } => match event {
            ForegroundEvent::Performed => ForegroundPhase::Waiting { pgid },
            ForegroundEvent::Waited(_) => phase,
        },
        ForegroundPhase::Waiting { pgid } => match event {
            ForegroundEvent::Waited(outcome) => match foreground_status(outcome) {
                Some(status) => ForegroundPhase::Reclaim { status },
                None => phase,
            },
            ForegroundEvent::Performed => phase,
        },
        ForegroundPhase::Reclaim { status } => match event {
            ForegroundEvent::Performed => ForegroundPhase::Done { status },
            ForegroundEvent::Waited(_) => phase,
        },
        ForegroundPhase::Done { .. } => phase,
    }
}

/// The change that an event makes in the job table: only the outcome of a
/// wait, taken while the shell waits, is recorded.
pub open spec fn recorded_update(phase: ForegroundPhase, event: ForegroundEvent) -> Option<
    crate::job::UpdateKind,
> {
    match phase {
        ForegroundPhase::Waiting { pgid } => match event {
            ForegroundEvent::Waited(outcome) => foreground_update(pgid, outcome),
            ForegroundEvent::Performed => None,
        },
        _ => None,
    }
}

/// The phase after a run of events.
pub open spec fn phase_after(start: ForegroundPhase, events: Seq<ForegroundEvent>) -> ForegroundPhase
    decreases events.len(),
{
    if events.len() == 0 {
        start
    } else {
        next_phase(phase_after(start, events.drop_last()), events.last())
    }
}

/// The first phase of the run of a job that was just launched.
pub fn start_launched(pgid: i32) -> (phase: ForegroundPhase)
    ensures
        phase == (ForegroundPhase::Start { pgid, resume: false }),
{
    ForegroundPhase::Start { pgid, resume: false }
}

/// The first phase of the run of a job that is brought back to the
/// foreground: it is continued once it has the terminal.
pub fn start_resumed(pgid: i32) -> (phase: ForegroundPhase)
    ensures
        phase == (ForegroundPhase::Start { pgid, resume: true }),
{
    ForegroundPhase::Start { pgid, resume: true }
}

/// Says what is to be done in a phase.
pub fn next_action(phase: ForegroundPhase) -> (action: ForegroundAction)
    ensures
        action == action_for(phase),
{
    match phase {
        ForegroundPhase::Start { pgid, .. } => ForegroundAction::GiveTerminal { pgid },
        ForegroundPhase::Resume { pgid } => ForegroundAction::Continue { pgid },
        ForegroundPhase::Waiting { pgid } => ForegroundAction::Wait { pgid },
        ForegroundPhase::Reclaim { .. } => ForegroundAction::ReclaimTerminal,
        ForegroundPhase::Done { status } => ForegroundAction::Return { status },
    }
}

/// Takes what came of a phase's action: gives the phase that follows,
/// records an observed change in the table and gives the line to show for
/// it.
pub fn advance(table: &mut JobTable, phase: ForegroundPhase, event: ForegroundEvent) -> (r: (
    ForegroundPhase,
    Option<String>,
))
    ensures
        r.0 == next_phase(phase, event),
        final(table).issued() == old(table).issued(),
        match recorded_update(phase, event) {
            Some(upd) => {
                &&& final(table)@ == after_update(old(table)@, upd)
                &&& r.1 is Some <==> update_notice(old(table)@, upd) is Some
                &&& r.1 is Some ==> r.1->0@ == update_notice(old(table)@, upd)->0
            },
            None => final(table)@ == old(table)@ && r.1 is None,
        },
        old(table).wf() ==> final(table).wf(),
{
    match phase {
        ForegroundPhase::Start { pgid, resume } => match event {
            ForegroundEvent::Performed => if resume {
                (ForegroundPhase::Resume { pgid }, None)
            } else {
                (ForegroundPhase::Waiting { pgid }, None)
            },
            ForegroundEvent::Waited(_) => (phase, None),
        },
        ForegroundPhase::Resume { pgid } => match event {
            ForegroundEvent::Performed => (ForegroundPhase::Waiting { pgid }, None),
            ForegroundEvent::Waited(_) => (phase, None),
        },
        ForegroundPhase::Waiting { pgid } => match event {
            ForegroundEvent::Waited(outcome) => {
                let step: ForegroundStep = foreground_step(table, pgid, outcome);
                match step.status {
                    Some(status) => (ForegroundPhase::Reclaim { status }, step.notice),
                    None => (phase, step.notice),
                }
            },
            ForegroundEvent::Performed => (phase, None),
        },
        ForegroundPhase::Reclaim { status } => match event {
            ForegroundEvent::Performed => (ForegroundPhase::Done { status }, None),
            ForegroundEvent::Waited(_) => (phase, None),
        },
        ForegroundPhase::Done { .. } => (phase, None),
    }
}

/// A foreground run ends only after the terminal was taken back: a run of
/// events that leads from the start to the end has passed through the phase
/// that reclaims the terminal, and the status at the end is the one that
/// the wait gave.
pub proof fn lemma_reclaim_before_done(pgid: i32, resume: bool, events: Seq<ForegroundEvent>)
    requires
        phase_after(ForegroundPhase::Start { pgid, resume }, events) is Done,
    ensures
        exists|k: int|
            0 <= k < events.len() && #[trigger] phase_after(
                ForegroundPhase::Start { pgid, resume },
                events.subrange(0, k),
            ) == (ForegroundPhase::Reclaim {
                status: phase_after(ForegroundPhase::Start { pgid, resume }, events)->Done_status,
            }),
    decreases events.len(),
{
    let start = ForegroundPhase::Start { pgid, resume };
    if events.len() > 0 {
        let before = events.drop_last();
        assert(events.subrange(0, events.len() - 1) =~= before);
        if phase_after(start, before) is Done {
            lemma_reclaim_before_done(pgid, resume, before);
            let k = choose|k: int|
                0 <= k < before.len() && #[trigger] phase_after(start, before.subrange(0, k)) == (
                ForegroundPhase::Reclaim { status: phase_after(start, before)->Done_status });
            assert(before.subrange(0, k) =~= events.subrange(0, k));
        } else {
            assert(phase_after(start, events.subrange(0, events.len() - 1)) is Reclaim);
        }
    }
}

/// While the shell waits, every outcome that ends the wait leads to the
/// reclaiming of the terminal: an exit, a fatal signal, a stop, and a
/// failure of the wait itself.
pub proof fn lemma_wait_end_reclaims(pgid: i32, outcome: WaitOutcome)
    ensures
        foreground_status(outcome) is Some ==> next_phase(
            ForegroundPhase::Waiting { pgid },
            ForegroundEvent::Waited(outcome),
        ) == (ForegroundPhase::Reclaim { status: foreground_status(outcome)->0 }),
        foreground_status(outcome) is None ==> next_phase(
            ForegroundPhase::Waiting { pgid },
            ForegroundEvent::Waited(outcome),
        ) == (ForegroundPhase::Waiting { pgid }),
        foreground_status(WaitOutcome::Failed) == Some(1i32),
{
}

} // verus!
