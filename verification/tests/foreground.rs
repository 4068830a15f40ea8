use jobshell::control::{error_message, error_status, settle_delivery, JobError};
use jobshell::foreground::{
    advance, next_action, ForegroundAction, ForegroundEvent, ForegroundPhase,
};
use jobshell::job::{JobState, JobTable, WaitStatus};
use jobshell::reaper::WaitOutcome;
use jobshell::terminal::{
    disposition_of, drain_flags, foreground_flags, group_target, settle_transfer, Disposition,
    ShellSignal, TransferOutcome, WaitFlags, ANY_CHILD,
};

fn one_job(pgid: i32, state: JobState) -> JobTable {
    let mut t = JobTable::default();
    t.add_job(pgid, state, "job".to_string(), vec![]);
    t
}

#[test]
fn a_launch_hands_over_waits_and_reclaims() {
    let mut t = one_job(40, JobState::Running);
    let mut phase = ForegroundPhase::Start { pgid: 40, resume: false };
    assert_eq!(next_action(phase), ForegroundAction::GiveTerminal { pgid: 40 });
    phase = advance(&mut t, phase, ForegroundEvent::Performed).0;
    assert_eq!(phase, ForegroundPhase::Waiting { pgid: 40 });
    assert_eq!(next_action(phase), ForegroundAction::Wait { pgid: 40 });
    let exit = WaitOutcome::Report(WaitStatus::Exited { pid: 40, code: 2 });
    let (next, notice) = advance(&mut t, phase, ForegroundEvent::Waited(exit));
    assert_eq!(next, ForegroundPhase::Reclaim { status: 2 });
    assert_eq!(notice, Some("[1]+  Terminated              job".to_string()));
    assert!(t.jobs.is_empty());
    assert_eq!(next_action(next), ForegroundAction::ReclaimTerminal);
    let done = advance(&mut t, next, ForegroundEvent::Performed).0;
    assert_eq!(done, ForegroundPhase::Done { status: 2 });
    assert_eq!(next_action(done), ForegroundAction::Return { status: 2 });
}

#[test]
fn a_resumed_job_is_continued_after_the_hand_over() {
    let mut t = one_job(40, JobState::Running);
    let start = ForegroundPhase::Start { pgid: 40, resume: true };
    let resume = advance(&mut t, start, ForegroundEvent::Performed).0;
    assert_eq!(resume, ForegroundPhase::Resume { pgid: 40 });
    assert_eq!(next_action(resume), ForegroundAction::Continue { pgid: 40 });
    let waiting = advance(&mut t, resume, ForegroundEvent::Performed).0;
    assert_eq!(waiting, ForegroundPhase::Waiting { pgid: 40 });
}

#[test]
fn a_failed_wait_still_reclaims_the_terminal() {
    let mut t = one_job(40, JobState::Running);
    let waiting = ForegroundPhase::Waiting { pgid: 40 };
    let (next, notice) = advance(&mut t, waiting, ForegroundEvent::Waited(WaitOutcome::Failed));
    assert_eq!(next, ForegroundPhase::Reclaim { status: 1 });
    assert_eq!(notice, None);
    assert_eq!(t.jobs.len(), 1);
}

#[test]
fn a_stop_ends_the_wait_and_a_continuation_does_not() {
    let mut t = one_job(40, JobState::Running);
    let waiting = ForegroundPhase::Waiting { pgid: 40 };
    let cont = WaitOutcome::Report(WaitStatus::Continued { pid: 40 });
    assert_eq!(advance(&mut t, waiting, ForegroundEvent::Waited(cont)).0, waiting);
    let stop = WaitOutcome::Report(WaitStatus::Stopped { pid: 40, signal: 20 });
    let (next, notice) = advance(&mut t, waiting, ForegroundEvent::Waited(stop));
    assert_eq!(next, ForegroundPhase::Reclaim { status: 0 });
    assert_eq!(notice, Some("[1]+  Stopped                 job".to_string()));
    assert_eq!(t.jobs[0].state, JobState::Stopped);
}

#[test]
fn events_out_of_place_change_nothing() {
    let mut t = one_job(40, JobState::Running);
    let exit = ForegroundEvent::Waited(WaitOutcome::Report(WaitStatus::Exited { pid: 40, code: 0 }));
    let start = ForegroundPhase::Start { pgid: 40, resume: false };
    assert_eq!(advance(&mut t, start, exit), (start, None));
    let reclaim = ForegroundPhase::Reclaim { status: 3 };
    assert_eq!(advance(&mut t, reclaim, exit), (reclaim, None));
    let waiting = ForegroundPhase::Waiting { pgid: 40 };
    assert_eq!(advance(&mut t, waiting, ForegroundEvent::Performed), (waiting, None));
    let done = ForegroundPhase::Done { status: 3 };
    assert_eq!(advance(&mut t, done, ForegroundEvent::Performed), (done, None));
    assert_eq!(t.jobs.len(), 1);
}

#[test]
fn a_shell_without_a_terminal_hands_over_nothing() {
    assert_eq!(settle_transfer(TransferOutcome::Done), Ok(()));
    assert_eq!(settle_transfer(TransferOutcome::NoTerminal), Ok(()));
    assert_eq!(settle_transfer(TransferOutcome::Failed { errno: 1 }), Err(1));
}

#[test]
fn the_shell_ignores_the_keys_of_the_terminal() {
    assert_eq!(disposition_of(ShellSignal::Interrupt), Disposition::Ignore);
    assert_eq!(disposition_of(ShellSignal::TerminalStop), Disposition::Ignore);
    assert_eq!(disposition_of(ShellSignal::ChildChanged), Disposition::Note);
}

#[test]
fn only_the_drain_does_not_block() {
    assert_eq!(drain_flags(), WaitFlags { no_hang: true, untraced: true, continued: true });
    assert_eq!(foreground_flags(), WaitFlags { no_hang: false, untraced: true, continued: true });
    assert_eq!(ANY_CHILD, -1);
    assert_eq!(group_target(4242), -4242);
    assert_eq!(group_target(-7), 7);
}

#[test]
fn errors_are_worded() {
    let none: Vec<String> = vec![];
    let two = vec!["%2".to_string()];
    assert_eq!(error_message("fg", JobError::NoSuchJob, &two), "fg: %2: no such job");
    assert_eq!(error_message("fg", JobError::NoSuchJob, &none), "fg: no current job");
    assert_eq!(error_message("bg", JobError::JobNotStopped, &two), "bg: job is not stopped");
    assert_eq!(
        error_message("kill", JobError::InvalidReference, &["x".to_string()]),
        "kill: invalid target 'x'"
    );
    assert_eq!(error_message("kill", JobError::InvalidReference, &none), "kill: invalid target");
    assert_eq!(
        error_message("kill", JobError::MissingOperand, &none),
        "kill: usage: kill <pid>|%<jobid>"
    );
    for e in [JobError::NoSuchJob, JobError::JobNotStopped, JobError::InvalidReference,
        JobError::MissingOperand] {
        assert_eq!(error_status(e), 1);
    }
}

#[test]
fn a_signal_that_was_not_sent_fails_the_command() {
    let sent = settle_delivery("kill", &["%1".to_string()], None);
    assert_eq!(sent.status, 0);
    assert_eq!(sent.message, None);
    let gone = settle_delivery("kill", &["4242".to_string()], Some("ESRCH: No such process"));
    assert_eq!(gone.status, 1);
    assert_eq!(gone.message, Some("kill: 4242: ESRCH: No such process".to_string()));
    let bare = settle_delivery("bg", &[], Some("EPERM"));
    assert_eq!(bare.status, 1);
    assert_eq!(bare.message, Some("bg: EPERM".to_string()));
}
