use crate::job::{
    after_update, lemma_update_keeps_table, texts, update_notice, update_of, JobTable, JobView,
    UpdateKind, WaitStatus, KILLED_STATUS,
};
use vstd::prelude::*;

verus! {

/// What one wait on children gave: a report, or a failure of the wait
/// itself.
#[derive(Debug, Clone, Copy)]
pub enum WaitOutcome {
    Report(WaitStatus),
    Failed,
}

/// The table after one wait report.
pub open spec fn after_report(s: Seq<JobView>, ws: WaitStatus) -> Seq<JobView> {
    match update_of(ws) {
        Some(upd) => after_update(s, upd),
        None => s,
    }
}

/// The line to show for one wait report, if any.
pub open spec fn report_notice(s: Seq<JobView>, ws: WaitStatus) -> Option<Seq<char>> {
    match update_of(ws) {
        Some(upd) => update_notice(s, upd),
        None => None,
    }
}

/// The table after a run of wait reports, applied in the order in which they
/// were observed.
pub open spec fn drained(s: Seq<JobView>, reports: Seq<WaitStatus>) -> Seq<JobView>
    decreases reports.len(),
{
    if reports.len() == 0 {
        s
    } else {
        after_report(drained(s, reports.drop_last()), reports.last())
    }
}

/// The lines to show for a run of wait reports, in their order.
pub open spec fn drain_notices(s: Seq<JobView>, reports: Seq<WaitStatus>) -> Seq<Seq<char>>
    decreases reports.len(),
{
    if reports.len() == 0 {
        Seq::empty()
    } else {
        let before = drain_notices(s, reports.drop_last());
        match report_notice(drained(s, reports.drop_last()), reports.last()) {
            Some(line) => before.push(line),
            None => before,
        }
    }
}

/// A run of wait reports leaves a well-formed table well formed.
pub proof fn lemma_drained_keeps_table(s: Seq<JobView>, issued: nat, reports: Seq<WaitStatus>)
    requires
        crate::job::table_wf(s, issued),
    ensures
        crate::job::table_wf(drained(s, reports), issued),
    decreases reports.len(),
{
    if reports.len() > 0 {
        lemma_drained_keeps_table(s, issued, reports.drop_last());
        match update_of(reports.last()) {
            Some(upd) => {
                lemma_update_keeps_table(drained(s, reports.drop_last()), issued, upd);
            },
            None => {},
        }
    }
}

/// Records the pending changes of state that were collected without
/// blocking, in the order in which they were observed, and gives the lines
/// to show: one for each job that stopped or ended. Nothing was reported
/// exactly when no line comes back.
pub fn maybe_reap(table: &mut JobTable, reports: &[WaitStatus]) -> (notices: Vec<String>)
    ensures
        final(table)@ == drained(old(table)@, reports@),
        final(table).issued() == old(table).issued(),
        texts(notices@) == drain_notices(old(table)@, reports@),
        old(table).wf() ==> final(table).wf(),
{
    let mut notices: Vec<String> = Vec::new();
    let mut i: usize = 0;
    assert(reports@.subrange(0, 0) =~= Seq::<WaitStatus>::empty());
    assert(texts(notices@) =~= Seq::<Seq<char>>::empty());
    while i < reports.len()
        invariant
            i <= reports.len(),
            table@ == drained(old(table)@, reports@.subrange(0, i as int)),
            table.issued() == old(table).issued(),
            texts(notices@) == drain_notices(old(table)@, reports@.subrange(0, i as int)),
            old(table).wf() ==> table.wf(),
        decreases reports.len() - i,
    {
        proof {
            let next = reports@.subrange(0, i + 1);
            assert(next.drop_last() =~= reports@.subrange(0, i as int));
            assert(next.last() == reports@[i as int]);
        }
        match UpdateKind::from_waitstatus(reports[i]) {
            Some(upd) => {
                match table.apply_update(upd) {
                    Some(line) => {
                        let ghost before = texts(notices@);
                        notices.push(line);
                        assert(texts(notices@) =~= before.push(line@));
                    },
                    None => {},
                }
            },
            None => {},
        }
        i += 1;
    }
    assert(reports@.subrange(0, i as int) =~= reports@);
    notices
}

/// What a report means for the job that the shell waits for in the
/// foreground. The change is recorded on the group waited for.
pub open spec fn foreground_update(pgid: i32, outcome: WaitOutcome) -> Option<UpdateKind> {
    match outcome {
        WaitOutcome::Report(WaitStatus::Exited { code, .. }) => Some(
            UpdateKind::Terminated { pgid, code },
        ),
        WaitOutcome::Report(WaitStatus::Signaled { .. }) => Some(
            UpdateKind::Terminated { pgid, code: 128 },
        ),
        WaitOutcome::Report(WaitStatus::Stopped { .. }) => Some(UpdateKind::Stopped { pgid }),
        WaitOutcome::Report(WaitStatus::Continued { .. }) => Some(UpdateKind::Running { pgid }),
        _ => None,
    }
}

/// The status with which a foreground wait ends, or nothing while it goes
/// on: the exit code of a job that exited, 128 for one that a signal killed,
/// 0 for one that stopped, 1 when the wait itself failed.
pub open spec fn foreground_status(outcome: WaitOutcome) -> Option<i32> {
    match outcome {
        WaitOutcome::Report(WaitStatus::Exited { code, .. }) => Some(code),
        WaitOutcome::Report(WaitStatus::Signaled { .. }) => Some(128i32),
        WaitOutcome::Report(WaitStatus::Stopped { .. }) => Some(0i32),
        WaitOutcome::Failed => Some(1i32),
        _ => None,
    }
}

/// One turn of a foreground wait.
pub struct ForegroundStep {
    /// The status of the command, once the wait is over.
    pub status: Option<i32>,
    /// The line to show, if any.
    pub notice: Option<String>,
}

/// Takes one outcome of the blocking wait on the foreground group `pgid`:
/// records the change in the table, gives the line to show, and says whether
/// the wait is over and with which status. A continuation is recorded and
/// the wait goes on.
pub fn foreground_step(table: &mut JobTable, pgid: i32, outcome: WaitOutcome) -> (step:
    ForegroundStep)
    ensures
        step.status == foreground_status(outcome),
        final(table).issued() == old(table).issued(),
        match foreground_update(pgid, outcome) {
            Some(upd) => {
                &&& final(table)@ == after_update(old(table)@, upd)
                &&& step.notice is Some <==> update_notice(old(table)@, upd) is Some
                &&& step.notice is Some ==> step.notice->0@ == update_notice(old(table)@, upd)->0
            },
            None => final(table)@ == old(table)@ && step.notice is None,
        },
        old(table).wf() ==> final(table).wf(),
{
    match outcome {
        WaitOutcome::Report(WaitStatus::Exited { code, .. }) => {
            let notice = table.apply_update(UpdateKind::Terminated { pgid, code });
            ForegroundStep { status: Some(code), notice }
        },
        WaitOutcome::Report(WaitStatus::Signaled { .. }) => {
            let notice = table.apply_update(UpdateKind::Terminated { pgid, code: KILLED_STATUS });
            ForegroundStep { status: Some(KILLED_STATUS), notice }
        },
        WaitOutcome::Report(WaitStatus::Stopped { .. }) => {
            let notice = table.apply_update(UpdateKind::Stopped { pgid });
            ForegroundStep { status: Some(0), notice }
        },
        WaitOutcome::Report(WaitStatus::Continued { .. }) => {
            let notice = table.apply_update(UpdateKind::Running { pgid });
            ForegroundStep { status: None, notice }
        },
        WaitOutcome::Report(_) => ForegroundStep { status: None, notice: None },
        WaitOutcome::Failed => ForegroundStep { status: Some(1), notice: None },
    }
}

} // verus!
