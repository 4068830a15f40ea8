use jobshell::job::{Job, JobState, JobTable, UpdateKind, WaitStatus};

fn words(list: &[&str]) -> Vec<String> {
    list.iter().map(|w| w.to_string()).collect()
}

fn table_of_three() -> JobTable {
    let mut t = JobTable::default();
    t.add_job(100, JobState::Running, "sleep".to_string(), words(&["5"]));
    t.add_job(200, JobState::Running, "cat".to_string(), words(&[]));
    t.add_job(300, JobState::Stopped, "vi".to_string(), words(&["a b", "c"]));
    t
}

fn currents(t: &JobTable) -> Vec<bool> {
    t.jobs.iter().map(|j| j.current).collect()
}

fn ids(t: &JobTable) -> Vec<usize> {
    t.jobs.iter().map(|j| j.id).collect()
}

#[test]
fn empty_table_has_no_current_job() {
    let t = JobTable::default();
    assert!(t.jobs.is_empty());
    assert_eq!(t.current_prev_ids(), (None, None));
    assert_eq!(t.index_of_current(), None);
    assert_eq!(t.index_by_percent("%+"), None);
}

#[test]
fn add_job_hands_out_increasing_ids() {
    let mut t = JobTable::default();
    let a = t.add_job(10, JobState::Running, "a".to_string(), vec![]);
    let b = t.add_job(20, JobState::Running, "b".to_string(), vec![]);
    let c = t.add_job(30, JobState::Running, "c".to_string(), vec![]);
    assert_eq!((a, b, c), (1, 2, 3));
    assert_eq!(ids(&t), vec![1, 2, 3]);
}

#[test]
fn add_job_marks_only_the_new_job_current() {
    let t = table_of_three();
    assert_eq!(currents(&t), vec![false, false, true]);
}

#[test]
fn add_job_builds_the_command_line() {
    let t = table_of_three();
    assert_eq!(t.jobs[0].cmdline, "sleep 5");
    assert_eq!(t.jobs[1].cmdline, "cat");
    assert_eq!(t.jobs[2].cmdline, "vi a b c");
    assert_eq!(t.jobs[0].summary(), "sleep 5");
}

#[test]
fn add_job_records_group_state_and_leader() {
    let t = table_of_three();
    assert_eq!(t.jobs[0].pgid, 100);
    assert_eq!(t.jobs[0].pids, vec![100]);
    assert_eq!(t.jobs[0].state, JobState::Running);
    assert_eq!(t.jobs[2].state, JobState::Stopped);
}

#[test]
fn ids_are_not_reused_while_later_jobs_live() {
    let mut t = table_of_three();
    t.apply_update(UpdateKind::Terminated { pgid: 200, code: 0 });
    let id = t.add_job(400, JobState::Running, "x".to_string(), vec![]);
    assert_eq!(id, 4);
    assert_eq!(ids(&t), vec![1, 3, 4]);
}

#[test]
fn removing_the_current_job_promotes_the_latest() {
    let mut t = table_of_three();
    t.apply_update(UpdateKind::Terminated { pgid: 300, code: 0 });
    assert_eq!(ids(&t), vec![1, 2]);
    assert_eq!(currents(&t), vec![false, true]);
    assert_eq!(t.current_prev_ids(), (Some(2), Some(1)));
}

#[test]
fn removing_another_job_keeps_the_current_one() {
    let mut t = table_of_three();
    t.apply_update(UpdateKind::Terminated { pgid: 100, code: 0 });
    assert_eq!(ids(&t), vec![2, 3]);
    assert_eq!(currents(&t), vec![false, true]);
}

#[test]
fn removing_the_only_job_empties_the_table() {
    let mut t = JobTable::default();
    t.add_job(7, JobState::Running, "true".to_string(), vec![]);
    let line = t.apply_update(UpdateKind::Terminated { pgid: 7, code: 0 });
    assert_eq!(line, Some("[1]+  Terminated              true".to_string()));
    assert!(t.jobs.is_empty());
}

#[test]
fn stop_is_recorded_and_announced() {
    let mut t = table_of_three();
    let line = t.apply_update(UpdateKind::Stopped { pgid: 100 });
    assert_eq!(line, Some("[1]+  Stopped                 sleep 5".to_string()));
    assert_eq!(t.jobs[0].state, JobState::Stopped);
    assert_eq!(ids(&t), vec![1, 2, 3]);
}

#[test]
fn continuation_is_recorded_silently() {
    let mut t = table_of_three();
    let line = t.apply_update(UpdateKind::Running { pgid: 300 });
    assert_eq!(line, None);
    assert_eq!(t.jobs[2].state, JobState::Running);
}

#[test]
fn update_of_an_unknown_group_changes_nothing() {
    let mut t = table_of_three();
    assert_eq!(t.apply_update(UpdateKind::Terminated { pgid: 999, code: 1 }), None);
    assert_eq!(t.apply_update(UpdateKind::Stopped { pgid: 999 }), None);
    assert_eq!(ids(&t), vec![1, 2, 3]);
    assert_eq!(t.jobs[2].state, JobState::Stopped);
}

#[test]
fn stopped_job_stays_stopped_under_events_of_other_groups() {
    let mut t = table_of_three();
    t.apply_update(UpdateKind::Running { pgid: 100 });
    t.apply_update(UpdateKind::Stopped { pgid: 200 });
    t.apply_update(UpdateKind::Terminated { pgid: 100, code: 0 });
    let i = t.index_by_id(3).unwrap();
    assert_eq!(t.jobs[i].state, JobState::Stopped);
    assert_eq!(t.jobs[i].pgid, 300);
}

#[test]
fn stop_then_exit_of_one_group_is_applied_in_order() {
    let mut t = JobTable::default();
    t.add_job(5, JobState::Running, "job".to_string(), vec![]);
    assert!(t.apply_update(UpdateKind::Stopped { pgid: 5 }).is_some());
    assert!(t.apply_update(UpdateKind::Terminated { pgid: 5, code: 128 }).is_some());
    assert!(t.jobs.is_empty());
    assert_eq!(t.apply_update(UpdateKind::Running { pgid: 5 }), None);
    assert!(t.jobs.is_empty());
}

#[test]
fn wait_reports_are_classified() {
    let exited = UpdateKind::from_waitstatus(WaitStatus::Exited { pid: 9, code: 2 });
    assert!(matches!(exited, Some(UpdateKind::Terminated { pgid: 9, code: 2 })));
    let killed = UpdateKind::from_waitstatus(WaitStatus::Signaled {
        pid: 9,
        signal: 15,
        core_dumped: false,
    });
    assert!(matches!(killed, Some(UpdateKind::Terminated { pgid: 9, code: 128 })));
    let stopped = UpdateKind::from_waitstatus(WaitStatus::Stopped { pid: 9, signal: 20 });
    assert!(matches!(stopped, Some(UpdateKind::Stopped { pgid: 9 })));
    let continued = UpdateKind::from_waitstatus(WaitStatus::Continued { pid: 9 });
    assert!(matches!(continued, Some(UpdateKind::Running { pgid: 9 })));
    assert!(UpdateKind::from_waitstatus(WaitStatus::StillAlive).is_none());
    assert!(UpdateKind::from_waitstatus(WaitStatus::PtraceSyscall { pid: 9 }).is_none());
    assert!(UpdateKind::from_waitstatus(WaitStatus::PtraceEvent { pid: 9, signal: 5, event: 1 })
        .is_none());
}

#[test]
fn index_by_id_finds_the_place() {
    let t = table_of_three();
    assert_eq!(t.index_by_id(1), Some(0));
    assert_eq!(t.index_by_id(3), Some(2));
    assert_eq!(t.index_by_id(4), None);
    assert_eq!(t.index_by_id(0), None);
    assert_eq!(t.index_by_group(200), Some(1));
    assert_eq!(t.index_by_group(201), None);
}

#[test]
fn percent_references_resolve() {
    let t = table_of_three();
    assert_eq!(t.index_by_percent("%+"), Some(2));
    assert_eq!(t.index_by_percent("%-"), Some(1));
    assert_eq!(t.index_by_percent("%1"), Some(0));
    assert_eq!(t.index_by_percent("%2"), Some(1));
    assert_eq!(t.index_by_percent("%02"), Some(1));
    assert_eq!(t.index_by_percent("%+2"), Some(1));
    assert_eq!(t.index_by_percent("%9"), None);
    assert_eq!(t.index_by_percent("%x"), None);
    assert_eq!(t.index_by_percent("%"), None);
    assert_eq!(t.index_by_percent("2"), None);
    assert_eq!(t.index_by_percent(""), None);
}

#[test]
fn previous_needs_two_jobs() {
    let mut t = JobTable::default();
    t.add_job(1, JobState::Running, "a".to_string(), vec![]);
    assert_eq!(t.index_by_percent("%-"), None);
    assert_eq!(t.current_prev_ids(), (Some(1), None));
}

#[test]
fn current_and_previous_ids_follow_creation_order() {
    let mut t = table_of_three();
    assert_eq!(t.current_prev_ids(), (Some(3), Some(2)));
    t.apply_update(UpdateKind::Terminated { pgid: 200, code: 0 });
    assert_eq!(t.current_prev_ids(), (Some(3), Some(1)));
}

#[test]
fn current_and_previous_fall_back_to_the_last_jobs() {
    let mut t = table_of_three();
    t.jobs[2].current = false;
    assert_eq!(t.index_of_current(), None);
    assert_eq!(t.current_prev_ids(), (Some(3), Some(2)));
}

#[test]
fn by_id_gives_the_job_to_change() {
    let mut t = table_of_three();
    {
        let job: &mut Job = t.by_id(2).unwrap();
        assert_eq!(job.pgid, 200);
        job.state = JobState::Stopped;
    }
    assert_eq!(t.jobs[1].state, JobState::Stopped);
    assert!(t.by_id(7).is_none());
}

#[test]
fn by_percent_gives_the_job_to_change() {
    let mut t = table_of_three();
    assert_eq!(t.by_percent("%+").unwrap().id, 3);
    assert_eq!(t.by_percent("%-").unwrap().id, 2);
    assert_eq!(t.by_percent("%1").unwrap().id, 1);
    assert!(t.by_percent("%8").is_none());
    assert!(t.by_percent("nonsense").is_none());
}

#[test]
fn list_gives_the_places_in_creation_order() {
    let t = table_of_three();
    assert_eq!(t.list(None), vec![0, 1, 2]);
    assert_eq!(t.list(Some(JobState::Running)), vec![0, 1]);
    assert_eq!(t.list(Some(JobState::Stopped)), vec![2]);
    assert_eq!(t.list(Some(JobState::Terminated)), Vec::<usize>::new());
    assert_eq!(JobTable::default().list(None), Vec::<usize>::new());
}
