use jobshell::control::{
    format_jobs_simple, builtin_bg, builtin_fg, builtin_jobs, builtin_kill, format_job, mark_of, parse_jobs_flags,
    resolve_job_index, resolve_reference, Foreground, JobError, JobsOptions, KillTarget,
};
use jobshell::job::{JobState, JobTable, UpdateKind};
use jobshell::text::to_decimal;

fn operands(list: &[&str]) -> Vec<String> {
    list.iter().map(|w| w.to_string()).collect()
}

fn sample() -> JobTable {
    let mut t = JobTable::default();
    t.add_job(4242, JobState::Running, "sleep".to_string(), operands(&["5"]));
    t.add_job(4300, JobState::Stopped, "vi".to_string(), operands(&["notes"]));
    t.add_job(51, JobState::Running, "make".to_string(), operands(&[]));
    t
}

fn snapshot(t: &JobTable) -> Vec<(usize, i32, JobState, String, bool)> {
    t.jobs.iter().map(|j| (j.id, j.pgid, j.state, j.cmdline.clone(), j.current)).collect()
}

#[test]
fn no_operand_means_the_current_job() {
    let t = sample();
    assert_eq!(resolve_job_index(&t, &operands(&[])), Ok(2));
}

#[test]
fn no_operand_on_an_empty_table_is_no_such_job() {
    let t = JobTable::default();
    assert_eq!(resolve_job_index(&t, &operands(&[])), Err(JobError::NoSuchJob));
}

#[test]
fn references_resolve_by_mark_and_by_id() {
    let t = sample();
    assert_eq!(resolve_job_index(&t, &operands(&["%+"])), Ok(2));
    assert_eq!(resolve_job_index(&t, &operands(&["%-"])), Ok(1));
    assert_eq!(resolve_job_index(&t, &operands(&["%1"])), Ok(0));
    assert_eq!(resolve_job_index(&t, &operands(&["2"])), Ok(1));
    assert_eq!(resolve_job_index(&t, &operands(&["%3", "%1"])), Ok(2));
}

#[test]
fn a_reference_to_a_missing_job_is_no_such_job() {
    let t = sample();
    assert_eq!(resolve_job_index(&t, &operands(&["%7"])), Err(JobError::NoSuchJob));
    assert_eq!(resolve_job_index(&t, &operands(&["7"])), Err(JobError::NoSuchJob));
    assert_eq!(resolve_reference(&t, "%0"), Err(JobError::NoSuchJob));
}

#[test]
fn a_malformed_reference_is_invalid() {
    let t = sample();
    assert_eq!(resolve_job_index(&t, &operands(&["%x"])), Err(JobError::InvalidReference));
    assert_eq!(resolve_job_index(&t, &operands(&["%"])), Err(JobError::InvalidReference));
    assert_eq!(resolve_job_index(&t, &operands(&["one"])), Err(JobError::InvalidReference));
    assert_eq!(resolve_job_index(&t, &operands(&[""])), Err(JobError::InvalidReference));
    assert_eq!(resolve_job_index(&t, &operands(&["-1"])), Err(JobError::InvalidReference));
}

#[test]
fn fg_of_a_missing_job_fails_and_leaves_the_table() {
    let mut t = JobTable::default();
    t.add_job(4242, JobState::Running, "sleep".to_string(), operands(&["5"]));
    let before = snapshot(&t);
    assert_eq!(builtin_fg(&mut t, &operands(&["%2"])), Err(JobError::NoSuchJob));
    assert_eq!(snapshot(&t), before);
}

#[test]
fn fg_marks_the_job_running_and_names_its_group() {
    let mut t = sample();
    assert_eq!(builtin_fg(&mut t, &operands(&["%2"])), Ok(Foreground { id: 2, pgid: 4300 }));
    assert_eq!(t.jobs[1].state, JobState::Running);
    assert_eq!(builtin_fg(&mut t, &operands(&[])), Ok(Foreground { id: 3, pgid: 51 }));
}

#[test]
fn bg_resumes_a_stopped_job() {
    let mut t = sample();
    let resumed = builtin_bg(&mut t, &operands(&["%2"])).ok().unwrap();
    assert_eq!(resumed.pgid, 4300);
    assert_eq!(resumed.line, "[2]+ vi notes &");
    assert_eq!(t.jobs[1].state, JobState::Running);
}

#[test]
fn bg_refuses_a_job_that_is_not_stopped() {
    let mut t = sample();
    let before = snapshot(&t);
    assert_eq!(builtin_bg(&mut t, &operands(&["%1"])).err(), Some(JobError::JobNotStopped));
    assert_eq!(builtin_bg(&mut t, &operands(&[])).err(), Some(JobError::JobNotStopped));
    assert_eq!(snapshot(&t), before);
}

#[test]
fn bg_of_a_missing_job_fails_and_leaves_the_table() {
    let mut t = sample();
    let before = snapshot(&t);
    assert_eq!(builtin_bg(&mut t, &operands(&["%9"])).err(), Some(JobError::NoSuchJob));
    assert_eq!(builtin_bg(&mut t, &operands(&["%?"])).err(), Some(JobError::InvalidReference));
    assert_eq!(snapshot(&t), before);
}

#[test]
fn kill_names_a_group_or_a_process() {
    let t = sample();
    assert_eq!(builtin_kill(&t, &operands(&["%1"])), Ok(KillTarget::Group { pgid: 4242 }));
    assert_eq!(builtin_kill(&t, &operands(&["%+"])), Ok(KillTarget::Group { pgid: 51 }));
    assert_eq!(builtin_kill(&t, &operands(&["%-"])), Ok(KillTarget::Group { pgid: 4300 }));
    assert_eq!(builtin_kill(&t, &operands(&["4242"])), Ok(KillTarget::Process { pid: 4242 }));
    assert_eq!(builtin_kill(&t, &operands(&["-1"])), Ok(KillTarget::Process { pid: -1 }));
}

#[test]
fn kill_reports_its_errors() {
    let t = sample();
    assert_eq!(builtin_kill(&t, &operands(&[])), Err(JobError::MissingOperand));
    assert_eq!(builtin_kill(&t, &operands(&["%9"])), Err(JobError::NoSuchJob));
    assert_eq!(builtin_kill(&t, &operands(&["%x"])), Err(JobError::InvalidReference));
    assert_eq!(builtin_kill(&t, &operands(&["abc"])), Err(JobError::InvalidReference));
    assert_eq!(builtin_kill(&t, &operands(&["99999999999"])), Err(JobError::InvalidReference));
}

#[test]
fn jobs_flags_are_read() {
    let plain = parse_jobs_flags(&operands(&[]));
    assert_eq!(plain, JobsOptions { pids_only: false, with_pid: false, filter: None });
    let all = parse_jobs_flags(&operands(&["-l", "-p", "-r", "x", "-s"]));
    assert_eq!(
        all,
        JobsOptions { pids_only: true, with_pid: true, filter: Some(JobState::Stopped) }
    );
    let running = parse_jobs_flags(&operands(&["-s", "-r"]));
    assert_eq!(running.filter, Some(JobState::Running));
    let none = parse_jobs_flags(&operands(&["-lp", "l", "-"]));
    assert_eq!(none, JobsOptions { pids_only: false, with_pid: false, filter: None });
}

#[test]
fn jobs_lists_every_job_in_creation_order() {
    let t = sample();
    let lines = builtin_jobs(&t, &operands(&[]));
    assert_eq!(
        lines,
        vec![
            "[1]   Running     sleep 5 &".to_string(),
            "[2]-  Stopped     vi notes".to_string(),
            "[3]+  Running     make &".to_string(),
        ]
    );
}

#[test]
fn jobs_with_group_ids() {
    let t = sample();
    let lines = builtin_jobs(&t, &operands(&["-l"]));
    assert_eq!(
        lines,
        vec![
            "[1]   4242   Running              sleep 5 &".to_string(),
            "[2]-  4300   Stopped              vi notes".to_string(),
            "[3]+  51     Running              make &".to_string(),
        ]
    );
}

#[test]
fn jobs_with_group_ids_only() {
    let t = sample();
    assert_eq!(
        builtin_jobs(&t, &operands(&["-p"])),
        vec!["4242".to_string(), "4300".to_string(), "51".to_string()]
    );
}

#[test]
fn jobs_filters_by_state() {
    let t = sample();
    assert_eq!(
        builtin_jobs(&t, &operands(&["-s"])),
        vec!["[2]-  Stopped     vi notes".to_string()]
    );
    assert_eq!(
        builtin_jobs(&t, &operands(&["-r"])),
        vec!["[1]   Running     sleep 5 &".to_string(), "[3]+  Running     make &".to_string()]
    );
    assert_eq!(builtin_jobs(&JobTable::default(), &operands(&[])), Vec::<String>::new());
}

#[test]
fn marks_of_a_listing() {
    assert_eq!(mark_of(3, Some(3), Some(2)), '+');
    assert_eq!(mark_of(2, Some(3), Some(2)), '-');
    assert_eq!(mark_of(1, Some(3), Some(2)), ' ');
    assert_eq!(mark_of(1, None, None), ' ');
}

#[test]
fn a_long_group_id_is_not_cut() {
    let mut t = JobTable::default();
    t.add_job(123456789, JobState::Stopped, "x".to_string(), vec![]);
    let o = JobsOptions { pids_only: false, with_pid: true, filter: None };
    assert_eq!(format_job(&t.jobs[0], '+', o), "[1]+  123456789 Stopped              x");
}

#[test]
fn listed_ids_resolve_to_the_same_job() {
    let mut t = sample();
    t.apply_update(UpdateKind::Terminated { pgid: 4242, code: 0 });
    t.add_job(77, JobState::Running, "top".to_string(), vec![]);
    for i in 0..t.jobs.len() {
        let id = to_decimal(t.jobs[i].id);
        let pgid = t.jobs[i].pgid;
        let percent = format!("%{}", id);
        assert_eq!(resolve_job_index(&t, &[id.clone()]), Ok(i));
        assert_eq!(resolve_job_index(&t, &[percent.clone()]), Ok(i));
        assert_eq!(builtin_kill(&t, &[percent.clone()]), Ok(KillTarget::Group { pgid }));
        let mut copy = sample();
        copy.apply_update(UpdateKind::Terminated { pgid: 4242, code: 0 });
        copy.add_job(77, JobState::Running, "top".to_string(), vec![]);
        assert_eq!(builtin_fg(&mut copy, &[percent]).map(|f| f.pgid), Ok(pgid));
    }
}

#[test]
fn plain_listing_has_one_line_for_each_job() {
    let t = sample();
    assert_eq!(
        format_jobs_simple(&t.jobs),
        "[1]   Running     sleep 5\n[2]   Stopped     vi notes\n[3]+  Running     make\n"
    );
    assert_eq!(format_jobs_simple(&[]), "");
}
