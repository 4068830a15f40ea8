use crate::job::{
    as_nat, current_and_previous, first_where, has_id, last_where, lemma_first_where,
    lemma_last_where, lemma_parse_to_percent, lemma_percent_round_trip, marked_current,
    passes_filter, percent_target, table_wf, texts, with_state, JobState, JobTable, JobView,
};
use crate::text::{
    append_padded, chars_of, decimal, lemma_parse_decimal, pad_right, parse_i32, parse_signed,
    parse_unsigned, parse_usize_chars, push_char, signed_decimal, to_decimal, to_signed_decimal,
};
use vstd::prelude::*;
use vstd::string::*;

verus! {

/// Why a job-control command did nothing.
#[derive(Debug, Clone, Copy, PartialEq, Eq, Structural)]
pub enum JobError {
    /// The reference is well formed and names no job of the table.
    NoSuchJob,
    /// The job is not stopped, so it cannot be resumed in the background.
    JobNotStopped,
    /// The text is no job reference and no process id.
    InvalidReference,
    /// The command needs an operand and got none.
    MissingOperand,
}

/// Whether a text that starts with `%` is a job reference: `%+`, `%-`, or
/// `%` and a number.
pub open spec fn is_percent_reference(r: Seq<char>) -> bool {
    r.len() > 0 && r[0] == '%' && (r =~= seq!['%', '+'] || r =~= seq!['%', '-'] || parse_unsigned(
        r.subrange(1, r.len() as int),
        usize::MAX as nat,
    ) is Some)
}

/// The job that a reference names: a `%` reference, or a bare number taken
/// as an id.
pub open spec fn reference_target(s: Seq<JobView>, r: Seq<char>) -> Result<int, JobError> {
    if r.len() > 0 && r[0] == '%' {
        if is_percent_reference(r) {
            match percent_target(s, r) {
                Some(i) => Ok(i),
                None => Err(JobError::NoSuchJob),
            }
        } else {
            Err(JobError::InvalidReference)
        }
    } else {
        match parse_unsigned(r, usize::MAX as nat) {
            Some(id) => match first_where(s, has_id(id)) {
                Some(i) => Ok(i),
                None => Err(JobError::NoSuchJob),
            },
            None => Err(JobError::InvalidReference),
        }
    }
}

/// The job that a command works on: the one that its first operand names,
/// or the current job where it has no operand.
pub open spec fn resolve_target(s: Seq<JobView>, args: Seq<Seq<char>>) -> Result<int, JobError> {
    if args.len() == 0 {
        match last_where(s, marked_current()) {
            Some(i) => Ok(i),
            None => Err(JobError::NoSuchJob),
        }
    } else {
        reference_target(s, args[0])
    }
}

/// A resolved index as the contracts see it.
pub open spec fn as_place(r: Result<usize, JobError>) -> Result<int, JobError> {
    match r {
        Ok(i) => Ok(i as int),
        Err(e) => Err(e),
    }
}

/// Resolves a reference to the index of the job that it names.
pub fn resolve_reference(table: &JobTable, tok: &str) -> (r: Result<usize, JobError>)
    ensures
        as_place(r) == reference_target(table@, tok@),
        r is Ok ==> r->Ok_0 < table@.len(),
{
    let v = chars_of(tok);
    proof {
        crate::job::lemma_percent_target_in_range(table@, tok@);
    }
    if v.len() > 0 && v[0] == '%' {
        let plus = v.len() == 2 && v[1] == '+';
        let minus = v.len() == 2 && v[1] == '-';
        proof {
            if plus {
                assert(tok@ =~= seq!['%', '+']);
            } else if tok@ =~= seq!['%', '+'] {
                assert(tok@[1] == '+');
            }
            if minus {
                assert(tok@ =~= seq!['%', '-']);
            } else if tok@ =~= seq!['%', '-'] {
                assert(tok@[1] == '-');
            }
        }
        if plus || minus || parse_usize_chars(&v, 1).is_some() {
            match table.index_by_percent(tok) {
                Some(i) => Ok(i),
                None => Err(JobError::NoSuchJob),
            }
        } else {
            Err(JobError::InvalidReference)
        }
    } else {
        assert(v@.subrange(0, v.len() as int) =~= tok@);
        match parse_usize_chars(&v, 0) {
            Some(id) => {
                proof {
                    lemma_first_where(table@, has_id(id as nat));
                }
                match table.index_by_id(id) {
                    Some(i) => Ok(i),
                    None => Err(JobError::NoSuchJob),
                }
            },
            None => Err(JobError::InvalidReference),
        }
    }
}

/// Resolves the job that a command works on: the one that the first operand
/// names, or the current job where there is no operand. A reference that
/// names no job is an error; the current job does not stand in for it.
pub fn resolve_job_index(table: &JobTable, args: &[String]) -> (r: Result<usize, JobError>)
    ensures
        as_place(r) == resolve_target(table@, texts(args@)),
        r is Ok ==> r->Ok_0 < table@.len(),
{
    if args.len() == 0 {
        proof {
            lemma_last_where(table@, marked_current());
        }
        match table.index_of_current() {
            Some(i) => Ok(i),
            None => Err(JobError::NoSuchJob),
        }
    } else {
        resolve_reference(table, args[0].as_str())
    }
}

/// A job to resume in the background: the group to send the continue signal
/// to, and the line that tells of it.
pub struct Resumed {
    pub pgid: i32,
    pub line: String,
}

/// The line that tells of a job resumed in the background.
pub open spec fn resumed_line(id: nat, cmdline: Seq<char>) -> Seq<char> {
    seq!['['] + decimal(id) + "]+ "@ + cmdline + " &"@
}

/// `bg`: resumes a stopped job in the background. The job is marked running
/// and the caller is told which group to continue. A job that is not
/// stopped, and a reference that names no job, leave the table as it was.
pub fn builtin_bg(table: &mut JobTable, args: &[String]) -> (r: Result<Resumed, JobError>)
    ensures
        final(table).issued() == old(table).issued(),
        match resolve_target(old(table)@, texts(args@)) {
            Err(e) => r is Err && r->Err_0 == e && final(table)@ == old(table)@,
            Ok(i) => if old(table)@[i].state == JobState::Stopped {
                &&& r is Ok
                &&& r->Ok_0.pgid == old(table)@[i].pgid
                &&& r->Ok_0.line@ == resumed_line(old(table)@[i].id, old(table)@[i].cmdline)
                &&& final(table)@ == with_state(old(table)@, i, JobState::Running)
            } else {
                r is Err && r->Err_0 == JobError::JobNotStopped && final(table)@ == old(table)@
            },
        },
        old(table).wf() ==> final(table).wf(),
{
    let idx = match resolve_job_index(table, args) {
        Ok(idx) => idx,
        Err(e) => {
            return Err(e);
        },
    };
    match table.jobs[idx].state {
        JobState::Stopped => {},
        _ => {
            return Err(JobError::JobNotStopped);
        },
    }
    let pgid = table.jobs[idx].pgid;
    table.jobs[idx].state = JobState::Running;
    assert(table@ =~= with_state(old(table)@, idx as int, JobState::Running));
    let mut line = String::new();
    push_char(&mut line, '[');
    line.append(to_decimal(table.jobs[idx].id).as_str());
    line.append("]+ ");
    line.append(table.jobs[idx].cmdline.as_str());
    line.append(" &");
    assert(line@ =~= resumed_line(old(table)@[idx as int].id, old(table)@[idx as int].cmdline));
    Ok(Resumed { pgid, line })
}

/// A job to bring to the foreground: the group to hand the terminal to, to
/// continue and to wait for.
#[derive(Debug, Clone, Copy, PartialEq, Eq, Structural)]
pub struct Foreground {
    pub id: usize,
    pub pgid: i32,
}

/// `fg`: brings a job to the foreground. The job is marked running and the
/// caller is told which group to hand the terminal to, to continue and to
/// wait for. A reference that names no job leaves the table as it was.
pub fn builtin_fg(table: &mut JobTable, args: &[String]) -> (r: Result<Foreground, JobError>)
    ensures
        final(table).issued() == old(table).issued(),
        match resolve_target(old(table)@, texts(args@)) {
            Err(e) => r == Err::<Foreground, JobError>(e) && final(table)@ == old(table)@,
            Ok(i) => {
                &&& r is Ok
                &&& r->Ok_0.id == old(table)@[i].id
                &&& r->Ok_0.pgid == old(table)@[i].pgid
                &&& final(table)@ == with_state(old(table)@, i, JobState::Running)
            },
        },
        old(table).wf() ==> final(table).wf(),
{
    let idx = match resolve_job_index(table, args) {
        Ok(idx) => idx,
        Err(e) => {
            return Err(e);
        },
    };
    let pgid = table.jobs[idx].pgid;
    let id = table.jobs[idx].id;
    table.jobs[idx].state = JobState::Running;
    assert(table@ =~= with_state(old(table)@, idx as int, JobState::Running));
    Ok(Foreground { id, pgid })
}

/// Whom `kill` sends the termination signal to.
#[derive(Debug, Clone, Copy, PartialEq, Eq, Structural)]
pub enum KillTarget {
    /// Every process of a job's group.
    Group { pgid: i32 },
    /// One process, named by its id.
    Process { pid: i32 },
}

/// Whom `kill` signals: the group of the job that a `%` reference names, or
/// the process whose id the operand is.
pub open spec fn kill_target(s: Seq<JobView>, args: Seq<Seq<char>>) -> Result<
    KillTarget,
    JobError,
> {
    if args.len() == 0 {
        Err(JobError::MissingOperand)
    } else if args[0].len() > 0 && args[0][0] == '%' {
        match reference_target(s, args[0]) {
            Ok(i) => Ok(KillTarget::Group { pgid: s[i].pgid as i32 }),
            Err(e) => Err(e),
        }
    } else {
        match parse_signed(args[0]) {
            Some(pid) => Ok(KillTarget::Process { pid: pid as i32 }),
            None => Err(JobError::InvalidReference),
        }
    }
}

/// `kill`: names the group or the process to send the termination signal
/// to. The table is not changed: the end of the job is recorded when it is
/// observed.
pub fn builtin_kill(table: &JobTable, args: &[String]) -> (r: Result<KillTarget, JobError>)
    ensures
        r == kill_target(table@, texts(args@)),
{
    if args.len() == 0 {
        return Err(JobError::MissingOperand);
    }
    let target = args[0].as_str();
    let starts_with_percent = target.unicode_len() > 0 && target.get_char(0) == '%';
    if starts_with_percent {
        match resolve_reference(table, target) {
            Ok(i) => Ok(KillTarget::Group { pgid: table.jobs[i].pgid }),
            Err(e) => Err(e),
        }
    } else {
        match parse_i32(target) {
            Some(pid) => Ok(KillTarget::Process { pid }),
            None => Err(JobError::InvalidReference),
        }
    }
}

/// What a `jobs` command was asked to show.
#[derive(Debug, Clone, Copy, PartialEq, Eq, Structural)]
pub struct JobsOptions {
    /// `-p`: only the group id of each job.
    pub pids_only: bool,
    /// `-l`: the group id too.
    pub with_pid: bool,
    /// `-r` or `-s`: only the jobs in this state.
    pub filter: Option<JobState>,
}

/// What one operand of `jobs` changes in the options. An operand that is no
/// flag changes nothing.
pub open spec fn with_flag(o: JobsOptions, flag: Seq<char>) -> JobsOptions {
    if flag =~= seq!['-', 'p'] {
        JobsOptions { pids_only: true, ..o }
    } else if flag =~= seq!['-', 'l'] {
        JobsOptions { with_pid: true, ..o }
    } else if flag =~= seq!['-', 'r'] {
        JobsOptions { filter: Some(JobState::Running), ..o }
    } else if flag =~= seq!['-', 's'] {
        JobsOptions { filter: Some(JobState::Stopped), ..o }
    } else {
        o
    }
}

/// The options that the operands of `jobs` ask for, read from left to
/// right.
pub open spec fn jobs_options(args: Seq<Seq<char>>) -> JobsOptions
    decreases args.len(),
{
    if args.len() == 0 {
        JobsOptions { pids_only: false, with_pid: false, filter: None }
    } else {
        with_flag(jobs_options(args.drop_last()), args.last())
    }
}

/// Reads the operands of `jobs`.
pub fn parse_jobs_flags(args: &[String]) -> (o: JobsOptions)
    ensures
        o == jobs_options(texts(args@)),
{
    let mut o = JobsOptions { pids_only: false, with_pid: false, filter: None };
    let mut i: usize = 0;
    assert(texts(args@).subrange(0, 0) =~= Seq::<Seq<char>>::empty());
    while i < args.len()
        invariant
            i <= args.len(),
            o == jobs_options(texts(args@).subrange(0, i as int)),
        decreases args.len() - i,
    {
        let v = chars_of(args[i].as_str());
        proof {
            let next = texts(args@).subrange(0, i + 1);
            assert(next.drop_last() =~= texts(args@).subrange(0, i as int));
            assert(next.last() == v@);
        }
        if v.len() == 2 && v[0] == '-' {
            let c = v[1];
            assert(v@ =~= seq!['-', c]);
            if c == 'p' {
                o.pids_only = true;
            } else if c == 'l' {
                o.with_pid = true;
            } else if c == 'r' {
                o.filter = Some(JobState::Running);
            } else if c == 's' {
                o.filter = Some(JobState::Stopped);
            } else {
                assert(v@[1] == c);
            }
        } else {
            proof {
                let f = v@;
                if f.len() == 2 {
                    assert(f[0] != '-');
                }
            }
        }
        i += 1;
    }
    assert(texts(args@).subrange(0, i as int) =~= texts(args@));
    o
}

/// The name under which a state is listed.
pub open spec fn state_name(state: JobState) -> Seq<char> {
    match state {
        JobState::Running => "Running"@,
        JobState::Stopped => "Stopped"@,
        JobState::Terminated => "Terminated"@,
    }
}

/// The mark of a job in a listing: `+` for the current job, `-` for the one
/// before it, a space for any other.
pub open spec fn marker(id: nat, marks: (Option<nat>, Option<nat>)) -> char {
    if marks.0 == Some(id) {
        '+'
    } else if marks.1 == Some(id) {
        '-'
    } else {
        ' '
    }
}

/// The line of one job in a listing. With `-p` it is the group id alone.
/// Otherwise it holds the id in brackets, the mark, with `-l` the group id
/// filled up to 6 characters, the state filled up to 10 characters (with
/// `-l` to 20), and the command line, followed by ` &` for a running job.
pub open spec fn job_line(j: JobView, mark: char, o: JobsOptions) -> Seq<char> {
    let trailer = if j.state == JobState::Running {
        " &"@
    } else {
        Seq::<char>::empty()
    };
    if o.pids_only {
        signed_decimal(j.pgid)
    } else if o.with_pid {
        seq!['['] + decimal(j.id) + seq![']', mark, ' ', ' '] + pad_right(
            signed_decimal(j.pgid),
            6,
        ) + seq![' '] + pad_right(state_name(j.state), 20) + seq![' '] + j.cmdline + trailer
    } else {
        seq!['['] + decimal(j.id) + seq![']', mark, ' ', ' '] + pad_right(state_name(j.state), 10)
            + seq![' ', ' '] + j.cmdline + trailer
    }
}

/// Whether a listing with these options holds the job.
pub open spec fn is_listed(j: JobView, o: JobsOptions) -> bool {
    passes_filter(j, o.filter)
}

/// The lines of a listing for the first `n` jobs of the table, in the order
/// of creation.
pub open spec fn jobs_listing(s: Seq<JobView>, n: int, o: JobsOptions) -> Seq<Seq<char>>
    decreases n,
{
    if n <= 0 {
        Seq::empty()
    } else {
        let before = jobs_listing(s, n - 1, o);
        if is_listed(s[n - 1], o) {
            before.push(job_line(s[n - 1], marker(s[n - 1].id, current_and_previous(s)), o))
        } else {
            before
        }
    }
}

/// `jobs`: the lines of the listing that the operands ask for, one for each
/// job that passes the filter, in the order of creation.
pub fn builtin_jobs(table: &JobTable, args: &[String]) -> (lines: Vec<String>)
    ensures
        texts(lines@) == jobs_listing(
            table@,
            table@.len() as int,
            jobs_options(texts(args@)),
        ),
{
    let o = parse_jobs_flags(args);
    let (cur_id, prev_id) = table.current_prev_ids();
    let mut lines: Vec<String> = Vec::new();
    let mut i: usize = 0;
    assert(texts(lines@) =~= jobs_listing(table@, 0, o));
    while i < table.jobs.len()
        invariant
            i <= table.jobs.len(),
            (as_nat(cur_id), as_nat(prev_id)) == current_and_previous(table@),
            texts(lines@) == jobs_listing(table@, i as int, o),
        decreases table.jobs.len() - i,
    {
        let listed = match o.filter {
            Some(state) => table.jobs[i].state == state,
            None => true,
        };
        if listed {
            let mark = mark_of(table.jobs[i].id, cur_id, prev_id);
            let line = format_job(&table.jobs[i], mark, o);
            let ghost before = texts(lines@);
            lines.push(line);
            assert(texts(lines@) =~= before.push(line@));
        }
        i += 1;
    }
    lines
}

/// The mark of the job with the given id.
pub fn mark_of(id: usize, cur_id: Option<usize>, prev_id: Option<usize>) -> (mark: char)
    ensures
        mark == marker(id as nat, (as_nat(cur_id), as_nat(prev_id))),
{
    let is_cur = match cur_id {
        Some(c) => c == id,
        None => false,
    };
    let is_prev = match prev_id {
        Some(p) => p == id,
        None => false,
    };
    if is_cur {
        '+'
    } else if is_prev {
        '-'
    } else {
        ' '
    }
}

/// The line of one job in a listing.
pub fn format_job(j: &crate::job::Job, mark: char, o: JobsOptions) -> (line: String)
    ensures
        line@ == job_line(j@, mark, o),
{
    if o.pids_only {
        return to_signed_decimal(j.pgid);
    }
    let status = match j.state {
        JobState::Running => "Running",
        JobState::Stopped => "Stopped",
        JobState::Terminated => "Terminated",
    };
    let mut line = String::new();
    push_char(&mut line, '[');
    line.append(to_decimal(j.id).as_str());
    push_char(&mut line, ']');
    push_char(&mut line, mark);
    push_char(&mut line, ' ');
    push_char(&mut line, ' ');
    assert(line@ =~= seq!['['] + decimal(j@.id) + seq![']', mark, ' ', ' ']);
    if o.with_pid {
        append_padded(&mut line, to_signed_decimal(j.pgid).as_str(), 6);
        push_char(&mut line, ' ');
        append_padded(&mut line, status, 20);
        push_char(&mut line, ' ');
        assert(line@ =~= seq!['['] + decimal(j@.id) + seq![']', mark, ' ', ' '] + pad_right(
            signed_decimal(j@.pgid),
            6,
        ) + seq![' '] + pad_right(state_name(j@.state), 20) + seq![' ']);
    } else {
        append_padded(&mut line, status, 10);
        push_char(&mut line, ' ');
        push_char(&mut line, ' ');
        assert(line@ =~= seq!['['] + decimal(j@.id) + seq![']', mark, ' ', ' '] + pad_right(
            state_name(j@.state),
            10,
        ) + seq![' ', ' ']);
    }
    line.append(j.cmdline.as_str());
    match j.state {
        JobState::Running => {
            line.append(" &");
        },
        _ => {},
    }
    assert(line@ =~= job_line(j@, mark, o));
    line
}

/// The line of one job in a plain listing: the id in brackets, `+` for a
/// job that carries the current mark, the state filled up to 10 characters,
/// the command line, and the end of the line.
pub open spec fn simple_line(j: JobView) -> Seq<char> {
    seq!['['] + decimal(j.id) + seq![']', if j.current {
        '+'
    } else {
        ' '
    }, ' ', ' '] + pad_right(state_name(j.state), 10) + seq![' ', ' '] + j.cmdline + seq!['\n']
}

/// The plain listing of the first `n` of a run of jobs.
pub open spec fn simple_listing(jobs: Seq<JobView>, n: int) -> Seq<char>
    decreases n,
{
    if n <= 0 {
        Seq::empty()
    } else {
        simple_listing(jobs, n - 1) + simple_line(jobs[n - 1])
    }
}

/// The views of a run of jobs.
pub open spec fn job_views(jobs: Seq<crate::job::Job>) -> Seq<JobView> {
    Seq::new(jobs.len(), |i: int| jobs[i]@)
}

/// A plain listing of jobs, one line for each, in their order.
pub fn format_jobs_simple(jobs: &[crate::job::Job]) -> (out: String)
    ensures
        out@ == simple_listing(job_views(jobs@), jobs@.len() as int),
{
    let mut out = String::new();
    let mut i: usize = 0;
    while i < jobs.len()
        invariant
            i <= jobs.len(),
            out@ == simple_listing(job_views(jobs@), i as int),
        decreases jobs.len() - i,
    {
        let j = &jobs[i];
        let ghost before = out@;
        let status = match j.state {
            JobState::Running => "Running",
            JobState::Stopped => "Stopped",
            JobState::Terminated => "Terminated",
        };
        push_char(&mut out, '[');
        out.append(to_decimal(j.id).as_str());
        push_char(&mut out, ']');
        push_char(
            &mut out,
            if j.current {
                '+'
            } else {
                ' '
            },
        );
        push_char(&mut out, ' ');
        push_char(&mut out, ' ');
        append_padded(&mut out, status, 10);
        push_char(&mut out, ' ');
        push_char(&mut out, ' ');
        out.append(j.cmdline.as_str());
        push_char(&mut out, '\n');
        assert(out@ =~= before + simple_line(j@));
        i += 1;
    }
    out
}

/// A job's id, as a listing shows it, names that very job again: written
/// alone or after `%`, it resolves to the job's place in the table, and so
/// to the job's own group.
pub proof fn lemma_listed_id_resolves(s: Seq<JobView>, issued: nat, i: int)
    requires
        table_wf(s, issued),
        issued <= usize::MAX,
        0 <= i < s.len(),
    ensures
        reference_target(s, decimal(s[i].id)) == Ok::<int, JobError>(i),
        reference_target(s, seq!['%'] + decimal(s[i].id)) == Ok::<int, JobError>(i),
        resolve_target(s, seq![seq!['%'] + decimal(s[i].id)]) == Ok::<int, JobError>(i),
        kill_target(s, seq![seq!['%'] + decimal(s[i].id)]) == Ok::<KillTarget, JobError>(
            KillTarget::Group { pgid: s[i].pgid as i32 },
        ),
{
    let id = s[i].id;
    let bare = decimal(id);
    let r = seq!['%'] + bare;
    lemma_percent_round_trip(s, issued, i);
    lemma_parse_to_percent(s, issued, i);
    crate::text::lemma_decimal_round_trip(id);
    lemma_parse_decimal(id, usize::MAX as nat);
    assert(crate::text::is_digit(bare[0]));
    assert(r.subrange(1, r.len() as int) =~= bare);
    assert(r[0] == '%');
    assert(seq![r][0] == r);
}

/// What the shell says of a job-control command that failed: the command's
/// name, then what went wrong, with the operand where it names one.
pub open spec fn error_text(who: Seq<char>, e: JobError, operand: Option<Seq<char>>) -> Seq<char> {
    match e {
        JobError::NoSuchJob => match operand {
            Some(r) => who + ": "@ + r + ": no such job"@,
            None => who + ": no current job"@,
        },
        JobError::JobNotStopped => who + ": job is not stopped"@,
        JobError::InvalidReference => match operand {
            Some(r) => who + ": invalid target '"@ + r + "'"@,
            None => who + ": invalid target"@,
        },
        JobError::MissingOperand => who + ": usage: "@ + who + " <pid>|%<jobid>"@,
    }
}

/// The first operand of a command, if it has one.
pub open spec fn first_operand(args: Seq<Seq<char>>) -> Option<Seq<char>> {
    if args.len() > 0 {
        Some(args[0])
    } else {
        None
    }
}

/// The message for a job-control command that failed.
pub fn error_message(who: &str, e: JobError, args: &[String]) -> (s: String)
    ensures
        s@ == error_text(who@, e, first_operand(texts(args@))),
{
    let mut s = String::new();
    s.append(who);
    match e {
        JobError::NoSuchJob => {
            if args.len() > 0 {
                s.append(": ");
                s.append(args[0].as_str());
                s.append(": no such job");
            } else {
                s.append(": no current job");
            }
        },
        JobError::JobNotStopped => {
            s.append(": job is not stopped");
        },
        JobError::InvalidReference => {
            if args.len() > 0 {
                s.append(": invalid target '");
                s.append(args[0].as_str());
                s.append("'");
            } else {
                s.append(": invalid target");
            }
        },
        JobError::MissingOperand => {
            s.append(": usage: ");
            s.append(who);
            s.append(" <pid>|%<jobid>");
        },
    }
    assert(s@ =~= error_text(who@, e, first_operand(texts(args@))));
    s
}

/// The status of a job-control command that failed: always 1.
pub fn error_status(e: JobError) -> (status: i32)
    ensures
        status == 1,
{
    crate::status::err()
}

/// What came of sending a signal for a command.
pub struct Delivery {
    /// The status of the command: 0 when the signal was sent, 1 when not.
    pub status: i32,
    /// What to say when the signal was not sent.
    pub message: Option<String>,
}

/// What the shell says of a signal that could not be sent: the command's
/// name, its operand where it has one, and what the system gave as the
/// reason.
pub open spec fn delivery_text(who: Seq<char>, operand: Option<Seq<char>>, reason: Seq<char>) -> Seq<
    char,
> {
    match operand {
        Some(r) => who + ": "@ + r + ": "@ + reason,
        None => who + ": "@ + reason,
    }
}

/// Judges the sending of a signal: a signal that could not be sent, because
/// the process is gone or for another reason, is reported and fails the
/// command; it does not end the shell.
pub fn settle_delivery(who: &str, args: &[String], failure: Option<&str>) -> (d: Delivery)
    ensures
        d.status == if failure is Some {
            1i32
        } else {
            0i32
        },
        d.message is Some <==> failure is Some,
        d.message is Some ==> d.message->0@ == delivery_text(
            who@,
            first_operand(texts(args@)),
            failure->0@,
        ),
{
    match failure {
        None => Delivery { status: crate::status::ok(), message: None },
        Some(reason) => {
            let mut s = String::new();
            s.append(who);
            s.append(": ");
            if args.len() > 0 {
                s.append(args[0].as_str());
                s.append(": ");
            }
            s.append(reason);
            assert(s@ =~= delivery_text(who@, first_operand(texts(args@)), reason@));
            Delivery { status: crate::status::err(), message: Some(s) }
        },
    }
}

} // verus!
