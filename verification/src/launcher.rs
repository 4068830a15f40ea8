use crate::job::{command_line, texts, with_new_job, JobState, JobTable, JobView};
use crate::status::NOT_FOUND_STATUS;
use crate::text::{chars_of, decimal, push_char, signed_decimal, to_decimal, to_signed_decimal};
use vstd::prelude::*;
use vstd::string::*;

verus! {

/// A job that was registered for a child just forked.
pub struct Launched {
    /// The id that the job got.
    pub id: usize,
    /// For a background job, the line that tells of the launch.
    pub announcement: Option<String>,
    /// For a background job, the status of the command: it is launched, and
    /// that is a success. A foreground job gives its status when the wait
    /// for it ends.
    pub status: Option<i32>,
}

/// The line that tells of a background launch: the job's id in brackets,
/// then the group id.
pub open spec fn launch_line(id: nat, pgid: int) -> Seq<char> {
    seq!['['] + decimal(id) + seq![']', ' '] + signed_decimal(pgid)
}

/// Registers the job of a child that was just forked into its own group
/// `child`. The job is running and becomes the current one. A background
/// launch is announced; a foreground launch is not, the caller waits for
/// it.
pub fn register_launch(
    table: &mut JobTable,
    child: i32,
    cmd: String,
    args: Vec<String>,
    background: bool,
) -> (launched: Launched)
    requires
        old(table).issued() < usize::MAX,
    ensures
        launched.id == old(table).issued() + 1,
        final(table).issued() == launched.id,
        final(table)@ == with_new_job(
            old(table)@,
            JobView {
                id: launched.id as nat,
                pgid: child as int,
                state: JobState::Running,
                cmdline: command_line(cmd@, texts(args@)),
                pids: seq![child],
                current: true,
            },
        ),
        background ==> launched.announcement is Some && launched.announcement->0@ == launch_line(
            launched.id as nat,
            child as int,
        ),
        !background ==> launched.announcement is None,
        launched.status == if background {
            Some(0i32)
        } else {
            None::<i32>
        },
        old(table).wf() ==> final(table).wf(),
{
    let id = table.add_job(child, JobState::Running, cmd, args);
    if background {
        let mut line = String::new();
        push_char(&mut line, '[');
        line.append(to_decimal(id).as_str());
        push_char(&mut line, ']');
        push_char(&mut line, ' ');
        line.append(to_signed_decimal(child).as_str());
        assert(line@ =~= launch_line(id as nat, child as int));
        Launched { id, announcement: Some(line), status: Some(0) }
    } else {
        Launched { id, announcement: None, status: None }
    }
}

/// What the shell says of a command that it cannot find.
pub open spec fn not_found_text(cmd: Seq<char>) -> Seq<char> {
    "Command '"@ + cmd + "' not found"@
}

/// The message for a command that was not found.
pub fn not_found_message(cmd: &str) -> (s: String)
    ensures
        s@ == not_found_text(cmd@),
{
    let mut s = String::new();
    s.append("Command '");
    s.append(cmd);
    s.append("' not found");
    assert(s@ =~= not_found_text(cmd@));
    s
}

/// Whether a command is given by a path, and so is not searched for.
pub fn names_path(cmd: &str) -> (r: bool)
    ensures
        r == cmd@.contains('/'),
{
    let v = chars_of(cmd);
    let mut i: usize = 0;
    while i < v.len()
        invariant
            i <= v.len(),
            v@ == cmd@,
            forall|k: int| 0 <= k < i ==> v@[k] != '/',
        decreases v.len() - i,
    {
        if v[i] == '/' {
            assert(cmd@[i as int] == '/');
            return true;
        }
        i += 1;
    }
    false
}

/// Whether a directory entry is a program that may be run: a regular file
/// with at least one of the three execute bits.
pub fn is_executable(is_file: bool, mode: u32) -> (r: bool)
    ensures
        r == (is_file && mode & 0o111 != 0),
{
    is_file && mode & 0o111 != 0
}

/// The parts of a text between separators: one more than there are
/// separators in it.
pub open spec fn split_on(s: Seq<char>, sep: char) -> Seq<Seq<char>>
    decreases s.len(),
{
    if s.len() == 0 {
        seq![Seq::<char>::empty()]
    } else {
        let before = split_on(s.drop_last(), sep);
        if s.last() == sep {
            before.push(Seq::<char>::empty())
        } else {
            before.drop_last().push(before.last().push(s.last()))
        }
    }
}

/// Splits a text at each separator.
pub fn split(s: &str, sep: char) -> (parts: Vec<String>)
    ensures
        texts(parts@) == split_on(s@, sep),
{
    let v = chars_of(s);
    let mut parts: Vec<String> = Vec::new();
    let mut cur = String::new();
    let mut i: usize = 0;
    assert(v@.subrange(0, 0) =~= Seq::<char>::empty());
    assert(texts(parts@).push(cur@) =~= split_on(v@.subrange(0, 0), sep));
    while i < v.len()
        invariant
            i <= v.len(),
            texts(parts@).push(cur@) == split_on(v@.subrange(0, i as int), sep),
        decreases v.len() - i,
    {
        let ghost prefix = v@.subrange(0, i as int);
        let ghost next = v@.subrange(0, i + 1);
        let ghost before = texts(parts@);
        let ghost old_cur = cur@;
        proof {
            assert(next.drop_last() =~= prefix);
            assert(next.last() == v@[i as int]);
            assert(before.push(old_cur).drop_last() =~= before);
        }
        if v[i] == sep {
            parts.push(cur);
            cur = String::new();
            assert(texts(parts@) =~= before.push(old_cur));
        } else {
            push_char(&mut cur, v[i]);
        }
        i += 1;
    }
    assert(v@.subrange(0, i as int) =~= v@);
    let ghost before = texts(parts@);
    parts.push(cur);
    assert(texts(parts@) =~= before.push(cur@));
    parts
}

/// Where a command would be found in a directory of the search path.
pub open spec fn candidate(dir: Seq<char>, cmd: Seq<char>) -> Seq<char> {
    if dir.len() == 0 {
        cmd
    } else if dir.last() == '/' {
        dir + cmd
    } else {
        dir.push('/') + cmd
    }
}

/// The places at which a command is looked for, in the order of the
/// directories of the search path, which a colon separates.
pub open spec fn candidates(dirs: Seq<Seq<char>>, cmd: Seq<char>) -> Seq<Seq<char>> {
    Seq::new(dirs.len(), |i: int| candidate(dirs[i], cmd))
}

/// The places at which a command that is no path is looked for.
pub fn search_candidates(path: &str, cmd: &str) -> (places: Vec<String>)
    ensures
        texts(places@) == candidates(split_on(path@, ':'), cmd@),
{
    let dirs = split(path, ':');
    let mut places: Vec<String> = Vec::new();
    let mut i: usize = 0;
    while i < dirs.len()
        invariant
            i <= dirs.len(),
            texts(dirs@) == split_on(path@, ':'),
            places.len() == i,
            forall|k: int| 0 <= k < i ==> (#[trigger] places@[k])@ == candidate(dirs@[k]@, cmd@),
        decreases dirs.len() - i,
    {
        let d = chars_of(dirs[i].as_str());
        let mut place = String::new();
        place.append(dirs[i].as_str());
        if d.len() > 0 && d[d.len() - 1] != '/' {
            push_char(&mut place, '/');
        }
        place.append(cmd);
        assert(place@ =~= candidate(dirs@[i as int]@, cmd@));
        places.push(place);
        i += 1;
    }
    assert(texts(places@) =~= candidates(texts(dirs@), cmd@));
    places
}

/// Why a command was not run.
#[derive(Debug, Clone, Copy, PartialEq, Eq, Structural)]
pub enum LaunchError {
    /// No program of that name was found that may be run.
    CommandNotFound,
    /// The system could not make a new process.
    ForkFailed,
    /// The new process could not start the program.
    ExecFailed,
}

/// The status of a command that was not run: always 127.
pub fn launch_error_status(e: LaunchError) -> (status: i32)
    ensures
        status == 127,
{
    NOT_FOUND_STATUS
}

/// What the shell says of a launch that failed: of a command that was not
/// found, its name; of a failed fork or exec, what the system gave as the
/// reason.
pub open spec fn launch_error_text(e: LaunchError, cmd: Seq<char>, reason: Seq<char>) -> Seq<char> {
    match e {
        LaunchError::CommandNotFound => not_found_text(cmd),
        LaunchError::ForkFailed => "fork: "@ + reason,
        LaunchError::ExecFailed => "exec: "@ + cmd + ": "@ + reason,
    }
}

/// The message for a launch that failed.
pub fn launch_error_message(e: LaunchError, cmd: &str, reason: &str) -> (s: String)
    ensures
        s@ == launch_error_text(e, cmd@, reason@),
{
    match e {
        LaunchError::CommandNotFound => not_found_message(cmd),
        LaunchError::ForkFailed => {
            let mut s = String::new();
            s.append("fork: ");
            s.append(reason);
            s
        },
        LaunchError::ExecFailed => {
            let mut s = String::new();
            s.append("exec: ");
            s.append(cmd);
            s.append(": ");
            s.append(reason);
            assert(s@ =~= launch_error_text(e, cmd@, reason@));
            s
        },
    }
}

/// What was found at a place of the search path.
#[derive(Debug, Clone, Copy, PartialEq, Eq, Structural)]
pub struct Probe {
    pub is_file: bool,
    pub mode: u32,
}

/// Whether what was found at a place is a program that may be run.
pub open spec fn may_run(p: Option<Probe>) -> bool {
    p is Some && p->0.is_file && p->0.mode & 0o111 != 0
}

/// Picks the program for a command from what was found at the places of the
/// search path, nothing standing for a place at which nothing was found:
/// the first place with a program that may be run. Where there is none, the
/// command is not found.
pub fn first_executable(probes: &[Option<Probe>]) -> (r: Result<usize, LaunchError>)
    ensures
        match r {
            Ok(i) => i < probes@.len() && may_run(probes@[i as int]) && forall|k: int|
                0 <= k < i ==> !may_run(#[trigger] probes@[k]),
            Err(e) => e == LaunchError::CommandNotFound && forall|k: int|
                0 <= k < probes@.len() ==> !may_run(#[trigger] probes@[k]),
        },
{
    let mut i: usize = 0;
    while i < probes.len()
        invariant
            i <= probes.len(),
            forall|k: int| 0 <= k < i ==> !may_run(#[trigger] probes@[k]),
        decreases probes.len() - i,
    {
        match probes[i] {
            Some(p) => {
                if is_executable(p.is_file, p.mode) {
                    return Ok(i);
                }
            },
            None => {},
        }
        i += 1;
    }
    Err(LaunchError::CommandNotFound)
}

} // verus!
