use crate::text::{chars_of, decimal, lemma_parse_decimal, parse_unsigned, parse_usize_chars, push_char, to_decimal};
use vstd::prelude::*;
use vstd::string::*;

verus! {

/// What a job is doing, as far as the shell has observed.
#[derive(Debug, Clone, Copy, PartialEq, Eq, Structural)]
pub enum JobState {
    Running,
    Stopped,
    Terminated,
}

/// One process group launched for one command line.
#[derive(Debug, Clone)]
pub struct Job {
    pub id: usize,
    pub pgid: i32,
    pub state: JobState,
    pub cmdline: String,
    pub pids: Vec<i32>,
    pub current: bool,
}

/// A job as the contracts see it.
pub struct JobView {
    pub id: nat,
    pub pgid: int,
    pub state: JobState,
    pub cmdline: Seq<char>,
    pub pids: Seq<i32>,
    pub current: bool,
}

impl View for Job {
    type V = JobView;

    open spec fn view(&self) -> JobView {
        JobView {
            id: self.id as nat,
            pgid: self.pgid as int,
            state: self.state,
            cmdline: self.cmdline@,
            pids: self.pids@,
            current: self.current,
        }
    }
}

impl Job {
    /// The text that stands for the job in listings: its command line.
    pub fn summary(&self) -> (s: String)
        ensures
            s@ == self@.cmdline,
    {
        self.cmdline.clone()
    }
}

/// A change of state that was observed on a process group.
#[derive(Debug, Clone, Copy)]
pub enum UpdateKind {
    Running { pgid: i32 },
    Stopped { pgid: i32 },
    Terminated { pgid: i32, code: i32 },
}

impl UpdateKind {
    /// The process group that the change was observed on.
    pub open spec fn group(self) -> int {
        match self {
            UpdateKind::Running { pgid } => pgid as int,
            UpdateKind::Stopped { pgid } => pgid as int,
            UpdateKind::Terminated { pgid, .. } => pgid as int,
        }
    }
}

/// What the operating system reports of a child when the shell waits.
#[derive(Debug, Clone, Copy)]
pub enum WaitStatus {
    Exited { pid: i32, code: i32 },
    Signaled { pid: i32, signal: i32, core_dumped: bool },
    Stopped { pid: i32, signal: i32 },
    PtraceEvent { pid: i32, signal: i32, event: i32 },
    PtraceSyscall { pid: i32 },
    Continued { pid: i32 },
    StillAlive,
}

/// Status reported for a job that a signal killed.
pub const KILLED_STATUS: i32 = 128;

/// The state change that a wait report stands for, if any.
pub open spec fn update_of(ws: WaitStatus) -> Option<UpdateKind> {
    match ws {
        WaitStatus::Exited { pid, code } => Some(UpdateKind::Terminated { pgid: pid, code }),
        WaitStatus::Signaled { pid, .. } => Some(UpdateKind::Terminated { pgid: pid, code: 128 }),
        WaitStatus::Stopped { pid, .. } => Some(UpdateKind::Stopped { pgid: pid }),
        WaitStatus::Continued { pid } => Some(UpdateKind::Running { pgid: pid }),
        WaitStatus::StillAlive => None,
        WaitStatus::PtraceEvent { .. } => None,
        WaitStatus::PtraceSyscall { .. } => None,
    }
}

impl UpdateKind {
    /// Classifies a wait report: an exit or a fatal signal ends the job, a
    /// stop signal stops it, a continuation sets it running. Other reports
    /// change nothing.
    pub fn from_waitstatus(ws: WaitStatus) -> (upd: Option<UpdateKind>)
        ensures
            upd == update_of(ws),
    {
        match ws {
            WaitStatus::Exited { pid, code } => Some(UpdateKind::Terminated { pgid: pid, code }),
            WaitStatus::Signaled { pid, .. } => Some(
                UpdateKind::Terminated { pgid: pid, code: KILLED_STATUS },
            ),
            WaitStatus::Stopped { pid, .. } => Some(UpdateKind::Stopped { pgid: pid }),
            WaitStatus::Continued { pid } => Some(UpdateKind::Running { pgid: pid }),
            WaitStatus::StillAlive => None,
            WaitStatus::PtraceEvent { .. } => None,
            WaitStatus::PtraceSyscall { .. } => None,
        }
    }
}

/// The views of a run of texts.
pub open spec fn texts(v: Seq<String>) -> Seq<Seq<char>> {
    Seq::new(v.len(), |i: int| v[i]@)
}

/// The display text of a command: its name, then each argument after one
/// space.
pub open spec fn command_line(cmd: Seq<char>, args: Seq<Seq<char>>) -> Seq<char>
    decreases args.len(),
{
    if args.len() == 0 {
        cmd
    } else {
        command_line(cmd, args.drop_last()).push(' ') + args.last()
    }
}

/// Index of the first job that `p` holds of.
pub open spec fn first_where(s: Seq<JobView>, p: spec_fn(JobView) -> bool) -> Option<int>
    decreases s.len(),
{
    if s.len() == 0 {
        None
    } else {
        match first_where(s.drop_last(), p) {
            Some(i) => Some(i),
            None => if p(s.last()) {
                Some(s.len() - 1)
            } else {
                None
            },
        }
    }
}

/// Index of the last job that `p` holds of.
pub open spec fn last_where(s: Seq<JobView>, p: spec_fn(JobView) -> bool) -> Option<int>
    decreases s.len(),
{
    if s.len() == 0 {
        None
    } else if p(s.last()) {
        Some(s.len() - 1)
    } else {
        last_where(s.drop_last(), p)
    }
}

/// `i` is the least index at which `p` holds.
pub open spec fn is_first(s: Seq<JobView>, p: spec_fn(JobView) -> bool, i: int) -> bool {
    &&& 0 <= i < s.len()
    &&& p(s[i])
    &&& forall|k: int| 0 <= k < i ==> !p(#[trigger] s[k])
}

/// `i` is the greatest index at which `p` holds.
pub open spec fn is_last(s: Seq<JobView>, p: spec_fn(JobView) -> bool, i: int) -> bool {
    &&& 0 <= i < s.len()
    &&& p(s[i])
    &&& forall|k: int| i < k < s.len() ==> !p(#[trigger] s[k])
}

/// `p` holds of no job.
pub open spec fn none_where(s: Seq<JobView>, p: spec_fn(JobView) -> bool) -> bool {
    forall|k: int| 0 <= k < s.len() ==> !p(#[trigger] s[k])
}

/// `first_where` gives the least index at which `p` holds, and nothing exactly
/// when `p` holds nowhere.
pub proof fn lemma_first_where(s: Seq<JobView>, p: spec_fn(JobView) -> bool)
    ensures
        match first_where(s, p) {
            Some(i) => is_first(s, p, i),
            None => none_where(s, p),
        },
    decreases s.len(),
{
    if s.len() > 0 {
        let t = s.drop_last();
        lemma_first_where(t, p);
        assert(forall|k: int| 0 <= k < t.len() ==> t[k] == s[k]);
    }
}

/// `last_where` gives the greatest index at which `p` holds, and nothing
/// exactly when `p` holds nowhere.
pub proof fn lemma_last_where(s: Seq<JobView>, p: spec_fn(JobView) -> bool)
    ensures
        match last_where(s, p) {
            Some(i) => is_last(s, p, i),
            None => none_where(s, p),
        },
    decreases s.len(),
{
    if s.len() > 0 {
        let t = s.drop_last();
        lemma_last_where(t, p);
        assert(forall|k: int| 0 <= k < t.len() ==> t[k] == s[k]);
    }
}

/// An index known to be the least one with `p` is what `first_where` gives.
pub proof fn lemma_first_where_is(s: Seq<JobView>, p: spec_fn(JobView) -> bool, i: int)
    requires
        is_first(s, p, i),
    ensures
        first_where(s, p) == Some(i),
{
    lemma_first_where(s, p);
}

/// An index known to be the greatest one with `p` is what `last_where` gives.
pub proof fn lemma_last_where_is(s: Seq<JobView>, p: spec_fn(JobView) -> bool, i: int)
    requires
        is_last(s, p, i),
    ensures
        last_where(s, p) == Some(i),
{
    lemma_last_where(s, p);
}

/// The jobs with the given id.
pub open spec fn has_id(id: nat) -> spec_fn(JobView) -> bool {
    |j: JobView| j.id == id
}

/// The jobs of the given process group.
pub open spec fn in_group(pgid: int) -> spec_fn(JobView) -> bool {
    |j: JobView| j.pgid == pgid
}

/// The jobs that carry the current mark.
pub open spec fn marked_current() -> spec_fn(JobView) -> bool {
    |j: JobView| j.current
}

/// The jobs with every current mark taken off.
pub open spec fn unmarked(s: Seq<JobView>) -> Seq<JobView> {
    Seq::new(s.len(), |i: int| JobView { current: false, ..s[i] })
}

/// The table after a launch: the new job stands last and is the current one.
pub open spec fn with_new_job(s: Seq<JobView>, job: JobView) -> Seq<JobView> {
    unmarked(s).push(job)
}

/// The table with job `i` set to `state`.
pub open spec fn with_state(s: Seq<JobView>, i: int, state: JobState) -> Seq<JobView> {
    s.update(i, JobView { state, ..s[i] })
}

/// The table after job `i` left it: the most recently created of the jobs
/// that remain is the current one.
pub open spec fn without_job(s: Seq<JobView>, i: int) -> Seq<JobView> {
    let rest = s.remove(i);
    if rest.len() > 0 {
        rest.update(rest.len() - 1, JobView { current: true, ..rest.last() })
    } else {
        rest
    }
}

/// The table after an observed change: the first job of the group is set
/// running or stopped, or leaves the table. A change on a group that the
/// table does not hold changes nothing.
pub open spec fn after_update(s: Seq<JobView>, upd: UpdateKind) -> Seq<JobView> {
    match first_where(s, in_group(upd.group())) {
        None => s,
        Some(i) => match upd {
            UpdateKind::Running { .. } => with_state(s, i, JobState::Running),
            UpdateKind::Stopped { .. } => with_state(s, i, JobState::Stopped),
            UpdateKind::Terminated { .. } => without_job(s, i),
        },
    }
}

/// The line that tells of a job that stopped.
pub open spec fn stopped_line(id: nat, cmdline: Seq<char>) -> Seq<char> {
    seq!['['] + decimal(id) + "]+  Stopped                 "@ + cmdline
}

/// The line that tells of a job that ended.
pub open spec fn terminated_line(id: nat, cmdline: Seq<char>) -> Seq<char> {
    seq!['['] + decimal(id) + "]+  Terminated              "@ + cmdline
}

/// The line that an observed change puts on the screen: one for a job that
/// stopped or ended, none for a continuation or for an unknown group.
pub open spec fn update_notice(s: Seq<JobView>, upd: UpdateKind) -> Option<Seq<char>> {
    match first_where(s, in_group(upd.group())) {
        None => None,
        Some(i) => match upd {
            UpdateKind::Running { .. } => None,
            UpdateKind::Stopped { .. } => Some(stopped_line(s[i].id, s[i].cmdline)),
            UpdateKind::Terminated { .. } => Some(terminated_line(s[i].id, s[i].cmdline)),
        },
    }
}

/// What holds of a table at rest: ids grow with the order of creation, none
/// exceeds the number of ids handed out, and the last job, and no other, is
/// the current one.
pub open spec fn table_wf(s: Seq<JobView>, issued: nat) -> bool {
    &&& forall|i: int, j: int| 0 <= i < j < s.len() ==> (#[trigger] s[i]).id < (#[trigger] s[j]).id
    &&& forall|i: int| 0 <= i < s.len() ==> 1 <= (#[trigger] s[i]).id <= issued
    &&& forall|i: int| 0 <= i < s.len() ==> ((#[trigger] s[i]).current <==> i == s.len() - 1)
}

/// No two jobs share a process group.
pub open spec fn groups_distinct(s: Seq<JobView>) -> bool {
    forall|i: int, j: int|
        0 <= i < j < s.len() ==> (#[trigger] s[i]).pgid != (#[trigger] s[j]).pgid
}

/// Every job is running or stopped.
pub open spec fn all_live(s: Seq<JobView>) -> bool {
    forall|i: int| 0 <= i < s.len() ==> (#[trigger] s[i]).state != JobState::Terminated
}

/// The only member of every job is the leader of its group.
pub open spec fn leaders_only(s: Seq<JobView>) -> bool {
    forall|i: int|
        0 <= i < s.len() ==> (#[trigger] s[i]).pids.len() == 1 && s[i].pids[0] == s[i].pgid
}

/// What holds of the jobs of a table at rest besides their order: every job
/// is alive, no two share a group, and each has its leader as only member.
pub open spec fn rests_well(s: Seq<JobView>) -> bool {
    groups_distinct(s) && all_live(s) && leaders_only(s)
}

/// The jobs that the shell has launched and not yet seen end, in the order of
/// their creation.
pub struct JobTable {
    pub jobs: Vec<Job>,
    /// The id given to the job that was created last; 0 before the first.
    pub next_id: usize,
}

impl View for JobTable {
    type V = Seq<JobView>;

    open spec fn view(&self) -> Seq<JobView> {
        Seq::new(self.jobs@.len(), |i: int| self.jobs@[i]@)
    }
}

impl Default for JobTable {
    fn default() -> (table: JobTable)
        ensures
            table@ == Seq::<JobView>::empty(),
            table.issued() == 0,
            table.wf(),
    {
        let table = JobTable { jobs: Vec::new(), next_id: 0 };
        assert(table@ =~= Seq::<JobView>::empty());
        table
    }
}

impl JobTable {
    /// How many ids the table has handed out.
    pub open spec fn issued(&self) -> nat {
        self.next_id as nat
    }

    /// The table is well formed: see `table_wf`.
    pub open spec fn wf(&self) -> bool {
        table_wf(self@, self.issued())
    }

    /// Registers a new job for the group `pgid`. It gets the next id, stands
    /// last and becomes the current job; its only member is the group's
    /// leader.
    pub fn add_job(&mut self, pgid: i32, state: JobState, cmd: String, args: Vec<String>) -> (id:
        usize)
        requires
            old(self).issued() < usize::MAX,
        ensures
            id == old(self).issued() + 1,
            final(self).issued() == id,
            final(self)@ == with_new_job(
                old(self)@,
                JobView {
                    id: id as nat,
                    pgid: pgid as int,
                    state,
                    cmdline: command_line(cmd@, texts(args@)),
                    pids: seq![pgid],
                    current: true,
                },
            ),
            old(self).wf() ==> final(self).wf(),
            old(self).wf() ==> forall|k: int|
                0 <= k < old(self)@.len() ==> (#[trigger] old(self)@[k]).id < id,
    {
        self.next_id += 1;
        let id = self.next_id;
        let mut k: usize = 0;
        while k < self.jobs.len()
            invariant
                k <= self.jobs.len(),
                self.jobs.len() == old(self).jobs.len(),
                self.next_id == id,
                forall|m: int|
                    0 <= m < k ==> (#[trigger] self.jobs@[m])@ == (JobView {
                        current: false,
                        ..old(self).jobs@[m]@
                    }),
                forall|m: int|
                    k <= m < self.jobs.len() ==> (#[trigger] self.jobs@[m])@ == old(
                        self,
                    ).jobs@[m]@,
            decreases self.jobs.len() - k,
        {
            self.jobs[k].current = false;
            k += 1;
        }
        let mut cmdline = cmd;
        let mut a: usize = 0;
        while a < args.len()
            invariant
                a <= args.len(),
                cmdline@ == command_line(cmd@, texts(args@).subrange(0, a as int)),
            decreases args.len() - a,
        {
            push_char(&mut cmdline, ' ');
            cmdline.append(args[a].as_str());
            proof {
                let next = texts(args@).subrange(0, a + 1);
                assert(next.drop_last() =~= texts(args@).subrange(0, a as int));
                assert(next.last() == args@[a as int]@);
            }
            a += 1;
        }
        assert(texts(args@).subrange(0, a as int) =~= texts(args@));
        let mut pids: Vec<i32> = Vec::new();
        pids.push(pgid);
        assert(pids@ =~= seq![pgid]);
        self.jobs.push(Job { id, pgid, state, cmdline, pids, current: true });
        assert(self@ =~= with_new_job(
            old(self)@,
            JobView {
                id: id as nat,
                pgid: pgid as int,
                state,
                cmdline: command_line(cmd@, texts(args@)),
                pids: seq![pgid],
                current: true,
            },
        ));
        id
    }

    /// Index of the job with the given id.
    pub fn index_by_id(&self, id: usize) -> (r: Option<usize>)
        ensures
            r is Some <==> first_where(self@, has_id(id as nat)) is Some,
            r is Some ==> r->0 as int == first_where(self@, has_id(id as nat))->0,
    {
        let mut i: usize = 0;
        while i < self.jobs.len()
            invariant
                i <= self.jobs.len(),
                forall|k: int| 0 <= k < i ==> !has_id(id as nat)(#[trigger] self@[k]),
            decreases self.jobs.len() - i,
        {
            if self.jobs[i].id == id {
                proof {
                    assert(has_id(id as nat)(self@[i as int]));
                    lemma_first_where_is(self@, has_id(id as nat), i as int);
                }
                return Some(i);
            }
            i += 1;
        }
        proof {
            lemma_first_where(self@, has_id(id as nat));
        }
        None
    }

    /// Index of the first job of the process group `pgid`.
    pub fn index_by_group(&self, pgid: i32) -> (r: Option<usize>)
        ensures
            r is Some <==> first_where(self@, in_group(pgid as int)) is Some,
            r is Some ==> r->0 as int == first_where(self@, in_group(pgid as int))->0,
    {
        let mut i: usize = 0;
        while i < self.jobs.len()
            invariant
                i <= self.jobs.len(),
                forall|k: int| 0 <= k < i ==> !in_group(pgid as int)(#[trigger] self@[k]),
            decreases self.jobs.len() - i,
        {
            if self.jobs[i].pgid == pgid {
                proof {
                    assert(in_group(pgid as int)(self@[i as int]));
                    lemma_first_where_is(self@, in_group(pgid as int), i as int);
                }
                return Some(i);
            }
            i += 1;
        }
        proof {
            lemma_first_where(self@, in_group(pgid as int));
        }
        None
    }

    /// Index of the current job: the last one that carries the mark.
    pub fn index_of_current(&self) -> (r: Option<usize>)
        ensures
            r is Some <==> last_where(self@, marked_current()) is Some,
            r is Some ==> r->0 as int == last_where(self@, marked_current())->0,
            self.wf() && self@.len() > 0 ==> r == Some((self@.len() - 1) as usize),
    {
        let mut i: usize = self.jobs.len();
        while i > 0
            invariant
                i <= self.jobs.len(),
                forall|k: int| i <= k < self@.len() ==> !marked_current()(#[trigger] self@[k]),
            decreases i,
        {
            i -= 1;
            if self.jobs[i].current {
                proof {
                    assert(marked_current()(self@[i as int]));
                    lemma_last_where_is(self@, marked_current(), i as int);
                }
                return Some(i);
            }
        }
        proof {
            lemma_last_where(self@, marked_current());
            if self@.len() > 0 {
                assert(!marked_current()(self@[self@.len() - 1]));
            }
        }
        None
    }
}

/// An id or an index as a natural number.
pub open spec fn as_nat(o: Option<usize>) -> Option<nat> {
    match o {
        Some(n) => Some(n as nat),
        None => None,
    }
}

/// The job that a `%` reference names: `%+` the current job, `%-` the job
/// created just before the current one, `%` and a number the job with that
/// id. Any other text names none.
pub open spec fn percent_target(s: Seq<JobView>, r: Seq<char>) -> Option<int> {
    if r =~= seq!['%', '+'] {
        last_where(s, marked_current())
    } else if r =~= seq!['%', '-'] {
        match last_where(s, marked_current()) {
            Some(i) => if i >= 1 {
                Some(i - 1)
            } else {
                None
            },
            None => None,
        }
    } else if r.len() > 0 && r[0] == '%' {
        match parse_unsigned(r.subrange(1, r.len() as int), usize::MAX as nat) {
            Some(id) => first_where(s, has_id(id)),
            None => None,
        }
    } else {
        None
    }
}

/// The ids that listings mark with `+` and `-`: the current job and the one
/// created just before it. Where no job carries the mark, the last two jobs
/// stand in.
pub open spec fn current_and_previous(s: Seq<JobView>) -> (Option<nat>, Option<nat>) {
    if s.len() == 0 {
        (None, None)
    } else {
        match last_where(s, marked_current()) {
            Some(i) => (
                Some(s[i].id),
                if i >= 1 {
                    Some(s[i - 1].id)
                } else {
                    None
                },
            ),
            None => (
                Some(s.last().id),
                if s.len() >= 2 {
                    Some(s[s.len() - 2].id)
                } else {
                    None
                },
            ),
        }
    }
}

impl JobTable {
    /// Index of the job that a `%` reference names.
    pub fn index_by_percent(&self, s: &str) -> (r: Option<usize>)
        ensures
            r is Some <==> percent_target(self@, s@) is Some,
            r is Some ==> r->0 as int == percent_target(self@, s@)->0,
    {
        let v = chars_of(s);
        if v.len() == 2 && v[0] == '%' && v[1] == '+' {
            assert(s@ =~= seq!['%', '+']);
            return self.index_of_current();
        }
        if v.len() == 2 && v[0] == '%' && v[1] == '-' {
            assert(s@ =~= seq!['%', '-']);
            assert(s@[1] != '+');
            return match self.index_of_current() {
                Some(i) => if i >= 1 {
                    Some(i - 1)
                } else {
                    None
                },
                None => None,
            };
        }
        proof {
            if s@ =~= seq!['%', '+'] {
                assert(s@[1] == '+');
            }
            if s@ =~= seq!['%', '-'] {
                assert(s@[1] == '-');
            }
        }
        if v.len() > 0 && v[0] == '%' {
            return match parse_usize_chars(&v, 1) {
                Some(id) => self.index_by_id(id),
                None => None,
            };
        }
        None
    }

    /// The job with the given id, to read or change.
    pub fn by_id(&mut self, id: usize) -> (r: Option<&mut Job>)
        ensures
            r is Some <==> first_where(old(self)@, has_id(id as nat)) is Some,
            r is Some ==> ({
                let i = first_where(old(self)@, has_id(id as nat))->0;
                &&& 0 <= i < old(self).jobs@.len()
                &&& *r->0 == old(self).jobs@[i]
                &&& final(self).jobs@ == old(self).jobs@.update(i, *final(r->0))
                &&& final(self).next_id == old(self).next_id
            }),
            r is None ==> *final(self) == *old(self),
    {
        proof {
            lemma_first_where(self@, has_id(id as nat));
        }
        match self.index_by_id(id) {
            Some(i) => Some(&mut self.jobs[i]),
            None => None,
        }
    }

    /// The job that a `%` reference names, to read or change.
    pub fn by_percent(&mut self, s: &str) -> (r: Option<&mut Job>)
        ensures
            r is Some <==> percent_target(old(self)@, s@) is Some,
            r is Some ==> ({
                let i = percent_target(old(self)@, s@)->0;
                &&& 0 <= i < old(self).jobs@.len()
                &&& *r->0 == old(self).jobs@[i]
                &&& final(self).jobs@ == old(self).jobs@.update(i, *final(r->0))
                &&& final(self).next_id == old(self).next_id
            }),
            r is None ==> *final(self) == *old(self),
    {
        match self.index_by_percent(s) {
            Some(i) => {
                proof {
                    lemma_percent_target_in_range(self@, s@);
                }
                Some(&mut self.jobs[i])
            },
            None => None,
        }
    }

    /// Ids of the current job and of the one before it.
    pub fn current_prev_ids(&self) -> (r: (Option<usize>, Option<usize>))
        ensures
            (as_nat(r.0), as_nat(r.1)) == current_and_previous(self@),
    {
        if self.jobs.len() == 0 {
            return (None, None);
        }
        match self.index_of_current() {
            Some(i) => {
                proof {
                    lemma_last_where(self@, marked_current());
                }
                let cur = Some(self.jobs[i].id);
                let prev = if i >= 1 {
                    Some(self.jobs[i - 1].id)
                } else {
                    None
                };
                (cur, prev)
            },
            None => {
                let n = self.jobs.len();
                let last = Some(self.jobs[n - 1].id);
                let prev = if n >= 2 {
                    Some(self.jobs[n - 2].id)
                } else {
                    None
                };
                (last, prev)
            },
        }
    }

    /// Records an observed change in the table and gives the line to show
    /// for it. The first job of the group is set running or stopped, or is
    /// removed when it ended; then the last job that remains is the current
    /// one.
    pub fn apply_update(&mut self, upd: UpdateKind) -> (notice: Option<String>)
        ensures
            final(self)@ == after_update(old(self)@, upd),
            final(self).issued() == old(self).issued(),
            notice is Some <==> update_notice(old(self)@, upd) is Some,
            notice is Some ==> notice->0@ == update_notice(old(self)@, upd)->0,
            old(self).wf() ==> final(self).wf(),
    {
        let pgid = match upd {
            UpdateKind::Running { pgid } => pgid,
            UpdateKind::Stopped { pgid } => pgid,
            UpdateKind::Terminated { pgid, .. } => pgid,
        };
        proof {
            lemma_first_where(self@, in_group(upd.group()));
            if self.wf() {
                lemma_update_keeps_table(self@, self.issued(), upd);
            }
        }
        let pos = match self.index_by_group(pgid) {
            Some(pos) => pos,
            None => {
                return None;
            },
        };
        match upd {
            UpdateKind::Running { .. } => {
                self.jobs[pos].state = JobState::Running;
                assert(self@ =~= with_state(old(self)@, pos as int, JobState::Running));
                None
            },
            UpdateKind::Stopped { .. } => {
                self.jobs[pos].state = JobState::Stopped;
                assert(self@ =~= with_state(old(self)@, pos as int, JobState::Stopped));
                let mut line = String::new();
                push_char(&mut line, '[');
                line.append(to_decimal(self.jobs[pos].id).as_str());
                line.append("]+  Stopped                 ");
                line.append(self.jobs[pos].cmdline.as_str());
                assert(line@ =~= stopped_line(old(self)@[pos as int].id, old(self)@[pos as int].cmdline));
                Some(line)
            },
            UpdateKind::Terminated { .. } => {
                let job = self.jobs.remove(pos);
                let mut line = String::new();
                push_char(&mut line, '[');
                line.append(to_decimal(job.id).as_str());
                line.append("]+  Terminated              ");
                line.append(job.cmdline.as_str());
                assert(line@ =~= terminated_line(old(self)@[pos as int].id, old(self)@[pos as int].cmdline));
                let n = self.jobs.len();
                if n > 0 {
                    self.jobs[n - 1].current = true;
                }
                assert(self@ =~= without_job(old(self)@, pos as int));
                Some(line)
            },
        }
    }
}

/// Whether a job passes a filter on its state. Without a filter every job
/// passes.
pub open spec fn passes_filter(j: JobView, filter: Option<JobState>) -> bool {
    match filter {
        Some(state) => j.state == state,
        None => true,
    }
}

/// The places of those among the first `n` jobs that pass the filter, in
/// the order of creation.
pub open spec fn listed_places(s: Seq<JobView>, n: int, filter: Option<JobState>) -> Seq<usize>
    decreases n,
{
    if n <= 0 {
        Seq::empty()
    } else if passes_filter(s[n - 1], filter) {
        listed_places(s, n - 1, filter).push((n - 1) as usize)
    } else {
        listed_places(s, n - 1, filter)
    }
}

impl JobTable {
    /// The places of the jobs to list, in the order of creation: all of
    /// them, or only those in the given state.
    pub fn list(&self, filter: Option<JobState>) -> (places: Vec<usize>)
        ensures
            places@ == listed_places(self@, self@.len() as int, filter),
    {
        let mut places: Vec<usize> = Vec::new();
        let mut i: usize = 0;
        while i < self.jobs.len()
            invariant
                i <= self.jobs.len(),
                places@ == listed_places(self@, i as int, filter),
            decreases self.jobs.len() - i,
        {
            let passes = match filter {
                Some(state) => self.jobs[i].state == state,
                None => true,
            };
            if passes {
                places.push(i);
            }
            i += 1;
        }
        places
    }
}

/// A listing holds exactly the jobs that pass the filter, each once, in the
/// order of creation.
pub proof fn lemma_listed_places(s: Seq<JobView>, n: int, filter: Option<JobState>)
    requires
        0 <= n <= s.len(),
        s.len() <= usize::MAX,
    ensures
        forall|k: int|
            0 <= k < listed_places(s, n, filter).len() ==> 0 <= (#[trigger] listed_places(
                s,
                n,
                filter,
            )[k]) < n && passes_filter(s[listed_places(s, n, filter)[k] as int], filter),
        forall|a: int, b: int|
            0 <= a < b < listed_places(s, n, filter).len() ==> (#[trigger] listed_places(
                s,
                n,
                filter,
            )[a]) < (#[trigger] listed_places(s, n, filter)[b]),
        forall|i: int|
            0 <= i < n && passes_filter(#[trigger] s[i], filter) ==> listed_places(
                s,
                n,
                filter,
            ).contains(i as usize),
    decreases n,
{
    if n > 0 {
        lemma_listed_places(s, n - 1, filter);
        let before = listed_places(s, n - 1, filter);
        let now = listed_places(s, n, filter);
        assert forall|i: int| 0 <= i < n && passes_filter(#[trigger] s[i], filter) implies now.contains(
            i as usize,
        ) by {
            if i < n - 1 {
                assert(before.contains(i as usize));
                let k = choose|k: int| 0 <= k < before.len() && before[k] == i as usize;
                assert(now[k] == i as usize);
            } else {
                assert(now[now.len() - 1] == i as usize);
            }
        }
    }
}

/// A `%` reference that names a job names one of the table.
pub proof fn lemma_percent_target_in_range(s: Seq<JobView>, r: Seq<char>)
    ensures
        percent_target(s, r) is Some ==> 0 <= percent_target(s, r)->0 < s.len(),
{
    lemma_last_where(s, marked_current());
    if r.len() > 0 && r[0] == '%' {
        match parse_unsigned(r.subrange(1, r.len() as int), usize::MAX as nat) {
            Some(id) => {
                lemma_first_where(s, has_id(id));
            },
            None => {},
        }
    }
}

/// Ids grow strictly with the order of creation, so no two live jobs share
/// one.
pub proof fn lemma_ids_increasing_and_unique(s: Seq<JobView>, issued: nat)
    requires
        table_wf(s, issued),
    ensures
        forall|i: int, j: int| 0 <= i < j < s.len() ==> (#[trigger] s[i]).id < (#[trigger] s[j]).id,
        forall|i: int, j: int|
            0 <= i < s.len() && 0 <= j < s.len() && i != j ==> (#[trigger] s[i]).id != (
            #[trigger] s[j]).id,
{
    assert forall|i: int, j: int| 0 <= i < s.len() && 0 <= j < s.len() && i != j implies (
    #[trigger] s[i]).id != (#[trigger] s[j]).id by {
        if i < j {
            assert(s[i].id < s[j].id);
        } else {
            assert(s[j].id < s[i].id);
        }
    }
}

/// A launch gives the new job an id above that of every live job and leaves
/// the table well formed: the new job is last and the only current one.
pub proof fn lemma_launch_keeps_table(s: Seq<JobView>, issued: nat, job: JobView)
    requires
        table_wf(s, issued),
        job.id == issued + 1,
        job.current,
    ensures
        table_wf(with_new_job(s, job), issued + 1),
        forall|k: int| 0 <= k < s.len() ==> (#[trigger] s[k]).id < job.id,
        all_live(s) && job.state != JobState::Terminated ==> all_live(with_new_job(s, job)),
        groups_distinct(s) && none_where(s, in_group(job.pgid)) ==> groups_distinct(
            with_new_job(s, job),
        ),
        leaders_only(s) && job.pids.len() == 1 && job.pids[0] == job.pgid ==> leaders_only(
            with_new_job(s, job),
        ),
{
    let t = with_new_job(s, job);
    assert forall|i: int| 0 <= i < s.len() implies (#[trigger] t[i]).pids == s[i].pids && t[i].pgid
        == s[i].pgid && t[i].state == s[i].state by {}
    assert forall|i: int, j: int| 0 <= i < j < t.len() implies (#[trigger] t[i]).id < (
    #[trigger] t[j]).id by {
        assert(t[i].id == s[i].id);
        if j < s.len() {
            assert(t[j].id == s[j].id);
        }
    }
    if groups_distinct(s) && none_where(s, in_group(job.pgid)) {
        assert forall|i: int, j: int| 0 <= i < j < t.len() implies (#[trigger] t[i]).pgid != (
        #[trigger] t[j]).pgid by {
            assert(t[i].pgid == s[i].pgid);
            if j < s.len() {
                assert(t[j].pgid == s[j].pgid);
            } else {
                assert(!in_group(job.pgid)(s[i]));
            }
        }
    }
}

/// Where the job at place `k` stood before job `p` left the table.
pub open spec fn place_before_removal(p: int, k: int) -> int {
    if k < p {
        k
    } else {
        k + 1
    }
}

/// Job by job, what a table holds once job `p` has left it: the others, in
/// their order and unchanged, but that the last one is current.
pub proof fn lemma_without_job(s: Seq<JobView>, p: int)
    requires
        0 <= p < s.len(),
    ensures
        without_job(s, p).len() == s.len() - 1,
        forall|k: int|
            0 <= k < s.len() - 1 ==> #[trigger] without_job(s, p)[k] == (JobView {
                current: k == s.len() - 2 || s[place_before_removal(p, k)].current,
                ..s[place_before_removal(p, k)]
            }),
{
    let rest = s.remove(p);
    assert forall|k: int| 0 <= k < s.len() - 1 implies #[trigger] without_job(s, p)[k] == (JobView {
        current: k == s.len() - 2 || s[place_before_removal(p, k)].current,
        ..s[place_before_removal(p, k)]
    }) by {
        assert(rest[k] == s[place_before_removal(p, k)]);
    }
}

/// An observed change leaves the table well formed, hands out no id, keeps
/// groups distinct and brings no ended job into the table.
pub proof fn lemma_update_keeps_table(s: Seq<JobView>, issued: nat, upd: UpdateKind)
    requires
        table_wf(s, issued),
    ensures
        table_wf(after_update(s, upd), issued),
        groups_distinct(s) ==> groups_distinct(after_update(s, upd)),
        all_live(s) ==> all_live(after_update(s, upd)),
        leaders_only(s) ==> leaders_only(after_update(s, upd)),
{
    lemma_first_where(s, in_group(upd.group()));
    let t = after_update(s, upd);
    match first_where(s, in_group(upd.group())) {
        None => {},
        Some(p) => {
            match upd {
                UpdateKind::Terminated { .. } => {
                    lemma_without_job(s, p);
                    assert forall|a: int, b: int| 0 <= a < b < t.len() implies (#[trigger] t[a]).id
                        < (#[trigger] t[b]).id && (groups_distinct(s) ==> t[a].pgid != t[b].pgid) by {
                        let sa = s[place_before_removal(p, a)];
                        let sb = s[place_before_removal(p, b)];
                        assert(sa.id < sb.id);
                    }
                    assert forall|a: int| 0 <= a < t.len() implies 1 <= (#[trigger] t[a]).id
                        <= issued && (t[a].current <==> a == t.len() - 1) && (all_live(s)
                        ==> t[a].state != JobState::Terminated) && (leaders_only(s)
                        ==> t[a].pids.len() == 1 && t[a].pids[0] == t[a].pgid) by {
                        let sa = s[place_before_removal(p, a)];
                        assert(1 <= sa.id);
                    }
                },
                _ => {
                    assert forall|k: int| 0 <= k < t.len() implies (#[trigger] t[k]).id == s[k].id
                        && t[k].pgid == s[k].pgid && t[k].current == s[k].current && t[k].pids
                        == s[k].pids && (t[k].state == s[k].state || t[k].state
                        != JobState::Terminated) by {}
                },
            }
        },
    }
}

/// When the current job leaves a table of two jobs or more, exactly one of
/// the jobs that remain is current afterwards: the most recently created.
pub proof fn lemma_removal_promotes_latest(s: Seq<JobView>, issued: nat, i: int)
    requires
        table_wf(s, issued),
        s.len() >= 2,
        0 <= i < s.len(),
        s[i].current,
    ensures
        i == s.len() - 1,
        without_job(s, i).len() == s.len() - 1,
        without_job(s, i).last() == (JobView { current: true, ..s[s.len() - 2] }),
        forall|k: int|
            0 <= k < s.len() - 1 ==> ((#[trigger] without_job(s, i)[k]).current <==> k == s.len()
                - 2),
        forall|k: int|
            0 <= k < s.len() - 1 ==> (#[trigger] without_job(s, i)[k]).id <= without_job(
                s,
                i,
            ).last().id,
{
    let t = without_job(s, i);
    lemma_without_job(s, i);
    assert(t.last() == t[s.len() - 2]);
    assert forall|k: int| 0 <= k < s.len() - 1 implies ((#[trigger] t[k]).current <==> k == s.len()
        - 2) && t[k].id <= t.last().id by {
        assert(place_before_removal(i, k) == k);
        assert(!s[k].current);
        if k < s.len() - 2 {
            assert(s[k].id < s[s.len() - 2].id);
        }
    }
}

/// A job's id, written after `%`, names that very job.
pub proof fn lemma_percent_round_trip(s: Seq<JobView>, issued: nat, i: int)
    requires
        table_wf(s, issued),
        issued <= usize::MAX,
        0 <= i < s.len(),
    ensures
        percent_target(s, seq!['%'] + decimal(s[i].id)) == Some(i),
{
    let r = seq!['%'] + decimal(s[i].id);
    crate::text::lemma_decimal_round_trip(s[i].id);
    lemma_parse_decimal(s[i].id, usize::MAX as nat);
    assert(r.subrange(1, r.len() as int) =~= decimal(s[i].id));
    assert(r[1] == decimal(s[i].id)[0]);
    assert(crate::text::is_digit(decimal(s[i].id)[0]));
    assert(r[0] == '%');
    lemma_ids_increasing_and_unique(s, issued);
    assert(has_id(s[i].id)(s[i]));
    assert forall|k: int| 0 <= k < i implies !has_id(s[i].id)(#[trigger] s[k]) by {
        assert(s[k].id != s[i].id);
    }
    lemma_first_where_is(s, has_id(s[i].id), i);
}

/// A job's id, read as a number, is found at the job's own place.
pub proof fn lemma_parse_to_percent(s: Seq<JobView>, issued: nat, i: int)
    requires
        table_wf(s, issued),
        0 <= i < s.len(),
    ensures
        first_where(s, has_id(s[i].id)) == Some(i),
{
    lemma_ids_increasing_and_unique(s, issued);
    assert(has_id(s[i].id)(s[i]));
    assert forall|k: int| 0 <= k < i implies !has_id(s[i].id)(#[trigger] s[k]) by {
        assert(s[k].id != s[i].id);
    }
    lemma_first_where_is(s, has_id(s[i].id), i);
}

/// One thing that happens to a job table: a launch, an observed change, or
/// the resuming of the job at some place by `bg` or `fg`.
pub enum TableEvent {
    Launch { pgid: i32, state: JobState, cmdline: Seq<char> },
    Observe { upd: UpdateKind },
    Resume { place: int },
}

/// A job table as a value: the jobs, and how many ids were handed out.
pub struct TableModel {
    pub jobs: Seq<JobView>,
    pub issued: nat,
}

/// The table after one event.
pub open spec fn model_step(m: TableModel, e: TableEvent) -> TableModel {
    match e {
        TableEvent::Launch { pgid, state, cmdline } => TableModel {
            jobs: with_new_job(
                m.jobs,
                JobView {
                    id: m.issued + 1,
                    pgid: pgid as int,
                    state,
                    cmdline,
                    pids: seq![pgid],
                    current: true,
                },
            ),
            issued: m.issued + 1,
        },
        TableEvent::Observe { upd } => TableModel { jobs: after_update(m.jobs, upd), ..m },
        TableEvent::Resume { place } => if 0 <= place < m.jobs.len() {
            TableModel { jobs: with_state(m.jobs, place, JobState::Running), ..m }
        } else {
            m
        },
    }
}

/// A launch as the system brings it about: the job is alive and its group
/// is none of the table's.
pub open spec fn is_fresh(m: TableModel, e: TableEvent) -> bool {
    e is Launch ==> e->state != JobState::Terminated && none_where(
        m.jobs,
        in_group(e->pgid as int),
    )
}

/// One event leaves a well-formed table well formed. Where every launch is
/// fresh, the jobs stay alive, their groups distinct, and each keeps its
/// leader as only member.
pub proof fn lemma_step_keeps_table(m: TableModel, e: TableEvent)
    requires
        table_wf(m.jobs, m.issued),
    ensures
        table_wf(model_step(m, e).jobs, model_step(m, e).issued),
        rests_well(m.jobs) && is_fresh(m, e) ==> rests_well(model_step(m, e).jobs),
{
    match e {
        TableEvent::Launch { pgid, state, cmdline } => {
            lemma_launch_keeps_table(
                m.jobs,
                m.issued,
                JobView {
                    id: m.issued + 1,
                    pgid: pgid as int,
                    state,
                    cmdline,
                    pids: seq![pgid],
                    current: true,
                },
            );
        },
        TableEvent::Observe { upd } => {
            lemma_update_keeps_table(m.jobs, m.issued, upd);
        },
        TableEvent::Resume { place } => {
            let t = model_step(m, e).jobs;
            assert forall|k: int| 0 <= k < t.len() implies (#[trigger] t[k]).id == m.jobs[k].id
                && t[k].current == m.jobs[k].current && t[k].pgid == m.jobs[k].pgid && t[k].pids
                == m.jobs[k].pids && (all_live(m.jobs) ==> t[k].state != JobState::Terminated) by {}
        },
    }
}

/// A stopped job changes only through what is done to it or observed of its
/// own group. Whatever else happens, it stays in the table and stays
/// stopped. It is set running only by a resuming of the job itself or by an
/// observed continuation of its group, and it leaves the table only when
/// the end of its group is observed.
pub proof fn lemma_stopped_job_changes_by_its_event(m: TableModel, e: TableEvent, i: int)
    requires
        table_wf(m.jobs, m.issued),
        0 <= i < m.jobs.len(),
        m.jobs[i].state == JobState::Stopped,
    ensures
        first_where(model_step(m, e).jobs, has_id(m.jobs[i].id)) is None ==> e is Observe
            && e->upd is Terminated && first_where(m.jobs, in_group(e->upd.group())) == Some(i),
        first_where(model_step(m, e).jobs, has_id(m.jobs[i].id)) is Some ==> ({
            let k = first_where(model_step(m, e).jobs, has_id(m.jobs[i].id))->0;
            let job = model_step(m, e).jobs[k];
            &&& job.pgid == m.jobs[i].pgid
            &&& job.cmdline == m.jobs[i].cmdline
            &&& job.state != JobState::Terminated
            &&& job.state == JobState::Running ==> (e is Resume && e->place == i) || (e is Observe
                && e->upd is Running && e->upd.group() == m.jobs[i].pgid)
        }),
{
    let s = m.jobs;
    let t = model_step(m, e).jobs;
    let id = s[i].id;
    let found = first_where(t, has_id(id));
    lemma_step_keeps_table(m, e);
    lemma_first_where(t, has_id(id));
    lemma_ids_increasing_and_unique(s, m.issued);
    lemma_ids_increasing_and_unique(t, model_step(m, e).issued);
    // The place at which the job stands afterwards, if it still stands.
    let kept: Option<int> = match e {
        TableEvent::Launch { .. } => Some(i),
        TableEvent::Resume { .. } => Some(i),
        TableEvent::Observe { upd } => match first_where(s, in_group(upd.group())) {
            None => Some(i),
            Some(p) => match upd {
                UpdateKind::Terminated { .. } => if i < p {
                    Some(i)
                } else if i > p {
                    Some(i - 1)
                } else {
                    None
                },
                _ => Some(i),
            },
        },
    };
    match e {
        TableEvent::Observe { upd } => {
            lemma_first_where(s, in_group(upd.group()));
            match first_where(s, in_group(upd.group())) {
                Some(p) => {
                    if upd is Terminated {
                        lemma_without_job(s, p);
                        if i > p {
                            assert(place_before_removal(p, i - 1) == i);
                        }
                        if found is Some {
                            let k = found->0;
                            assert(t[k].id == s[place_before_removal(p, k)].id);
                            assert(place_before_removal(p, k) == i);
                        }
                    }
                },
                None => {},
            }
        },
        _ => {},
    }
    match kept {
        Some(k0) => {
            assert(t[k0].id == id);
            assert(has_id(id)(t[k0]));
            assert(found is Some);
            assert(found->0 == k0);
        },
        None => {},
    }
}

/// The table that a run of events makes of the empty table.
pub open spec fn model_after(events: Seq<TableEvent>) -> TableModel
    decreases events.len(),
{
    if events.len() == 0 {
        TableModel { jobs: Seq::empty(), issued: 0 }
    } else {
        model_step(model_after(events.drop_last()), events.last())
    }
}

/// Whatever launches, observed changes and resumings a table has seen, in
/// whatever order, its ids grow strictly with the order of creation, no two live jobs
/// share an id, and the last job and no other is the current one.
pub proof fn lemma_every_history_is_well_formed(events: Seq<TableEvent>)
    ensures
        table_wf(model_after(events).jobs, model_after(events).issued),
        forall|i: int, j: int|
            0 <= i < model_after(events).jobs.len() && 0 <= j < model_after(events).jobs.len() && i
                != j ==> (#[trigger] model_after(events).jobs[i]).id != (#[trigger] model_after(
                events,
            ).jobs[j]).id,
    decreases events.len(),
{
    if events.len() > 0 {
        lemma_every_history_is_well_formed(events.drop_last());
        lemma_step_keeps_table(model_after(events.drop_last()), events.last());
    }
    lemma_ids_increasing_and_unique(model_after(events).jobs, model_after(events).issued);
}

} // verus!
