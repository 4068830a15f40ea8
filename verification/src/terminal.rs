use vstd::prelude::*;

verus! {

/// What came of an attempt to change the terminal's foreground group.
#[derive(Debug, Clone, Copy, PartialEq, Eq, Structural)]
pub enum TransferOutcome {
    /// The group owns the terminal now.
    Done,
    /// The process has no controlling terminal.
    NoTerminal,
    /// The system refused, with this error number.
    Failed { errno: i32 },
}

/// Judges an attempt to hand the terminal over. A shell without a
/// controlling terminal has nothing to hand over, and that is no error; any
/// other refusal is one.
pub fn settle_transfer(outcome: TransferOutcome) -> (r: Result<(), i32>)
    ensures
        r == match outcome {
            TransferOutcome::Done => Ok::<(), i32>(()),
            TransferOutcome::NoTerminal => Ok::<(), i32>(()),
            TransferOutcome::Failed { errno } => Err::<(), i32>(errno),
        },
{
    match outcome {
        TransferOutcome::Done => Ok(()),
        TransferOutcome::NoTerminal => Ok(()),
        TransferOutcome::Failed { errno } => Err(errno),
    }
}

/// The signals that the shell sets up for itself.
#[derive(Debug, Clone, Copy, PartialEq, Eq, Structural)]
pub enum ShellSignal {
    /// A child changed state.
    ChildChanged,
    /// The interrupt key.
    Interrupt,
    /// The stop key.
    TerminalStop,
}

/// What the shell does with a signal.
#[derive(Debug, Clone, Copy, PartialEq, Eq, Structural)]
pub enum Disposition {
    /// Note that it came, and nothing else.
    Note,
    /// Ignore it.
    Ignore,
}

/// The shell's signal policy: the keys of the terminal reach the job that
/// owns the terminal and never the shell, which ignores them; a change of a
/// child is noted.
pub fn disposition_of(signal: ShellSignal) -> (d: Disposition)
    ensures
        d == match signal {
            ShellSignal::ChildChanged => Disposition::Note,
            ShellSignal::Interrupt => Disposition::Ignore,
            ShellSignal::TerminalStop => Disposition::Ignore,
        },
{
    match signal {
        ShellSignal::ChildChanged => Disposition::Note,
        ShellSignal::Interrupt => Disposition::Ignore,
        ShellSignal::TerminalStop => Disposition::Ignore,
    }
}

/// How a wait is made.
#[derive(Debug, Clone, Copy, PartialEq, Eq, Structural)]
pub struct WaitFlags {
    /// Come back at once when no child has changed.
    pub no_hang: bool,
    /// Report children that stopped.
    pub untraced: bool,
    /// Report children that were continued.
    pub continued: bool,
}

/// The wait between prompts: it never blocks and reports every kind of
/// change.
pub fn drain_flags() -> (f: WaitFlags)
    ensures
        f == (WaitFlags { no_hang: true, untraced: true, continued: true }),
{
    WaitFlags { no_hang: true, untraced: true, continued: true }
}

/// The wait for the foreground job: it blocks and reports every kind of
/// change.
pub fn foreground_flags() -> (f: WaitFlags)
    ensures
        f == (WaitFlags { no_hang: false, untraced: true, continued: true }),
{
    WaitFlags { no_hang: false, untraced: true, continued: true }
}

/// The process id that stands for any child in a wait.
pub const ANY_CHILD: i32 = -1;

/// The process id that stands for every process of a group in a wait: the
/// group id with the sign turned.
pub fn group_target(pgid: i32) -> (target: i32)
    requires
        pgid != i32::MIN,
    ensures
        target == -pgid,
{
    -pgid
}

} // verus!
