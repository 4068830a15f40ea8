use crate::job::texts;
use crate::text::{chars_of, parse_u64, parse_unsigned, same_text};
use vstd::prelude::*;
use vstd::string::*;

verus! {

/// The commands that the shell runs itself.
#[derive(Debug, Clone, Copy, PartialEq, Eq, Structural)]
pub enum Builtin {
    Exit,
    Echo,
    Pwd,
    Cd,
    Mkdir,
    Ls,
    Cat,
    Cp,
    Rm,
    Mv,
    Jobs,
    Fg,
    Bg,
    Kill,
    Sleep,
    Read,
}

/// The builtin that a command name stands for, if any.
pub open spec fn builtin_named(name: Seq<char>) -> Option<Builtin> {
    if name == "exit"@ {
        Some(Builtin::Exit)
    } else if name == "echo"@ {
        Some(Builtin::Echo)
    } else if name == "pwd"@ {
        Some(Builtin::Pwd)
    } else if name == "cd"@ {
        Some(Builtin::Cd)
    } else if name == "mkdir"@ {
        Some(Builtin::Mkdir)
    } else if name == "ls"@ {
        Some(Builtin::Ls)
    } else if name == "cat"@ {
        Some(Builtin::Cat)
    } else if name == "cp"@ {
        Some(Builtin::Cp)
    } else if name == "rm"@ {
        Some(Builtin::Rm)
    } else if name == "mv"@ {
        Some(Builtin::Mv)
    } else if name == "jobs"@ {
        Some(Builtin::Jobs)
    } else if name == "fg"@ {
        Some(Builtin::Fg)
    } else if name == "bg"@ {
        Some(Builtin::Bg)
    } else if name == "kill"@ {
        Some(Builtin::Kill)
    } else if name == "sleep"@ {
        Some(Builtin::Sleep)
    } else if name == "read"@ {
        Some(Builtin::Read)
    } else {
        None
    }
}

/// Finds the builtin that a command name stands for.
pub fn builtin_of(name: &str) -> (b: Option<Builtin>)
    ensures
        b == builtin_named(name@),
{
    if same_text(name, "exit") {
        Some(Builtin::Exit)
    } else if same_text(name, "echo") {
        Some(Builtin::Echo)
    } else if same_text(name, "pwd") {
        Some(Builtin::Pwd)
    } else if same_text(name, "cd") {
        Some(Builtin::Cd)
    } else if same_text(name, "mkdir") {
        Some(Builtin::Mkdir)
    } else if same_text(name, "ls") {
        Some(Builtin::Ls)
    } else if same_text(name, "cat") {
        Some(Builtin::Cat)
    } else if same_text(name, "cp") {
        Some(Builtin::Cp)
    } else if same_text(name, "rm") {
        Some(Builtin::Rm)
    } else if same_text(name, "mv") {
        Some(Builtin::Mv)
    } else if same_text(name, "jobs") {
        Some(Builtin::Jobs)
    } else if same_text(name, "fg") {
        Some(Builtin::Fg)
    } else if same_text(name, "bg") {
        Some(Builtin::Bg)
    } else if same_text(name, "kill") {
        Some(Builtin::Kill)
    } else if same_text(name, "sleep") {
        Some(Builtin::Sleep)
    } else if same_text(name, "read") {
        Some(Builtin::Read)
    } else {
        None
    }
}

/// Whether the shell runs the command itself.
pub fn is_builtin(name: &str) -> (r: bool)
    ensures
        r == builtin_named(name@) is Some,
{
    builtin_of(name).is_some()
}

/// Whether an operand of `ls` is a group of flags: a `-` and at least one
/// letter.
pub open spec fn is_flag_word(a: Seq<char>) -> bool {
    a.len() > 1 && a[0] == '-'
}

/// Whether one of the flag words among the operands holds the letter `c`.
pub open spec fn has_flag(args: Seq<Seq<char>>, c: char) -> bool
    decreases args.len(),
{
    if args.len() == 0 {
        false
    } else {
        has_flag(args.drop_last(), c) || (is_flag_word(args.last()) && args.last().subrange(
            1,
            args.last().len() as int,
        ).contains(c))
    }
}

/// The operands that are no flag words, in their order.
pub open spec fn operands(args: Seq<Seq<char>>) -> Seq<Seq<char>>
    decreases args.len(),
{
    if args.len() == 0 {
        Seq::empty()
    } else if is_flag_word(args.last()) {
        operands(args.drop_last())
    } else {
        operands(args.drop_last()).push(args.last())
    }
}

/// Whether `c` stands in `v` after the first character.
fn holds_after_first(v: &Vec<char>, c: char) -> (r: bool)
    requires
        v.len() >= 1,
    ensures
        r == v@.subrange(1, v.len() as int).contains(c),
{
    let ghost letters = v@.subrange(1, v.len() as int);
    let mut k: usize = 1;
    while k < v.len()
        invariant
            1 <= k <= v.len(),
            letters == v@.subrange(1, v.len() as int),
            forall|j: int| 0 <= j < k - 1 ==> letters[j] != c,
        decreases v.len() - k,
    {
        if v[k] == c {
            assert(letters[k - 1] == c);
            return true;
        }
        assert(letters[k - 1] == v@[k as int]);
        k += 1;
    }
    false
}

/// Reads the operands of `ls`: whether `l`, `a` and `F` are asked for in any
/// flag word, and the operands that are no flag words.
pub fn parse_ls_flags(args: &[String]) -> (r: (bool, bool, bool, Vec<String>))
    ensures
        r.0 == has_flag(texts(args@), 'l'),
        r.1 == has_flag(texts(args@), 'a'),
        r.2 == has_flag(texts(args@), 'F'),
        texts(r.3@) == operands(texts(args@)),
{
    let mut long = false;
    let mut all = false;
    let mut classify = false;
    let mut rest: Vec<String> = Vec::new();
    let mut i: usize = 0;
    assert(texts(args@).subrange(0, 0) =~= Seq::<Seq<char>>::empty());
    assert(texts(rest@) =~= Seq::<Seq<char>>::empty());
    while i < args.len()
        invariant
            i <= args.len(),
            long == has_flag(texts(args@).subrange(0, i as int), 'l'),
            all == has_flag(texts(args@).subrange(0, i as int), 'a'),
            classify == has_flag(texts(args@).subrange(0, i as int), 'F'),
            texts(rest@) == operands(texts(args@).subrange(0, i as int)),
        decreases args.len() - i,
    {
        let v = chars_of(args[i].as_str());
        proof {
            let next = texts(args@).subrange(0, i + 1);
            assert(next.drop_last() =~= texts(args@).subrange(0, i as int));
            assert(next.last() == v@);
        }
        if v.len() > 1 && v[0] == '-' {
            if holds_after_first(&v, 'l') {
                long = true;
            }
            if holds_after_first(&v, 'a') {
                all = true;
            }
            if holds_after_first(&v, 'F') {
                classify = true;
            }
        } else {
            let ghost before = texts(rest@);
            let word = args[i].clone();
            rest.push(word);
            assert(texts(rest@) =~= before.push(v@));
        }
        i += 1;
    }
    assert(texts(args@).subrange(0, i as int) =~= texts(args@));
    (long, all, classify, rest)
}

/// How long `sleep` sleeps: the seconds that its first operand gives, and
/// one second where there is no operand or it is no number.
pub open spec fn sleep_time(args: Seq<Seq<char>>) -> nat {
    if args.len() == 0 {
        1
    } else {
        match parse_unsigned(args[0], u64::MAX as nat) {
            Some(secs) => secs,
            None => 1,
        }
    }
}

/// The seconds that `sleep` is to sleep.
pub fn sleep_seconds(args: &[String]) -> (secs: u64)
    ensures
        secs == sleep_time(texts(args@)),
{
    if args.len() == 0 {
        1
    } else {
        match parse_u64(args[0].as_str()) {
            Some(secs) => secs,
            None => 1,
        }
    }
}

/// Whether an operand of `rm` is the flag that asks for whole directories.
pub open spec fn is_recursive_flag(a: Seq<char>) -> bool {
    a =~= seq!['-', 'r']
}

/// Whether `rm` was asked to remove whole directories.
pub open spec fn asks_recursive(args: Seq<Seq<char>>) -> bool {
    exists|i: int| 0 <= i < args.len() && is_recursive_flag(#[trigger] args[i])
}

/// The operands of `rm` that name what is to be removed, in their order.
pub open spec fn rm_targets(args: Seq<Seq<char>>) -> Seq<Seq<char>>
    decreases args.len(),
{
    if args.len() == 0 {
        Seq::empty()
    } else if is_recursive_flag(args.last()) {
        rm_targets(args.drop_last())
    } else {
        rm_targets(args.drop_last()).push(args.last())
    }
}

/// Reads the operands of `rm`: whether `-r` is among them, and the others.
pub fn parse_rm_flags(args: &[String]) -> (r: (bool, Vec<String>))
    ensures
        r.0 == asks_recursive(texts(args@)),
        texts(r.1@) == rm_targets(texts(args@)),
{
    let mut recursive = false;
    let mut targets: Vec<String> = Vec::new();
    let mut i: usize = 0;
    assert(texts(args@).subrange(0, 0) =~= Seq::<Seq<char>>::empty());
    assert(texts(targets@) =~= Seq::<Seq<char>>::empty());
    while i < args.len()
        invariant
            i <= args.len(),
            recursive == exists|k: int| 0 <= k < i && is_recursive_flag(#[trigger] texts(args@)[k]),
            texts(targets@) == rm_targets(texts(args@).subrange(0, i as int)),
        decreases args.len() - i,
    {
        let v = chars_of(args[i].as_str());
        proof {
            let next = texts(args@).subrange(0, i + 1);
            assert(next.drop_last() =~= texts(args@).subrange(0, i as int));
            assert(next.last() == v@);
            assert(texts(args@)[i as int] == v@);
        }
        if v.len() == 2 && v[0] == '-' && v[1] == 'r' {
            assert(v@ =~= seq!['-', 'r']);
            recursive = true;
        } else {
            proof {
                if v@ =~= seq!['-', 'r'] {
                    assert(v@[0] == '-' && v@[1] == 'r');
                }
            }
            let ghost before = texts(targets@);
            targets.push(args[i].clone());
            assert(texts(targets@) =~= before.push(v@));
        }
        i += 1;
    }
    assert(texts(args@).subrange(0, i as int) =~= texts(args@));
    (recursive, targets)
}

} // verus!
