use crate::job::texts;
use crate::launcher::{split, split_on};
use crate::lexer::{is_space, is_whitespace, tokenize, tokens_of};
use crate::text::{chars_of, text_of};
use vstd::prelude::*;

verus! {

/// One command of a line: its name, its arguments, and whether it is to run
/// in the background.
#[derive(Debug, Clone)]
pub struct ParsedCommand {
    pub cmd: String,
    pub args: Vec<String>,
    pub background: bool,
}

/// A parsed command as the contracts see it.
pub struct ParsedView {
    pub cmd: Seq<char>,
    pub args: Seq<Seq<char>>,
    pub background: bool,
}

impl View for ParsedCommand {
    type V = ParsedView;

    open spec fn view(&self) -> ParsedView {
        ParsedView { cmd: self.cmd@, args: texts(self.args@), background: self.background }
    }
}

/// A text without the white space at its start.
pub open spec fn trim_start(s: Seq<char>) -> Seq<char>
    decreases s.len(),
{
    if s.len() > 0 && is_space(s[0]) {
        trim_start(s.drop_first())
    } else {
        s
    }
}

/// A text without the white space at its end.
pub open spec fn trim_end(s: Seq<char>) -> Seq<char>
    decreases s.len(),
{
    if s.len() > 0 && is_space(s.last()) {
        trim_end(s.drop_last())
    } else {
        s
    }
}

/// A text without the white space at either end.
pub open spec fn trim(s: Seq<char>) -> Seq<char> {
    trim_end(trim_start(s))
}

/// A text without the run of `c` at its end.
pub open spec fn strip_trailing(s: Seq<char>, c: char) -> Seq<char>
    decreases s.len(),
{
    if s.len() > 0 && s.last() == c {
        strip_trailing(s.drop_last(), c)
    } else {
        s
    }
}

/// The command that one part of a line holds, if any. White space round the
/// part does not count. A part that ends in `&` is a background command:
/// every `&` at its end, and the white space before them, is taken off. The
/// first token of what is left is the command's name, the others are its
/// arguments. A part without a token holds no command.
pub open spec fn parse_part(part: Seq<char>) -> Option<ParsedView> {
    let s = trim(part);
    if s.len() == 0 {
        None
    } else {
        let background = s.last() == '&';
        let body = if background {
            trim_end(strip_trailing(s, '&'))
        } else {
            s
        };
        let tokens = tokens_of(body);
        if tokens.len() == 0 {
            None
        } else {
            Some(
                ParsedView { cmd: tokens[0], args: tokens.subrange(1, tokens.len() as int), background },
            )
        }
    }
}

/// The commands of the parts of a line, in their order.
pub open spec fn parse_parts(parts: Seq<Seq<char>>) -> Seq<ParsedView>
    decreases parts.len(),
{
    if parts.len() == 0 {
        Seq::empty()
    } else {
        let before = parse_parts(parts.drop_last());
        match parse_part(parts.last()) {
            Some(command) => before.push(command),
            None => before,
        }
    }
}

/// The views of a run of parsed commands.
pub open spec fn command_views(v: Seq<ParsedCommand>) -> Seq<ParsedView> {
    Seq::new(v.len(), |i: int| v[i]@)
}

/// First place in `v[from..to]` that holds no white space, or `to`.
fn skip_spaces(v: &Vec<char>, from: usize, to: usize) -> (a: usize)
    requires
        from <= to <= v.len(),
    ensures
        from <= a <= to,
        v@.subrange(a as int, to as int) == trim_start(v@.subrange(from as int, to as int)),
{
    let mut a: usize = from;
    while a < to && is_whitespace(v[a])
        invariant
            from <= a <= to <= v.len(),
            trim_start(v@.subrange(a as int, to as int)) == trim_start(
                v@.subrange(from as int, to as int),
            ),
        decreases to - a,
    {
        proof {
            let s = v@.subrange(a as int, to as int);
            assert(s[0] == v@[a as int]);
            assert(s.drop_first() =~= v@.subrange(a + 1, to as int));
        }
        a += 1;
    }
    proof {
        let s = v@.subrange(a as int, to as int);
        if a < to {
            assert(s[0] == v@[a as int]);
        }
    }
    a
}

/// End of `v[from..to]` once the white space at its end is taken off.
fn drop_spaces(v: &Vec<char>, from: usize, to: usize) -> (b: usize)
    requires
        from <= to <= v.len(),
    ensures
        from <= b <= to,
        v@.subrange(from as int, b as int) == trim_end(v@.subrange(from as int, to as int)),
{
    let mut b: usize = to;
    while b > from && is_whitespace(v[b - 1])
        invariant
            from <= b <= to <= v.len(),
            trim_end(v@.subrange(from as int, b as int)) == trim_end(
                v@.subrange(from as int, to as int),
            ),
        decreases b - from,
    {
        proof {
            let s = v@.subrange(from as int, b as int);
            assert(s.last() == v@[b - 1]);
            assert(s.drop_last() =~= v@.subrange(from as int, b - 1));
        }
        b -= 1;
    }
    proof {
        let s = v@.subrange(from as int, b as int);
        if b > from {
            assert(s.last() == v@[b - 1]);
        }
    }
    b
}

/// End of `v[from..to]` once the run of `c` at its end is taken off.
fn drop_trailing(v: &Vec<char>, from: usize, to: usize, c: char) -> (b: usize)
    requires
        from <= to <= v.len(),
    ensures
        from <= b <= to,
        v@.subrange(from as int, b as int) == strip_trailing(
            v@.subrange(from as int, to as int),
            c,
        ),
{
    let mut b: usize = to;
    while b > from && v[b - 1] == c
        invariant
            from <= b <= to <= v.len(),
            strip_trailing(v@.subrange(from as int, b as int), c) == strip_trailing(
                v@.subrange(from as int, to as int),
                c,
            ),
        decreases b - from,
    {
        proof {
            let s = v@.subrange(from as int, b as int);
            assert(s.last() == v@[b - 1]);
            assert(s.drop_last() =~= v@.subrange(from as int, b - 1));
        }
        b -= 1;
    }
    proof {
        let s = v@.subrange(from as int, b as int);
        if b > from {
            assert(s.last() == v@[b - 1]);
        }
    }
    b
}

/// Reads the command that one part of a line holds, if any.
pub fn parse_command(part: &str) -> (r: Option<ParsedCommand>)
    ensures
        r is Some <==> parse_part(part@) is Some,
        r is Some ==> r->0@ == parse_part(part@)->0,
{
    let v = chars_of(part);
    assert(v@.subrange(0, v.len() as int) =~= part@);
    let a = skip_spaces(&v, 0, v.len());
    let b = drop_spaces(&v, a, v.len());
    if a == b {
        return None;
    }
    let ghost s = v@.subrange(a as int, b as int);
    assert(s.last() == v@[b - 1]);
    let background = v[b - 1] == '&';
    let end = if background {
        let stripped = drop_trailing(&v, a, b, '&');
        drop_spaces(&v, a, stripped)
    } else {
        b
    };
    let body = text_of(&v, a, end);
    let mut tokens = tokenize(body.as_str());
    if tokens.len() == 0 {
        return None;
    }
    let ghost all = texts(tokens@);
    let cmd = tokens.remove(0);
    assert(texts(tokens@) =~= all.subrange(1, all.len() as int));
    Some(ParsedCommand { cmd, args: tokens, background })
}

/// Reads a line as a run of commands. A semicolon separates the commands;
/// an `&` at the end of one sends it to the background. Parts that hold no
/// command are passed over.
pub fn parse_line(line: &str) -> (out: Vec<ParsedCommand>)
    ensures
        command_views(out@) == parse_parts(split_on(line@, ';')),
{
    let parts = split(line, ';');
    let mut out: Vec<ParsedCommand> = Vec::new();
    let mut i: usize = 0;
    assert(texts(parts@).subrange(0, 0) =~= Seq::<Seq<char>>::empty());
    assert(command_views(out@) =~= Seq::<ParsedView>::empty());
    while i < parts.len()
        invariant
            i <= parts.len(),
            command_views(out@) == parse_parts(texts(parts@).subrange(0, i as int)),
        decreases parts.len() - i,
    {
        proof {
            let next = texts(parts@).subrange(0, i + 1);
            assert(next.drop_last() =~= texts(parts@).subrange(0, i as int));
            assert(next.last() == parts@[i as int]@);
        }
        match parse_command(parts[i].as_str()) {
            Some(command) => {
                let ghost before = command_views(out@);
                out.push(command);
                assert(command_views(out@) =~= before.push(command@));
            },
            None => {},
        }
        i += 1;
    }
    assert(texts(parts@).subrange(0, i as int) =~= texts(parts@));
    out
}

/// A text without the white space at either end.
pub fn trimmed(s: &str) -> (t: String)
    ensures
        t@ == trim(s@),
{
    let v = chars_of(s);
    assert(v@.subrange(0, v.len() as int) =~= s@);
    let a = skip_spaces(&v, 0, v.len());
    let b = drop_spaces(&v, a, v.len());
    text_of(&v, a, b)
}

/// Whether a line of a script holds commands: it is not empty and is no
/// comment, which a `#` starts.
pub open spec fn is_script_command(line: Seq<char>) -> bool {
    line.len() > 0 && line[0] != '#'
}

/// The lines of a script that hold commands, each without the white space
/// round it, in their order.
pub open spec fn script_commands(lines: Seq<Seq<char>>) -> Seq<Seq<char>>
    decreases lines.len(),
{
    if lines.len() == 0 {
        Seq::empty()
    } else if is_script_command(trim(lines.last())) {
        script_commands(lines.drop_last()).push(trim(lines.last()))
    } else {
        script_commands(lines.drop_last())
    }
}

/// The lines of a script that are to be run, in their order: empty lines
/// and comments are passed over.
pub fn script_lines(src: &str) -> (lines: Vec<String>)
    ensures
        texts(lines@) == script_commands(split_on(src@, '\n')),
{
    let raw = split(src, '\n');
    let mut lines: Vec<String> = Vec::new();
    let mut i: usize = 0;
    assert(texts(raw@).subrange(0, 0) =~= Seq::<Seq<char>>::empty());
    assert(texts(lines@) =~= Seq::<Seq<char>>::empty());
    while i < raw.len()
        invariant
            i <= raw.len(),
            texts(lines@) == script_commands(texts(raw@).subrange(0, i as int)),
        decreases raw.len() - i,
    {
        proof {
            let next = texts(raw@).subrange(0, i + 1);
            assert(next.drop_last() =~= texts(raw@).subrange(0, i as int));
            assert(next.last() == raw@[i as int]@);
        }
        let line = trimmed(raw[i].as_str());
        let v = chars_of(line.as_str());
        if v.len() > 0 && v[0] != '#' {
            let ghost before = texts(lines@);
            lines.push(line);
            assert(texts(lines@) =~= before.push(line@));
        }
        i += 1;
    }
    assert(texts(raw@).subrange(0, i as int) =~= texts(raw@));
    lines
}

} // verus!
