use crate::text::{append_padded_left, decimal, pad_left, push_char, u64_to_decimal};
use vstd::prelude::*;
use vstd::string::*;

verus! {

/// Whether a file name is hidden from a plain listing: it starts with a dot.
#[inline]
pub fn is_hidden(name: &str) -> (r: bool)
    ensures
        r == (name@.len() > 0 && name@[0] == '.'),
{
    name.unicode_len() > 0 && name.get_char(0) == '.'
}

/// The letters of three permission bits: read, write, execute; a `-` for
/// each bit that is not set.
pub open spec fn triplet(bits: u32) -> Seq<char> {
    seq![
        if bits & 0o4 != 0 {
            'r'
        } else {
            '-'
        },
        if bits & 0o2 != 0 {
            'w'
        } else {
            '-'
        },
        if bits & 0o1 != 0 {
            'x'
        } else {
            '-'
        },
    ]
}

/// Writes three permission bits as letters.
pub fn mode_triplet(bits: u32) -> (s: String)
    ensures
        s@ == triplet(bits),
{
    let mut s = String::new();
    push_char(
        &mut s,
        if bits & 0o4 != 0 {
            'r'
        } else {
            '-'
        },
    );
    push_char(
        &mut s,
        if bits & 0o2 != 0 {
            'w'
        } else {
            '-'
        },
    );
    push_char(
        &mut s,
        if bits & 0o1 != 0 {
            'x'
        } else {
            '-'
        },
    );
    assert(s@ =~= triplet(bits));
    s
}

/// The ten characters that a long listing shows of a file's mode: `d` for a
/// directory, then the permissions of owner, group and others.
pub open spec fn mode_text(is_dir: bool, mode: u32) -> Seq<char> {
    let perm: u32 = mode & 0o777;
    seq![if is_dir {
        'd'
    } else {
        '-'
    }] + triplet((perm >> 6) & 0o7) + triplet((perm >> 3) & 0o7) + triplet(perm & 0o7)
}

/// Writes a file's mode as a long listing shows it.
pub fn mode_string(is_dir: bool, mode: u32) -> (s: String)
    ensures
        s@ == mode_text(is_dir, mode),
{
    let perm: u32 = mode & 0o777;
    let mut s = String::new();
    push_char(
        &mut s,
        if is_dir {
            'd'
        } else {
            '-'
        },
    );
    s.append(mode_triplet((perm >> 6) & 0o7).as_str());
    s.append(mode_triplet((perm >> 3) & 0o7).as_str());
    s.append(mode_triplet(perm & 0o7).as_str());
    assert(s@ =~= mode_text(is_dir, mode));
    s
}

/// Gives the mark that a classifying listing puts after a name: `/` for a
/// directory, `*` for a file with an execute bit, nothing otherwise, and
/// nothing for a file whose mode could not be read.
pub fn classify_suffix(is_dir: bool, mode: Option<u32>) -> (suffix: &'static str)
    ensures
        suffix@ == suffix_text(is_dir, mode),
{
    if is_dir {
        "/"
    } else {
        match mode {
            Some(m) => if m & 0o111 != 0 {
                "*"
            } else {
                ""
            },
            None => "",
        }
    }
}

/// What stands in a long listing where a time of change would stand.
pub fn format_mtime(seconds: u64) -> (s: String)
    ensures
        s@ == "-------- -- --:--"@,
{
    String::from_str("-------- -- --:--")
}

/// The mark that a classifying listing puts after a name.
pub open spec fn suffix_text(is_dir: bool, mode: Option<u32>) -> Seq<char> {
    if is_dir {
        "/"@
    } else if mode is Some && mode->0 & 0o111 != 0 {
        "*"@
    } else {
        ""@
    }
}

/// What a listing is asked to show.
#[derive(Debug, Clone, Copy, PartialEq, Eq, Structural)]
pub struct ListStyle {
    /// The mode and the size before each name.
    pub long: bool,
    /// Hidden names too.
    pub all: bool,
    /// A mark after each name that tells directories and programs.
    pub classify: bool,
}

/// What is known of a file when it is listed. `exec_mode` is the mode as
/// read again for the mark, or nothing where it could not be read.
#[derive(Debug, Clone, Copy, PartialEq, Eq, Structural)]
pub struct FileFacts {
    pub is_dir: bool,
    pub mode: u32,
    pub size: u64,
    pub exec_mode: Option<u32>,
}

/// The line of one file in a listing: in a long listing the mode, the size
/// filled up to 8 characters on the left, and a space; then the name; in a
/// classifying listing the mark.
pub open spec fn entry_text(name: Seq<char>, facts: FileFacts, style: ListStyle) -> Seq<char> {
    let head = if style.long {
        mode_text(facts.is_dir, facts.mode).push(' ') + pad_left(decimal(facts.size as nat), 8)
            + seq![' ']
    } else {
        Seq::<char>::empty()
    };
    let mark = if style.classify {
        suffix_text(facts.is_dir, facts.exec_mode)
    } else {
        Seq::<char>::empty()
    };
    head + name + mark
}

/// Writes the line of one file in a listing.
pub fn format_entry(name: &str, facts: FileFacts, style: ListStyle) -> (line: String)
    ensures
        line@ == entry_text(name@, facts, style),
{
    let mut line = String::new();
    if style.long {
        line.append(mode_string(facts.is_dir, facts.mode).as_str());
        push_char(&mut line, ' ');
        append_padded_left(&mut line, u64_to_decimal(facts.size).as_str(), 8);
        push_char(&mut line, ' ');
    }
    line.append(name);
    if style.classify {
        line.append(classify_suffix(facts.is_dir, facts.exec_mode));
    }
    assert(line@ =~= entry_text(name@, facts, style));
    line
}

/// Whether a listing shows a name: a hidden name only where all are asked
/// for.
pub fn shows_entry(name: &str, style: ListStyle) -> (r: bool)
    ensures
        r == (style.all || !(name@.len() > 0 && name@[0] == '.')),
{
    style.all || !is_hidden(name)
}

} // verus!
