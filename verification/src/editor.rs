use crate::job::texts;
use crate::text::{chars_of, push_char, text_of};
use vstd::prelude::*;
use vstd::string::*;

verus! {

/// What the user pressed.
#[derive(Debug, Clone, Copy, PartialEq, Eq, Structural)]
pub enum Key {
    /// Return or line feed.
    Enter,
    /// The end-of-input key, or the end of the input itself.
    EndOfInput,
    /// The interrupt key.
    Interrupt,
    /// Backspace or delete.
    Backspace,
    /// Arrow up.
    Up,
    /// Arrow down.
    Down,
    /// Any other byte.
    Byte(u8),
}

/// What the terminal is to show after a key.
#[derive(Debug, Clone, Copy, PartialEq, Eq, Structural)]
pub enum Echo {
    Nothing,
    /// Go to a new line.
    NewLine,
    /// Go to a new line and show the prompt.
    FreshPrompt,
    /// Clear the line and show the prompt and the text again.
    Redraw,
    /// Show the character.
    Char(char),
}

/// Whether the line is still being read.
#[derive(Debug, Clone, Copy, PartialEq, Eq, Structural)]
pub enum Progress {
    Reading,
    /// The line is complete: it is the editor's text.
    Submitted,
    /// The input ended on an empty line.
    Closed,
}

/// The line that is being typed, and the place in the history that the
/// arrows have reached.
pub struct LineEditor {
    pub buf: String,
    pub hist_index: Option<usize>,
}

/// A line editor as the contracts see it.
pub struct EditorView {
    pub buf: Seq<char>,
    pub hist_index: Option<usize>,
}

impl View for LineEditor {
    type V = EditorView;

    open spec fn view(&self) -> EditorView {
        EditorView { buf: self.buf@, hist_index: self.hist_index }
    }
}

/// What a key makes of the editor and the history.
pub struct Pressed {
    pub editor: EditorView,
    pub history: Seq<Seq<char>>,
    pub progress: Progress,
    pub echo: Echo,
}

/// Whether a byte is a character that is taken into the line: ASCII, and no
/// control character.
pub open spec fn is_printable(b: u8) -> bool {
    0x20 <= b && b <= 0x7e
}

/// The place in the history is one of its lines.
pub open spec fn editor_wf(e: EditorView, history: Seq<Seq<char>>) -> bool {
    e.hist_index is Some ==> e.hist_index->0 < history.len()
}

/// What a key does.
/// Enter completes the line; a line that is not empty joins the history.
/// The end of input closes an empty line and is ignored on any other.
/// The interrupt key empties the line and leaves the history.
/// Backspace takes the last character off.
/// Arrow up shows the line before the one shown, starting from the last;
/// arrow down shows the line after it, and an empty line after the last.
/// A printable byte joins the line; any other byte is ignored.
pub open spec fn pressed(e: EditorView, history: Seq<Seq<char>>, key: Key) -> Pressed {
    let same = Pressed { editor: e, history, progress: Progress::Reading, echo: Echo::Nothing };
    match key {
        Key::Enter => Pressed {
            editor: e,
            history: if e.buf.len() > 0 {
                history.push(e.buf)
            } else {
                history
            },
            progress: Progress::Submitted,
            echo: Echo::NewLine,
        },
        Key::EndOfInput => if e.buf.len() == 0 {
            Pressed { progress: Progress::Closed, echo: Echo::NewLine, ..same }
        } else {
            same
        },
        Key::Interrupt => Pressed {
            editor: EditorView { buf: Seq::empty(), hist_index: None },
            echo: Echo::FreshPrompt,
            ..same
        },
        Key::Backspace => if e.buf.len() > 0 {
            Pressed {
                editor: EditorView { buf: e.buf.drop_last(), ..e },
                echo: Echo::Redraw,
                ..same
            }
        } else {
            same
        },
        Key::Up => if history.len() == 0 {
            same
        } else {
            let i: int = match e.hist_index {
                None => history.len() - 1,
                Some(i) => if i == 0 {
                    0
                } else {
                    i - 1
                },
            };
            Pressed {
                editor: EditorView { buf: history[i], hist_index: Some(i as usize) },
                echo: Echo::Redraw,
                ..same
            }
        },
        Key::Down => match e.hist_index {
            Some(i) => if history.len() == 0 {
                same
            } else if i + 1 < history.len() {
                Pressed {
                    editor: EditorView { buf: history[i + 1], hist_index: Some((i + 1) as usize) },
                    echo: Echo::Redraw,
                    ..same
                }
            } else {
                Pressed {
                    editor: EditorView { buf: Seq::empty(), hist_index: None },
                    echo: Echo::Redraw,
                    ..same
                }
            },
            None => same,
        },
        Key::Byte(b) => if is_printable(b) {
            Pressed {
                editor: EditorView { buf: e.buf.push(b as char), ..e },
                echo: Echo::Char(b as char),
                ..same
            }
        } else {
            same
        },
    }
}

/// The key that a byte stands for. The escape byte stands for none: it
/// starts a sequence of two more bytes.
pub fn key_of(byte: u8) -> (key: Option<Key>)
    ensures
        key == if byte == 0x0d || byte == 0x0a {
            Some(Key::Enter)
        } else if byte == 0x04 {
            Some(Key::EndOfInput)
        } else if byte == 0x03 {
            Some(Key::Interrupt)
        } else if byte == 0x7f || byte == 0x08 {
            Some(Key::Backspace)
        } else if byte == 0x1b {
            None
        } else {
            Some(Key::Byte(byte))
        },
{
    if byte == 0x0d || byte == 0x0a {
        Some(Key::Enter)
    } else if byte == 0x04 {
        Some(Key::EndOfInput)
    } else if byte == 0x03 {
        Some(Key::Interrupt)
    } else if byte == 0x7f || byte == 0x08 {
        Some(Key::Backspace)
    } else if byte == 0x1b {
        None
    } else {
        Some(Key::Byte(byte))
    }
}

/// The arrow key that the two bytes after an escape stand for: `[A` is up,
/// `[B` is down, anything else is no key.
pub fn arrow_of(first: u8, second: u8) -> (key: Option<Key>)
    ensures
        key == if first == 0x5b && second == 0x41 {
            Some(Key::Up)
        } else if first == 0x5b && second == 0x42 {
            Some(Key::Down)
        } else {
            None
        },
{
    if first == 0x5b && second == 0x41 {
        Some(Key::Up)
    } else if first == 0x5b && second == 0x42 {
        Some(Key::Down)
    } else {
        None
    }
}

impl LineEditor {
    /// An editor with an empty line, at no place in the history.
    pub fn new() -> (editor: LineEditor)
        ensures
            editor@ == (EditorView { buf: Seq::empty(), hist_index: None }),
    {
        LineEditor { buf: String::new(), hist_index: None }
    }

    /// Takes one key: changes the line and the history as the key asks, and
    /// says whether the line is complete and what the terminal is to show.
    pub fn press(&mut self, history: &mut Vec<String>, key: Key) -> (r: (Progress, Echo))
        requires
            editor_wf(old(self)@, texts(old(history)@)),
        ensures
            final(self)@ == pressed(old(self)@, texts(old(history)@), key).editor,
            texts(final(history)@) == pressed(old(self)@, texts(old(history)@), key).history,
            r.0 == pressed(old(self)@, texts(old(history)@), key).progress,
            r.1 == pressed(old(self)@, texts(old(history)@), key).echo,
            editor_wf(final(self)@, texts(final(history)@)),
    {
        let ghost before = texts(history@);
        let empty = self.buf.as_str().is_empty();
        match key {
            Key::Enter => {
                if !empty {
                    history.push(self.buf.clone());
                    assert(texts(history@) =~= before.push(self.buf@));
                }
                (Progress::Submitted, Echo::NewLine)
            },
            Key::EndOfInput => {
                if empty {
                    (Progress::Closed, Echo::NewLine)
                } else {
                    (Progress::Reading, Echo::Nothing)
                }
            },
            Key::Interrupt => {
                self.buf = String::new();
                self.hist_index = None;
                (Progress::Reading, Echo::FreshPrompt)
            },
            Key::Backspace => {
                if empty {
                    (Progress::Reading, Echo::Nothing)
                } else {
                    let v = chars_of(self.buf.as_str());
                    self.buf = text_of(&v, 0, v.len() - 1);
                    assert(self.buf@ =~= old(self).buf@.drop_last());
                    (Progress::Reading, Echo::Redraw)
                }
            },
            Key::Up => {
                if history.len() == 0 {
                    (Progress::Reading, Echo::Nothing)
                } else {
                    let i: usize = match self.hist_index {
                        None => history.len() - 1,
                        Some(i) => if i == 0 {
                            0
                        } else {
                            i - 1
                        },
                    };
                    self.hist_index = Some(i);
                    self.buf = history[i].clone();
                    (Progress::Reading, Echo::Redraw)
                }
            },
            Key::Down => {
                match self.hist_index {
                    Some(i) => {
                        let n: usize = history.len();
                        assert(i < before.len() && before.len() == n);
                        if i + 1 < n {
                            self.hist_index = Some(i + 1);
                            self.buf = history[i + 1].clone();
                        } else {
                            self.hist_index = None;
                            self.buf = String::new();
                        }
                        (Progress::Reading, Echo::Redraw)
                    },
                    None => (Progress::Reading, Echo::Nothing),
                }
            },
            Key::Byte(b) => {
                if 0x20 <= b && b <= 0x7e {
                    let c: char = b as char;
                    push_char(&mut self.buf, c);
                    (Progress::Reading, Echo::Char(c))
                } else {
                    (Progress::Reading, Echo::Nothing)
                }
            },
        }
    }
}

} // verus!
