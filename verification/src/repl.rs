use crate::status::EXIT_SIGNAL;
use vstd::prelude::*;
use vstd::string::*;

verus! {

/// The prompt loop's own rules.
pub struct Repl;

impl Repl {
    /// The rules of a prompt loop.
    pub fn new() -> (repl: Repl) {
        Repl
    }

    /// Whether the loop ends after a command that gave `status`: only the
    /// status of `exit` ends it.
    pub fn should_exit(&self, status: i32) -> (r: bool)
        ensures
            r == (status == EXIT_SIGNAL),
    {
        status == EXIT_SIGNAL
    }
}

/// The prompt: the name of the working directory, then ` $ `; `$ ` alone
/// where the directory has no name that can be shown.
pub open spec fn prompt_text(dir: Option<Seq<char>>) -> Seq<char> {
    match dir {
        Some(name) => name + " $ "@,
        None => "$ "@,
    }
}

/// Writes the prompt for a working directory of the given name.
pub fn render_prompt(dir: Option<&str>) -> (s: String)
    ensures
        s@ == prompt_text(
            match dir {
                Some(name) => Some(name@),
                None => None,
            },
        ),
{
    let mut s = String::new();
    match dir {
        Some(name) => {
            s.append(name);
            s.append(" $ ");
        },
        None => {
            s.append("$ ");
        },
    }
    assert(s@ =~= prompt_text(
        match dir {
            Some(name) => Some(name@),
            None => None,
        },
    ));
    s
}

} // verus!
