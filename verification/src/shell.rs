//! What the shell does with each line it reads.
use vstd::prelude::*;
use crate::command::cmd::CmdPart;
use crate::text::{same_text, split_words, views_of, words};

verus! {

/// What to do with a line read at the prompt.
pub enum ShellStep<'a> {
    /// Leave the shell.
    Exit,
    /// Run the command on the line.
    Run(CmdPart<'a>),
    /// The line holds no command; the shell has no answer for it and stops.
    Blank,
}

/// The line that leaves the shell.  Only a line that is exactly this text
/// does; a line read with its line break is not.
pub open spec fn is_exit_line(line: Seq<char>) -> bool {
    line == "exit"@
}

/// Whether `s` holds at least one word.
pub fn has_words(s: &str) -> (r: bool)
    ensures
        r == (words(s@).len() > 0),
{
    let parts = split_words(s);
    parts.len() > 0
}

/// Decides what to do with a line read at the prompt.
pub fn next_step<'a>(line: &'a mut str) -> (r: ShellStep<'a>)
    ensures
        is_exit_line(old(line)@) ==> r is Exit,
        !is_exit_line(old(line)@) && words(old(line)@).len() == 0 ==> r is Blank,
        !is_exit_line(old(line)@) && words(old(line)@).len() > 0 ==> (r matches ShellStep::Run(cp)
            && cp.command@ == words(old(line)@)[0] && views_of(cp.args@) == words(
            old(line)@,
        ).drop_first() && !cp.prev_cmd),
        final(line)@ == old(line)@,
{
    if same_text(line, "exit") {
        return ShellStep::Exit;
    }
    if !has_words(line) {
        return ShellStep::Blank;
    }
    ShellStep::Run(CmdPart::new(line))
}

} // verus!
