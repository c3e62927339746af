//! A command line split into the command and its arguments, and the
//! interface that every built-in command offers.
use vstd::prelude::*;
use crate::text::{
    join_words, lemma_words_are_words, lemma_words_of_join, lemma_words_trim, split_words, trim_text,
    views_of, words,
};

verus! {

/// Splits a command line into its first word, the command, and the words
/// after it, the arguments.  Surrounding whitespace is dropped first.
fn parse_input<'a>(input: &'a str) -> (r: (&'a str, Vec<&'a str>))
    requires
        words(input@).len() > 0,
    ensures
        r.0@ == words(input@)[0],
        views_of(r.1@) == words(input@).drop_first(),
{
    let trimmed = trim_text(input);
    proof {
        lemma_words_trim(input@);
    }
    let mut parts = split_words(trimmed);
    let ghost all = parts@;
    let cmd = parts.remove(0);
    assert(views_of(parts@) =~= views_of(all).drop_first());
    (cmd, parts)
}

/// A command line: the command and its arguments.
pub struct CmdPart<'a> {
    pub command: &'a str,
    pub args: Vec<&'a str>,
    pub prev_cmd: bool,
}

impl<'a> CmdPart<'a> {
    /// Parses a command line that holds at least one word.
    pub fn new(input: &'a mut str) -> (r: Self)
        requires
            words(old(input)@).len() > 0,
        ensures
            r.command@ == words(old(input)@)[0],
            views_of(r.args@) == words(old(input)@).drop_first(),
            !r.prev_cmd,
            final(input)@ == old(input)@,
    {
        let line: &'a str = input;
        let (cmd, ag) = parse_input(line);
        CmdPart { command: cmd, args: ag, prev_cmd: false }
    }
}

/// Writing the words of a command line back with single spaces and parsing
/// that text again gives the same command and arguments.
pub proof fn lemma_command_line_round_trip(line: Seq<char>)
    ensures
        words(join_words(words(line))) == words(line),
{
    lemma_words_are_words(line);
    lemma_words_of_join(words(line));
}

/// What a built-in command asks the application to do.
pub enum CmdAction {
    /// Make `target` the working directory; report `done` when that
    /// succeeds and `failed` when it does not.
    ChangeDirectory { target: String, done: String, failed: String },
    /// Show the working directory; report `failed` when it cannot be read.
    PrintWorkingDirectory { failed: String },
    /// Run the chat for the command called `name`.
    StartChat { name: String },
    /// Nothing to do.
    Nothing,
}

/// The texts that a [`CmdAction`] carries.
pub enum ActionView {
    ChangeDirectory { target: Seq<char>, done: Seq<char>, failed: Seq<char> },
    PrintWorkingDirectory { failed: Seq<char> },
    StartChat { name: Seq<char> },
    Nothing,
}

impl View for CmdAction {
    type V = ActionView;

    open spec fn view(&self) -> ActionView {
        match self {
            CmdAction::ChangeDirectory { target, done, failed } => ActionView::ChangeDirectory {
                target: target@,
                done: done@,
                failed: failed@,
            },
            CmdAction::PrintWorkingDirectory { failed } => ActionView::PrintWorkingDirectory {
                failed: failed@,
            },
            CmdAction::StartChat { name } => ActionView::StartChat { name: name@ },
            CmdAction::Nothing => ActionView::Nothing,
        }
    }
}

/// The interface of a built-in command.
pub trait Cmd {
    /// The name the command is called by.
    spec fn name_text(&self) -> Seq<char>;

    /// What the command asks for when called with `args`.
    spec fn planned(&self, args: Seq<Seq<char>>) -> ActionView;

    /// The report the command gives when its work fails.
    spec fn error_text(&self) -> Seq<char>;

    /// The command's work for the given arguments.
    fn execute(&self, args: &Vec<&str>) -> (r: CmdAction)
        ensures
            r@ == self.planned(views_of(args@)),
    ;

    /// The report for a failure of the command's work.
    fn error_handling(&self) -> (r: String)
        ensures
            r@ == self.error_text(),
    ;

    /// The command's name.
    fn get_cmd_name(&self) -> (r: &str)
        ensures
            r@ == self.name_text(),
    ;
}

} // verus!
