//! `pwd`: show the working directory.
use vstd::prelude::*;
use super::cmd::{ActionView, Cmd, CmdAction};
use crate::text::concat_text;

verus! {

/// The built-in that shows the working directory.
pub struct CmdPwd {
    pub name: String,
}

impl Cmd for CmdPwd {
    open spec fn name_text(&self) -> Seq<char> {
        self.name@
    }

    /// `pwd` takes no arguments and ignores any it is given.
    open spec fn planned(&self, args: Seq<Seq<char>>) -> ActionView {
        ActionView::PrintWorkingDirectory { failed: self.error_text() }
    }

    open spec fn error_text(&self) -> Seq<char> {
        self.name@
            + ": [Current directory does not exist] OR [There are insufficient permissions to access the current directory]"@
    }

    fn execute(&self, args: &Vec<&str>) -> (r: CmdAction)
        ensures
            r@ == (ActionView::PrintWorkingDirectory {
                failed: self.name@
                    + ": [Current directory does not exist] OR [There are insufficient permissions to access the current directory]"@,
            }),
    {
        CmdAction::PrintWorkingDirectory { failed: self.error_handling() }
    }

    fn error_handling(&self) -> (r: String)
        ensures
            r@ == self.name@
                + ": [Current directory does not exist] OR [There are insufficient permissions to access the current directory]"@,
    {
        concat_text(
            self.name.as_str(),
            ": [Current directory does not exist] OR [There are insufficient permissions to access the current directory]",
        )
    }

    fn get_cmd_name(&self) -> (r: &str) {
        self.name.as_str()
    }
}

/// `pwd` always shows the working directory, whatever its arguments, and
/// reports a failure with its own name.
pub proof fn lemma_pwd_always_shows(c: CmdPwd, args: Seq<Seq<char>>)
    ensures
        c.planned(args) == (ActionView::PrintWorkingDirectory {
            failed: c.name@
                + ": [Current directory does not exist] OR [There are insufficient permissions to access the current directory]"@,
        }),
        c.planned(args) == c.planned(Seq::<Seq<char>>::empty()),
{
}

} // verus!
