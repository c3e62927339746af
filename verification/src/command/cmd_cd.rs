//! `cd`: change the working directory.
use vstd::prelude::*;
use super::cmd::{ActionView, Cmd, CmdAction};
use crate::text::{concat_text, views_of};

verus! {

/// The built-in that changes the working directory.
pub struct CmdChangeDirectory {
    pub name: String,
}

impl CmdChangeDirectory {
    /// The directory `cd` goes to: its first argument, or the root when it
    /// has none.  Further arguments are ignored.
    pub open spec fn target_of(args: Seq<Seq<char>>) -> Seq<char> {
        if args.len() > 0 {
            args[0]
        } else {
            "/"@
        }
    }

    /// The report after the directory was changed.
    pub open spec fn done_text(&self) -> Seq<char> {
        self.name@ + ": built-in successfully called"@
    }
}

impl Cmd for CmdChangeDirectory {
    open spec fn name_text(&self) -> Seq<char> {
        self.name@
    }

    open spec fn planned(&self, args: Seq<Seq<char>>) -> ActionView {
        ActionView::ChangeDirectory {
            target: Self::target_of(args),
            done: self.done_text(),
            failed: self.error_text(),
        }
    }

    open spec fn error_text(&self) -> Seq<char> {
        self.name@ + ": no such file or directory"@
    }

    fn execute(&self, args: &Vec<&str>) -> (r: CmdAction)
        ensures
            args@.len() > 0 ==> (r@ matches ActionView::ChangeDirectory { target, .. } && target
                == args@[0]@),
            args@.len() == 0 ==> (r@ matches ActionView::ChangeDirectory { target, .. } && target
                == "/"@),
            r@ matches ActionView::ChangeDirectory { done, failed, .. } && done == self.name@
                + ": built-in successfully called"@ && failed == self.name@
                + ": no such file or directory"@,
    {
        let target = if args.len() > 0 {
            args[0].to_owned()
        } else {
            "/".to_owned()
        };
        let done = concat_text(self.name.as_str(), ": built-in successfully called");
        let failed = self.error_handling();
        CmdAction::ChangeDirectory { target, done, failed }
    }

    fn error_handling(&self) -> (r: String)
        ensures
            r@ == self.name@ + ": no such file or directory"@,
    {
        concat_text(self.name.as_str(), ": no such file or directory")
    }

    fn get_cmd_name(&self) -> (r: &str) {
        self.name.as_str()
    }
}

/// `cd` goes to its first argument when it has one, whatever follows, and
/// to the root when it has none; it reports with its own name.
pub proof fn lemma_cd_target(c: CmdChangeDirectory, args: Seq<Seq<char>>)
    ensures
        args.len() > 0 ==> c.planned(args) == (ActionView::ChangeDirectory {
            target: args[0],
            done: c.name@ + ": built-in successfully called"@,
            failed: c.name@ + ": no such file or directory"@,
        }),
        args.len() == 0 ==> c.planned(args) == (ActionView::ChangeDirectory {
            target: "/"@,
            done: c.name@ + ": built-in successfully called"@,
            failed: c.name@ + ": no such file or directory"@,
        }),
{
}

} // verus!
