//! `fileshare`: reserved; it does nothing yet.
use vstd::prelude::*;
use super::cmd::{ActionView, Cmd, CmdAction};
use crate::text::concat_text;

verus! {

/// The built-in reserved for sharing files; its work is empty.
pub struct CmdFileShare {
    pub name: String,
}

impl Cmd for CmdFileShare {
    open spec fn name_text(&self) -> Seq<char> {
        self.name@
    }

    open spec fn planned(&self, args: Seq<Seq<char>>) -> ActionView {
        ActionView::Nothing
    }

    open spec fn error_text(&self) -> Seq<char> {
        self.name@ + ": nothing"@
    }

    fn execute(&self, args: &Vec<&str>) -> (r: CmdAction)
        ensures
            r@ == ActionView::Nothing,
    {
        CmdAction::Nothing
    }

    fn error_handling(&self) -> (r: String)
        ensures
            r@ == self.name@ + ": nothing"@,
    {
        concat_text(self.name.as_str(), ": nothing")
    }

    fn get_cmd_name(&self) -> (r: &str) {
        self.name.as_str()
    }
}

} // verus!
