//! The table of built-in commands and the choice of the one to run.
use vstd::prelude::*;
use super::cmd::{ActionView, Cmd, CmdAction};
use super::cmd_cd::CmdChangeDirectory;
use super::cmd_chat::CmdChat;
use super::cmd_fileshare::CmdFileShare;
use super::cmd_pwd::CmdPwd;
use crate::text::{same_text, views_of};

verus! {

/// One built-in command.
pub enum Builtin {
    ChangeDirectory(CmdChangeDirectory),
    Pwd(CmdPwd),
    Chat(CmdChat),
    FileShare(CmdFileShare),
}

impl Cmd for Builtin {
    open spec fn name_text(&self) -> Seq<char> {
        match self {
            Builtin::ChangeDirectory(c) => c.name_text(),
            Builtin::Pwd(c) => c.name_text(),
            Builtin::Chat(c) => c.name_text(),
            Builtin::FileShare(c) => c.name_text(),
        }
    }

    open spec fn planned(&self, args: Seq<Seq<char>>) -> ActionView {
        match self {
            Builtin::ChangeDirectory(c) => c.planned(args),
            Builtin::Pwd(c) => c.planned(args),
            Builtin::Chat(c) => c.planned(args),
            Builtin::FileShare(c) => c.planned(args),
        }
    }

    open spec fn error_text(&self) -> Seq<char> {
        match self {
            Builtin::ChangeDirectory(c) => c.error_text(),
            Builtin::Pwd(c) => c.error_text(),
            Builtin::Chat(c) => c.error_text(),
            Builtin::FileShare(c) => c.error_text(),
        }
    }

    fn execute(&self, args: &Vec<&str>) -> (r: CmdAction) {
        match self {
            Builtin::ChangeDirectory(c) => c.execute(args),
            Builtin::Pwd(c) => c.execute(args),
            Builtin::Chat(c) => c.execute(args),
            Builtin::FileShare(c) => c.execute(args),
        }
    }

    fn error_handling(&self) -> (r: String) {
        match self {
            Builtin::ChangeDirectory(c) => c.error_handling(),
            Builtin::Pwd(c) => c.error_handling(),
            Builtin::Chat(c) => c.error_handling(),
            Builtin::FileShare(c) => c.error_handling(),
        }
    }

    fn get_cmd_name(&self) -> (r: &str) {
        match self {
            Builtin::ChangeDirectory(c) => c.get_cmd_name(),
            Builtin::Pwd(c) => c.get_cmd_name(),
            Builtin::Chat(c) => c.get_cmd_name(),
            Builtin::FileShare(c) => c.get_cmd_name(),
        }
    }
}

/// The names of the commands, in order.
pub open spec fn names_of(list: Seq<Builtin>) -> Seq<Seq<char>> {
    list.map_values(|b: Builtin| b.name_text())
}

/// The position of the first name equal to `cmd`, if any.
pub open spec fn find_first(names: Seq<Seq<char>>, cmd: Seq<char>) -> Option<int>
    decreases names.len(),
{
    if names.len() == 0 {
        None
    } else if names[0] == cmd {
        Some(0)
    } else {
        match find_first(names.drop_first(), cmd) {
            Some(i) => Some(i + 1),
            None => None,
        }
    }
}

/// The command chosen for a name is the first one that has the name; no
/// command is chosen only when none has it.
pub proof fn lemma_find_first(names: Seq<Seq<char>>, cmd: Seq<char>)
    ensures
        match find_first(names, cmd) {
            Some(i) => 0 <= i < names.len() && names[i] == cmd && forall|j: int|
                0 <= j < i ==> names[j] != cmd,
            None => forall|j: int| 0 <= j < names.len() ==> names[j] != cmd,
        },
    decreases names.len(),
{
    if names.len() > 0 && names[0] != cmd {
        let rest = names.drop_first();
        lemma_find_first(rest, cmd);
        match find_first(rest, cmd) {
            Some(i) => {
                assert(names[i + 1] == rest[i]);
                assert forall|j: int| 0 <= j < i + 1 implies names[j] != cmd by {
                    if j > 0 {
                        assert(names[j] == rest[j - 1]);
                    }
                }
            },
            None => {
                assert forall|j: int| 0 <= j < names.len() implies names[j] != cmd by {
                    if j > 0 {
                        assert(names[j] == rest[j - 1]);
                    }
                }
            },
        }
    }
}

/// When the names are distinct, the command chosen for the name of the
/// command at position `i` is that command.
pub proof fn lemma_find_first_distinct(names: Seq<Seq<char>>, i: int)
    requires
        0 <= i < names.len(),
        forall|a: int, b: int| 0 <= a < b < names.len() ==> names[a] != names[b],
    ensures
        find_first(names, names[i]) == Some(i),
{
    lemma_find_first(names, names[i]);
}

/// The table of built-in commands.
pub struct BuiltInList {
    pub blist: Vec<Builtin>,
}

impl BuiltInList {
    /// The commands of the table.
    pub fn get_builtin_list(&self) -> (r: &Vec<Builtin>)
        ensures
            r@ == self.blist@,
    {
        &self.blist
    }

    /// Finds the first command called `cmd` and returns what it asks for
    /// with `args`; `None` when no command has that name.
    pub fn execute_cmd(&self, cmd: &str, args: &Vec<&str>) -> (r: Option<CmdAction>)
        ensures
            match find_first(names_of(self.blist@), cmd@) {
                Some(i) => r matches Some(a) && a@ == self.blist@[i].planned(views_of(args@)),
                None => r is None,
            },
            r matches Some(a) ==> exists|i: int|
                0 <= i < self.blist@.len() && (#[trigger] self.blist@[i]).name_text() == cmd@ && a@
                    == self.blist@[i].planned(views_of(args@)) && forall|j: int|
                    0 <= j < i ==> (#[trigger] self.blist@[j]).name_text() != cmd@,
            r is None ==> forall|i: int|
                0 <= i < self.blist@.len() ==> (#[trigger] self.blist@[i]).name_text() != cmd@,
    {
        let ghost names = names_of(self.blist@);
        proof {
            lemma_find_first(names, cmd@);
        }
        let n = self.blist.len();
        let mut i: usize = 0;
        while i < n
            invariant
                n == self.blist@.len(),
                names == names_of(self.blist@),
                i <= n,
                forall|j: int| 0 <= j < i ==> names[j] != cmd@,
            decreases n - i,
        {
            let b = &self.blist[i];
            if same_text(cmd, b.get_cmd_name()) {
                assert(names[i as int] == cmd@);
                proof {
                    lemma_find_first(names, cmd@);
                    assert forall|j: int| 0 <= j < i implies (#[trigger] self.blist@[j]).name_text()
                        != cmd@ by {
                        assert(names[j] == self.blist@[j].name_text());
                    }
                }
                return Some(b.execute(args));
            }
            i = i + 1;
        }
        proof {
            assert forall|j: int| 0 <= j < self.blist@.len() implies (#[trigger] self.blist@[
                j]).name_text() != cmd@ by {
                assert(names[j] == self.blist@[j].name_text());
            }
        }
        None
    }

    /// The shell's table: `cd`, `pwd`, `chat` and `fileshare`, in that order.
    pub fn shell_builtins() -> (r: BuiltInList)
        ensures
            r.blist@.len() == 4,
            r.blist@[0] matches Builtin::ChangeDirectory(c) && c.name@ == "cd"@,
            r.blist@[1] matches Builtin::Pwd(c) && c.name@ == "pwd"@,
            r.blist@[2] matches Builtin::Chat(c) && c.name@ == "chat"@,
            r.blist@[3] matches Builtin::FileShare(c) && c.name@ == "fileshare"@,
    {
        let mut blist: Vec<Builtin> = Vec::new();
        blist.push(Builtin::ChangeDirectory(CmdChangeDirectory { name: "cd".to_owned() }));
        blist.push(Builtin::Pwd(CmdPwd { name: "pwd".to_owned() }));
        blist.push(Builtin::Chat(CmdChat { name: "chat".to_owned() }));
        blist.push(Builtin::FileShare(CmdFileShare { name: "fileshare".to_owned() }));
        BuiltInList { blist }
    }
}

} // verus!
