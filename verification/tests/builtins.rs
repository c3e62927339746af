use rshell::command::builtin::{BuiltInList, Builtin};
use rshell::command::cmd::{Cmd, CmdAction};
use rshell::command::cmd_cd::CmdChangeDirectory;
use rshell::command::cmd_chat::CmdChat;
use rshell::command::cmd_fileshare::CmdFileShare;
use rshell::command::cmd_pwd::CmdPwd;

fn names(list: &BuiltInList) -> Vec<String> {
    list.get_builtin_list().iter().map(|b| b.get_cmd_name().to_string()).collect()
}

#[test]
fn shell_table() {
    let list = BuiltInList::shell_builtins();
    assert_eq!(names(&list), vec!["cd", "pwd", "chat", "fileshare"]);
}

#[test]
fn cd_with_argument() {
    let list = BuiltInList::shell_builtins();
    match list.execute_cmd("cd", &vec!["/tmp", "ignored"]) {
        Some(CmdAction::ChangeDirectory { target, done, failed }) => {
            assert_eq!(target, "/tmp");
            assert_eq!(done, "cd: built-in successfully called");
            assert_eq!(failed, "cd: no such file or directory");
        }
        _ => panic!("expected cd"),
    }
}

#[test]
fn cd_without_argument_goes_to_root() {
    let list = BuiltInList::shell_builtins();
    match list.execute_cmd("cd", &vec![]) {
        Some(CmdAction::ChangeDirectory { target, .. }) => assert_eq!(target, "/"),
        _ => panic!("expected cd"),
    }
}

#[test]
fn pwd_action() {
    let list = BuiltInList::shell_builtins();
    match list.execute_cmd("pwd", &vec!["x"]) {
        Some(CmdAction::PrintWorkingDirectory { failed }) => assert_eq!(
            failed,
            "pwd: [Current directory does not exist] OR [There are insufficient permissions to access the current directory]"
        ),
        _ => panic!("expected pwd"),
    }
}

#[test]
fn chat_and_fileshare_actions() {
    let list = BuiltInList::shell_builtins();
    match list.execute_cmd("chat", &vec![]) {
        Some(CmdAction::StartChat { name }) => assert_eq!(name, "chat"),
        _ => panic!("expected chat"),
    }
    assert!(matches!(list.execute_cmd("fileshare", &vec![]), Some(CmdAction::Nothing)));
}

#[test]
fn unknown_command_does_nothing() {
    let list = BuiltInList::shell_builtins();
    assert!(list.execute_cmd("ls", &vec!["-l"]).is_none());
    assert!(list.execute_cmd("CD", &vec![]).is_none());
    assert!(list.execute_cmd("", &vec![]).is_none());
}

#[test]
fn first_command_of_a_name_wins() {
    let list = BuiltInList {
        blist: vec![
            Builtin::FileShare(CmdFileShare { name: String::from("dup") }),
            Builtin::Pwd(CmdPwd { name: String::from("dup") }),
        ],
    };
    assert!(matches!(list.execute_cmd("dup", &vec![]), Some(CmdAction::Nothing)));
}

#[test]
fn error_reports() {
    assert_eq!(CmdChangeDirectory { name: String::from("cd") }.error_handling(), "cd: no such file or directory");
    assert_eq!(CmdChat { name: String::from("chat") }.error_handling(), "chat: nothing");
    assert_eq!(CmdFileShare { name: String::from("fileshare") }.error_handling(), "fileshare: nothing");
    assert_eq!(
        CmdPwd { name: String::from("pwd") }.error_handling(),
        "pwd: [Current directory does not exist] OR [There are insufficient permissions to access the current directory]"
    );
}

#[test]
fn names_are_kept() {
    assert_eq!(CmdChangeDirectory { name: String::from("go") }.get_cmd_name(), "go");
    let b = Builtin::Chat(CmdChat { name: String::from("talk") });
    assert_eq!(b.get_cmd_name(), "talk");
}
