use rshell::command::cmd_chat::{
    chat_line, user_db_record_from,
    chat_step, find_user, init_user_step, render_chat_message, user_db_record, ChatAction, ChatEvent,
    CmdChat, NicknameOutcome, User, UserDbError, CHAT_TOPIC,
};

fn user(id: &str, nick: &str) -> User {
    User { peer_id: String::from(id), nickname: nick.as_bytes().to_vec() }
}

#[test]
fn outcome_reports() {
    let chat = CmdChat { name: String::from("chat") };
    assert_eq!(chat.outcome_report(None), "Good");
    assert_eq!(chat.outcome_report(Some("boom")), "chat: boom");
}

#[test]
fn nickname_is_trimmed() {
    let id = String::from("peer1");
    match init_user_step(8, &id, "  bob \n") {
        NicknameOutcome::Accepted(u) => {
            assert_eq!(u.peer_id, "peer1");
            assert_eq!(u.nickname, b"bob".to_vec());
        }
        _ => panic!("expected a user"),
    }
}

#[test]
fn blank_nickname_asks_again() {
    let id = String::from("p1");
    match init_user_step(1, &id, "\n") {
        NicknameOutcome::Retry { notice } => {
            assert_eq!(notice, "[init_user] nickname should be larger than zero.")
        }
        _ => panic!("expected a retry"),
    }
    // The buffer keeps what was read: the next line is appended to it.
    match init_user_step(4, &id, "\nbob\n") {
        NicknameOutcome::Accepted(u) => {
            assert_eq!(u.peer_id, "p1");
            assert_eq!(u.nickname, b"bob".to_vec());
        }
        _ => panic!("expected a user"),
    }
}

#[test]
fn empty_read_asks_again() {
    let id = String::from("peer1");
    match init_user_step(0, &id, "") {
        NicknameOutcome::Retry { notice } => {
            assert_eq!(notice, "[init_user] nickname should be larger than zero.")
        }
        _ => panic!("expected a retry"),
    }
}

#[test]
fn find_user_first_match() {
    let records = vec![Some(user("a", "x")), Some(user("b", "y")), Some(user("b", "z"))];
    match find_user(records, "b") {
        Ok(Some(u)) => assert_eq!(u.nickname, b"y".to_vec()),
        _ => panic!("expected b"),
    }
}

#[test]
fn find_user_unknown() {
    let records = vec![Some(user("a", "x"))];
    assert!(matches!(find_user(records, "c"), Ok(None)));
    assert!(matches!(find_user(vec![], "c"), Ok(None)));
}

#[test]
fn find_user_bad_record_before_match() {
    let records = vec![Some(user("a", "x")), None, Some(user("b", "y"))];
    assert!(matches!(find_user(records, "b"), Err(UserDbError::BadRecord { line: 1 })));
}

#[test]
fn find_user_bad_record_after_match() {
    let records = vec![Some(user("b", "y")), None];
    assert!(matches!(find_user(records, "b"), Ok(Some(_))));
}

#[test]
fn db_record_is_json_string() {
    let rec = user_db_record(&String::from("12D3Koo")).ok().unwrap();
    assert_eq!(rec, "\"12D3Koo\"");
    let rec = user_db_record(&String::from("a\"b\\c\n")).ok().unwrap();
    assert_eq!(rec, "\"a\\\"b\\\\c\\n\"");
}

#[test]
fn chat_message_rendering() {
    assert_eq!(render_chat_message("peer", b"hi there"), "peer: hi there");
    assert_eq!(render_chat_message("p", &[0x68, 0xff, 0x69]), "p: h\u{fffd}i");
}

#[test]
fn chat_steps() {
    match chat_step(ChatEvent::Line(String::from("héllo"))) {
        ChatAction::Publish(d) => assert_eq!(d, "héllo".as_bytes().to_vec()),
        _ => panic!("expected publish"),
    }
    match chat_step(ChatEvent::InputClosed) {
        ChatAction::Abort(m) => assert_eq!(m, "stdin closed"),
        _ => panic!("expected abort"),
    }
    assert!(matches!(chat_step(ChatEvent::InputFailed), ChatAction::Fail));
    match chat_step(ChatEvent::Listening(String::from("/ip4/1.2.3.4/tcp/5"))) {
        ChatAction::Show(m) => assert_eq!(m, "Listening on /ip4/1.2.3.4/tcp/5"),
        _ => panic!("expected show"),
    }
    assert!(matches!(chat_step(ChatEvent::Network), ChatAction::Ignore));
    assert_eq!(CHAT_TOPIC, "chat");
}

#[test]
fn db_record_from_writer_result() {
    assert_eq!(user_db_record_from(Ok(String::from("\"x\""))).ok().unwrap(), "\"x\"");
    let err = serde_json::from_str::<u8>("not json").unwrap_err();
    assert!(matches!(user_db_record_from(Err(err)), Err(UserDbError::Serialize)));
}

#[test]
fn chat_line_composition() {
    assert_eq!(chat_line("12D3", "hello"), "12D3: hello");
    assert_eq!(chat_line("", ""), ": ");
}
