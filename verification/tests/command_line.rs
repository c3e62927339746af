use rshell::command::cmd::CmdPart;
use rshell::shell::{has_words, next_step, ShellStep};
use rshell::text::{concat_text, is_white_space_char, same_text, split_words, trim_text};

#[test]
fn parse_command_and_args() {
    let mut line = String::from("cd /tmp  extra\n");
    let cp = CmdPart::new(&mut line);
    assert_eq!(cp.command, "cd");
    assert_eq!(cp.args, vec!["/tmp", "extra"]);
    assert!(!cp.prev_cmd);
}

#[test]
fn parse_ignores_surrounding_whitespace() {
    let mut line = String::from(" \t pwd \r\n");
    let cp = CmdPart::new(&mut line);
    assert_eq!(cp.command, "pwd");
    assert!(cp.args.is_empty());
}

#[test]
fn parse_unicode_whitespace_separates_words() {
    let mut line = String::from("a\u{3000}b\u{a0}c\u{2028}");
    let cp = CmdPart::new(&mut line);
    assert_eq!(cp.command, "a");
    assert_eq!(cp.args, vec!["b", "c"]);
}

#[test]
fn split_words_matches_std() {
    for s in ["", "   ", "a", " a  b ", "x\ty\nz", "\u{85}q\u{1680}r\u{200a}", "héllo wörld"] {
        let mine: Vec<&str> = split_words(s);
        let std_words: Vec<&str> = s.split_whitespace().collect();
        assert_eq!(mine, std_words, "input {:?}", s);
    }
}

#[test]
fn trim_matches_std() {
    for s in ["", "   ", "a", " a  b ", "\u{2003}x\u{3000}", "héllo\n"] {
        assert_eq!(trim_text(s), s.trim(), "input {:?}", s);
    }
}

#[test]
fn white_space_matches_std() {
    for u in 0u32..0x3100 {
        if let Some(c) = char::from_u32(u) {
            assert_eq!(is_white_space_char(c), c.is_whitespace(), "char {:x}", u);
        }
    }
}

#[test]
fn text_helpers() {
    assert!(same_text("abc", "abc"));
    assert!(!same_text("abc", "abd"));
    assert_eq!(concat_text("ab", "cd"), "abcd");
    assert!(has_words(" x "));
    assert!(!has_words(" \n "));
}

#[test]
fn round_trip_of_a_command_line() {
    let line = "  chat   now\tplease ";
    let words = split_words(line);
    let rendered = words.join(" ");
    assert_eq!(rendered, "chat now please");
    assert_eq!(split_words(&rendered), words);
}

#[test]
fn padding_does_not_change_words() {
    assert_eq!(split_words(" \t cd  x \n"), split_words("cd  x"));
}

#[test]
fn exit_only_on_exact_line() {
    let mut exit = String::from("exit");
    assert!(matches!(next_step(&mut exit), ShellStep::Exit));
    let mut exit_nl = String::from("exit\n");
    match next_step(&mut exit_nl) {
        ShellStep::Run(cp) => {
            assert_eq!(cp.command, "exit");
            assert!(cp.args.is_empty());
        }
        _ => panic!("expected a command"),
    }
}

#[test]
fn blank_line_has_no_command() {
    let mut blank = String::from("  \n");
    assert!(matches!(next_step(&mut blank), ShellStep::Blank));
    let mut empty = String::new();
    assert!(matches!(next_step(&mut empty), ShellStep::Blank));
}

#[test]
fn run_step_parses() {
    let mut line = String::from("cd  dir\n");
    match next_step(&mut line) {
        ShellStep::Run(cp) => {
            assert_eq!(cp.command, "cd");
            assert_eq!(cp.args, vec!["dir"]);
        }
        _ => panic!("expected a command"),
    }
}
