use rush::{
    check_syntax, handle_redirection, parse_input, validate_command, validate_command2,
    MissingRedirectionTarget, RedirectOp, SyntaxError,
};

#[test]
fn splits_on_any_white_space() {
    let (words, background) = parse_input("  ls\t-l \n /tmp  ");
    assert_eq!(words, vec!["ls", "-l", "/tmp"]);
    assert!(!background);
}

#[test]
fn splits_on_unicode_white_space() {
    let (words, background) = parse_input("echo\u{3000}a\u{a0}b");
    assert_eq!(words, vec!["echo", "a", "b"]);
    assert!(!background);
}

#[test]
fn trailing_ampersand_sets_background() {
    let (words, background) = parse_input("sleep 1 &");
    assert_eq!(words, vec!["sleep", "1"]);
    assert!(background);
}

#[test]
fn ampersand_not_last_is_a_plain_word() {
    let (words, background) = parse_input("echo & done");
    assert_eq!(words, vec!["echo", "&", "done"]);
    assert!(!background);
}

#[test]
fn ampersand_glued_to_a_word_is_no_marker() {
    let (words, background) = parse_input("sleep 1&");
    assert_eq!(words, vec!["sleep", "1&"]);
    assert!(!background);
}

#[test]
fn empty_line_has_no_words() {
    let (words, background) = parse_input("   \t ");
    assert!(words.is_empty());
    assert!(!background);
    let (words, background) = parse_input("");
    assert!(words.is_empty());
    assert!(!background);
}

#[test]
fn lone_ampersand_leaves_no_words() {
    let (words, background) = parse_input(" & ");
    assert!(words.is_empty());
    assert!(background);
}

#[test]
fn input_redirection_is_taken_out() {
    let mut words = vec!["sort", "<", "in.txt", "-r"];
    let spec = handle_redirection(&mut words).unwrap();
    assert_eq!(words, vec!["sort", "-r"]);
    assert_eq!(spec.stdin_source, Some("in.txt".to_string()));
    assert_eq!(spec.stdout_target, None);
    assert!(!spec.append);
}

#[test]
fn last_input_redirection_wins() {
    let mut words = vec!["cat", "<", "a.txt", "<", "b.txt"];
    let spec = handle_redirection(&mut words).unwrap();
    assert_eq!(words, vec!["cat"]);
    assert_eq!(spec.stdin_source, Some("b.txt".to_string()));
}

#[test]
fn output_redirections_set_append_mode() {
    let mut words = vec!["echo", "hello", ">", "out.txt"];
    let spec = handle_redirection(&mut words).unwrap();
    assert_eq!(words, vec!["echo", "hello"]);
    assert_eq!(spec.stdout_target, Some("out.txt".to_string()));
    assert!(!spec.append);

    let mut words = vec!["echo", "world", ">>", "out.txt"];
    let spec = handle_redirection(&mut words).unwrap();
    assert_eq!(words, vec!["echo", "world"]);
    assert_eq!(spec.stdout_target, Some("out.txt".to_string()));
    assert!(spec.append);
}

#[test]
fn last_output_redirection_wins_with_its_mode() {
    let mut words = vec!["cmd", ">>", "a", "x", ">", "b", "<", "c"];
    let spec = handle_redirection(&mut words).unwrap();
    assert_eq!(words, vec!["cmd", "x"]);
    assert_eq!(spec.stdout_target, Some("b".to_string()));
    assert!(!spec.append);
    assert_eq!(spec.stdin_source, Some("c".to_string()));
}

#[test]
fn operator_last_is_missing_target() {
    let mut words = vec!["echo", "hi", ">>"];
    let r = handle_redirection(&mut words);
    assert_eq!(
        r.err(),
        Some(MissingRedirectionTarget { operator: RedirectOp::Append })
    );
    assert_eq!(words, vec!["echo", "hi", ">>"]);

    let mut words = vec!["cat", "<"];
    let r = handle_redirection(&mut words);
    assert_eq!(r.err(), Some(MissingRedirectionTarget { operator: RedirectOp::Input }));
}

#[test]
fn operator_symbols() {
    assert_eq!(RedirectOp::Input.symbol(), "<");
    assert_eq!(RedirectOp::Output.symbol(), ">");
    assert_eq!(RedirectOp::Append.symbol(), ">>");
}

#[test]
fn dangling_operator_is_reported() {
    assert_eq!(validate_command(&["ls", ">"]), Some(RedirectOp::Output));
    assert_eq!(validate_command(&["ls", ">>"]), Some(RedirectOp::Append));
    assert_eq!(validate_command(&["cat", "<", ">", "f"]), Some(RedirectOp::Input));
    assert_eq!(validate_command(&["cat", "<", "<", "f"]), Some(RedirectOp::Input));
    assert_eq!(validate_command(&["cat", "<", "in", ">", "out"]), None);
    assert_eq!(validate_command(&[]), None);
}

#[test]
fn conflicting_output_in_any_order() {
    assert!(validate_command2(&["a", ">", "x", ">>", "y"]));
    assert!(validate_command2(&[">>", "y", "a", ">", "x"]));
    assert!(!validate_command2(&["a", ">", "x", ">", "y"]));
    assert!(!validate_command2(&["a", ">>", "x"]));
}

#[test]
fn syntax_check_reports_dangling_first() {
    assert_eq!(
        check_syntax(&["a", ">", "x", ">>"]),
        Err(SyntaxError::DanglingOperator(RedirectOp::Append))
    );
    assert_eq!(
        check_syntax(&["a", ">", "x", ">>", "y"]),
        Err(SyntaxError::ConflictingOutput)
    );
    assert_eq!(check_syntax(&["a", ">", "x"]), Ok(()));
}
