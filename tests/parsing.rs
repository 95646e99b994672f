use consulx::session::{decide_line, exit_requested, LineAction};
use consulx::{parse, Command, ConsulXError};

fn missing(line: &str) -> &'static str {
    match parse(line) {
        Err(ConsulXError::MissingArgument(name)) => name,
        other => panic!("expected a missing argument for {line:?}, got {other:?}"),
    }
}

#[test]
fn key_verbs_report_missing_key() {
    for verb in ["get", "del", "delete", "watch", "edit", "get-json", "put", "put-json"] {
        assert_eq!(missing(verb), "key");
    }
}

#[test]
fn put_without_value_reports_value() {
    assert_eq!(missing("put foo"), "value");
    assert_eq!(missing("put-json cfg"), "json");
}

#[test]
fn unknown_verb_is_echoed_as_typed() {
    match parse("frobnicate a b") {
        Err(ConsulXError::UnknownCommand(t)) => assert_eq!(t, "frobnicate"),
        other => panic!("unexpected {other:?}"),
    }
    match parse("  FOO bar") {
        Err(ConsulXError::UnknownCommand(t)) => assert_eq!(t, "FOO"),
        other => panic!("unexpected {other:?}"),
    }
}

#[test]
fn blank_lines_are_empty_commands() {
    assert!(matches!(parse(""), Ok(Command::Empty)));
    assert!(matches!(parse("   \t  "), Ok(Command::Empty)));
}

#[test]
fn verbs_are_case_insensitive_and_words_trimmed() {
    match parse("  GET   foo/bar  ") {
        Ok(Command::Get { key }) => assert_eq!(key, "foo/bar"),
        other => panic!("unexpected {other:?}"),
    }
    match parse("Del x") {
        Ok(Command::Delete { key }) => assert_eq!(key, "x"),
        other => panic!("unexpected {other:?}"),
    }
}

#[test]
fn put_rejoins_value_with_single_spaces() {
    match parse("put k  hello    big   world ") {
        Ok(Command::Put { key, value }) => {
            assert_eq!(key, "k");
            assert_eq!(value, "hello big world");
        }
        other => panic!("unexpected {other:?}"),
    }
    match parse("put-json cfg {\"x\": 1}") {
        Ok(Command::PutJson { key, json }) => {
            assert_eq!(key, "cfg");
            assert_eq!(json, "{\"x\": 1}");
        }
        other => panic!("unexpected {other:?}"),
    }
}

#[test]
fn prefix_verbs_default_to_root() {
    assert!(matches!(parse("list"), Ok(Command::List { prefix }) if prefix.is_empty()));
    assert!(matches!(parse("tree"), Ok(Command::Tree { prefix }) if prefix.is_empty()));
    assert!(matches!(parse("watch-prefix"), Ok(Command::WatchPrefix { prefix }) if prefix.is_empty()));
    assert!(matches!(parse("list app/"), Ok(Command::List { prefix }) if prefix == "app/"));
}

#[test]
fn help_exit_and_quit() {
    assert!(matches!(parse("help"), Ok(Command::Help)));
    assert!(matches!(parse("?"), Ok(Command::Help)));
    assert!(matches!(parse("exit"), Ok(Command::Empty)));
    assert!(matches!(parse("QUIT"), Ok(Command::Empty)));
}

#[test]
fn exit_and_quit_are_intercepted_before_parsing() {
    for line in ["exit", "  EXIT ", "Quit", "qUiT\t"] {
        assert!(exit_requested(line));
        assert!(matches!(decide_line(line), LineAction::Exit));
    }
    assert!(!exit_requested("exit now"));
    assert!(!exit_requested("exits"));
    assert!(matches!(decide_line("get a"), LineAction::Run(Command::Get { .. })));
    assert!(matches!(decide_line("nope"), LineAction::Report(ConsulXError::UnknownCommand(_))));
}
