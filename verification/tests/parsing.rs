use xeon::command::{parse_line, Command, ParseError};
use xeon::text::{split_lines, tokenize};

#[test]
fn tokenize_splits_on_whitespace_runs() {
    let toks = tokenize("  move\ta.txt   b.txt ");
    assert_eq!(toks, vec!["move".to_string(), "a.txt".to_string(), "b.txt".to_string()]);
}

#[test]
fn tokenize_empty_and_blank() {
    assert!(tokenize("").is_empty());
    assert!(tokenize(" \t  ").is_empty());
}

#[test]
fn split_lines_handles_newlines_and_crlf() {
    let lines = split_lines("a\nb\r\nc\n");
    assert_eq!(lines, vec!["a".to_string(), "b".to_string(), "c".to_string()]);
    assert!(split_lines("").is_empty());
    let lines = split_lines("a\n\nb");
    assert_eq!(lines, vec!["a".to_string(), "".to_string(), "b".to_string()]);
}

#[test]
fn parse_dir() {
    let r = parse_line("dir sub");
    assert!(matches!(r, Some(Ok(Command::ChangeDirectory { target })) if target == "sub"));
}

#[test]
fn parse_mkdir() {
    let r = parse_line("mkdir a/b");
    assert!(matches!(r, Some(Ok(Command::MakeDirectory { name })) if name == "a/b"));
}

#[test]
fn parse_make() {
    let r = parse_line("make f.txt");
    assert!(matches!(r, Some(Ok(Command::MakeFile { name })) if name == "f.txt"));
}

#[test]
fn parse_print_rejoins_message() {
    let r = parse_line("print hello   wide  world");
    assert!(matches!(r, Some(Ok(Command::Print { text })) if text == "hello wide world"));
}

#[test]
fn parse_move() {
    let r = parse_line("move a.txt b.txt");
    assert!(matches!(
        r,
        Some(Ok(Command::Move { source, destination }))
            if source == "a.txt" && destination == "b.txt"
    ));
}

#[test]
fn parse_move_ignores_extra_tokens() {
    let r = parse_line("move a b c");
    assert!(matches!(
        r,
        Some(Ok(Command::Move { source, destination })) if source == "a" && destination == "b"
    ));
}

#[test]
fn parse_chmod() {
    let r = parse_line("chmod run.sh");
    assert!(matches!(r, Some(Ok(Command::SetExecutable { target })) if target == "run.sh"));
}

#[test]
fn parse_unknown_token() {
    let r = parse_line("frobnicate x y");
    assert!(matches!(r, Some(Ok(Command::Unknown { token })) if token == "frobnicate"));
}

#[test]
fn parse_blank_line_yields_nothing() {
    assert!(parse_line("").is_none());
    assert!(parse_line("   \t ").is_none());
}

#[test]
fn parse_arity_errors() {
    assert!(matches!(parse_line("dir"), Some(Err(ParseError::DirMissingArgument))));
    assert!(matches!(parse_line("mkdir"), Some(Err(ParseError::MkdirMissingArgument))));
    assert!(matches!(parse_line("make"), Some(Err(ParseError::MakeMissingArgument))));
    assert!(matches!(parse_line("print"), Some(Err(ParseError::PrintMissingArgument))));
    assert!(matches!(parse_line("move"), Some(Err(ParseError::MoveMissingArguments))));
    assert!(matches!(parse_line("move only_src"), Some(Err(ParseError::MoveMissingArguments))));
    assert!(matches!(parse_line("chmod"), Some(Err(ParseError::ChmodMissingArgument))));
}

#[test]
fn error_messages_match_the_grammar() {
    assert_eq!(ParseError::DirMissingArgument.message(), "dir requires a directory name");
    assert_eq!(ParseError::MkdirMissingArgument.message(), "mkdir requires a directory name");
    assert_eq!(ParseError::MakeMissingArgument.message(), "make requires a file name");
    assert_eq!(ParseError::PrintMissingArgument.message(), "print requires a string to print");
    assert_eq!(
        ParseError::MoveMissingArguments.message(),
        "move requires source and destination"
    );
    assert_eq!(ParseError::ChmodMissingArgument.message(), "chmod requires a file name");
}
