use xeon::command::{Command, ParseError};
use xeon::forward::{plan_forward_run, ForwardAction};
use xeon::reverse::{plan_reverse_run, NavHistory, UndoStep};
use xeon::script::{parse_script, ScriptItem};

#[test]
fn empty_script_produces_no_commands_and_no_errors() {
    assert!(parse_script("").is_empty());
    assert!(parse_script(" \t \n\n   \n").is_empty());
    let fwd = plan_forward_run("\n  \n");
    assert!(fwd.is_empty());
    let (targets, undo) = plan_reverse_run("  \n\t\n");
    assert!(targets.is_empty());
    assert!(undo.is_empty());
}

#[test]
fn blank_lines_are_skipped_between_commands() {
    let items = parse_script("mkdir a\n\n   \nmake b\n");
    assert_eq!(items.len(), 2);
    assert!(matches!(
        &items[0],
        ScriptItem::Action { command: Command::MakeDirectory { name } } if name == "a"
    ));
    assert!(matches!(
        &items[1],
        ScriptItem::Action { command: Command::MakeFile { name } } if name == "b"
    ));
}

#[test]
fn unknown_token_is_one_error_and_later_lines_still_run() {
    let fwd = plan_forward_run("frob x\nmkdir y");
    assert_eq!(fwd.len(), 2);
    assert!(matches!(&fwd[0], ForwardAction::ReportUnknown { token } if token == "frob"));
    assert!(matches!(&fwd[1], ForwardAction::CreateDirectory { name } if name == "y"));
}

#[test]
fn malformed_line_is_one_report_and_later_lines_still_run() {
    let fwd = plan_forward_run("mkdir\nmake f");
    assert_eq!(fwd.len(), 2);
    assert!(matches!(
        &fwd[0],
        ForwardAction::ReportMalformed { error: ParseError::MkdirMissingArgument }
    ));
    assert!(matches!(&fwd[1], ForwardAction::CreateFile { name } if name == "f"));
}

#[test]
fn forward_plan_keeps_line_order() {
    let fwd = plan_forward_run("dir sub\nmkdir x\nmake f\nprint hi there\nmove a b\nchmod f");
    assert_eq!(fwd.len(), 6);
    assert!(matches!(&fwd[0], ForwardAction::SetCwd { target } if target == "sub"));
    assert!(matches!(&fwd[1], ForwardAction::CreateDirectory { name } if name == "x"));
    assert!(matches!(&fwd[2], ForwardAction::CreateFile { name } if name == "f"));
    assert!(matches!(&fwd[3], ForwardAction::PrintText { text } if text == "hi there"));
    assert!(matches!(
        &fwd[4],
        ForwardAction::Rename { source, destination } if source == "a" && destination == "b"
    ));
    assert!(matches!(&fwd[5], ForwardAction::MakeExecutable { target } if target == "f"));
}

#[test]
fn undo_of_mkdir_removes_the_directory() {
    let (targets, undo) = plan_reverse_run("mkdir a/b");
    assert!(targets.is_empty());
    assert_eq!(undo.len(), 1);
    assert!(matches!(&undo[0], UndoStep::RemoveDirectory { name } if name == "a/b"));
}

#[test]
fn undo_of_make_removes_the_file() {
    let (_, undo) = plan_reverse_run("make f.txt");
    assert_eq!(undo.len(), 1);
    assert!(matches!(&undo[0], UndoStep::RemoveFile { name } if name == "f.txt"));
}

#[test]
fn undo_of_move_renames_back() {
    let (_, undo) = plan_reverse_run("move a.txt b.txt");
    assert_eq!(undo.len(), 1);
    assert!(matches!(
        &undo[0],
        UndoStep::RestoreMove { source, destination }
            if source == "a.txt" && destination == "b.txt"
    ));
}

#[test]
fn print_and_chmod_have_no_inverse() {
    let (targets, undo) = plan_reverse_run("print hello\nchmod f");
    assert!(targets.is_empty());
    assert!(undo.is_empty());
}

#[test]
fn dir_then_mkdir_forward_and_reverse() {
    // Forward: enter `sub`, then create `x` there.
    let fwd = plan_forward_run("dir sub\nmkdir x");
    assert_eq!(fwd.len(), 2);
    assert!(matches!(&fwd[0], ForwardAction::SetCwd { target } if target == "sub"));
    assert!(matches!(&fwd[1], ForwardAction::CreateDirectory { name } if name == "x"));

    // Reverse: the replay pass re-enters `sub` (pushing the origin); the undo
    // pass runs in reverse line order: first remove `x`, then pop back out.
    let (targets, undo) = plan_reverse_run("dir sub\nmkdir x");
    assert_eq!(targets, vec!["sub".to_string()]);
    assert_eq!(undo.len(), 2);
    assert!(matches!(&undo[0], UndoStep::RemoveDirectory { name } if name == "x"));
    assert!(matches!(&undo[1], UndoStep::RestoreDir));
}

#[test]
fn undo_reports_unknown_commands_again() {
    let (_, undo) = plan_reverse_run("frob x\nmkdir y");
    assert_eq!(undo.len(), 2);
    assert!(matches!(&undo[0], UndoStep::RemoveDirectory { name } if name == "y"));
    assert!(matches!(&undo[1], UndoStep::ReportUnknown { token } if token == "frob"));
}

#[test]
fn malformed_dir_pops_but_pushes_nothing() {
    // A bare `dir` line pushes nothing in the replay pass yet still pops in
    // the undo pass; the pop lands on an empty history and is a no-op.
    let (targets, undo) = plan_reverse_run("dir");
    assert!(targets.is_empty());
    assert_eq!(undo.len(), 1);
    assert!(matches!(&undo[0], UndoStep::RestoreDir));

    let mut history = NavHistory::new();
    assert_eq!(history.pop(), None);
}

#[test]
fn other_malformed_lines_are_silent_in_undo() {
    let (_, undo) = plan_reverse_run("mkdir\nmake\nmove a\nprint\nchmod");
    assert!(undo.is_empty());
}

#[test]
fn navigation_history_pops_in_reverse_push_order() {
    let mut history = NavHistory::new();
    assert_eq!(history.len(), 0);
    history.push("/origin".to_string());
    history.push("/origin/sub".to_string());
    assert_eq!(history.len(), 2);
    assert_eq!(history.pop(), Some("/origin/sub".to_string()));
    assert_eq!(history.pop(), Some("/origin".to_string()));
    assert_eq!(history.pop(), None);
    assert_eq!(history.len(), 0);
}

#[test]
fn replay_targets_follow_forward_order() {
    let (targets, undo) = plan_reverse_run("dir a\nmkdir x\ndir b\nmake f");
    assert_eq!(targets, vec!["a".to_string(), "b".to_string()]);
    // Undo runs in reverse: remove f, pop out of b, remove x, pop out of a.
    assert_eq!(undo.len(), 4);
    assert!(matches!(&undo[0], UndoStep::RemoveFile { name } if name == "f"));
    assert!(matches!(&undo[1], UndoStep::RestoreDir));
    assert!(matches!(&undo[2], UndoStep::RemoveDirectory { name } if name == "x"));
    assert!(matches!(&undo[3], UndoStep::RestoreDir));
}
