use rust_shell::command::builtin::{builtin_action, same_text, BuiltinAction};
use rust_shell::command::execution::{exec_arguments, redirection_plan, runs_right_command, OpenMode, StdStream};
use rust_shell::command::RedirectionType;

#[test]
fn redirection_plans() {
    assert_eq!(redirection_plan(RedirectionType::In), (OpenMode::Read, StdStream::Input));
    assert_eq!(redirection_plan(RedirectionType::Out), (OpenMode::WriteTruncate, StdStream::Output));
    assert_eq!(redirection_plan(RedirectionType::Append), (OpenMode::WriteAppend, StdStream::Output));
    assert_eq!(redirection_plan(RedirectionType::Stderr), (OpenMode::WriteTruncate, StdStream::Error));
}

#[test]
fn logical_continuation() {
    assert!(runs_right_command(Some(0), true));
    assert!(!runs_right_command(Some(1), true));
    assert!(!runs_right_command(Some(0), false));
    assert!(runs_right_command(Some(2), false));
    assert!(!runs_right_command(None, true));
    assert!(!runs_right_command(None, false));
    for code in [-1, 0, 1, 127] {
        assert_ne!(runs_right_command(Some(code), true), runs_right_command(Some(code), false));
    }
}

#[test]
fn argument_vector() {
    let argv = exec_arguments(&"ls".to_string(), &vec!["-l".to_string(), "/".to_string()]);
    assert_eq!(argv, vec!["ls".to_string(), "-l".to_string(), "/".to_string()]);
    assert_eq!(exec_arguments(&"pwd".to_string(), &vec![]), vec!["pwd".to_string()]);
}

#[test]
fn builtins() {
    assert_eq!(builtin_action("exit", &[]), Some(Ok(BuiltinAction::Exit)));
    assert_eq!(builtin_action("pwd", &["x".to_string()]), Some(Ok(BuiltinAction::PrintWorkingDirectory)));
    assert_eq!(
        builtin_action("cd", &["/tmp".to_string(), "other".to_string()]),
        Some(Ok(BuiltinAction::ChangeDirectory("/tmp".to_string())))
    );
    assert_eq!(builtin_action("cd", &[]), Some(Err("cd: missing arg".to_string())));
    assert_eq!(builtin_action("ls", &[]), None);
    assert_eq!(builtin_action("exits", &[]), None);
    assert!(same_text("é", "é"));
    assert!(!same_text("ab", "a"));
}

use rust_shell::command::execution::ExecutionStep;
use rust_shell::command_analysis::convert_to_command;

#[test]
fn execution_steps() {
    let c = convert_to_command("ls -l").unwrap();
    match c.execution_step() {
        ExecutionStep::Program(argv) => assert_eq!(argv, vec!["ls".to_string(), "-l".to_string()]),
        other => panic!("unexpected {:?}", other),
    }
    let c = convert_to_command("cd /tmp").unwrap();
    assert!(matches!(c.execution_step(), ExecutionStep::Builtin(BuiltinAction::ChangeDirectory(d)) if d == "/tmp"));
    let c = convert_to_command("cd").unwrap();
    assert!(matches!(c.execution_step(), ExecutionStep::BuiltinError(m) if m == "cd: missing arg"));
    let c = convert_to_command("cat < in.txt").unwrap();
    match c.execution_step() {
        ExecutionStep::Redirect { mode, stream, file, command } => {
            assert_eq!(mode, OpenMode::Read);
            assert_eq!(stream, StdStream::Input);
            assert_eq!(file, "in.txt");
            assert_eq!(command, &convert_to_command("cat").unwrap());
        }
        other => panic!("unexpected {:?}", other),
    }
    let c = convert_to_command("a || b").unwrap();
    assert!(matches!(c.execution_step(), ExecutionStep::Conditional { continue_on_success: false, .. }));
    let c = convert_to_command("a && b").unwrap();
    assert!(matches!(c.execution_step(), ExecutionStep::Conditional { continue_on_success: true, .. }));
    let c = convert_to_command("a ; b").unwrap();
    match c.execution_step() {
        ExecutionStep::Sequence { left, right } => {
            assert_eq!(left, &convert_to_command("a").unwrap());
            assert_eq!(right, &convert_to_command("b").unwrap());
        }
        other => panic!("unexpected {:?}", other),
    }
    let c = convert_to_command("a | b").unwrap();
    assert!(matches!(c.execution_step(), ExecutionStep::Pipe { .. }));
    let c = convert_to_command("a &").unwrap();
    assert!(matches!(c.execution_step(), ExecutionStep::Background { .. }));
}
