use rust_shell::cli::interaction::UserInput;
use rust_shell::cli::terminal_interaction::{classify_line, prompt_for};
use rust_shell::cli::{cli_action, CliAction};
use rust_shell::command_analysis::convert_to_command;

#[test]
fn lines_become_commands() {
    match cli_action(UserInput::String("ls -l | wc".to_string())) {
        CliAction::Execute(c) => assert_eq!(c, convert_to_command("ls -l | wc").unwrap()),
        other => panic!("unexpected {:?}", other),
    }
}

#[test]
fn parsing_errors_are_reported() {
    match cli_action(UserInput::String("| wc".to_string())) {
        CliAction::Report(m) => assert_eq!(m, "Parsing error: A token is missing: expected a command path"),
        other => panic!("unexpected {:?}", other),
    }
}

#[test]
fn end_of_input_exits_and_other_inputs_are_ignored() {
    assert!(matches!(cli_action(UserInput::Eof), CliAction::Exit));
    assert!(matches!(cli_action(UserInput::NoSpecialInput), CliAction::Ignore));
}

#[test]
fn blank_lines_are_no_input() {
    assert_eq!(classify_line("".to_string()), UserInput::NoSpecialInput);
    assert_eq!(classify_line("  \t\u{3000}\u{a0}".to_string()), UserInput::NoSpecialInput);
    assert_eq!(classify_line(" ls ".to_string()), UserInput::String(" ls ".to_string()));
}

#[test]
fn prompt() {
    assert_eq!(prompt_for(Some("/home".to_string())), "$ \x1b[1;34m/home\x1b[0m> ");
    assert_eq!(prompt_for(None), "$ \x1b[1;34munknown\x1b[0m> ");
}

use rust_shell::cli::{loop_error_message, LoopStage};

#[test]
fn loop_error_messages() {
    assert_eq!(loop_error_message(LoopStage::Input, "closed"), "Input error: closed");
    assert_eq!(loop_error_message(LoopStage::Parsing, "x"), "Parsing error: x");
    assert_eq!(loop_error_message(LoopStage::Execution, "ENOENT"), "Execution error: ENOENT");
}
