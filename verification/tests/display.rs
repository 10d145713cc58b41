use rust_shell::command::{Command, RedirectionType};
use rust_shell::command_analysis::convert_to_command;

#[test]
fn redirection_texts() {
    assert_eq!(RedirectionType::In.to_string(), "<");
    assert_eq!(RedirectionType::Out.to_string(), ">");
    assert_eq!(RedirectionType::Append.to_string(), ">>");
    assert_eq!(RedirectionType::Stderr.to_string(), "2>");
}

#[test]
fn simple_command_text_joins_the_path_and_the_arguments() {
    // the path is directly followed by the arguments joined with spaces
    assert_eq!(convert_to_command("ls -l /").unwrap().to_string(), "ls-l /");
    assert_eq!(convert_to_command("pwd").unwrap().to_string(), "pwd");
}

#[test]
fn operator_texts() {
    assert_eq!(convert_to_command("a | b").unwrap().to_string(), "a | b");
    assert_eq!(convert_to_command("a ; b").unwrap().to_string(), "a; b");
    assert_eq!(convert_to_command("a || b").unwrap().to_string(), "a || b");
    assert_eq!(convert_to_command("a && b").unwrap().to_string(), "a && b");
    assert_eq!(convert_to_command("a 2> f").unwrap().to_string(), "a 2> f");
    assert_eq!(convert_to_command("a &").unwrap().to_string(), "a &");
}

#[test]
fn duplicate_is_equal() {
    let c = convert_to_command("ls -l | grep x >> f ; echo y && z &").unwrap();
    assert_eq!(c.duplicate(), c);
    let s = Command::Simple { cmd_path: "x".to_string(), cmd_args: vec!["1".to_string(), "2".to_string()] };
    assert_eq!(s.duplicate(), s);
}
