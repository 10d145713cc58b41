use rust_shell::command::{Command, RedirectionType};
use rust_shell::command_analysis::convert_to_command;
use rust_shell::command_analysis::lexing::tokenize_input;
use rust_shell::command_analysis::parsing::{parse, ParsingError};

fn simple(path: &str, args: &[&str]) -> Command {
    Command::Simple {
        cmd_path: path.to_string(),
        cmd_args: args.iter().map(|a| a.to_string()).collect(),
    }
}

// Tests that a string input returns the correct Command structure form
#[test]
fn test_simple_command_with_args() {
    let input = "ls -lia /".to_string();
    let result = convert_to_command(&input).unwrap();

    let expected = Command::Simple {
        cmd_path: "ls".to_string(),
        cmd_args: vec!["-lia".to_string(), "/".to_string()],
    };

    assert_eq!(expected, result);
}

#[test]
fn test_simple_pipe_command() {
    let input = "echo hello | cat".to_string();
    let result = convert_to_command(&input).unwrap();

    let expected = Command::Pipe {
        left: Box::new(Command::Simple { cmd_path: "echo".to_string(), cmd_args: vec!["hello".to_string()] }),
        right: Box::new(Command::Simple { cmd_path: "cat".to_string(), cmd_args: vec![] }),
    };

    assert_eq!(expected, result);
}

#[test]
fn test_out_redirection_command() {
    let input = "echo hello > test.txt".to_string();
    let result = convert_to_command(&input).unwrap();

    let expected = Command::Redirection {
        kind: RedirectionType::Out,
        command: Box::new(Command::Simple { cmd_path: "echo".to_string(), cmd_args: vec!["hello".to_string()] }),
        file: "test.txt".to_string(),
    };

    assert_eq!(expected, result);
}

#[test]
fn test_in_redirection_command() {
    let input = "cat < input.txt".to_string();
    let result = convert_to_command(&input).unwrap();

    let expected = Command::Redirection {
        kind: RedirectionType::In,
        command: Box::new(Command::Simple { cmd_path: "cat".to_string(), cmd_args: vec![] }),
        file: "input.txt".to_string(),
    };

    assert_eq!(expected, result);
}

#[test]
fn test_append_redirection_command() {
    let input = "echo hello >> test.txt".to_string();
    let result = convert_to_command(&input).unwrap();

    let expected = Command::Redirection {
        kind: RedirectionType::Append,
        command: Box::new(Command::Simple { cmd_path: "echo".to_string(), cmd_args: vec!["hello".to_string()] }),
        file: "test.txt".to_string(),
    };

    assert_eq!(expected, result);
}

#[test]
fn test_err_redirection_command() {
    let input = "echo hello 2> test.txt".to_string();
    let result = convert_to_command(&input).unwrap();

    let expected = Command::Redirection {
        kind: RedirectionType::Stderr,
        command: Box::new(Command::Simple { cmd_path: "echo".to_string(), cmd_args: vec!["hello".to_string()] }),
        file: "test.txt".to_string(),
    };

    assert_eq!(expected, result);
}

#[test]
fn test_chained_pipes() {
    let input = "ls -l / | cat | head".to_string();
    let result = convert_to_command(&input).unwrap();

    let expected = Command::Pipe {
        left: Box::new(Command::Simple { cmd_path: "ls".to_string(), cmd_args: vec!["-l".to_string(), "/".to_string()] }),

        // in the current parsing system, the sub pipes are in the right
        right: Box::new(Command::Pipe {
            left: Box::new(Command::Simple { cmd_path: "cat".to_string(), cmd_args: vec![] }),
            right: Box::new(Command::Simple { cmd_path: "head".to_string(), cmd_args: vec![] }),
        }),
    };

    assert_eq!(expected, result);
}

#[test]
fn test_redirection_after_pipe() {
    let input = "ls -l / | cat >> test.txt".to_string();
    let result = convert_to_command(&input).unwrap();

    let expected = Command::Pipe {
        left: Box::new(Command::Simple { cmd_path: "ls".to_string(), cmd_args: vec!["-l".to_string(), "/".to_string()] }),

        right: Box::new(Command::Redirection {
            kind: RedirectionType::Append,
            command: Box::new(Command::Simple { cmd_path: "cat".to_string(), cmd_args: vec![] }),
            file: "test.txt".to_string(),
        }),
    };

    assert_eq!(expected, result);
}

#[test]
fn test_separator_command() {
    let input = "ls / | cat ; echo hello".to_string();
    let result = convert_to_command(&input).unwrap();

    let expected = Command::Pipe {
        left: Box::new(Command::Simple { cmd_path: "ls".to_string(), cmd_args: vec!["/".to_string()] }),
        right: Box::new(Command::Separator {
            left: Box::new(Command::Simple { cmd_path: "cat".to_string(), cmd_args: vec![] }),
            right: Box::new(Command::Simple { cmd_path: "echo".to_string(), cmd_args: vec!["hello".to_string()] }),
        }),
    };
    assert_eq!(expected, result);
}

#[test]
fn logical_operators_nest_to_the_right() {
    let result = convert_to_command("a || b && c").unwrap();
    let expected = Command::LogicalOr {
        left: Box::new(simple("a", &[])),
        right: Box::new(Command::LogicalAnd { left: Box::new(simple("b", &[])), right: Box::new(simple("c", &[])) }),
    };
    assert_eq!(expected, result);
}

#[test]
fn background_command() {
    let result = convert_to_command("sleep 2 &").unwrap();
    assert_eq!(result, Command::Background { command: Box::new(simple("sleep", &["2"])) });
    // the background example: the redirected `ls` runs in the background
    let result = convert_to_command("sleep 2 ; ls > test.txt &").unwrap();
    assert_eq!(
        result,
        Command::Separator {
            left: Box::new(simple("sleep", &["2"])),
            right: Box::new(Command::Background {
                command: Box::new(Command::Redirection {
                    kind: RedirectionType::Out,
                    command: Box::new(simple("ls", &[])),
                    file: "test.txt".to_string(),
                }),
            }),
        }
    );
}

#[test]
fn commands_after_the_background_operator_run_next() {
    let result = convert_to_command("a & b c").unwrap();
    assert_eq!(
        result,
        Command::Separator {
            left: Box::new(Command::Background { command: Box::new(simple("a", &[])) }),
            right: Box::new(simple("b", &["c"])),
        }
    );
    let result = convert_to_command("ls > f & echo x").unwrap();
    assert_eq!(
        result,
        Command::Separator {
            left: Box::new(Command::Background {
                command: Box::new(Command::Redirection {
                    kind: RedirectionType::Out,
                    command: Box::new(simple("ls", &[])),
                    file: "f".to_string(),
                }),
            }),
            right: Box::new(simple("echo", &["x"])),
        }
    );
    match convert_to_command("a & | b") {
        Err(ParsingError::MissingToken(m)) => assert_eq!(m, "expected a command path"),
        other => panic!("unexpected {:?}", other),
    }
}

#[test]
fn empty_line_misses_the_command_path() {
    match convert_to_command("") {
        Err(ParsingError::MissingToken(m)) => assert_eq!(m, "expected a command path"),
        other => panic!("unexpected {:?}", other),
    }
    match convert_to_command("| cat") {
        Err(ParsingError::MissingToken(m)) => assert_eq!(m, "expected a command path"),
        other => panic!("unexpected {:?}", other),
    }
    match convert_to_command("ls ;") {
        Err(e) => assert_eq!(e.message(), "A token is missing: expected a command path"),
        other => panic!("unexpected {:?}", other),
    }
}

#[test]
fn redirection_errors() {
    match convert_to_command("cat <") {
        Err(ParsingError::MissingToken(m)) => assert_eq!(m, "expected a file path"),
        other => panic!("unexpected {:?}", other),
    }
    match convert_to_command("cat > | x") {
        Err(e) => assert_eq!(e.message(), "Unexpected token: file path should be a word"),
        other => panic!("unexpected {:?}", other),
    }
    // the tokens after the file name are not read
    assert_eq!(
        convert_to_command("ls > out.txt | wc").unwrap(),
        Command::Redirection { kind: RedirectionType::Out, command: Box::new(simple("ls", &[])), file: "out.txt".to_string() }
    );
}

#[test]
fn parse_of_a_token_slice() {
    let tokens = tokenize_input("echo a b");
    assert_eq!(parse(&tokens).unwrap(), simple("echo", &["a", "b"]));
    assert!(parse(&[]).is_err());
}

#[test]
fn converts_ls_home() {
    assert_eq!(convert_to_command("ls /home").unwrap(), simple("ls", &["/home"]));
}
