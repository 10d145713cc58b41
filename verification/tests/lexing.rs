use rust_shell::command::RedirectionType;
use rust_shell::command_analysis::lexing::{tokenize_input, LexingError, Token};

#[test]
fn lex_simple_command_with_pipe() {
    let input = "ls / | cat".to_string();
    let result = tokenize_input(&input);

    let expected = vec![
        Token::Word("ls".into()),
        Token::Word("/".into()),
        Token::Pipe,
        Token::Word("cat".into()),
    ];

    assert_eq!(expected, result);
}

#[test]
fn redirection_types_are_correct() {
    let input = "< > >> 2>".to_string();
    let result = tokenize_input(&input);

    let expected = vec![
        Token::RedirectOp(RedirectionType::In),
        Token::RedirectOp(RedirectionType::Out),
        Token::RedirectOp(RedirectionType::Append),
        Token::RedirectOp(RedirectionType::Stderr),
    ];

    assert_eq!(expected, result);
}

#[test]
fn test_logical_ops_and_separator() {
    let input = "|| ; &&".to_string();
    let result = tokenize_input(&input);

    let expected = vec![Token::Or, Token::Separator, Token::And];

    assert_eq!(expected, result);
}

#[test]
fn test_without_spaces_around_pipe() {
    let input = "ls|cat".to_string();
    let result = tokenize_input(&input);

    let expected = vec![Token::Word("ls".into()), Token::Pipe, Token::Word("cat".into())];

    assert_eq!(expected, result);
}

#[test]
fn empty_and_blank_lines_have_no_tokens() {
    assert_eq!(tokenize_input(""), Vec::<Token>::new());
    assert_eq!(tokenize_input(" \t\n\x0C "), Vec::<Token>::new());
}

#[test]
fn background_operator_and_longest_match() {
    assert_eq!(
        tokenize_input("a&b&&c|d||e"),
        vec![
            Token::Word("a".into()),
            Token::BackgroundOp,
            Token::Word("b".into()),
            Token::And,
            Token::Word("c".into()),
            Token::Pipe,
            Token::Word("d".into()),
            Token::Or,
            Token::Word("e".into()),
        ]
    );
    assert_eq!(
        tokenize_input(">>>"),
        vec![
            Token::RedirectOp(RedirectionType::Append),
            Token::RedirectOp(RedirectionType::Out),
        ]
    );
}

#[test]
fn two_before_greater_than() {
    // `2>` is the error redirection only where the `2` starts the word
    assert_eq!(
        tokenize_input("echo 2>err.txt"),
        vec![
            Token::Word("echo".into()),
            Token::RedirectOp(RedirectionType::Stderr),
            Token::Word("err.txt".into()),
        ]
    );
    assert_eq!(
        tokenize_input("a2>b"),
        vec![
            Token::Word("a2".into()),
            Token::RedirectOp(RedirectionType::Out),
            Token::Word("b".into()),
        ]
    );
    assert_eq!(
        tokenize_input("22>"),
        vec![Token::Word("22".into()), Token::RedirectOp(RedirectionType::Out)]
    );
    assert_eq!(tokenize_input("2 >"), vec![Token::Word("2".into()), Token::RedirectOp(RedirectionType::Out)]);
}

#[test]
fn words_keep_other_characters() {
    // carriage returns and non-ASCII characters are word characters
    assert_eq!(
        tokenize_input("héllo\r wörld"),
        vec![Token::Word("héllo\r".into()), Token::Word("wörld".into())]
    );
    assert_eq!(
        tokenize_input("<in.txt"),
        vec![Token::RedirectOp(RedirectionType::In), Token::Word("in.txt".into())]
    );
}

#[test]
fn relexing_rendered_tokens_gives_them_back() {
    let tokens = tokenize_input("cat<a|b&&c||d;e&f 2>g>>h");
    let rendered: String = tokens
        .iter()
        .map(|t| match t {
            Token::RedirectOp(k) => format!("{} ", k.to_string()),
            Token::Separator => "; ".to_string(),
            Token::And => "&& ".to_string(),
            Token::BackgroundOp => "& ".to_string(),
            Token::Or => "|| ".to_string(),
            Token::Pipe => "| ".to_string(),
            Token::Word(w) => format!("{} ", w),
        })
        .collect();
    assert_eq!(tokenize_input(&rendered), tokens);
}

#[test]
fn lexing_error_message() {
    let e = LexingError::UnknownToken("#".to_string());
    assert_eq!(e.message(), "Unexpected token: #");
}
