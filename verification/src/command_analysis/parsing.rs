//! The parser: builds a command syntax tree from a sequence of tokens.
//!
//! The first operator of the sequence splits it: the words before it form
//! the left command, and what follows it the right one. Chains of operators
//! therefore nest to the right, and the words of a simple command are its
//! path followed by its arguments.

use vstd::prelude::*;

use crate::command::{Command, CommandModel, RedirectionType, strings_model};
use crate::command_analysis::lexing::{Token, TokenModel, tokens_model};

verus! {

/// An error found while parsing a sequence of tokens.
#[derive(Debug)]
pub enum ParsingError {
    /// A token that the syntax needs is missing.
    MissingToken(String),
    /// A token stands where the syntax does not allow it.
    UnexpectedToken(String),
}

/// The mathematical value of a parsing error.
pub enum ParsingErrorModel {
    MissingToken(Seq<char>),
    UnexpectedToken(Seq<char>),
}

impl View for ParsingError {
    type V = ParsingErrorModel;

    open spec fn view(&self) -> ParsingErrorModel {
        match self {
            ParsingError::MissingToken(m) => ParsingErrorModel::MissingToken(m@),
            ParsingError::UnexpectedToken(m) => ParsingErrorModel::UnexpectedToken(m@),
        }
    }
}

/// The message that describes a parsing error: `A token is missing: <detail>`
/// or `Unexpected token: <detail>`.
pub open spec fn parsing_error_text(e: ParsingErrorModel) -> Seq<char> {
    match e {
        ParsingErrorModel::MissingToken(d) => "A token is missing: "@ + d,
        ParsingErrorModel::UnexpectedToken(d) => "Unexpected token: "@ + d,
    }
}

impl ParsingError {
    /// The message that describes the error, as `parsing_error_text` gives it.
    pub fn message(&self) -> (msg: String)
        ensures
            msg@ == parsing_error_text(self@),
    {
        match self {
            ParsingError::MissingToken(d) => {
                let mut msg = String::from_str("A token is missing: ");
                msg.append(d.as_str());
                msg
            },
            ParsingError::UnexpectedToken(d) => {
                let mut msg = String::from_str("Unexpected token: ");
                msg.append(d.as_str());
                msg
            },
        }
    }
}

/// The model of a parse result.
pub open spec fn parse_result_model(r: Result<Command, ParsingError>) -> Result<
    CommandModel,
    ParsingErrorModel,
> {
    match r {
        Ok(c) => Ok(c@),
        Err(e) => Err(e@),
    }
}

/// The text of a word token (empty for an operator).
pub open spec fn word_text(t: TokenModel) -> Seq<char> {
    match t {
        TokenModel::Word(w) => w,
        _ => Seq::empty(),
    }
}

/// The position of the first operator token of `ts`, or its length where
/// `ts` holds words only.
pub open spec fn first_operator(ts: Seq<TokenModel>) -> nat
    decreases ts.len(),
{
    if ts.len() == 0 {
        0
    } else if !(ts[0] is Word) {
        0
    } else {
        1 + first_operator(ts.drop_first())
    }
}

/// The simple command made of the words `ts`: the first is the path, the
/// others the arguments.
pub open spec fn spec_simple(ts: Seq<TokenModel>) -> Result<CommandModel, ParsingErrorModel> {
    if ts.len() == 0 {
        Err(ParsingErrorModel::MissingToken("expected a command path"@))
    } else if !(ts[0] is Word) {
        Err(ParsingErrorModel::UnexpectedToken("command path should be a word"@))
    } else if exists|k: int| 1 <= k < ts.len() && !(#[trigger] ts[k] is Word) {
        Err(ParsingErrorModel::UnexpectedToken("command argument should be a word"@))
    } else {
        Ok(
            CommandModel::Simple {
                cmd_path: word_text(ts[0]),
                cmd_args: ts.skip(1).map_values(|t: TokenModel| word_text(t)),
            },
        )
    }
}

/// The command that a binary operator builds from the results of its two
/// sides; the error of the left side comes first.
pub open spec fn spec_binary(
    op: TokenModel,
    left: Result<CommandModel, ParsingErrorModel>,
    right: Result<CommandModel, ParsingErrorModel>,
) -> Result<CommandModel, ParsingErrorModel> {
    match left {
        Err(e) => Err(e),
        Ok(l) => match right {
            Err(e) => Err(e),
            Ok(r) => Ok(
                match op {
                    TokenModel::Pipe => CommandModel::Pipe { left: Box::new(l), right: Box::new(r) },
                    TokenModel::Separator => CommandModel::Separator {
                        left: Box::new(l),
                        right: Box::new(r),
                    },
                    TokenModel::Or => CommandModel::LogicalOr {
                        left: Box::new(l),
                        right: Box::new(r),
                    },
                    _ => CommandModel::LogicalAnd { left: Box::new(l), right: Box::new(r) },
                },
            ),
        },
    }
}

/// The redirection `kind` of the command that `command` gives to `file`.
pub open spec fn spec_redirection(
    kind: RedirectionType,
    command: Result<CommandModel, ParsingErrorModel>,
    file: Seq<char>,
) -> Result<CommandModel, ParsingErrorModel> {
    match command {
        Err(e) => Err(e),
        Ok(c) => Ok(CommandModel::Redirection { kind, command: Box::new(c), file }),
    }
}

/// The command that runs the result of `job` in the background: alone where
/// no token follows its `&`, else followed, as by `;`, by the command of the
/// tokens `rest`, whose parse result is `rest_result`. The error of `job`
/// comes first.
pub open spec fn spec_background(
    job: Result<CommandModel, ParsingErrorModel>,
    rest: Seq<TokenModel>,
    rest_result: Result<CommandModel, ParsingErrorModel>,
) -> Result<CommandModel, ParsingErrorModel> {
    match job {
        Err(e) => Err(e),
        Ok(j) => if rest.len() == 0 {
            Ok(CommandModel::Background { command: Box::new(j) })
        } else {
            match rest_result {
                Err(e) => Err(e),
                Ok(r) => Ok(
                    CommandModel::Separator {
                        left: Box::new(CommandModel::Background { command: Box::new(j) }),
                        right: Box::new(r),
                    },
                ),
            }
        },
    }
}

/// The result of parsing the tokens `ts`.
pub open spec fn spec_parse(ts: Seq<TokenModel>) -> Result<CommandModel, ParsingErrorModel>
    decreases ts.len(),
{
    let i = first_operator(ts);
    if i >= ts.len() {
        spec_simple(ts)
    } else {
        proof {
            lemma_first_operator(ts);
        }
        let left = ts.take(i as int);
        let right = ts.skip((i + 1) as int);
        match ts[i as int] {
            TokenModel::RedirectOp(kind) => {
                if right.len() == 0 {
                    Err(ParsingErrorModel::MissingToken("expected a file path"@))
                } else if !(right[0] is Word) {
                    Err(ParsingErrorModel::UnexpectedToken("file path should be a word"@))
                } else {
                    let redirected = spec_redirection(kind, spec_parse(left), word_text(right[0]));
                    let after = right.skip(1);
                    if after.len() > 0 && after[0] is BackgroundOp {
                        spec_background(redirected, after.skip(1), spec_parse(after.skip(1)))
                    } else {
                        redirected
                    }
                }
            },
            TokenModel::BackgroundOp => spec_background(spec_parse(left), right, spec_parse(right)),
            op => spec_binary(op, spec_parse(left), spec_parse(right)),
        }
    }
}

/// The first operator of `ts` stands within `ts`, or `ts` holds words only,
/// and every token before it is a word.
pub proof fn lemma_first_operator(ts: Seq<TokenModel>)
    ensures
        first_operator(ts) <= ts.len(),
        forall|k: int| 0 <= k < first_operator(ts) ==> #[trigger] ts[k] is Word,
        first_operator(ts) < ts.len() ==> !(ts[first_operator(ts) as int] is Word),
    decreases ts.len(),
{
    if ts.len() > 0 && ts[0] is Word {
        lemma_first_operator(ts.drop_first());
        assert forall|k: int| 0 <= k < first_operator(ts) implies #[trigger] ts[k] is Word by {
            if k > 0 {
                assert(ts[k] == ts.drop_first()[k - 1]);
            }
        }
    }
}

/// A sequence of words whose next token is an operator, or that ends the
/// sequence, gives the position of the first operator.
pub proof fn lemma_first_operator_of_run(ts: Seq<TokenModel>, n: int)
    requires
        0 <= n <= ts.len(),
        forall|k: int| 0 <= k < n ==> #[trigger] ts[k] is Word,
        n < ts.len() ==> !(ts[n] is Word),
    ensures
        first_operator(ts) == n,
    decreases n,
{
    if n > 0 {
        assert forall|k: int| 0 <= k < n - 1 implies #[trigger] ts.drop_first()[k] is Word by {
            assert(ts.drop_first()[k] == ts[k + 1]);
        }
        lemma_first_operator_of_run(ts.drop_first(), n - 1);
    }
}

/// The binary operators that `create_logical_command` builds.
enum LogicalOp {
    Or,
    And,
}

/// Parses a sequence of tokens into a command.
pub fn parse(tokens: &[Token]) -> (res: Result<Command, ParsingError>)
    ensures
        parse_result_model(res) == spec_parse(tokens_model(tokens@)),
    decreases tokens@.len(), 1nat,
{
    let ghost ts = tokens_model(tokens@);
    let n = tokens.len();
    let mut i: usize = 0;
    while i < n && matches!(tokens[i], Token::Word(_))
        invariant
            i <= n,
            n == tokens@.len(),
            ts == tokens_model(tokens@),
            forall|k: int| 0 <= k < i ==> #[trigger] ts[k] is Word,
        decreases n - i,
    {
        i = i + 1;
    }
    proof {
        lemma_first_operator_of_run(ts, i as int);
    }
    if i == n {
        return create_simple_command(tokens);
    }
    let left = vstd::slice::slice_subrange(tokens, 0, i);
    let right = vstd::slice::slice_subrange(tokens, i + 1, n);
    assert(tokens_model(left@) =~= ts.take(i as int));
    assert(tokens_model(right@) =~= ts.skip(i + 1));
    match &tokens[i] {
        Token::Word(_) => {
            // the loop above stops at the first token that is not a word
            assert(false);
            create_simple_command(tokens)
        },
        Token::RedirectOp(operator) => create_redirection_command(operator, left, right),
        Token::Pipe => create_pipe_command(left, right),
        Token::Separator => create_separator_command(left, right),
        Token::Or => create_logical_command(left, right, LogicalOp::Or),
        Token::And => create_logical_command(left, right, LogicalOp::And),
        Token::BackgroundOp => create_background_command(left, right),
    }
}

/// Creates the simple command made of the words `tokens`.
fn create_simple_command(tokens: &[Token]) -> (res: Result<Command, ParsingError>)
    ensures
        parse_result_model(res) == spec_simple(tokens_model(tokens@)),
{
    let ghost ts = tokens_model(tokens@);
    if tokens.len() == 0 {
        return Err(ParsingError::MissingToken(String::from_str("expected a command path")));
    }
    let cmd_path = match &tokens[0] {
        Token::Word(w) => w.clone(),
        _ => {
            return Err(
                ParsingError::UnexpectedToken(String::from_str("command path should be a word")),
            );
        },
    };
    assert(ts[0] == tokens@[0]@);
    let n = tokens.len();
    let mut cmd_args: Vec<String> = Vec::new();
    let mut k: usize = 1;
    while k < n
        invariant
            1 <= k <= n,
            n == tokens@.len(),
            ts == tokens_model(tokens@),
            forall|j: int| 1 <= j < k ==> #[trigger] ts[j] is Word,
            ts[0] is Word,
            cmd_path@ == word_text(ts[0]),
            strings_model(cmd_args@) =~= ts.subrange(1, k as int).map_values(
                |t: TokenModel| word_text(t),
            ),
        decreases n - k,
    {
        assert(ts[k as int] == tokens@[k as int]@);
        let ghost before = cmd_args@;
        match &tokens[k] {
            Token::Word(arg) => {
                cmd_args.push(arg.clone());
                assert(strings_model(cmd_args@) =~= strings_model(before).push(arg@));
                assert(ts.subrange(1, k + 1).map_values(|t: TokenModel| word_text(t))
                    =~= ts.subrange(1, k as int).map_values(|t: TokenModel| word_text(t)).push(
                    word_text(ts[k as int]),
                ));
            },
            _ => {
                assert(!(ts[k as int] is Word));
                return Err(
                    ParsingError::UnexpectedToken(
                        String::from_str("command argument should be a word"),
                    ),
                );
            },
        }
        k = k + 1;
    }
    assert(ts.subrange(1, n as int) =~= ts.skip(1));
    Ok(Command::Simple { cmd_path, cmd_args })
}

/// Creates a pipe between the commands of `left_tokens` and `right_tokens`.
fn create_pipe_command(left_tokens: &[Token], right_tokens: &[Token]) -> (res: Result<
    Command,
    ParsingError,
>)
    ensures
        parse_result_model(res) == spec_binary(
            TokenModel::Pipe,
            spec_parse(tokens_model(left_tokens@)),
            spec_parse(tokens_model(right_tokens@)),
        ),
    decreases left_tokens@.len() + right_tokens@.len() + 1, 0nat,
{
    let left = parse(left_tokens)?;
    let right = parse(right_tokens)?;
    Ok(Command::Pipe { left: Box::new(left), right: Box::new(right) })
}

/// Creates the sequence `left; right` of the commands of the two sides.
fn create_separator_command(left_tokens: &[Token], right_tokens: &[Token]) -> (res: Result<
    Command,
    ParsingError,
>)
    ensures
        parse_result_model(res) == spec_binary(
            TokenModel::Separator,
            spec_parse(tokens_model(left_tokens@)),
            spec_parse(tokens_model(right_tokens@)),
        ),
    decreases left_tokens@.len() + right_tokens@.len() + 1, 0nat,
{
    let left = parse(left_tokens)?;
    let right = parse(right_tokens)?;
    Ok(Command::Separator { left: Box::new(left), right: Box::new(right) })
}

/// Creates the redirection `op` of the command of `left_tokens` to the file
/// named by the first of `right_tokens`. Where `&` follows the file name, the
/// redirection runs in the background, followed by the command of the tokens
/// after the `&`; other tokens after the file name are not read.
fn create_redirection_command(
    op: &RedirectionType,
    left_tokens: &[Token],
    right_tokens: &[Token],
) -> (res: Result<Command, ParsingError>)
    ensures
        parse_result_model(res) == ({
            let right = tokens_model(right_tokens@);
            if right.len() == 0 {
                Err(ParsingErrorModel::MissingToken("expected a file path"@))
            } else if !(right[0] is Word) {
                Err(ParsingErrorModel::UnexpectedToken("file path should be a word"@))
            } else {
                let redirected = spec_redirection(
                    *op,
                    spec_parse(tokens_model(left_tokens@)),
                    word_text(right[0]),
                );
                let after = right.skip(1);
                if after.len() > 0 && after[0] is BackgroundOp {
                    spec_background(redirected, after.skip(1), spec_parse(after.skip(1)))
                } else {
                    redirected
                }
            }
        }),
    decreases left_tokens@.len() + right_tokens@.len() + 1, 0nat,
{
    let ghost right = tokens_model(right_tokens@);
    if right_tokens.len() == 0 {
        return Err(ParsingError::MissingToken(String::from_str("expected a file path")));
    }
    let file = match &right_tokens[0] {
        Token::Word(f) => f.clone(),
        _ => {
            return Err(
                ParsingError::UnexpectedToken(String::from_str("file path should be a word")),
            );
        },
    };
    let command = parse(left_tokens)?;
    let redirected = Command::Redirection { kind: *op, command: Box::new(command), file };
    let n = right_tokens.len();
    if n > 1 && matches!(right_tokens[1], Token::BackgroundOp) {
        let rest = vstd::slice::slice_subrange(right_tokens, 2, n);
        assert(right.skip(1)[0] == right_tokens@[1]@);
        assert(tokens_model(rest@) =~= right.skip(1).skip(1));
        background_then(redirected, rest)
    } else {
        proof {
            if n > 1 {
                assert(right.skip(1)[0] == right_tokens@[1]@);
            }
        }
        Ok(redirected)
    }
}

/// Creates the logical command `left || right` or `left && right`.
fn create_logical_command(left_tokens: &[Token], right_tokens: &[Token], op: LogicalOp) -> (res:
    Result<Command, ParsingError>)
    ensures
        parse_result_model(res) == spec_binary(
            match op {
                LogicalOp::Or => TokenModel::Or,
                LogicalOp::And => TokenModel::And,
            },
            spec_parse(tokens_model(left_tokens@)),
            spec_parse(tokens_model(right_tokens@)),
        ),
    decreases left_tokens@.len() + right_tokens@.len() + 1, 0nat,
{
    let left = Box::new(parse(left_tokens)?);
    let right = Box::new(parse(right_tokens)?);
    match op {
        LogicalOp::Or => Ok(Command::LogicalOr { left, right }),
        LogicalOp::And => Ok(Command::LogicalAnd { left, right }),
    }
}

/// Creates the background job of the command of `left_tokens`, followed by
/// the command of `right_tokens` where there is any.
fn create_background_command(left_tokens: &[Token], right_tokens: &[Token]) -> (res: Result<
    Command,
    ParsingError,
>)
    ensures
        parse_result_model(res) == spec_background(
            spec_parse(tokens_model(left_tokens@)),
            tokens_model(right_tokens@),
            spec_parse(tokens_model(right_tokens@)),
        ),
    decreases left_tokens@.len() + right_tokens@.len() + 1, 0nat,
{
    let command = parse(left_tokens)?;
    background_then(command, right_tokens)
}

/// Runs `job` in the background, followed by the command of `rest` where
/// `rest` holds any token.
fn background_then(job: Command, rest: &[Token]) -> (res: Result<Command, ParsingError>)
    ensures
        parse_result_model(res) == spec_background(
            Ok(job@),
            tokens_model(rest@),
            spec_parse(tokens_model(rest@)),
        ),
    decreases rest@.len(), 2nat,
{
    let ghost job_model = job@;
    let background = Command::Background { command: Box::new(job) };
    assert(background@ == CommandModel::Background { command: Box::new(job_model) });
    if rest.len() == 0 {
        Ok(background)
    } else {
        match parse(rest) {
            Ok(next) => Ok(Command::Separator { left: Box::new(background), right: Box::new(next) }),
            Err(e) => Err(e),
        }
    }
}

} // verus!

verus! {

/// Every token of `ts` is a word.
pub open spec fn all_words(ts: Seq<TokenModel>) -> bool {
    forall|k: int| 0 <= k < ts.len() ==> #[trigger] ts[k] is Word
}

/// A non-empty sequence of words parses to the simple command whose path is
/// the first word and whose arguments are the others.
pub proof fn law_parse_words(ts: Seq<TokenModel>)
    requires
        ts.len() > 0,
        all_words(ts),
    ensures
        spec_parse(ts) == Ok::<CommandModel, ParsingErrorModel>(
            CommandModel::Simple {
                cmd_path: word_text(ts[0]),
                cmd_args: ts.skip(1).map_values(|t: TokenModel| word_text(t)),
            },
        ),
{
    lemma_first_operator_of_run(ts, ts.len() as int);
}

/// The words `path args...` parse to the simple command with that path and
/// those arguments.
pub proof fn law_parse_simple_command(path: Seq<char>, args: Seq<Seq<char>>)
    ensures
        spec_parse(seq![TokenModel::Word(path)] + args.map_values(|a: Seq<char>| TokenModel::Word(a)))
            == Ok::<CommandModel, ParsingErrorModel>(
            CommandModel::Simple { cmd_path: path, cmd_args: args },
        ),
{
    let ts = seq![TokenModel::Word(path)] + args.map_values(|a: Seq<char>| TokenModel::Word(a));
    assert forall|k: int| 0 <= k < ts.len() implies #[trigger] ts[k] is Word by {
        if k > 0 {
            assert(ts[k] == TokenModel::Word(args[k - 1]));
        }
    }
    law_parse_words(ts);
    assert(ts.skip(1).map_values(|t: TokenModel| word_text(t)) =~= args);
}

/// The first operator of a line splits it: the words before a pipe, `;`,
/// `||` or `&&` form the left command and all that follows the right one,
/// so that chains of these operators nest to the right.
pub proof fn law_parse_binary_split(w: Seq<TokenModel>, op: TokenModel, r: Seq<TokenModel>)
    requires
        all_words(w),
        op is Pipe || op is Separator || op is Or || op is And,
    ensures
        spec_parse(w + seq![op] + r) == spec_binary(op, spec_parse(w), spec_parse(r)),
{
    let ts = w + seq![op] + r;
    assert forall|k: int| 0 <= k < w.len() implies #[trigger] ts[k] is Word by {
        assert(ts[k] == w[k]);
    }
    lemma_first_operator_of_run(ts, w.len() as int);
    assert(ts.take(w.len() as int) =~= w);
    assert(ts.skip((w.len() + 1) as int) =~= r);
}

/// The words before a redirection operator form the redirected command, and
/// the word after it names the file; the tokens after the file name are not
/// read, unless the first of them is `&`.
pub proof fn law_parse_redirection(
    w: Seq<TokenModel>,
    kind: RedirectionType,
    file: Seq<char>,
    r: Seq<TokenModel>,
)
    requires
        all_words(w),
        r.len() == 0 || !(r[0] is BackgroundOp),
    ensures
        spec_parse(w + seq![TokenModel::RedirectOp(kind), TokenModel::Word(file)] + r)
            == match spec_parse(w) {
            Err(e) => Err(e),
            Ok(c) => Ok(CommandModel::Redirection { kind, command: Box::new(c), file }),
        },
{
    let ts = w + seq![TokenModel::RedirectOp(kind), TokenModel::Word(file)] + r;
    assert forall|k: int| 0 <= k < w.len() implies #[trigger] ts[k] is Word by {
        assert(ts[k] == w[k]);
    }
    lemma_first_operator_of_run(ts, w.len() as int);
    assert(ts.take(w.len() as int) =~= w);
    let right = ts.skip((w.len() + 1) as int);
    assert(right[0] == TokenModel::Word(file));
    assert(right.skip(1) =~= r);
}

/// A redirection followed by `&` runs in the background, followed by the
/// command of the tokens after the `&` where there are any.
pub proof fn law_parse_redirection_background(
    w: Seq<TokenModel>,
    kind: RedirectionType,
    file: Seq<char>,
    r: Seq<TokenModel>,
)
    requires
        all_words(w),
    ensures
        spec_parse(
            w + seq![
                TokenModel::RedirectOp(kind),
                TokenModel::Word(file),
                TokenModel::BackgroundOp,
            ] + r,
        ) == match spec_parse(w) {
            Err(e) => Err(e),
            Ok(c) => {
                let job = CommandModel::Background {
                    command: Box::new(CommandModel::Redirection { kind, command: Box::new(c), file }),
                };
                if r.len() == 0 {
                    Ok(job)
                } else {
                    match spec_parse(r) {
                        Err(e) => Err(e),
                        Ok(rc) => Ok(CommandModel::Separator { left: Box::new(job), right: Box::new(rc) }),
                    }
                }
            },
        },
{
    let ts = w + seq![
        TokenModel::RedirectOp(kind),
        TokenModel::Word(file),
        TokenModel::BackgroundOp,
    ] + r;
    assert forall|k: int| 0 <= k < w.len() implies #[trigger] ts[k] is Word by {
        assert(ts[k] == w[k]);
    }
    lemma_first_operator_of_run(ts, w.len() as int);
    assert(ts.take(w.len() as int) =~= w);
    let right = ts.skip((w.len() + 1) as int);
    assert(right[0] == TokenModel::Word(file));
    assert(right.skip(1)[0] == TokenModel::BackgroundOp);
    assert(right.skip(1).skip(1) =~= r);
}

/// The words before `&` form the command run in the background; the tokens
/// after `&`, where there are any, form the command that runs next, as after
/// `;`.
pub proof fn law_parse_background(w: Seq<TokenModel>, r: Seq<TokenModel>)
    requires
        all_words(w),
    ensures
        spec_parse(w + seq![TokenModel::BackgroundOp] + r) == match spec_parse(w) {
            Err(e) => Err(e),
            Ok(c) => {
                let job = CommandModel::Background { command: Box::new(c) };
                if r.len() == 0 {
                    Ok(job)
                } else {
                    match spec_parse(r) {
                        Err(e) => Err(e),
                        Ok(rc) => Ok(CommandModel::Separator { left: Box::new(job), right: Box::new(rc) }),
                    }
                }
            },
        },
{
    let ts = w + seq![TokenModel::BackgroundOp] + r;
    assert forall|k: int| 0 <= k < w.len() implies #[trigger] ts[k] is Word by {
        assert(ts[k] == w[k]);
    }
    lemma_first_operator_of_run(ts, w.len() as int);
    assert(ts.take(w.len() as int) =~= w);
    assert(ts.skip((w.len() + 1) as int) =~= r);
}

/// A pipe reports the parsing error of its left side first, then that of its
/// right side, and otherwise joins the two commands.
pub proof fn law_parse_pipe(w: Seq<TokenModel>, r: Seq<TokenModel>)
    requires
        all_words(w),
    ensures
        spec_parse(w + seq![TokenModel::Pipe] + r) == match (spec_parse(w), spec_parse(r)) {
            (Err(e), _) => Err(e),
            (Ok(_), Err(e)) => Err(e),
            (Ok(lc), Ok(rc)) => Ok(CommandModel::Pipe { left: Box::new(lc), right: Box::new(rc) }),
        },
{
    law_parse_binary_split(w, TokenModel::Pipe, r);
}

/// `;` reports the parsing error of its left side first, then that of its
/// right side, and otherwise joins the command before it and the whole
/// command after it.
pub proof fn law_parse_separator(w: Seq<TokenModel>, r: Seq<TokenModel>)
    requires
        all_words(w),
    ensures
        spec_parse(w + seq![TokenModel::Separator] + r) == match (spec_parse(w), spec_parse(r)) {
            (Err(e), _) => Err(e),
            (Ok(_), Err(e)) => Err(e),
            (Ok(lc), Ok(rc)) => Ok(
                CommandModel::Separator { left: Box::new(lc), right: Box::new(rc) },
            ),
        },
{
    law_parse_binary_split(w, TokenModel::Separator, r);
}

/// `||` and `&&` report the parsing error of their left side first, then that
/// of their right side, and otherwise join the two commands.
pub proof fn law_parse_logical(w: Seq<TokenModel>, and: bool, r: Seq<TokenModel>)
    requires
        all_words(w),
    ensures
        spec_parse(w + seq![if and { TokenModel::And } else { TokenModel::Or }] + r) == match (
            spec_parse(w),
            spec_parse(r),
        ) {
            (Err(e), _) => Err(e),
            (Ok(_), Err(e)) => Err(e),
            (Ok(lc), Ok(rc)) => Ok(
                if and {
                    CommandModel::LogicalAnd { left: Box::new(lc), right: Box::new(rc) }
                } else {
                    CommandModel::LogicalOr { left: Box::new(lc), right: Box::new(rc) }
                },
            ),
        },
{
    law_parse_binary_split(w, if and { TokenModel::And } else { TokenModel::Or }, r);
}

/// An operator with no command before it is an error: the command path is
/// missing.
pub proof fn law_parse_operator_first(op: TokenModel, r: Seq<TokenModel>)
    requires
        !(op is Word),
        !(op is RedirectOp) || (r.len() > 0 && r[0] is Word),
    ensures
        spec_parse(seq![op] + r) == Err::<CommandModel, ParsingErrorModel>(
            ParsingErrorModel::MissingToken("expected a command path"@),
        ),
{
    let ts = seq![op] + r;
    lemma_first_operator_of_run(ts, 0);
    let empty = Seq::<TokenModel>::empty();
    assert(ts.take(0) =~= empty);
    assert(ts.skip(1) =~= r);
    lemma_first_operator_of_run(empty, 0);
    assert(spec_parse(empty) == Err::<CommandModel, ParsingErrorModel>(
        ParsingErrorModel::MissingToken("expected a command path"@),
    ));
}

} // verus!
