//! The decisions taken while a command runs: which file mode and standard
//! stream a redirection uses, the argument vector of a program, and whether
//! the right side of `&&` or `||` runs.

use vstd::prelude::*;

use crate::command::builtin::{builtin_action, spec_builtin, BuiltinAction};
use crate::command::{Command, RedirectionType, strings_model};

verus! {

/// How the file of a redirection is opened.
#[derive(Clone, Copy, PartialEq, Eq, Structural, Debug)]
pub enum OpenMode {
    /// Read only.
    Read,
    /// Write only, created where missing, emptied first.
    WriteTruncate,
    /// Write only, created where missing, written at its end.
    WriteAppend,
}

/// A standard stream of a process.
#[derive(Clone, Copy, PartialEq, Eq, Structural, Debug)]
pub enum StdStream {
    Input,
    Output,
    Error,
}

/// The mode in which a redirection opens its file: `<` reads, `>` and `2>`
/// truncate, `>>` appends.
pub open spec fn spec_open_mode(kind: RedirectionType) -> OpenMode {
    match kind {
        RedirectionType::In => OpenMode::Read,
        RedirectionType::Out => OpenMode::WriteTruncate,
        RedirectionType::Stderr => OpenMode::WriteTruncate,
        RedirectionType::Append => OpenMode::WriteAppend,
    }
}

/// The stream that a redirection replaces with its file: `<` the input,
/// `>` and `>>` the output, `2>` the error stream.
pub open spec fn spec_redirected_stream(kind: RedirectionType) -> StdStream {
    match kind {
        RedirectionType::In => StdStream::Input,
        RedirectionType::Out => StdStream::Output,
        RedirectionType::Append => StdStream::Output,
        RedirectionType::Stderr => StdStream::Error,
    }
}

/// The mode in which the redirection `kind` opens its file and the stream
/// that the file replaces.
pub fn redirection_plan(kind: RedirectionType) -> (plan: (OpenMode, StdStream))
    ensures
        plan.0 == spec_open_mode(kind),
        plan.1 == spec_redirected_stream(kind),
{
    let mode = match kind {
        RedirectionType::In => OpenMode::Read,
        RedirectionType::Out | RedirectionType::Stderr => OpenMode::WriteTruncate,
        RedirectionType::Append => OpenMode::WriteAppend,
    };
    let stream = match kind {
        RedirectionType::In => StdStream::Input,
        RedirectionType::Out | RedirectionType::Append => StdStream::Output,
        RedirectionType::Stderr => StdStream::Error,
    };
    (mode, stream)
}

/// Whether the right command of a logical command runs, given how its left
/// command ended (`Some(code)` where its process exited with `code`, `None`
/// where it ended otherwise): `&&` (`continue_on_success`) runs it after a
/// zero code, `||` after a non-zero code.
pub open spec fn spec_runs_right(left_exit: Option<i32>, continue_on_success: bool) -> bool {
    match left_exit {
        Some(code) => (code == 0 && continue_on_success) || (code != 0 && !continue_on_success),
        None => false,
    }
}

/// Decides whether the right command of `&&` or `||` runs.
pub fn runs_right_command(left_exit: Option<i32>, continue_on_success: bool) -> (run: bool)
    ensures
        run == spec_runs_right(left_exit, continue_on_success),
{
    match left_exit {
        Some(code) => code == 0 && continue_on_success || code != 0 && !continue_on_success,
        None => false,
    }
}

/// The argument vector of a program: its path, then its arguments.
pub fn exec_arguments(cmd_path: &String, cmd_args: &Vec<String>) -> (argv: Vec<String>)
    ensures
        strings_model(argv@) == seq![cmd_path@] + strings_model(cmd_args@),
{
    let mut argv: Vec<String> = Vec::new();
    argv.push(cmd_path.clone());
    let n = cmd_args.len();
    let mut i: usize = 0;
    while i < n
        invariant
            n == cmd_args@.len(),
            i <= n,
            strings_model(argv@) =~= seq![cmd_path@] + strings_model(cmd_args@).take(i as int),
        decreases n - i,
    {
        let ghost before = argv@;
        argv.push(cmd_args[i].clone());
        assert(strings_model(argv@) =~= strings_model(before).push(cmd_args@[i as int]@));
        i = i + 1;
    }
    assert(strings_model(cmd_args@).take(n as int) =~= strings_model(cmd_args@));
    argv
}

} // verus!

verus! {

/// After a left command that exited, exactly one of `&&` and `||` runs the
/// right command; after one that did not exit, neither does.
pub proof fn law_and_or_complementary(left_exit: Option<i32>)
    ensures
        left_exit is Some ==> spec_runs_right(left_exit, true) != spec_runs_right(left_exit, false),
        left_exit is None ==> !spec_runs_right(left_exit, true) && !spec_runs_right(left_exit, false),
{
}

} // verus!

verus! {

/// The first thing to do to run a command.
#[derive(Debug)]
pub enum ExecutionStep<'a> {
    /// Run the builtin in the shell's own process.
    Builtin(BuiltinAction),
    /// Fail with the message of the builtin's error.
    BuiltinError(String),
    /// Run the program with this argument vector in a child process, and
    /// wait for it.
    Program(Vec<String>),
    /// Open `file` in `mode`, put it in place of `stream`, then run
    /// `command`.
    Redirect { mode: OpenMode, stream: StdStream, file: &'a String, command: &'a Command },
    /// Run `left` with its output into a pipe whose other end is the input
    /// of `right`, which runs in a child process.
    Pipe { left: &'a Command, right: &'a Command },
    /// Run `left` in a child process, wait for it, then run `right`.
    Sequence { left: &'a Command, right: &'a Command },
    /// Run `left` in a child process, wait for it, then run `right` where
    /// `runs_right_command` says so.
    Conditional { left: &'a Command, right: &'a Command, continue_on_success: bool },
    /// Run `command` in a child process, without waiting for it.
    Background { command: &'a Command },
}

impl Command {
    /// Decides the first thing to do to run the command: a simple command is
    /// a builtin where its path names one, else a program; the other commands
    /// give their parts and what joins them.
    pub fn execution_step(&self) -> (step: ExecutionStep<'_>)
        ensures
            match self {
                Command::Simple { cmd_path, cmd_args } => match spec_builtin(
                    cmd_path@,
                    strings_model(cmd_args@),
                ) {
                    None => (step matches ExecutionStep::Program(argv) && strings_model(argv@)
                        == seq![cmd_path@] + strings_model(cmd_args@)),
                    Some(Ok(b)) => (step matches ExecutionStep::Builtin(a) && a@ == b),
                    Some(Err(m)) => (step matches ExecutionStep::BuiltinError(e) && e@ == m),
                },
                Command::Redirection { kind, command, file } => (step matches ExecutionStep::Redirect {
                    mode,
                    stream,
                    file: f,
                    command: c,
                } && mode == spec_open_mode(*kind) && stream == spec_redirected_stream(*kind) && *f
                    == *file && *c == **command),
                Command::Pipe { left, right } => (step matches ExecutionStep::Pipe { left: l, right: r }
                    && *l == **left && *r == **right),
                Command::Separator { left, right } => (step matches ExecutionStep::Sequence {
                    left: l,
                    right: r,
                } && *l == **left && *r == **right),
                Command::LogicalOr { left, right } => (step matches ExecutionStep::Conditional {
                    left: l,
                    right: r,
                    continue_on_success,
                } && *l == **left && *r == **right && !continue_on_success),
                Command::LogicalAnd { left, right } => (step matches ExecutionStep::Conditional {
                    left: l,
                    right: r,
                    continue_on_success,
                } && *l == **left && *r == **right && continue_on_success),
                Command::Background { command } => (step matches ExecutionStep::Background {
                    command: c,
                } && *c == **command),
            },
    {
        match self {
            Command::Simple { cmd_path, cmd_args } => match builtin_action(
                cmd_path.as_str(),
                cmd_args.as_slice(),
            ) {
                None => ExecutionStep::Program(exec_arguments(cmd_path, cmd_args)),
                Some(Ok(action)) => ExecutionStep::Builtin(action),
                Some(Err(message)) => ExecutionStep::BuiltinError(message),
            },
            Command::Redirection { kind, command, file } => {
                let (mode, stream) = redirection_plan(*kind);
                ExecutionStep::Redirect { mode, stream, file, command }
            },
            Command::Pipe { left, right } => ExecutionStep::Pipe { left, right },
            Command::Separator { left, right } => ExecutionStep::Sequence { left, right },
            Command::LogicalOr { left, right } => ExecutionStep::Conditional {
                left,
                right,
                continue_on_success: false,
            },
            Command::LogicalAnd { left, right } => ExecutionStep::Conditional {
                left,
                right,
                continue_on_success: true,
            },
            Command::Background { command } => ExecutionStep::Background { command },
        }
    }
}

} // verus!
