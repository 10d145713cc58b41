//! The commands that the shell runs itself rather than in a new process:
//! `exit`, `cd` and `pwd`.

use vstd::prelude::*;

use crate::command::strings_model;

verus! {

/// A command that the shell runs itself.
#[derive(Debug, PartialEq)]
pub enum BuiltinAction {
    /// `exit`: ends the shell with code 0.
    Exit,
    /// `cd <dir>`: changes the working directory to `dir`.
    ChangeDirectory(String),
    /// `pwd`: prints the working directory.
    PrintWorkingDirectory,
}

/// Whether `a` and `b` hold the same characters.
pub fn same_text(a: &str, b: &str) -> (same: bool)
    ensures
        same == (a@ == b@),
{
    let n = a.unicode_len();
    if n != b.unicode_len() {
        return false;
    }
    let mut i: usize = 0;
    while i < n
        invariant
            n == a@.len(),
            n == b@.len(),
            i <= n,
            forall|k: int| 0 <= k < i ==> a@[k] == b@[k],
        decreases n - i,
    {
        if a.get_char(i) != b.get_char(i) {
            return false;
        }
        i = i + 1;
    }
    assert(a@ =~= b@);
    true
}

/// The mathematical value of a builtin.
pub enum BuiltinModel {
    Exit,
    ChangeDirectory(Seq<char>),
    PrintWorkingDirectory,
}

impl View for BuiltinAction {
    type V = BuiltinModel;

    open spec fn view(&self) -> BuiltinModel {
        match self {
            BuiltinAction::Exit => BuiltinModel::Exit,
            BuiltinAction::ChangeDirectory(d) => BuiltinModel::ChangeDirectory(d@),
            BuiltinAction::PrintWorkingDirectory => BuiltinModel::PrintWorkingDirectory,
        }
    }
}

/// The builtin that the command with path `path` and arguments `args` is:
/// `None` where it is not a builtin, and the error `cd: missing arg` for a
/// `cd` without arguments. `cd` reads its first argument only.
pub open spec fn spec_builtin(path: Seq<char>, args: Seq<Seq<char>>) -> Option<
    Result<BuiltinModel, Seq<char>>,
> {
    if path == "exit"@ {
        Some(Ok(BuiltinModel::Exit))
    } else if path == "cd"@ {
        if args.len() == 0 {
            Some(Err("cd: missing arg"@))
        } else {
            Some(Ok(BuiltinModel::ChangeDirectory(args[0])))
        }
    } else if path == "pwd"@ {
        Some(Ok(BuiltinModel::PrintWorkingDirectory))
    } else {
        None
    }
}

/// The model of the result of `builtin_action`.
pub open spec fn builtin_result_model(r: Option<Result<BuiltinAction, String>>) -> Option<
    Result<BuiltinModel, Seq<char>>,
> {
    match r {
        None => None,
        Some(Ok(a)) => Some(Ok(a@)),
        Some(Err(m)) => Some(Err(m@)),
    }
}

/// The builtin that the command `cmd_path cmd_args` is, as `spec_builtin`
/// gives it.
pub fn builtin_action(cmd_path: &str, cmd_args: &[String]) -> (res: Option<
    Result<BuiltinAction, String>,
>)
    ensures
        builtin_result_model(res) == spec_builtin(cmd_path@, strings_model(cmd_args@)),
{
    if same_text(cmd_path, "exit") {
        Some(Ok(BuiltinAction::Exit))
    } else if same_text(cmd_path, "cd") {
        if cmd_args.len() == 0 {
            Some(Err(String::from_str("cd: missing arg")))
        } else {
            Some(Ok(BuiltinAction::ChangeDirectory(cmd_args[0].clone())))
        }
    } else if same_text(cmd_path, "pwd") {
        Some(Ok(BuiltinAction::PrintWorkingDirectory))
    } else {
        None
    }
}

} // verus!

verus! {

/// Whether a command is a builtin depends on its path alone: `exit` and
/// `pwd` are builtins whatever their arguments, `cd` goes to its first
/// argument and fails without one, and any other path names no builtin.
pub proof fn law_builtin_by_path(path: Seq<char>, args: Seq<Seq<char>>, other_args: Seq<Seq<char>>)
    ensures
        spec_builtin("exit"@, args) == Some(Ok::<BuiltinModel, Seq<char>>(BuiltinModel::Exit)),
        spec_builtin("pwd"@, args) == Some(
            Ok::<BuiltinModel, Seq<char>>(BuiltinModel::PrintWorkingDirectory),
        ),
        args.len() > 0 ==> spec_builtin("cd"@, args) == Some(
            Ok::<BuiltinModel, Seq<char>>(BuiltinModel::ChangeDirectory(args[0])),
        ),
        args.len() == 0 ==> spec_builtin("cd"@, args) == Some(
            Err::<BuiltinModel, Seq<char>>("cd: missing arg"@),
        ),
        (spec_builtin(path, args) is Some) == (spec_builtin(path, other_args) is Some),
        spec_builtin(path, args) is Some <==> (path == "exit"@ || path == "pwd"@ || path == "cd"@),
{
    reveal_strlit("exit");
    reveal_strlit("cd");
    reveal_strlit("pwd");
    assert("exit"@.len() == 4);
    assert("pwd"@.len() == 3);
    assert("cd"@.len() == 2);
}

} // verus!
