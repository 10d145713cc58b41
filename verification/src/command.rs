//! The command syntax tree and the shell's command execution logic.

pub mod builtin;
pub mod execution;
pub mod jobs;

use vstd::prelude::*;

verus! {

/// The kind of a redirection operator.
#[derive(Clone, Copy, PartialEq, Eq, Structural, Debug)]
pub enum RedirectionType {
    /// `<`
    In,
    /// `>`
    Out,
    /// `>>`
    Append,
    /// `2>`
    Stderr,
}

} // verus!

verus! {

/// A command executable by the shell: the syntax tree built by the parser.
#[derive(PartialEq, Debug)]
pub enum Command {
    Simple { cmd_path: String, cmd_args: Vec<String> },
    Pipe { left: Box<Command>, right: Box<Command> },
    Redirection { kind: RedirectionType, command: Box<Command>, file: String },
    /// `;`
    Separator { left: Box<Command>, right: Box<Command> },
    /// `||`
    LogicalOr { left: Box<Command>, right: Box<Command> },
    /// `&&`
    LogicalAnd { left: Box<Command>, right: Box<Command> },
    /// A command run as a background job: `cmd &`
    Background { command: Box<Command> },
}

/// The mathematical value of a command: strings are sequences of characters.
pub enum CommandModel {
    Simple { cmd_path: Seq<char>, cmd_args: Seq<Seq<char>> },
    Pipe { left: Box<CommandModel>, right: Box<CommandModel> },
    Redirection { kind: RedirectionType, command: Box<CommandModel>, file: Seq<char> },
    Separator { left: Box<CommandModel>, right: Box<CommandModel> },
    LogicalOr { left: Box<CommandModel>, right: Box<CommandModel> },
    LogicalAnd { left: Box<CommandModel>, right: Box<CommandModel> },
    Background { command: Box<CommandModel> },
}

/// The character sequences of a sequence of strings.
pub open spec fn strings_model(strings: Seq<String>) -> Seq<Seq<char>> {
    strings.map_values(|s: String| s@)
}

impl Command {
    /// The model of the command.
    pub open spec fn model(&self) -> CommandModel
        decreases self,
    {
        match self {
            Command::Simple { cmd_path, cmd_args } => CommandModel::Simple {
                cmd_path: cmd_path@,
                cmd_args: strings_model(cmd_args@),
            },
            Command::Pipe { left, right } => CommandModel::Pipe {
                left: Box::new(left.model()),
                right: Box::new(right.model()),
            },
            Command::Redirection { kind, command, file } => CommandModel::Redirection {
                kind: *kind,
                command: Box::new(command.model()),
                file: file@,
            },
            Command::Separator { left, right } => CommandModel::Separator {
                left: Box::new(left.model()),
                right: Box::new(right.model()),
            },
            Command::LogicalOr { left, right } => CommandModel::LogicalOr {
                left: Box::new(left.model()),
                right: Box::new(right.model()),
            },
            Command::LogicalAnd { left, right } => CommandModel::LogicalAnd {
                left: Box::new(left.model()),
                right: Box::new(right.model()),
            },
            Command::Background { command } => CommandModel::Background {
                command: Box::new(command.model()),
            },
        }
    }
}

impl View for Command {
    type V = CommandModel;

    open spec fn view(&self) -> CommandModel {
        self.model()
    }
}

} // verus!

verus! {

/// The text of a redirection operator.
pub open spec fn redirection_text(kind: RedirectionType) -> Seq<char> {
    match kind {
        RedirectionType::In => "<"@,
        RedirectionType::Out => ">"@,
        RedirectionType::Append => ">>"@,
        RedirectionType::Stderr => "2>"@,
    }
}

/// The strings of `list` joined with `sep` between each two of them.
pub open spec fn join_text(list: Seq<Seq<char>>, sep: Seq<char>) -> Seq<char>
    decreases list.len(),
{
    if list.len() == 0 {
        Seq::empty()
    } else if list.len() == 1 {
        list[0]
    } else {
        join_text(list.drop_last(), sep) + sep + list.last()
    }
}

/// The text of a command: a simple command is its path directly followed by
/// its arguments joined with spaces; operators stand between their sides.
pub open spec fn command_text(c: CommandModel) -> Seq<char>
    decreases c,
{
    match c {
        CommandModel::Simple { cmd_path, cmd_args } => cmd_path + join_text(cmd_args, " "@),
        CommandModel::Pipe { left, right } => command_text(*left) + " | "@ + command_text(*right),
        CommandModel::Redirection { kind, command, file } => command_text(*command) + " "@
            + redirection_text(kind) + " "@ + file,
        CommandModel::Separator { left, right } => command_text(*left) + "; "@ + command_text(
            *right,
        ),
        CommandModel::LogicalOr { left, right } => command_text(*left) + " || "@ + command_text(
            *right,
        ),
        CommandModel::LogicalAnd { left, right } => command_text(*left) + " && "@ + command_text(
            *right,
        ),
        CommandModel::Background { command } => command_text(*command) + " &"@,
    }
}

impl RedirectionType {
    /// The operator's text: `<`, `>`, `>>` or `2>`.
    pub fn to_string(&self) -> (s: String)
        ensures
            s@ == redirection_text(*self),
    {
        match self {
            RedirectionType::In => String::from_str("<"),
            RedirectionType::Out => String::from_str(">"),
            RedirectionType::Append => String::from_str(">>"),
            RedirectionType::Stderr => String::from_str("2>"),
        }
    }
}

/// Appends the strings of `list`, joined with `sep`, to `out`.
fn append_joined(out: &mut String, list: &Vec<String>, sep: &str)
    ensures
        final(out)@ == old(out)@ + join_text(strings_model(list@), sep@),
{
    let n = list.len();
    let ghost texts = strings_model(list@);
    let ghost start = out@;
    let mut i: usize = 0;
    while i < n
        invariant
            n == list@.len(),
            texts == strings_model(list@),
            i <= n,
            out@ == start + join_text(texts.take(i as int), sep@),
        decreases n - i,
    {
        if i > 0 {
            out.append(sep);
        }
        out.append(list[i].as_str());
        proof {
            let next = texts.take(i + 1);
            assert(next.drop_last() =~= texts.take(i as int));
            assert(next.last() == list@[i as int]@);
            if i == 0 {
                assert(texts.take(0) =~= Seq::<Seq<char>>::empty());
            }
        }
        i = i + 1;
    }
    assert(texts.take(n as int) =~= texts);
}

impl Command {
    /// The text of the command, as `command_text` describes it.
    pub fn to_string(&self) -> (s: String)
        ensures
            s@ == command_text(self@),
        decreases self,
    {
        match self {
            Command::Simple { cmd_path, cmd_args } => {
                let mut s = cmd_path.clone();
                append_joined(&mut s, cmd_args, " ");
                s
            },
            Command::Pipe { left, right } => {
                let s = left.to_string().concat(" | ");
                s.concat(right.to_string().as_str())
            },
            Command::Redirection { kind, command, file } => {
                let s = command.to_string().concat(" ");
                let s = s.concat(kind.to_string().as_str()).concat(" ");
                s.concat(file.as_str())
            },
            Command::Separator { left, right } => {
                let s = left.to_string().concat("; ");
                s.concat(right.to_string().as_str())
            },
            Command::LogicalOr { left, right } => {
                let s = left.to_string().concat(" || ");
                s.concat(right.to_string().as_str())
            },
            Command::LogicalAnd { left, right } => {
                let s = left.to_string().concat(" && ");
                s.concat(right.to_string().as_str())
            },
            Command::Background { command } => command.to_string().concat(" &"),
        }
    }

    /// A copy of the command.
    pub fn duplicate(&self) -> (c: Command)
        ensures
            c@ == self@,
        decreases self,
    {
        match self {
            Command::Simple { cmd_path, cmd_args } => {
                let mut args: Vec<String> = Vec::new();
                let n = cmd_args.len();
                let mut i: usize = 0;
                while i < n
                    invariant
                        n == cmd_args@.len(),
                        i <= n,
                        strings_model(args@) =~= strings_model(cmd_args@).take(i as int),
                    decreases n - i,
                {
                    let ghost before = args@;
                    args.push(cmd_args[i].clone());
                    assert(strings_model(args@) =~= strings_model(before).push(cmd_args@[i as int]@));
                    i = i + 1;
                }
                assert(strings_model(cmd_args@).take(n as int) =~= strings_model(cmd_args@));
                Command::Simple { cmd_path: cmd_path.clone(), cmd_args: args }
            },
            Command::Pipe { left, right } => Command::Pipe {
                left: Box::new(left.duplicate()),
                right: Box::new(right.duplicate()),
            },
            Command::Redirection { kind, command, file } => Command::Redirection {
                kind: *kind,
                command: Box::new(command.duplicate()),
                file: file.clone(),
            },
            Command::Separator { left, right } => Command::Separator {
                left: Box::new(left.duplicate()),
                right: Box::new(right.duplicate()),
            },
            Command::LogicalOr { left, right } => Command::LogicalOr {
                left: Box::new(left.duplicate()),
                right: Box::new(right.duplicate()),
            },
            Command::LogicalAnd { left, right } => Command::LogicalAnd {
                left: Box::new(left.duplicate()),
                right: Box::new(right.duplicate()),
            },
            Command::Background { command } => Command::Background {
                command: Box::new(command.duplicate()),
            },
        }
    }
}

} // verus!

verus! {

/// Joining puts exactly one separator between each two consecutive strings:
/// nothing joins to the empty text, one string to itself, and one more
/// string is appended after a separator.
pub proof fn law_join_text(list: Seq<Seq<char>>, x: Seq<char>, sep: Seq<char>)
    ensures
        join_text(Seq::empty(), sep) == Seq::<char>::empty(),
        join_text(seq![x], sep) == x,
        list.len() >= 1 ==> join_text(list.push(x), sep) == join_text(list, sep) + sep + x,
{
    assert(list.push(x).drop_last() =~= list);
}

/// Joining two non-empty lists puts one separator between their joins.
pub proof fn law_join_text_concat(a: Seq<Seq<char>>, b: Seq<Seq<char>>, sep: Seq<char>)
    requires
        a.len() >= 1,
        b.len() >= 1,
    ensures
        join_text(a + b, sep) == join_text(a, sep) + sep + join_text(b, sep),
    decreases b.len(),
{
    if b.len() == 1 {
        assert((a + b).drop_last() =~= a);
    } else {
        law_join_text_concat(a, b.drop_last(), sep);
        assert((a + b).drop_last() =~= a + b.drop_last());
        assert(join_text(a + b, sep) == join_text(a + b.drop_last(), sep) + sep + b.last());
    }
}

} // verus!
