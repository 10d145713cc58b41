//! The interactive loop of the shell: what each input of the user leads to.

pub mod interaction;
pub mod terminal_interaction;

use vstd::prelude::*;

use crate::cli::interaction::UserInput;
use crate::command::Command;
use crate::command_analysis::convert_to_command;
use crate::command_analysis::lexing::spec_tokenize;
use crate::command_analysis::parsing::{parsing_error_text, spec_parse};

verus! {

/// What the shell does with one input of the user.
#[derive(Debug)]
pub enum CliAction {
    /// Run the command.
    Execute(Command),
    /// Print the message: the line could not be parsed.
    Report(String),
    /// Nothing.
    Ignore,
    /// Print `exit` and end the shell with code 0.
    Exit,
}

/// The stage of a step of the loop at which an error came.
#[derive(Clone, Copy, PartialEq, Eq, Structural, Debug)]
pub enum LoopStage {
    /// Reading the input.
    Input,
    /// Parsing the line.
    Parsing,
    /// Running the command.
    Execution,
}

/// The message that reports an error at `stage` described by `detail`:
/// `Input error: `, `Parsing error: ` or `Execution error: ` and the detail.
pub open spec fn loop_error_text(stage: LoopStage, detail: Seq<char>) -> Seq<char> {
    match stage {
        LoopStage::Input => "Input error: "@ + detail,
        LoopStage::Parsing => "Parsing error: "@ + detail,
        LoopStage::Execution => "Execution error: "@ + detail,
    }
}

/// Builds the message that reports an error at `stage`.
pub fn loop_error_message(stage: LoopStage, detail: &str) -> (msg: String)
    ensures
        msg@ == loop_error_text(stage, detail@),
{
    let prefix = match stage {
        LoopStage::Input => String::from_str("Input error: "),
        LoopStage::Parsing => String::from_str("Parsing error: "),
        LoopStage::Execution => String::from_str("Execution error: "),
    };
    prefix.concat(detail)
}

/// Decides what one input of the user leads to: a line is parsed and its
/// command run, or its parsing error reported as `Parsing error: <message>`;
/// the end of the input ends the shell; any other input is ignored.
pub fn cli_action(input: UserInput) -> (action: CliAction)
    ensures
        match input {
            UserInput::String(line) => match spec_parse(spec_tokenize(line@)) {
                Ok(c) => action matches CliAction::Execute(cmd) && cmd@ == c,
                Err(e) => action matches CliAction::Report(msg) && msg@ == loop_error_text(
                    LoopStage::Parsing,
                    parsing_error_text(e),
                ),
            },
            UserInput::Eof => action is Exit,
            UserInput::NoSpecialInput => action is Ignore,
        },
{
    match input {
        UserInput::String(line) => match convert_to_command(line.as_str()) {
            Ok(cmd) => CliAction::Execute(cmd),
            Err(e) => CliAction::Report(loop_error_message(LoopStage::Parsing, e.message().as_str())),
        },
        UserInput::NoSpecialInput => CliAction::Ignore,
        UserInput::Eof => CliAction::Exit,
    }
}

} // verus!
