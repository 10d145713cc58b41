//! Turns the text entered by the user into a command syntax tree.

pub mod lexing;
pub mod parsing;

use vstd::prelude::*;

use crate::command::Command;
use self::lexing::{spec_tokenize, tokenize_input};
use self::parsing::{parse, parse_result_model, spec_parse, ParsingError};

verus! {

/// Converts a command line into a command: for instance `ls /home` gives
/// the simple command `ls` with the argument `/home`.
pub fn convert_to_command(input: &str) -> (res: Result<Command, ParsingError>)
    ensures
        parse_result_model(res) == spec_parse(spec_tokenize(input@)),
{
    let input_tokens = tokenize_input(input);
    parse(input_tokens.as_slice())
}

} // verus!
