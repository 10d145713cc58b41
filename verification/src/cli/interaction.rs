//! The interactions of the shell with its user.

use vstd::prelude::*;

verus! {

/// What an interaction with the user offers: reading an input, keeping the
/// history of the inputs, and the prompt shown before an input.
pub trait Interaction {
    /// Reads the next input of the user, or describes the error that
    /// prevented it.
    fn receive_input(&mut self) -> Result<UserInput, String>;

    /// Saves the inputs read so far, or describes the error that prevented
    /// it.
    fn save_history(&mut self) -> Result<(), String>;

    /// The text shown before an input.
    fn prompt_string(&self) -> String;
}

/// An input of the user: a line, the end of the input, or nothing to act on.
#[derive(Debug, PartialEq)]
pub enum UserInput {
    String(String),
    /// The end of the input (ctrl-d).
    Eof,
    /// An input that calls for no action.
    NoSpecialInput,
}

} // verus!
