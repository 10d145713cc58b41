//! The decisions of the interaction through a terminal: which lines are
//! inputs, and the prompt.

use vstd::prelude::*;

use crate::cli::interaction::UserInput;

verus! {

/// The characters that Unicode gives the White_Space property, those that
/// `str::trim` removes.
pub open spec fn is_unicode_whitespace(c: char) -> bool {
    ('\u{9}' <= c && c <= '\u{d}') || c == ' ' || c == '\u{85}' || c == '\u{a0}' || c
        == '\u{1680}' || ('\u{2000}' <= c && c <= '\u{200a}') || c == '\u{2028}' || c
        == '\u{2029}' || c == '\u{202f}' || c == '\u{205f}' || c == '\u{3000}'
}

/// A line made of whitespace only, which trims to nothing.
pub open spec fn is_blank_line(line: Seq<char>) -> bool {
    forall|k: int| 0 <= k < line.len() ==> is_unicode_whitespace(#[trigger] line[k])
}

fn is_whitespace_char(c: char) -> (b: bool)
    ensures
        b == is_unicode_whitespace(c),
{
    ('\u{9}' <= c && c <= '\u{d}') || c == ' ' || c == '\u{85}' || c == '\u{a0}' || c
        == '\u{1680}' || ('\u{2000}' <= c && c <= '\u{200a}') || c == '\u{2028}' || c
        == '\u{2029}' || c == '\u{202f}' || c == '\u{205f}' || c == '\u{3000}'
}

/// The input that a line read from the terminal is: nothing to act on where
/// the line is empty or whitespace only, else the line itself.
pub fn classify_line(line: String) -> (input: UserInput)
    ensures
        is_blank_line(line@) ==> input is NoSpecialInput,
        !is_blank_line(line@) ==> input == UserInput::String(line),
{
    let n = line.as_str().unicode_len();
    let mut i: usize = 0;
    while i < n
        invariant
            n == line@.len(),
            i <= n,
            forall|k: int| 0 <= k < i ==> is_unicode_whitespace(#[trigger] line@[k]),
        decreases n - i,
    {
        if !is_whitespace_char(line.as_str().get_char(i)) {
            return UserInput::String(line);
        }
        i = i + 1;
    }
    UserInput::NoSpecialInput
}

/// The prompt shown before an input: `$ ` and the working directory in bold
/// blue, then `> `; `unknown` stands for a working directory that could not
/// be read.
pub open spec fn prompt_text(working_dir: Option<Seq<char>>) -> Seq<char> {
    let dir = match working_dir {
        Some(d) => d,
        None => "unknown"@,
    };
    "$ \x1b[1;34m"@ + dir + "\x1b[0m> "@
}

/// Builds the prompt for the working directory `working_dir`.
pub fn prompt_for(working_dir: Option<String>) -> (prompt: String)
    ensures
        prompt@ == prompt_text(
            match working_dir {
                Some(d) => Some(d@),
                None => None,
            },
        ),
{
    let dir = match working_dir {
        Some(d) => d,
        None => String::from_str("unknown"),
    };
    let prompt = String::from_str("$ \x1b[1;34m");
    prompt.concat(dir.as_str()).concat("\x1b[0m> ")
}

} // verus!
