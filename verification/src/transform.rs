//! Changing texts on command.

use crate::text::{chars_of, repeated, to_uppercase, trim_bounds, trimmed, uppercased};
use vstd::prelude::*;
use vstd::string::{StrSliceExecFns, StringExecFns};

verus! {

/// What to do with a text.
pub enum Command {
    /// Put it in upper case.
    Uppercase,
    /// Leave out its leading and trailing white space.
    Trim,
    /// Append `bar` this many times.
    Append(usize),
}

/// The text that `command` makes of `text`.
pub open spec fn transformed(text: Seq<char>, command: Command) -> Seq<char> {
    match command {
        Command::Uppercase => uppercased(text),
        Command::Trim => trimmed(text),
        Command::Append(times) => text + repeated("bar"@, times as nat),
    }
}

/// `text` without its leading and trailing white space.
pub fn trim(text: &str) -> (bare: String)
    ensures
        bare@ == trimmed(text@),
{
    let chars = chars_of(text);
    let (start, end) = trim_bounds(&chars, 0, chars.len());
    proof {
        assert(chars@.subrange(0, chars@.len() as int) =~= chars@);
    }
    text.substring_char(start, end).to_owned()
}

/// `text` followed by `bar`, `times` times over.
pub fn append_bar(text: &str, times: usize) -> (longer: String)
    ensures
        longer@ == text@ + repeated("bar"@, times as nat),
{
    let mut longer = text.to_owned();
    let mut done: usize = 0;
    proof {
        assert(text@ + repeated("bar"@, 0) =~= text@);
    }
    while done < times
        invariant
            done <= times,
            longer@ == text@ + repeated("bar"@, done as nat),
        decreases times - done,
    {
        longer.append("bar");
        done += 1;
        proof {
            assert(longer@ =~= text@ + repeated("bar"@, done as nat));
        }
    }
    longer
}

/// Carries out each command on the text that stands with it, in order.
pub fn transformer(input: Vec<(String, Command)>) -> (output: Vec<String>)
    ensures
        output.len() == input.len(),
        forall|i: int|
            0 <= i < input.len() ==> (#[trigger] output[i])@ == transformed(
                input[i].0@,
                input[i].1,
            ),
{
    let mut output: Vec<String> = Vec::new();
    let mut at: usize = 0;
    while at < input.len()
        invariant
            at <= input.len(),
            output.len() == at,
            forall|i: int|
                0 <= i < at ==> (#[trigger] output[i])@ == transformed(input[i].0@, input[i].1),
        decreases input.len() - at,
    {
        let entry = &input[at];
        let changed = match &entry.1 {
            Command::Uppercase => to_uppercase(entry.0.as_str()),
            Command::Trim => trim(entry.0.as_str()),
            Command::Append(times) => append_bar(entry.0.as_str(), *times),
        };
        output.push(changed);
        at += 1;
    }
    output
}

} // verus!
