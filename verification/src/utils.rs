//! The shape of a log line.

use vstd::prelude::*;
use vstd::string::*;

verus! {

/// The log line for `string` at the time of day `clock`: the time, a bar, the text.
pub fn log(clock: &str, string: &str) -> (line: String)
    ensures
        line@ == clock@ + " | "@ + string@,
{
    let mut line = String::from_str(clock);
    line.append(" | ");
    line.append(string);
    line
}

} // verus!
