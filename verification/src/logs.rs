//! What the game prints, as it goes to the log.

use vstd::prelude::*;
use vstd::string::*;

verus! {

/// A line of the game's output as the log has it: errors are marked.
pub open spec fn log_line_of(from_stderr: bool, line: Seq<char>) -> Seq<char> {
    if from_stderr {
        "[STDERR] "@ + line
    } else {
        line
    }
}

/// A line of the game's output as the log has it.
pub fn log_line(from_stderr: bool, line: &str) -> (logged: String)
    ensures
        logged@ == log_line_of(from_stderr, line@),
{
    if from_stderr {
        "[STDERR] ".to_owned().concat(line)
    } else {
        line.to_owned()
    }
}

/// Every line is logged whole; a mark comes before it exactly where it is an
/// error output.
pub proof fn law_only_error_output_is_marked(line: Seq<char>)
    ensures
        log_line_of(false, line) == line,
        log_line_of(true, line) == "[STDERR] "@ + line,
{
}

} // verus!
