//! The command-execution abstraction: one method that runs an external
//! program and captures its standard output.

use vstd::prelude::*;

verus! {

/// Runs an external program with arguments and captures its standard output
/// as text. Implementors spawn a real process (outside this library), or, in
/// tests, return canned text; nothing can be promised of the outcome, so the
/// method carries no contract and callers state what holds of every result.
pub trait CommandExecutor {
    /// Returns the captured standard output of the program on success, or a
    /// failure reason when the program could not be run.
    fn execute_command(&self, command: &str, args: &Vec<String>) -> Result<String, String>;
}

} // verus!
