use crate::engine::command::CommandLine;
use vstd::prelude::*;

verus! {

/// How the output of a program is kept in a variable.
#[derive(Debug)]
pub struct StdoutStorageOptions {
    /// Whether a line feed at the start and at the end is dropped.
    pub without_newline_characters: bool,
}

impl Default for StdoutStorageOptions {
    fn default() -> (options: Self)
        ensures
            options.without_newline_characters,
    {
        Self { without_newline_characters: true }
    }
}

/// What happens when a program has failed for good.
#[derive(Debug)]
pub struct FailureHandlingOptions {
    /// Whether the chain stops once this program has failed.
    pub exit_on_failure: bool,
    /// A command line that is run after the failure, to clean up.
    pub remedy_command_line: Option<CommandLine>,
}

impl Default for FailureHandlingOptions {
    fn default() -> (options: Self)
        ensures
            options.exit_on_failure,
            options.remedy_command_line is None,
    {
        Self { exit_on_failure: true, remedy_command_line: None }
    }
}

} // verus!
