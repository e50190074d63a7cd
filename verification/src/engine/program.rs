use crate::engine::command::{
    optional_text, CommandLine, CommandLineExecutionResult, CommandLineModel, ProcessCommand,
};
use crate::engine::interpreter::Interpreter;
use crate::engine::options::{FailureHandlingOptions, StdoutStorageOptions};
use crate::engine::traits::{Execution, ExecutionType};
use crate::text::{
    char_texts, chars_of, split_words, string_of, texts, trim_newline, without_newline, words,
};
use std::collections::HashMap;
use vstd::prelude::*;
use vstd::string::StringExecFns;

verus! {

/// What a program printed, once it has succeeded.
#[derive(Debug)]
pub struct ProgramExecutionResult {
    pub output: String,
}

impl ProgramExecutionResult {
    pub fn new(output: String) -> (result: Self)
        ensures
            result.output == output,
    {
        Self { output }
    }

    pub fn get_output(self) -> (output: String)
        ensures
            output == self.output,
    {
        self.output
    }
}

impl Clone for ProgramExecutionResult {
    fn clone(&self) -> (copy: Self)
        ensures
            copy == *self,
    {
        Self { output: self.output.clone() }
    }
}

/// Why one run of a command line gave no result.
#[derive(Debug)]
pub enum ProcessError {
    /// The executable could not be started.
    Spawn { reason: String },
    /// The process could not be waited for.
    Wait { reason: String },
    /// The process ended with a status other than zero.
    Exit { status: String, partial_output: String },
}

impl ProcessError {
    /// The error in words.
    pub open spec fn text(&self) -> Seq<char> {
        match *self {
            ProcessError::Spawn { reason } => "Failed to execute Command Line: "@ + reason@,
            ProcessError::Wait { reason } => "Failed to wait on child process: "@ + reason@,
            ProcessError::Exit { status, partial_output } => "Process exited with non-zero status: "@
                + status@,
        }
    }

    /// The error in words.
    pub fn message(&self) -> (text: String)
        ensures
            text@ == self.text(),
    {
        match self {
            ProcessError::Spawn { reason } => String::from_str(
                "Failed to execute Command Line: ",
            ).concat(reason.as_str()),
            ProcessError::Wait { reason } => String::from_str(
                "Failed to wait on child process: ",
            ).concat(reason.as_str()),
            ProcessError::Exit { status, partial_output } => String::from_str(
                "Process exited with non-zero status: ",
            ).concat(status.as_str()),
        }
    }
}

impl Clone for ProcessError {
    fn clone(&self) -> (copy: Self)
        ensures
            copy == *self,
    {
        match self {
            ProcessError::Spawn { reason } => ProcessError::Spawn { reason: reason.clone() },
            ProcessError::Wait { reason } => ProcessError::Wait { reason: reason.clone() },
            ProcessError::Exit { status, partial_output } => ProcessError::Exit {
                status: status.clone(),
                partial_output: partial_output.clone(),
            },
        }
    }
}

/// What a process that has ended amounts to: with the status of
/// success, the text that it printed; with any other status, an error
/// that carries the status and what was printed until then.
pub fn process_outcome(succeeded: bool, status: String, output: String) -> (outcome: Result<
    CommandLineExecutionResult,
    ProcessError,
>)
    ensures
        match outcome {
            Ok(printed) => succeeded && printed.output == output,
            Err(ProcessError::Exit { status: given, partial_output }) => !succeeded && given
                == status && partial_output == output,
            Err(_) => false,
        },
{
    if succeeded {
        Ok(CommandLineExecutionResult::new(output))
    } else {
        Err(ProcessError::Exit { status, partial_output: output })
    }
}

/// What follows one run of a program's command line.
#[derive(Debug)]
pub enum AttemptVerdict {
    /// The program has succeeded, with this output.
    Succeeded(ProgramExecutionResult),
    /// The command line is to be run again; `attempt` counts the
    /// failures so far.
    Retry { attempt: u64 },
    /// The program has failed for good, with the error of its last run.
    Failed(ProcessError),
}

/// Whether a program with this retry setting runs again once `failures`
/// of its runs have failed: always with -1, and with a positive number
/// as long as no more than that many retries are used up.
pub open spec fn retries_after(retry: i32, failures: nat) -> bool {
    retry == -1 || failures <= retry
}

/// How a program fares when the successive runs of its command line
/// turn out as `outcomes` says (`true` for success) and `failures` runs
/// have failed before: the number of runs made, and whether the program
/// succeeded, failed, or is still waiting for a further outcome.
pub open spec fn run(retry: i32, outcomes: Seq<bool>, failures: nat) -> (nat, Option<bool>)
    decreases outcomes.len(),
{
    if outcomes.len() == 0 {
        (0, None)
    } else if outcomes[0] {
        (1, Some(true))
    } else if retries_after(retry, failures + 1) {
        let rest = run(retry, outcomes.skip(1), failures + 1);
        (rest.0 + 1, rest.1)
    } else {
        (1, Some(false))
    }
}

/// Whether `parsed` is what a line of words gives: with two words or
/// more, the program whose command is the first word and whose
/// arguments are the others, with every setting at its default; with
/// fewer, the refusal of the line.
pub open spec fn made_of_line(line: Seq<char>, parsed: Result<Program, String>) -> bool {
    match parsed {
        Ok(program) => {
            &&& words(line).len() >= 2
            &&& program.command_line.command@ == words(line)[0]
            &&& texts(program.command_line.arguments@) == words(line).skip(1)
            &&& program.command_line.interpreter is None
            &&& program.command_line.environment_variables_override is None
            &&& program.command_line.working_directory is None
            &&& program.stdout_stored_to is None
            &&& program.stdout_storage_options.without_newline_characters
            &&& program.failure_handling_options.exit_on_failure
            &&& program.failure_handling_options.remedy_command_line is None
            &&& program.concurrency_group is None
            &&& program.retry == 0
        },
        Err(reason) => words(line).len() < 2 && reason@ == "Invalid configuration"@,
    }
}

/// A step of a chain: one command with its retry and failure policy.
#[derive(Debug)]
pub struct Program {
    /// The command line that is run.
    pub command_line: CommandLine,
    /// The variable that receives what the program prints.
    pub stdout_stored_to: Option<String>,
    /// How the output is kept in that variable.
    pub stdout_storage_options: StdoutStorageOptions,
    /// What happens when the program has failed for good.
    pub failure_handling_options: FailureHandlingOptions,
    /// Neighbouring programs with the same number run together.
    pub concurrency_group: Option<usize>,
    /// How often a failed run is repeated: -1 for ever, 0 never.
    pub retry: i32,
}

/// What a program is, as plain data.
pub ghost struct ProgramModel {
    pub command_line: CommandLineModel,
    pub stdout_stored_to: Option<Seq<char>>,
    pub without_newline_characters: bool,
    pub exit_on_failure: bool,
    pub remedy_command_line: Option<CommandLineModel>,
    pub concurrency_group: Option<usize>,
    pub retry: i32,
}

impl View for Program {
    type V = ProgramModel;

    open spec fn view(&self) -> ProgramModel {
        ProgramModel {
            command_line: self.command_line@,
            stdout_stored_to: optional_text(self.stdout_stored_to),
            without_newline_characters: self.stdout_storage_options.without_newline_characters,
            exit_on_failure: self.failure_handling_options.exit_on_failure,
            remedy_command_line: match self.failure_handling_options.remedy_command_line {
                Some(remedy) => Some(remedy@),
                None => None,
            },
            concurrency_group: self.concurrency_group,
            retry: self.retry,
        }
    }
}

/// What is kept of the text that a program printed: the text as it is,
/// or without the line feed at its start and at its end where the
/// program's options say so.
pub open spec fn stored_text(program: ProgramModel, printed: Seq<char>) -> Seq<char> {
    if program.without_newline_characters {
        without_newline(printed)
    } else {
        printed
    }
}

/// The models of a list of programs.
pub open spec fn program_models(programs: Seq<Program>) -> Seq<ProgramModel> {
    programs.map_values(|program: Program| program@)
}

impl Program {
    pub fn new(
        command: String,
        arguments: Vec<String>,
        environment_variables_override: Option<HashMap<String, String>>,
        working_directory: Option<String>,
        stdout_stored_to: Option<String>,
        stdout_storage_options: StdoutStorageOptions,
        interpreter: Option<Interpreter>,
        failure_handling_options: FailureHandlingOptions,
        concurrency_group: Option<usize>,
        retry: i32,
    ) -> (program: Self)
        ensures
            program.command_line.command == command,
            program.command_line.arguments == arguments,
            program.command_line.interpreter == interpreter,
            program.command_line.environment_variables_override == environment_variables_override,
            program.command_line.working_directory == working_directory,
            program.stdout_stored_to == stdout_stored_to,
            program.stdout_storage_options == stdout_storage_options,
            program.failure_handling_options == failure_handling_options,
            program.concurrency_group == concurrency_group,
            program.retry == retry,
    {
        Program {
            command_line: CommandLine::new(
                command,
                arguments,
                interpreter,
                environment_variables_override,
                working_directory,
            ),
            stdout_stored_to,
            stdout_storage_options,
            failure_handling_options,
            concurrency_group,
            retry,
        }
    }

    /// A program made from a line of words: the first is the command,
    /// the others its arguments. A line of fewer than two words is
    /// refused.
    pub fn parse(s: &str) -> (parsed: Result<Program, String>)
        ensures
            made_of_line(s@, parsed),
    {
        let parts = split_words(&chars_of(s));
        if parts.len() < 2 {
            return Err(String::from_str("Invalid configuration"));
        }
        let command = string_of(&parts[0]);
        let mut arguments: Vec<String> = Vec::new();
        let mut i: usize = 1;
        while i < parts.len()
            invariant
                1 <= i <= parts.len(),
                arguments.len() == i - 1,
                forall|j: int| 0 <= j < i - 1 ==> (#[trigger] arguments[j])@ == parts[j + 1]@,
            decreases parts.len() - i,
        {
            arguments.push(string_of(&parts[i]));
            i += 1;
        }
        assert(texts(arguments@) =~= char_texts(parts@).skip(1));
        Ok(
            Program::new(
                command,
                arguments,
                None,
                None,
                None,
                StdoutStorageOptions::default(),
                None,
                FailureHandlingOptions::default(),
                None,
                0,
            ),
        )
    }

    pub fn get_retry(&self) -> (retry: &i32)
        ensures
            *retry == self.retry,
    {
        &self.retry
    }

    /// The variable that receives what the program prints.
    pub fn get_awaitable_variable(&self) -> (variable: &Option<String>)
        ensures
            *variable == self.stdout_stored_to,
    {
        &self.stdout_stored_to
    }

    pub fn get_command_line(&mut self) -> (command_line: &mut CommandLine)
        ensures
            *command_line == old(self).command_line,
            *final(self) == (Program { command_line: *final(command_line), ..*old(self) }),
    {
        &mut self.command_line
    }

    /// The command line that is run after a failure, if one is set.
    pub fn get_remedy_command_line(&self) -> (remedy: Option<&CommandLine>)
        ensures
            match remedy {
                Some(command_line) => self.failure_handling_options.remedy_command_line == Some(
                    *command_line,
                ),
                None => self.failure_handling_options.remedy_command_line is None,
            },
    {
        match &self.failure_handling_options.remedy_command_line {
            Some(command_line) => Some(command_line),
            None => None,
        }
    }

    pub fn get_concurrency_group(&self) -> (group: Option<usize>)
        ensures
            group == self.concurrency_group,
    {
        self.concurrency_group
    }

    /// What is kept of a program's output: the output as printed, or
    /// without the line feed at its start and at its end where the
    /// options say so.
    pub open spec fn stored_output(&self, stdout: Seq<char>) -> Seq<char> {
        if self.stdout_storage_options.without_newline_characters {
            without_newline(stdout)
        } else {
            stdout
        }
    }

    /// Shapes a program's output as the storage options say.
    pub fn apply_stdout_storage_options(&self, stdout_string: String) -> (stored: String)
        ensures
            stored@ == self.stored_output(stdout_string@),
    {
        if self.stdout_storage_options.without_newline_characters {
            string_of(&trim_newline(&chars_of(stdout_string.as_str())))
        } else {
            stdout_string
        }
    }

    pub fn get_failure_handling_options(&mut self) -> (options: &mut FailureHandlingOptions)
        ensures
            *options == old(self).failure_handling_options,
            *final(self) == (Program { failure_handling_options: *final(options), ..*old(self) }),
    {
        &mut self.failure_handling_options
    }

    /// What to hand to the operating system to run the remedy, if one
    /// is set.
    pub fn remedy_process_command(&self) -> (process: Option<ProcessCommand>)
        ensures
            match process {
                Some(process) => self.failure_handling_options.remedy_command_line matches Some(
                    remedy,
                ) && process.program@ == remedy.process_program() && texts(process.arguments@)
                    == remedy.process_arguments(),
                None => self.failure_handling_options.remedy_command_line is None,
            },
    {
        match &self.failure_handling_options.remedy_command_line {
            Some(remedy) => Some(remedy.get_process_command()),
            None => None,
        }
    }

    /// Decides what follows one run of the command line, after
    /// `failed_before` runs that failed. A run that succeeded ends the
    /// program with its output, shaped by the storage options. A run
    /// that failed is repeated as far as the retry setting allows;
    /// past that, its error is the program's.
    pub fn settle_attempt(
        &self,
        failed_before: u64,
        outcome: Result<CommandLineExecutionResult, ProcessError>,
    ) -> (verdict: AttemptVerdict)
        ensures
            match outcome {
                Ok(printed) => verdict matches AttemptVerdict::Succeeded(result) && result.output@
                    == self.stored_output(printed.output@) && result.output@ == stored_text(
                    self@,
                    printed.output@,
                ),
                Err(error) => if retries_after(self.retry, failed_before as nat + 1) {
                    verdict matches AttemptVerdict::Retry { attempt } && attempt == if failed_before
                        < u64::MAX {
                        failed_before + 1
                    } else {
                        u64::MAX as int
                    }
                } else {
                    verdict matches AttemptVerdict::Failed(last) && last == error
                },
            },
    {
        match outcome {
            Ok(printed) => AttemptVerdict::Succeeded(
                ProgramExecutionResult::new(self.apply_stdout_storage_options(printed.output)),
            ),
            Err(error) => {
                let again = self.retry == -1 || (self.retry > 0 && failed_before < self.retry as u64);
                if again {
                    let attempt = if failed_before < u64::MAX {
                        failed_before + 1
                    } else {
                        u64::MAX
                    };
                    AttemptVerdict::Retry { attempt }
                } else {
                    AttemptVerdict::Failed(error)
                }
            },
        }
    }
}

/// With no retries, the command line runs exactly once, and the outcome
/// of that run is the program's.
pub proof fn lemma_no_retry_runs_once(outcomes: Seq<bool>)
    requires
        outcomes.len() > 0,
    ensures
        run(0i32, outcomes, 0) == (1nat, Some(outcomes[0])),
{
}

/// With `retry` retries allowed, the command line runs at most
/// `retry + 1` times, however the runs turn out; and where the program
/// fails, it has run exactly that often and no run succeeded.
pub proof fn lemma_retry_is_bounded(retry: i32, outcomes: Seq<bool>, failures: nat)
    requires
        retry >= 1,
        failures <= retry,
    ensures
        run(retry, outcomes, failures).0 <= outcomes.len(),
        run(retry, outcomes, failures).0 + failures <= retry + 1,
        run(retry, outcomes, failures).1 == Some(false) ==> {
            &&& run(retry, outcomes, failures).0 + failures == retry + 1
            &&& forall|i: int| 0 <= i < retry + 1 - failures ==> !outcomes[i]
        },
    decreases outcomes.len(),
{
    if outcomes.len() > 0 && !outcomes[0] && retries_after(retry, failures + 1) {
        lemma_retry_is_bounded(retry, outcomes.skip(1), failures + 1);
        if run(retry, outcomes, failures).1 == Some(false) {
            assert forall|i: int| 0 <= i < retry + 1 - failures implies !outcomes[i] by {
                if i > 0 {
                    assert(outcomes.skip(1)[i - 1] == outcomes[i]);
                }
            }
        }
    }
}

/// With retries for ever, the program never fails: it ends only with
/// the first run that succeeds, and until then waits for another run.
pub proof fn lemma_retry_forever_never_fails(retry: i32, outcomes: Seq<bool>, failures: nat)
    requires
        retry == -1,
    ensures
        run(retry, outcomes, failures).1 != Some(false),
        run(retry, outcomes, failures).1 == Some(true) <==> exists|i: int|
            0 <= i < outcomes.len() && outcomes[i],
        run(retry, outcomes, failures).1 == Some(true) ==> {
            &&& outcomes[run(retry, outcomes, failures).0 - 1]
            &&& forall|i: int| 0 <= i < run(retry, outcomes, failures).0 - 1 ==> !outcomes[i]
        },
    decreases outcomes.len(),
{
    if outcomes.len() > 0 && !outcomes[0] {
        let rest = outcomes.skip(1);
        lemma_retry_forever_never_fails(retry, rest, failures + 1);
        if run(retry, outcomes, failures).1 == Some(true) {
            let i = choose|i: int| 0 <= i < rest.len() && rest[i];
            assert(outcomes[i + 1]);
            assert forall|i: int| 0 <= i < run(retry, outcomes, failures).0 - 1 implies !outcomes[i] by {
                if i > 0 {
                    assert(rest[i - 1] == outcomes[i]);
                }
            }
        } else {
            assert forall|i: int| 0 <= i < outcomes.len() implies !outcomes[i] by {
                if i > 0 {
                    assert(rest[i - 1] == outcomes[i]);
                }
            }
        }
    }
}

impl Default for Program {
    fn default() -> (program: Self)
        ensures
            program.command_line.command@ == Seq::<char>::empty(),
            program.command_line.arguments@ == Seq::<String>::empty(),
            program.command_line.interpreter is None,
            program.command_line.environment_variables_override is None,
            program.command_line.working_directory is None,
            program.stdout_stored_to is None,
            program.stdout_storage_options.without_newline_characters,
            program.failure_handling_options.exit_on_failure,
            program.failure_handling_options.remedy_command_line is None,
            program.concurrency_group is None,
            program.retry == 0,
    {
        Self {
            command_line: CommandLine::default(),
            stdout_stored_to: None,
            stdout_storage_options: StdoutStorageOptions::default(),
            failure_handling_options: FailureHandlingOptions::default(),
            concurrency_group: None,
            retry: 0,
        }
    }
}

impl std::str::FromStr for Program {
    type Err = String;

    /// A program made from a line of words, as `Program::parse` makes it.
    fn from_str(s: &str) -> (parsed: Result<Self, Self::Err>)
        ensures
            made_of_line(s@, parsed),
    {
        Program::parse(s)
    }
}

impl Execution for Program {
    open spec fn execution_type(&self) -> ExecutionType {
        ExecutionType::Program
    }

    fn get_execution_type(&self) -> (kind: ExecutionType) {
        ExecutionType::Program
    }
}

} // verus!
