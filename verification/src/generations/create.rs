use crate::engine::command::optional_text;
use crate::engine::interpreter::Interpreter;
use crate::engine::options::{FailureHandlingOptions, StdoutStorageOptions};
use crate::engine::program::Program;
use crate::text::texts;
use std::collections::HashMap;
use vstd::prelude::*;
use vstd::string::StringExecFns;

verus! {

/// A list of programs as a generator returns it.
#[derive(Debug)]
pub struct ParsedCommands {
    pub commands: Vec<Program>,
}

/// The making of a new chain file.
#[derive(Debug)]
pub struct ChainCreation {
    pub name: Option<String>,
}

/// The name of the file of a new chain: `cchain_`, the chain's name and
/// `.json`; for a chain without a name, that of the template.
pub open spec fn filename_of(name: Option<String>) -> Seq<char> {
    match name {
        Some(name) => "cchain_"@ + name@ + ".json"@,
        None => "cchain_template.json"@,
    }
}

/// What stands before the example in a request for a generated chain.
pub open spec fn request_opening() -> Seq<char> {
    "\n            This is a chain example: "@
}

/// What stands between the example and the request proper.
pub open spec fn request_guide() -> Seq<char> {
    "\n            To create a chain of program executions based on the JSON configuration:\n            1. **Define Execution Steps**: \n               Create a list of program objects with fields:\n               - `command`: Main executable (e.g., \"python\")\n               - `arguments`: Parameters including {variable} placeholders\n               - `interpreter`: Shell to use (e.g., \"sh\") or null for direct execution\n               - `environment_variables_override`: Key-value pairs to override env vars\n               - `stdout_stored_to`: Variable name to store output (supports <<>> syntax)\n               - `failure_handling_options`: Configure exit behavior and remedy commands\n               - `concurrency_group`: Null for sequential, same value for parallel steps\n               - `retry`: Number of retry attempts (-1 = infinite, 0 = none)\n\n            2. **Variable Handling**:\n               - <<variable_name>>: Prompt user for value at chain startup\n               - <<variable_name:on_program_execution>>: Prompt when command executes\n               - Replace variables in arguments/env vars with user-provided values\n\n            3. **Execution Flow**:\n               a. Process steps sequentially by default\n               b. Group steps with identical `concurrency_group` values to run in parallel\n               c. For parallel groups:\n                  - Wait for all commands in group to complete\n                  - Apply failure handling after group completion\n\n            4. **Output Handling**:\n               - Capture stdout to variables specified in `stdout_stored_to`\n               - Apply `without_newline_characters` formatting when storing\n               - Make captured values available to subsequent steps via <<>> syntax\n\n            5. **Failure Management**:\n               - If `exit_on_failure`=true, abort chain on non-zero exit code\n               - Execute `remedy_command_line` if provided on failure\n               - Retry up to `retry` times before proceeding/failing\n\n            6. **Environment Setup**:\n               - Apply environment overrides before command execution\n               - Empty string values override existing vars with empty values\n               - Restore original environment after command completion\n\n            Example Flow:\n            1. Prompt for <<variable_name>> at startup\n            2. Execute first command through sh interpreter:\n               - Set hello=\"world\", goodbye=\"\"\n               - On success: store processed output to <<hi>>\n               - On failure: retry 3 times -> if still failing, run remedy command\n            3. Proceed to next command only after success/retries\n            4. Repeat for subsequent commands, handling variables/concurrency as configured\n            Now, I need you to generate a `chain` based on this request: "@
}

impl ChainCreation {
    pub fn new(name: Option<String>) -> (creation: Self)
        ensures
            creation.name == name,
    {
        Self { name }
    }

    /// The name of the file that the new chain is written to.
    pub fn create_filename(&self) -> (filename: String)
        ensures
            filename@ == filename_of(self.name),
    {
        match &self.name {
            Some(name) => String::from_str("cchain_").concat(name.as_str()).concat(".json"),
            None => String::from_str("cchain_template.json"),
        }
    }

    /// The two programs of the template: one that runs through the
    /// shell and stores its output, with three retries, and a plain one
    /// with five.
    pub fn get_template_objects(&self) -> (template: Vec<Program>)
        ensures
            template.len() == 2,
            template[0].command_line.command@ == "example_command"@,
            texts(template[0].command_line.arguments@) == seq!["arg1"@, "arg2"@],
            template[0].command_line.interpreter == Some(Interpreter::Sh),
            template[0].command_line.environment_variables_override matches Some(overrides)
                && overrides@ == Map::<String, String>::empty(),
            template[0].command_line.working_directory is None,
            optional_text(template[0].stdout_stored_to) == Some("<<hi>>"@),
            template[0].retry == 3,
            template[1].command_line.command@ == "another_command"@,
            texts(template[1].command_line.arguments@) == seq!["argA"@, "argB"@],
            template[1].command_line.interpreter is None,
            template[1].command_line.environment_variables_override is None,
            template[1].command_line.working_directory is None,
            template[1].stdout_stored_to is None,
            template[1].retry == 5,
            forall|i: int|
                0 <= i < 2 ==> {
                    &&& (#[trigger] template[i]).stdout_storage_options.without_newline_characters
                    &&& template[i].failure_handling_options.exit_on_failure
                    &&& template[i].failure_handling_options.remedy_command_line is None
                    &&& template[i].concurrency_group is None
                },
    {
        let mut first_arguments: Vec<String> = Vec::new();
        first_arguments.push(String::from_str("arg1"));
        first_arguments.push(String::from_str("arg2"));
        assert(texts(first_arguments@) =~= seq!["arg1"@, "arg2"@]);
        let mut second_arguments: Vec<String> = Vec::new();
        second_arguments.push(String::from_str("argA"));
        second_arguments.push(String::from_str("argB"));
        assert(texts(second_arguments@) =~= seq!["argA"@, "argB"@]);
        let mut template: Vec<Program> = Vec::new();
        template.push(
            Program::new(
                String::from_str("example_command"),
                first_arguments,
                Some(HashMap::new()),
                None,
                Some(String::from_str("<<hi>>")),
                StdoutStorageOptions::default(),
                Some(Interpreter::Sh),
                FailureHandlingOptions::default(),
                None,
                3,
            ),
        );
        template.push(
            Program::new(
                String::from_str("another_command"),
                second_arguments,
                None,
                None,
                None,
                StdoutStorageOptions::default(),
                None,
                FailureHandlingOptions::default(),
                None,
                5,
            ),
        );
        template
    }

    /// The request handed to a generator: the template as an example,
    /// the guide to the format, and what the person asks for.
    pub fn generation_request(template: &str, request: &str) -> (prompt: String)
        ensures
            prompt@ == request_opening() + template@ + request_guide() + request@,
    {
        String::from_str("\n            This is a chain example: ").concat(template).concat(
            "\n            To create a chain of program executions based on the JSON configuration:\n            1. **Define Execution Steps**: \n               Create a list of program objects with fields:\n               - `command`: Main executable (e.g., \"python\")\n               - `arguments`: Parameters including {variable} placeholders\n               - `interpreter`: Shell to use (e.g., \"sh\") or null for direct execution\n               - `environment_variables_override`: Key-value pairs to override env vars\n               - `stdout_stored_to`: Variable name to store output (supports <<>> syntax)\n               - `failure_handling_options`: Configure exit behavior and remedy commands\n               - `concurrency_group`: Null for sequential, same value for parallel steps\n               - `retry`: Number of retry attempts (-1 = infinite, 0 = none)\n\n            2. **Variable Handling**:\n               - <<variable_name>>: Prompt user for value at chain startup\n               - <<variable_name:on_program_execution>>: Prompt when command executes\n               - Replace variables in arguments/env vars with user-provided values\n\n            3. **Execution Flow**:\n               a. Process steps sequentially by default\n               b. Group steps with identical `concurrency_group` values to run in parallel\n               c. For parallel groups:\n                  - Wait for all commands in group to complete\n                  - Apply failure handling after group completion\n\n            4. **Output Handling**:\n               - Capture stdout to variables specified in `stdout_stored_to`\n               - Apply `without_newline_characters` formatting when storing\n               - Make captured values available to subsequent steps via <<>> syntax\n\n            5. **Failure Management**:\n               - If `exit_on_failure`=true, abort chain on non-zero exit code\n               - Execute `remedy_command_line` if provided on failure\n               - Retry up to `retry` times before proceeding/failing\n\n            6. **Environment Setup**:\n               - Apply environment overrides before command execution\n               - Empty string values override existing vars with empty values\n               - Restore original environment after command completion\n\n            Example Flow:\n            1. Prompt for <<variable_name>> at startup\n            2. Execute first command through sh interpreter:\n               - Set hello=\"world\", goodbye=\"\"\n               - On success: store processed output to <<hi>>\n               - On failure: retry 3 times -> if still failing, run remedy command\n            3. Proceed to next command only after success/retries\n            4. Repeat for subsequent commands, handling variables/concurrency as configured\n            Now, I need you to generate a `chain` based on this request: ",
        ).concat(request)
    }
}

} // verus!
