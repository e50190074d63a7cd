use crate::engine::interpreter::Interpreter;
use crate::engine::traits::{Execution, ExecutionType};
use crate::text::{
    chars_of, lemma_replace_absent, occurs, replace_all, replace_chars, string_of, texts,
};
use crate::variable::VariableError;
use std::collections::HashMap;
use vstd::prelude::*;
use vstd::string::StringExecFns;

verus! {

/// What a command line printed, once it has run.
#[derive(Debug)]
pub struct CommandLineExecutionResult {
    pub output: String,
}

impl CommandLineExecutionResult {
    pub fn new(output: String) -> (result: Self)
        ensures
            result.output == output,
    {
        Self { output }
    }

    pub fn get_output(&self) -> (output: String)
        ensures
            output == self.output,
    {
        self.output.clone()
    }
}

impl Clone for CommandLineExecutionResult {
    fn clone(&self) -> (copy: Self)
        ensures
            copy == *self,
    {
        Self { output: self.output.clone() }
    }
}

/// A command with its arguments and the surroundings it runs in.
#[derive(Debug)]
pub struct CommandLine {
    /// The path or name of the program to run.
    pub command: String,
    /// The arguments passed to the program.
    pub arguments: Vec<String>,
    /// The interpreter the command line is handed to, if any.
    pub interpreter: Option<Interpreter>,
    /// Environment variables set for this run only.
    pub environment_variables_override: Option<HashMap<String, String>>,
    /// The directory to run in; `None` is the current one.
    pub working_directory: Option<String>,
}

/// What a command line is, as plain data.
pub ghost struct CommandLineModel {
    pub command: Seq<char>,
    pub arguments: Seq<Seq<char>>,
    pub interpreter: Option<Interpreter>,
    pub environment: Option<Map<String, String>>,
    pub working_directory: Option<Seq<char>>,
}

/// The text in an optional string.
pub open spec fn optional_text(text: Option<String>) -> Option<Seq<char>> {
    match text {
        Some(text) => Some(text@),
        None => None,
    }
}

impl View for CommandLine {
    type V = CommandLineModel;

    open spec fn view(&self) -> CommandLineModel {
        CommandLineModel {
            command: self.command@,
            arguments: texts(self.arguments@),
            interpreter: self.interpreter,
            environment: overrides(self.environment_variables_override),
            working_directory: optional_text(self.working_directory),
        }
    }
}

/// What is handed to the operating system to start a process.
#[derive(Debug)]
pub struct ProcessCommand {
    /// The executable.
    pub program: String,
    /// Its argument vector, without the executable itself.
    pub arguments: Vec<String>,
    /// Environment variables to set on top of the inherited ones.
    pub environment: Option<HashMap<String, String>>,
    /// The directory to start in, where it is not the current one.
    pub working_directory: Option<String>,
}

/// The variables that a set of overrides assigns, if there is one.
pub open spec fn overrides(environment: Option<HashMap<String, String>>) -> Option<
    Map<String, String>,
> {
    match environment {
        Some(variables) => Some(variables@),
        None => None,
    }
}

/// The texts `parts`, with `separator` between each two.
pub open spec fn joined(parts: Seq<Seq<char>>, separator: Seq<char>) -> Seq<char>
    decreases parts.len(),
{
    if parts.len() == 0 {
        Seq::empty()
    } else if parts.len() == 1 {
        parts[0]
    } else {
        joined(parts.drop_last(), separator) + separator + parts.last()
    }
}

/// Joins `parts`, with `separator` between each two.
pub fn join(parts: &Vec<String>, separator: &str) -> (text: String)
    ensures
        text@ == joined(texts(parts@), separator@),
{
    let mut text = String::new();
    let mut i: usize = 0;
    while i < parts.len()
        invariant
            i <= parts.len(),
            text@ == joined(texts(parts@).take(i as int), separator@),
        decreases parts.len() - i,
    {
        if i > 0 {
            text.append(separator);
        }
        text.append(parts[i].as_str());
        proof {
            let all = texts(parts@);
            assert(all.take(i + 1).drop_last() =~= all.take(i as int));
            assert(all.take(i + 1).last() == parts[i as int]@);
            if i == 0 {
                assert(text@ =~= parts[0]@);
            }
        }
        i += 1;
    }
    assert(texts(parts@).take(parts.len() as int) =~= texts(parts@));
    text
}

impl CommandLine {
    pub fn new(
        command: String,
        arguments: Vec<String>,
        interpreter: Option<Interpreter>,
        environment_variables_override: Option<HashMap<String, String>>,
        working_directory: Option<String>,
    ) -> (command_line: Self)
        ensures
            command_line.command == command,
            command_line.arguments == arguments,
            command_line.interpreter == interpreter,
            command_line.environment_variables_override == environment_variables_override,
            command_line.working_directory == working_directory,
    {
        Self { command, arguments, interpreter, environment_variables_override, working_directory }
    }

    /// Whether two command lines agree in everything but their arguments.
    pub open spec fn differs_in_arguments_only(&self, other: &CommandLine) -> bool {
        &&& self.command == other.command
        &&& self.interpreter == other.interpreter
        &&& self.environment_variables_override == other.environment_variables_override
        &&& self.working_directory == other.working_directory
    }

    /// The command line as one text: the command, a space, and the
    /// arguments with a space between each two.
    pub open spec fn text(&self) -> Seq<char> {
        self.command@ + " "@ + joined(texts(self.arguments@), " "@)
    }

    /// The command line as one text.
    pub fn to_string(&self) -> (text: String)
        ensures
            text@ == self.text(),
    {
        let arguments = join(&self.arguments, " ");
        self.command.clone().concat(" ").concat(arguments.as_str())
    }

    /// The executable that is started: the shell where one is asked
    /// for, else the command itself.
    pub open spec fn process_program(&self) -> Seq<char> {
        match self.interpreter {
            Some(Interpreter::Sh) => "sh"@,
            None => self.command@,
        }
    }

    /// The argument vector of the process: for the shell `-c` and the
    /// whole command line as one text, else the arguments as they are.
    pub open spec fn process_arguments(&self) -> Seq<Seq<char>> {
        match self.interpreter {
            Some(Interpreter::Sh) => seq!["-c"@, self.text()],
            None => texts(self.arguments@),
        }
    }

    /// What to hand to the operating system to run this command line.
    pub fn get_process_command(&self) -> (process: ProcessCommand)
        ensures
            process.program@ == self.process_program(),
            texts(process.arguments@) == self.process_arguments(),
            overrides(process.environment) == overrides(self.environment_variables_override),
            process.working_directory == self.working_directory,
    {
        let environment = match &self.environment_variables_override {
            Some(overrides) => Some(overrides.clone()),
            None => None,
        };
        let working_directory = match &self.working_directory {
            Some(directory) => Some(directory.clone()),
            None => None,
        };
        match self.interpreter {
            Some(Interpreter::Sh) => {
                let mut arguments: Vec<String> = Vec::new();
                arguments.push(String::from_str("-c"));
                arguments.push(self.to_string());
                assert(texts(arguments@) =~= seq!["-c"@, self.text()]);
                ProcessCommand {
                    program: String::from_str("sh"),
                    arguments,
                    environment,
                    working_directory,
                }
            },
            None => ProcessCommand {
                program: self.command.clone(),
                arguments: self.arguments.clone(),
                environment,
                working_directory,
            },
        }
    }

    /// Puts `new_argument` in the place of the argument at `argument_index`.
    pub fn revise_argument_by_index(&mut self, argument_index: usize, new_argument: String)
        requires
            argument_index < old(self).arguments.len(),
        ensures
            final(self).arguments@ == old(self).arguments@.update(
                argument_index as int,
                new_argument,
            ),
            final(self).differs_in_arguments_only(old(self)),
            final(self)@ == (CommandLineModel {
                arguments: old(self)@.arguments.update(argument_index as int, new_argument@),
                ..old(self)@
            }),
    {
        self.arguments[argument_index] = new_argument;
        assert(texts(self.arguments@) =~= texts(old(self).arguments@).update(
            argument_index as int,
            new_argument@,
        ));
    }

    /// Replaces, in every argument, each occurrence of the placeholder
    /// by the value.
    pub fn inject_value_to_variables(&mut self, raw_variable_name: &str, value: String) -> (done:
        Result<(), VariableError>)
        ensures
            done is Ok,
            texts(final(self).arguments@) == injected(
                texts(old(self).arguments@),
                raw_variable_name@,
                value@,
            ),
            final(self).differs_in_arguments_only(old(self)),
    {
        let pattern = chars_of(raw_variable_name);
        let replacement = chars_of(value.as_str());
        let mut i: usize = 0;
        while i < self.arguments.len()
            invariant
                i <= self.arguments.len(),
                self.arguments.len() == old(self).arguments.len(),
                pattern@ == raw_variable_name@,
                replacement@ == value@,
                forall|j: int|
                    0 <= j < i ==> (#[trigger] self.arguments[j])@ == replace_all(
                        old(self).arguments[j]@,
                        pattern@,
                        replacement@,
                    ),
                forall|j: int|
                    i <= j < self.arguments.len() ==> #[trigger] self.arguments[j] == old(
                        self,
                    ).arguments[j],
                self.differs_in_arguments_only(old(self)),
            decreases self.arguments.len() - i,
        {
            let argument = chars_of(self.arguments[i].as_str());
            let replaced = string_of(&replace_chars(&argument, &pattern, &replacement));
            self.arguments[i] = replaced;
            i += 1;
        }
        assert(texts(self.arguments@) =~= injected(
            texts(old(self).arguments@),
            raw_variable_name@,
            value@,
        ));
        Ok(())
    }

    pub fn get_command(&self) -> (command: &str)
        ensures
            command@ == self.command@,
    {
        self.command.as_str()
    }

    pub fn get_arguments(&mut self) -> (arguments: &mut Vec<String>)
        ensures
            *arguments == old(self).arguments,
            *final(self) == (CommandLine { arguments: *final(arguments), ..*old(self) }),
    {
        &mut self.arguments
    }
}

/// The arguments with each occurrence of `token` replaced by `value`.
pub open spec fn injected(arguments: Seq<Seq<char>>, token: Seq<char>, value: Seq<char>) -> Seq<
    Seq<char>,
> {
    arguments.map_values(|argument: Seq<char>| replace_all(argument, token, value))
}

/// Putting in a value for a placeholder that stands in none of the
/// arguments changes nothing: once no placeholder is left, putting the
/// value in again leaves the arguments as they are.
pub proof fn lemma_injection_without_placeholder(
    arguments: Seq<Seq<char>>,
    token: Seq<char>,
    value: Seq<char>,
)
    requires
        token.len() > 0,
        forall|i: int| 0 <= i < arguments.len() ==> !occurs(#[trigger] arguments[i], token),
    ensures
        injected(arguments, token, value) == arguments,
{
    assert forall|i: int| 0 <= i < arguments.len() implies injected(arguments, token, value)[i]
        == arguments[i] by {
        lemma_replace_absent(arguments[i], token, value);
    }
    assert(injected(arguments, token, value) =~= arguments);
}

impl Default for CommandLine {
    fn default() -> (command_line: Self)
        ensures
            command_line.command@ == Seq::<char>::empty(),
            command_line.arguments@ == Seq::<String>::empty(),
            command_line.interpreter is None,
            command_line.environment_variables_override is None,
            command_line.working_directory is None,
    {
        CommandLine {
            command: String::new(),
            arguments: Vec::new(),
            interpreter: None,
            environment_variables_override: None,
            working_directory: None,
        }
    }
}

impl Execution for CommandLine {
    open spec fn execution_type(&self) -> ExecutionType {
        ExecutionType::CommandLine
    }

    fn get_execution_type(&self) -> (kind: ExecutionType) {
        ExecutionType::CommandLine
    }
}

} // verus!
