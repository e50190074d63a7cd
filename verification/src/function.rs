use crate::engine::command::ProcessCommand;
use crate::pattern::{capture_groups, optional_texts, regex_accepts, regex_captures};
use crate::text::{
    char_texts, chars_of, lowercase, same, split_words, string_of, texts, trim, trim_chars, words,
};
use vstd::prelude::*;
use vstd::string::StringExecFns;

verus! {

/// A call written in an argument: a name and two quoted parameters.
#[derive(Debug)]
pub struct Function {
    pub name: String,
    pub parameters: Vec<String>,
}

/// What a function call is, as plain data.
pub ghost struct FunctionModel {
    pub name: Seq<char>,
    pub parameters: Seq<Seq<char>>,
}

impl View for Function {
    type V = FunctionModel;

    open spec fn view(&self) -> FunctionModel {
        FunctionModel { name: self.name@, parameters: texts(self.parameters@) }
    }
}

/// Why a text gave no function, or a function no result.
#[derive(Debug)]
pub enum FunctionError {
    /// The pattern for function calls was refused.
    Pattern,
    /// The text holds no function call.
    NoFunctionFound,
    /// The match lacks the capture group of this number.
    Capture { group: usize },
    /// No function of this name is known.
    FunctionNotFound,
    /// The second parameter names no command.
    NoCommand,
}

impl FunctionError {
    /// The error in words.
    pub open spec fn text(&self) -> Seq<char> {
        match *self {
            FunctionError::Pattern => "Invalid function pattern"@,
            FunctionError::NoFunctionFound => "No function found"@,
            FunctionError::Capture { group } => if group == 1 {
                "Failed to capture function name"@
            } else if group == 2 {
                "Failed to capture first argument"@
            } else {
                "Failed to capture second argument"@
            },
            FunctionError::FunctionNotFound => "Function not found"@,
            FunctionError::NoCommand => "Failed to execute command"@,
        }
    }

    /// The error in words.
    pub fn message(&self) -> (text: String)
        ensures
            text@ == self.text(),
    {
        match self {
            FunctionError::Pattern => String::from_str("Invalid function pattern"),
            FunctionError::NoFunctionFound => String::from_str("No function found"),
            FunctionError::Capture { group } => if *group == 1 {
                String::from_str("Failed to capture function name")
            } else if *group == 2 {
                String::from_str("Failed to capture first argument")
            } else {
                String::from_str("Failed to capture second argument")
            },
            FunctionError::FunctionNotFound => String::from_str("Function not found"),
            FunctionError::NoCommand => String::from_str("Failed to execute command"),
        }
    }
}

/// What a person answers when shown the result of a function.
#[derive(Debug, Clone, Copy, PartialEq, Eq, Structural)]
pub enum Confirmation {
    /// Go on with the result.
    Proceed,
    /// Evaluate the function once more.
    Retry,
    /// Give up.
    Abort,
    /// None of the three answers.
    Unclear,
}

/// The pattern that finds a function call: a name, and in round
/// brackets two parameters in single quotes with a comma between them.
pub open spec fn function_pattern() -> Seq<char> {
    r"(\w+)\s*\(\s*'((?:[^']|\\')*)'\s*,\s*'((?:[^']|\\')*)'\s*\)"@
}

/// Whether the capture groups hold a text for group `group`.
pub open spec fn has_group(groups: Seq<Option<Seq<char>>>, group: int) -> bool {
    0 <= group < groups.len() && groups[group] is Some
}

/// The function that the capture groups of a match describe: group 1
/// is its name, groups 2 and 3 are its parameters. Where one of them
/// is missing, the first such group is the error.
pub open spec fn function_of_groups(groups: Seq<Option<Seq<char>>>) -> Result<FunctionModel, int> {
    if !has_group(groups, 1) {
        Err(1)
    } else if !has_group(groups, 2) {
        Err(2)
    } else if !has_group(groups, 3) {
        Err(3)
    } else {
        Ok(
            FunctionModel {
                name: groups[1]->0,
                parameters: seq![groups[2]->0, groups[3]->0],
            },
        )
    }
}

/// The function call that a text holds, if it holds one.
pub open spec fn function_in(text: Seq<char>) -> Option<FunctionModel> {
    if !regex_accepts(function_pattern()) {
        None
    } else {
        match regex_captures(function_pattern(), text) {
            Some(groups) => match function_of_groups(groups) {
                Ok(function) => Some(function),
                Err(_) => None,
            },
            None => None,
        }
    }
}

/// Whether `parsed` is what looking for a function call in a text
/// gives: the call that the text holds; else the reason why none is
/// found, which is that the pattern for calls is refused, that nothing
/// in the text matches it, or that the match lacks a group.
pub open spec fn found_in(text: Seq<char>, parsed: Result<Function, FunctionError>) -> bool {
    match parsed {
        Ok(function) => function_in(text) == Some(function@),
        Err(error) => {
            &&& function_in(text) is None
            &&& error is Pattern <==> !regex_accepts(function_pattern())
            &&& error is NoFunctionFound <==> regex_accepts(function_pattern()) && regex_captures(
                function_pattern(),
                text,
            ) is None
            &&& error matches FunctionError::Capture { group } ==> regex_captures(
                function_pattern(),
                text,
            ) matches Some(groups) && function_of_groups(groups) == Err::<FunctionModel, int>(
                group as int,
            )
            &&& !(error is FunctionNotFound) && !(error is NoCommand)
        },
    }
}

/// What an answer means: `yes`, `retry` or `abort`, in any mix of
/// cases and with white space around it; anything else is unclear.
pub open spec fn meaning(answer: Seq<char>) -> Confirmation {
    let word = lowercase(trim(answer));
    if word == "yes"@ {
        Confirmation::Proceed
    } else if word == "retry"@ {
        Confirmation::Retry
    } else if word == "abort"@ {
        Confirmation::Abort
    } else {
        Confirmation::Unclear
    }
}

impl Confirmation {
    /// Reads an answer.
    pub fn parse(answer: &str) -> (confirmation: Confirmation)
        ensures
            confirmation == meaning(answer@),
    {
        let trimmed = string_of(&trim_chars(&chars_of(answer)));
        let word = trimmed.as_str().to_lowercase();
        if same(word.as_str(), "yes") {
            Confirmation::Proceed
        } else if same(word.as_str(), "retry") {
            Confirmation::Retry
        } else if same(word.as_str(), "abort") {
            Confirmation::Abort
        } else {
            Confirmation::Unclear
        }
    }
}

impl Function {
    /// The function that the capture groups of a match describe.
    pub fn from_captures(groups: &Vec<Option<String>>) -> (parsed: Result<Function, FunctionError>)
        ensures
            match parsed {
                Ok(function) => function_of_groups(optional_texts(groups@)) == Ok::<
                    FunctionModel,
                    int,
                >(function@),
                Err(error) => error matches FunctionError::Capture { group } && function_of_groups(
                    optional_texts(groups@),
                ) == Err::<FunctionModel, int>(group as int),
            },
    {
        let ghost found = optional_texts(groups@);
        if groups.len() < 2 {
            return Err(FunctionError::Capture { group: 1 });
        }
        let name = match &groups[1] {
            Some(name) => name.clone(),
            None => {
                return Err(FunctionError::Capture { group: 1 });
            },
        };
        if groups.len() < 3 {
            return Err(FunctionError::Capture { group: 2 });
        }
        let first = match &groups[2] {
            Some(first) => first.clone(),
            None => {
                return Err(FunctionError::Capture { group: 2 });
            },
        };
        if groups.len() < 4 {
            return Err(FunctionError::Capture { group: 3 });
        }
        let second = match &groups[3] {
            Some(second) => second.clone(),
            None => {
                return Err(FunctionError::Capture { group: 3 });
            },
        };
        let mut parameters: Vec<String> = Vec::new();
        parameters.push(first);
        parameters.push(second);
        let function = Function { name, parameters };
        assert(function@.parameters =~= seq![found[2]->0, found[3]->0]);
        Ok(function)
    }

    /// The function call in a text. A text without one is refused, and
    /// so is a match that lacks the name or a parameter.
    pub fn parse(s: &str) -> (parsed: Result<Function, FunctionError>)
        ensures
            found_in(s@, parsed),
    {
        match capture_groups(r"(\w+)\s*\(\s*'((?:[^']|\\')*)'\s*,\s*'((?:[^']|\\')*)'\s*\)", s) {
            Err(_) => Err(FunctionError::Pattern),
            Ok(None) => Err(FunctionError::NoFunctionFound),
            Ok(Some(groups)) => Self::from_captures(&groups),
        }
    }

    pub fn get_name(&self) -> (name: &str)
        ensures
            name@ == self@.name,
    {
        self.name.as_str()
    }

    pub fn get_parameters(&self) -> (parameters: &Vec<String>)
        ensures
            *parameters == self.parameters,
    {
        &self.parameters
    }

    /// Whether a function of this name can be evaluated.
    pub fn is_known(&self) -> (known: bool)
        ensures
            known == (self@.name == "llm_generate"@),
    {
        same(self.name.as_str(), "llm_generate")
    }

    /// Refuses a function that cannot be evaluated.
    pub fn check_known(&self) -> (checked: Result<(), FunctionError>)
        ensures
            match checked {
                Ok(_) => self@.name == "llm_generate"@,
                Err(error) => self@.name != "llm_generate"@ && error is FunctionNotFound,
            },
    {
        if self.is_known() {
            Ok(())
        } else {
            Err(FunctionError::FunctionNotFound)
        }
    }

    /// The command whose output is shown to the generator along with
    /// the request: the words of the second parameter, the first of
    /// them the executable. A function with fewer than two parameters
    /// has none; a second parameter without a word is refused.
    pub fn context_command(&self) -> (command: Result<Option<ProcessCommand>, FunctionError>)
        ensures
            match command {
                Ok(Some(process)) => {
                    &&& self.parameters.len() > 1
                    &&& words(self.parameters[1]@).len() > 0
                    &&& process.program@ == words(self.parameters[1]@)[0]
                    &&& texts(process.arguments@) == words(self.parameters[1]@).skip(1)
                    &&& process.environment is None
                    &&& process.working_directory is None
                },
                Ok(None) => self.parameters.len() <= 1,
                Err(error) => self.parameters.len() > 1 && words(self.parameters[1]@).len() == 0
                    && error is NoCommand,
            },
    {
        if self.parameters.len() <= 1 {
            return Ok(None);
        }
        let parts = split_words(&chars_of(self.parameters[1].as_str()));
        if parts.len() == 0 {
            return Err(FunctionError::NoCommand);
        }
        let mut arguments: Vec<String> = Vec::new();
        let mut i: usize = 1;
        while i < parts.len()
            invariant
                1 <= i <= parts.len(),
                arguments.len() == i - 1,
                forall|j: int| 0 <= j < i - 1 ==> (#[trigger] arguments[j])@ == parts[j + 1]@,
            decreases parts.len() - i,
        {
            arguments.push(string_of(&parts[i]));
            i += 1;
        }
        assert(texts(arguments@) =~= char_texts(parts@).skip(1));
        Ok(
            Some(
                ProcessCommand {
                    program: string_of(&parts[0]),
                    arguments,
                    environment: None,
                    working_directory: None,
                },
            ),
        )
    }

    /// The request handed to the generator: the first parameter and the
    /// output of the context command, each followed by a line feed.
    pub fn prompt(&self, command_output: &str) -> (prompt: String)
        requires
            self.parameters.len() > 0,
        ensures
            prompt@ == self.parameters[0]@ + "\n"@ + command_output@ + "\n"@,
    {
        self.parameters[0].clone().concat("\n").concat(command_output).concat("\n")
    }
}

impl Clone for Function {
    fn clone(&self) -> (copy: Self)
        ensures
            copy@ == self@,
    {
        let mut parameters: Vec<String> = Vec::new();
        let mut i: usize = 0;
        while i < self.parameters.len()
            invariant
                i <= self.parameters.len(),
                parameters.len() == i,
                forall|j: int| 0 <= j < i ==> (#[trigger] parameters[j])@ == self.parameters[j]@,
            decreases self.parameters.len() - i,
        {
            parameters.push(self.parameters[i].clone());
            i += 1;
        }
        assert(texts(parameters@) =~= texts(self.parameters@));
        Function { name: self.name.clone(), parameters }
    }
}

impl std::str::FromStr for Function {
    type Err = FunctionError;

    /// The function call in a text, as `Function::parse` finds it.
    fn from_str(s: &str) -> (parsed: Result<Self, Self::Err>)
        ensures
            found_in(s@, parsed),
    {
        Function::parse(s)
    }
}

} // verus!
