use crate::text::{
    chars_of, display_name, display_name_of, last_index_of, lowercase, rfind, same, slice,
    string_of, strip_prefixes, strip_suffixes, texts, trim, trim_chars, without_prefixes,
    without_suffixes,
};
use vstd::prelude::*;
use vstd::string::StringExecFns;

verus! {

/// The program at which a variable is bound.
#[derive(Debug, Clone, Copy, PartialEq, Eq, Structural)]
pub struct VariableLifetime {
    /// Index of the program at which the variable is sure to hold a value.
    pub initialization_program_index: usize,
}

impl VariableLifetime {
    /// A lifetime that starts at the given program, or at program 0.
    pub fn new(initialization_program_index: Option<usize>) -> (lifetime: Self)
        ensures
            lifetime.initialization_program_index == match initialization_program_index {
                Some(index) => index,
                None => 0,
            },
    {
        match initialization_program_index {
            Some(index) => VariableLifetime { initialization_program_index: index },
            None => VariableLifetime { initialization_program_index: 0 },
        }
    }
}

/// When a variable receives its value.
#[derive(Debug, Clone, Copy, PartialEq, Eq, Structural)]
pub enum VariableInitializationTime {
    /// Asked for once, before the first program runs.
    OnChainStartup(VariableLifetime),
    /// Asked for just before the program that names it with
    /// `:on_program_execution` runs.
    OnProgramExecution(VariableLifetime),
    /// Taken from the output of the program that stores into it.
    Await(VariableLifetime),
}

impl VariableInitializationTime {
    /// The lifetime carried by any of the three variants.
    pub open spec fn lifetime(&self) -> VariableLifetime {
        match *self {
            VariableInitializationTime::OnChainStartup(lifetime) => lifetime,
            VariableInitializationTime::OnProgramExecution(lifetime) => lifetime,
            VariableInitializationTime::Await(lifetime) => lifetime,
        }
    }

    /// The index of the program at which the variable is bound.
    pub open spec fn program_index(&self) -> usize {
        self.lifetime().initialization_program_index
    }

    /// The index of the program at which the variable is bound.
    pub fn get_program_index(&self) -> (index: usize)
        ensures
            index == self.program_index(),
    {
        match self {
            VariableInitializationTime::OnChainStartup(lifetime) => {
                lifetime.initialization_program_index
            },
            VariableInitializationTime::OnProgramExecution(lifetime) => {
                lifetime.initialization_program_index
            },
            VariableInitializationTime::Await(lifetime) => lifetime.initialization_program_index,
        }
    }

    /// Whether the variable has been bound when this program runs: at
    /// the program of its binding and at every later one.
    pub fn is_initialized(&self, program_index: usize) -> (initialized: bool)
        ensures
            initialized == (self.program_index() <= program_index),
    {
        self.get_program_index() <= program_index
    }

    /// Whether the variable is bound by the time this program runs.
    pub fn is_satisfied_at(&self, program_index: usize) -> (satisfied: bool)
        ensures
            satisfied == (self.program_index() <= program_index),
    {
        self.get_program_index() <= program_index
    }
}

/// Why a variable gave no value.
#[derive(Debug)]
pub enum VariableError {
    /// The variable of this name holds no value yet.
    EmptyValue { name: String },
    /// No variable of this name is known.
    Unknown { name: String },
}

impl VariableError {
    /// The error in words.
    pub fn message(&self) -> (text: String)
        ensures
            text@ == match *self {
                VariableError::EmptyValue { name } => "Value for "@ + name@ + " is empty"@,
                VariableError::Unknown { name } => "Variable "@ + name@ + " does not exist!"@,
            },
    {
        match self {
            VariableError::EmptyValue { name } => String::from_str("Value for ").concat(
                name.as_str(),
            ).concat(" is empty"),
            VariableError::Unknown { name } => String::from_str("Variable ").concat(
                name.as_str(),
            ).concat(" does not exist!"),
        }
    }
}

/// A named value that is substituted into the arguments of programs.
#[derive(Debug)]
pub struct Variable {
    /// The name, without markers or qualifier.
    pub name: String,
    /// The value, once it is known.
    pub value: Option<String>,
    /// When the value is supplied.
    pub initialization_time: VariableInitializationTime,
    /// The name shown to a person who is asked for the value.
    pub human_readable_name: String,
}

/// What a variable is, as plain data.
pub ghost struct VariableModel {
    pub name: Seq<char>,
    pub value: Option<Seq<char>>,
    pub initialization_time: VariableInitializationTime,
    pub human_readable_name: Seq<char>,
}

impl View for Variable {
    type V = VariableModel;

    open spec fn view(&self) -> VariableModel {
        VariableModel {
            name: self.name@,
            value: match self.value {
                Some(value) => Some(value@),
                None => None,
            },
            initialization_time: self.initialization_time,
            human_readable_name: self.human_readable_name@,
        }
    }
}

/// The models of a list of variables.
pub open spec fn models(variables: Seq<Variable>) -> Seq<VariableModel> {
    variables.map_values(|variable: Variable| variable@)
}

/// The placeholder as written in arguments: the name between `<<` and
/// `>>`, with `:on_program_execution` after the name of a variable that
/// is asked for when its program runs.
pub open spec fn raw_name(name: Seq<char>, time: VariableInitializationTime) -> Seq<char> {
    if time is OnProgramExecution {
        "<<"@ + name + ":"@ + "on_program_execution"@ + ">>"@
    } else {
        "<<"@ + name + ">>"@
    }
}

/// What stands between the markers of a matched placeholder: the match
/// without its leading `<` and trailing `>`.
pub open spec fn token_of_match(matched: Seq<char>) -> Seq<char> {
    without_suffixes(without_prefixes(matched, seq!['<']), seq!['>'])
}

/// The tokens of a list of matched placeholders.
pub open spec fn tokens_of_matches(matches: Seq<Seq<char>>) -> Seq<Seq<char>> {
    matches.map_values(|matched: Seq<char>| token_of_match(matched))
}

/// The position of the first `>` in `s` from `k` on; the length of `s`
/// where there is none.
pub open spec fn content_end(s: Seq<char>, k: int) -> int
    decreases s.len() - k,
{
    if k < 0 || k >= s.len() {
        s.len() as int
    } else if s[k] == '>' {
        k
    } else {
        content_end(s, k + 1)
    }
}

/// Where the placeholder that starts at `p` ends, if one starts there:
/// `<<`, then characters other than `>`, then `>>`.
pub open spec fn placeholder_at(s: Seq<char>, p: int) -> Option<int> {
    if 0 <= p && p + 1 < s.len() && s[p] == '<' && s[p + 1] == '<' {
        let close = content_end(s, p + 2);
        if close + 1 < s.len() && s[close + 1] == '>' {
            Some(close + 2)
        } else {
            None
        }
    } else {
        None
    }
}

/// The placeholders in `s` from `i` on, markers included: each is the
/// first that starts at or after the end of the one before it.
pub open spec fn placeholders_from(s: Seq<char>, i: int) -> Seq<Seq<char>>
    decreases s.len() - i,
{
    if i < 0 || i >= s.len() {
        Seq::empty()
    } else {
        match placeholder_at(s, i) {
            Some(end) => if i < end <= s.len() {
                seq![s.subrange(i, end)] + placeholders_from(s, end)
            } else {
                Seq::empty()
            },
            None => placeholders_from(s, i + 1),
        }
    }
}

/// The tokens of the placeholders in a text, in the order in which they
/// stand.
pub open spec fn placeholder_tokens(text: Seq<char>) -> Seq<Seq<char>> {
    tokens_of_matches(placeholders_from(text, 0))
}

/// The first `>` from `k` on lies between `k` and the end.
pub proof fn lemma_content_end_bounds(s: Seq<char>, k: int)
    requires
        0 <= k <= s.len(),
    ensures
        k <= content_end(s, k) <= s.len(),
        forall|j: int| k <= j < content_end(s, k) ==> s[j] != '>',
        content_end(s, k) < s.len() ==> s[content_end(s, k)] == '>',
    decreases s.len() - k,
{
    if k < s.len() && s[k] != '>' {
        lemma_content_end_bounds(s, k + 1);
    }
}

/// A placeholder starts with `<<`, ends with `>>`, and holds no `>`
/// between its markers.
pub proof fn lemma_placeholder_shape(s: Seq<char>, p: int)
    requires
        placeholder_at(s, p) is Some,
    ensures
        ({
            let end = placeholder_at(s, p)->0;
            &&& 0 <= p && p + 4 <= end <= s.len()
            &&& s[p] == '<' && s[p + 1] == '<'
            &&& s[end - 2] == '>' && s[end - 1] == '>'
            &&& forall|j: int| p + 2 <= j < end - 2 ==> s[j] != '>'
        }),
{
    lemma_content_end_bounds(s, p + 2);
}

/// The name in a token: what stands before its last colon, or all of it.
pub open spec fn name_of_token(token: Seq<char>) -> Seq<char> {
    let colon = last_index_of(token, ':');
    if colon < 0 {
        token
    } else {
        token.take(colon)
    }
}

/// Whether a token's qualifier, the text after its last colon, reads
/// `on_program_execution` in any mix of cases.
pub open spec fn asks_on_program_execution(token: Seq<char>) -> bool {
    let colon = last_index_of(token, ':');
    colon >= 0 && lowercase(token.skip(colon + 1)) == "on_program_execution"@
}

/// When the variable of a token found in program `program_index` is
/// bound: at that program where the qualifier asks so, else at startup.
pub open spec fn time_of_token(token: Seq<char>, program_index: usize) -> VariableInitializationTime {
    if asks_on_program_execution(token) {
        VariableInitializationTime::OnProgramExecution(
            VariableLifetime { initialization_program_index: program_index },
        )
    } else {
        VariableInitializationTime::OnChainStartup(
            VariableLifetime { initialization_program_index: 0 },
        )
    }
}

/// The variable that a token found in program `program_index` refers to.
pub open spec fn reference(token: Seq<char>, program_index: usize) -> VariableModel {
    VariableModel {
        name: name_of_token(token),
        value: None,
        initialization_time: time_of_token(token, program_index),
        human_readable_name: display_name(name_of_token(token)),
    }
}

/// The variables that a list of tokens found in one program refers to.
pub open spec fn references(tokens: Seq<Seq<char>>, program_index: usize) -> Seq<VariableModel> {
    tokens.map_values(|token: Seq<char>| reference(token, program_index))
}

/// The variables that a text in program `program_index` refers to.
pub open spec fn references_in(text: Seq<char>, program_index: usize) -> Seq<VariableModel> {
    references(placeholder_tokens(text), program_index)
}

/// The name that a program's `stdout_stored_to` declares: the text
/// without the white space around it and without the markers.
pub open spec fn awaited_name(declared: Seq<char>) -> Seq<char> {
    without_suffixes(without_prefixes(trim(declared), "<<"@), ">>"@)
}

/// The variable that a program at `program_index` declares as the place
/// of its output.
pub open spec fn awaited(declared: Seq<char>, program_index: usize) -> VariableModel {
    VariableModel {
        name: awaited_name(declared),
        value: None,
        initialization_time: VariableInitializationTime::Await(
            VariableLifetime { initialization_program_index: program_index },
        ),
        human_readable_name: display_name(awaited_name(declared)),
    }
}

impl Variable {
    /// A variable; where no name for people is given, one is made from
    /// the variable's name.
    pub fn new(
        name: String,
        value: Option<String>,
        human_readable_name: Option<String>,
        initialization_time: VariableInitializationTime,
    ) -> (variable: Self)
        ensures
            variable.name == name,
            variable.value == value,
            variable.initialization_time == initialization_time,
            variable.human_readable_name@ == match human_readable_name {
                Some(given) => given@,
                None => display_name(name@),
            },
    {
        let human_readable_name = match human_readable_name {
            Some(given) => given,
            None => string_of(&display_name_of(&chars_of(name.as_str()))),
        };
        Variable { name, value, initialization_time, human_readable_name }
    }

    /// The variables that the tokens found in one program refer to, none
    /// of them with a value.
    pub fn from_names(names: &Vec<String>, program_index: usize) -> (variables: Vec<Variable>)
        ensures
            models(variables@) == references(texts(names@), program_index),
    {
        let mut variables: Vec<Variable> = Vec::new();
        let mut i: usize = 0;
        while i < names.len()
            invariant
                i <= names.len(),
                variables.len() == i,
                forall|j: int| 0 <= j < i ==> (#[trigger] variables[j])@ == reference(
                    names[j]@,
                    program_index,
                ),
            decreases names.len() - i,
        {
            let (name, time) = Self::parse_initialization_time(names[i].as_str(), program_index);
            let variable = Variable::new(name, None, None, time);
            variables.push(variable);
            i += 1;
        }
        assert(models(variables@) =~= references(texts(names@), program_index));
        variables
    }

    /// Every variable that a text in program `program_index` refers to,
    /// in the order of the placeholders.
    pub fn parse_variables_from_str(s: &str, program_index: usize) -> (parsed: Result<
        Vec<Variable>,
        VariableError,
    >)
        ensures
            parsed matches Ok(variables) && models(variables@) == references_in(
                s@,
                program_index,
            ),
    {
        let names = Self::extract_variable_names(s);
        Ok(Self::from_names(&names, program_index))
    }

    /// Splits a token into the variable's name and the time at which it
    /// is bound.
    pub fn parse_initialization_time(s: &str, program_index: usize) -> (parsed: (
        String,
        VariableInitializationTime,
    ))
        ensures
            parsed.0@ == name_of_token(s@),
            parsed.1 == time_of_token(s@, program_index),
    {
        let chars = chars_of(s);
        match rfind(&chars, ':') {
            Some(colon) => {
                let name = string_of(&slice(&chars, 0, colon));
                let qualifier = string_of(&slice(&chars, colon + 1, chars.len()));
                let lowered = qualifier.as_str().to_lowercase();
                assert(chars@.skip(colon + 1) =~= chars@.subrange(colon + 1, chars.len() as int));
                let time = if same(lowered.as_str(), "on_program_execution") {
                    VariableInitializationTime::OnProgramExecution(
                        VariableLifetime::new(Some(program_index)),
                    )
                } else {
                    VariableInitializationTime::OnChainStartup(VariableLifetime::new(None))
                };
                (name, time)
            },
            None => (
                string_of(&chars),
                VariableInitializationTime::OnChainStartup(VariableLifetime::new(None)),
            ),
        }
    }

    /// The variable that a program declares as the place of its output.
    pub fn parse_await_variable(s: &str, program_index: usize) -> (variable: Variable)
        ensures
            variable@ == awaited(s@, program_index),
    {
        let trimmed = trim_chars(&chars_of(s));
        let opened = strip_prefixes(&trimmed, &chars_of("<<"));
        let name = string_of(&strip_suffixes(&opened, &chars_of(">>")));
        Variable::new(
            name,
            None,
            None,
            VariableInitializationTime::Await(VariableLifetime::new(Some(program_index))),
        )
    }

    /// The tokens of a list of matched placeholders.
    pub fn names_in_matches(matches: &Vec<String>) -> (names: Vec<String>)
        ensures
            texts(names@) == tokens_of_matches(texts(matches@)),
    {
        let mut names: Vec<String> = Vec::new();
        let open: Vec<char> = vec!['<'];
        let close: Vec<char> = vec!['>'];
        assert(open@ =~= seq!['<']);
        assert(close@ =~= seq!['>']);
        let mut i: usize = 0;
        while i < matches.len()
            invariant
                i <= matches.len(),
                open@ == seq!['<'],
                close@ == seq!['>'],
                names.len() == i,
                forall|j: int| 0 <= j < i ==> (#[trigger] names[j])@ == token_of_match(matches[j]@),
            decreases matches.len() - i,
        {
            let matched = chars_of(matches[i].as_str());
            let name = string_of(&strip_suffixes(&strip_prefixes(&matched, &open), &close));
            names.push(name);
            i += 1;
        }
        assert(texts(names@) =~= tokens_of_matches(texts(matches@)));
        names
    }

    /// Where the placeholder that starts at `p` ends, if one starts there.
    pub fn placeholder_end(s: &Vec<char>, p: usize) -> (end: Option<usize>)
        ensures
            match end {
                Some(end) => placeholder_at(s@, p as int) == Some(end as int) && p + 4 <= end
                    <= s.len(),
                None => placeholder_at(s@, p as int) is None,
            },
    {
        if p >= s.len() || s.len() - p < 2 || s[p] != '<' || s[p + 1] != '<' {
            return None;
        }
        let mut close: usize = p + 2;
        while close < s.len() && s[close] != '>'
            invariant
                p + 2 <= close <= s.len(),
                content_end(s@, p + 2) == content_end(s@, close as int),
            decreases s.len() - close,
        {
            close += 1;
        }
        if close < s.len() && s.len() - close >= 2 && s[close + 1] == '>' {
            Some(close + 2)
        } else {
            None
        }
    }

    /// The placeholders in a text, markers included, in the order in
    /// which they stand.
    pub fn find_placeholders(s: &str) -> (found: Vec<String>)
        ensures
            texts(found@) == placeholders_from(s@, 0),
    {
        let chars = chars_of(s);
        let mut found: Vec<String> = Vec::new();
        let mut i: usize = 0;
        assert(texts(found@) + placeholders_from(chars@, 0) =~= placeholders_from(chars@, 0));
        while i < chars.len()
            invariant
                i <= chars.len(),
                texts(found@) + placeholders_from(chars@, i as int) == placeholders_from(
                    chars@,
                    0,
                ),
            decreases chars.len() - i,
        {
            let ghost before = texts(found@);
            match Self::placeholder_end(&chars, i) {
                Some(end) => {
                    found.push(string_of(&slice(&chars, i, end)));
                    assert(texts(found@) =~= before.push(chars@.subrange(i as int, end as int)));
                    assert(texts(found@) + placeholders_from(chars@, end as int) =~= before
                        + placeholders_from(chars@, i as int));
                    i = end;
                },
                None => {
                    i += 1;
                },
            }
        }
        assert(texts(found@) + Seq::<Seq<char>>::empty() =~= texts(found@));
        found
    }

    /// The tokens of the placeholders in a text, in the order in which
    /// they stand.
    pub fn extract_variable_names(s: &str) -> (names: Vec<String>)
        ensures
            texts(names@) == placeholder_tokens(s@),
    {
        Self::names_in_matches(&Self::find_placeholders(s))
    }

    /// Gives the variable a value, in place of any it had.
    pub fn register_value(&mut self, value: &str)
        ensures
            final(self)@ == (VariableModel { value: Some(value@), ..old(self)@ }),
    {
        self.value = Some(String::from_str(value));
    }

    /// The value; an error names the variable where there is none yet.
    pub fn get_value(&self) -> (value: Result<String, VariableError>)
        ensures
            match value {
                Ok(text) => self@.value == Some(text@),
                Err(error) => {
                    &&& self@.value is None
                    &&& error matches VariableError::EmptyValue { name } && name@ == self@.name
                },
            },
    {
        match &self.value {
            Some(value) => Ok(value.clone()),
            None => Err(VariableError::EmptyValue { name: self.name.clone() }),
        }
    }

    /// The name shown to a person who is asked for the value.
    pub fn get_human_readable_name(&self) -> (name: &str)
        ensures
            name@ == self@.human_readable_name,
    {
        self.human_readable_name.as_str()
    }

    /// The name, without markers or qualifier.
    pub fn get_variable_name(&self) -> (name: &str)
        ensures
            name@ == self@.name,
    {
        self.name.as_str()
    }

    /// The placeholder that stands for this variable in arguments.
    pub fn get_raw_variable_name(&self) -> (raw: String)
        ensures
            raw@ == raw_name(self@.name, self@.initialization_time),
    {
        match self.initialization_time {
            VariableInitializationTime::OnProgramExecution(_) => String::from_str("<<").concat(
                self.name.as_str(),
            ).concat(":").concat("on_program_execution").concat(">>"),
            _ => String::from_str("<<").concat(self.name.as_str()).concat(">>"),
        }
    }

    /// When the value is supplied.
    pub fn get_initialization_time(&self) -> (time: VariableInitializationTime)
        ensures
            time == self@.initialization_time,
    {
        self.initialization_time
    }
}

impl Clone for Variable {
    fn clone(&self) -> (copy: Self)
        ensures
            copy == *self,
    {
        Variable {
            name: self.name.clone(),
            value: match &self.value {
                Some(value) => Some(value.clone()),
                None => None,
            },
            initialization_time: self.initialization_time,
            human_readable_name: self.human_readable_name.clone(),
        }
    }
}

/// The registry once an output has been stored under a name: the
/// variable of that name that awaits an output holds it, and no other
/// variable changes.
pub open spec fn stored(registry: Seq<VariableModel>, name: Seq<char>, output: Seq<char>) -> Seq<
    VariableModel,
> {
    registry.map_values(
        |variable: VariableModel|
            if variable.name == name && variable.initialization_time is Await {
                VariableModel { value: Some(output), ..variable }
            } else {
                variable
            },
    )
}

/// The position of the first variable of this name, looking from `from`
/// on; the length of the registry where there is none.
pub open spec fn first_named(registry: Seq<VariableModel>, name: Seq<char>, from: int) -> int
    decreases registry.len() - from,
{
    if from < 0 || from >= registry.len() {
        registry.len() as int
    } else if registry[from].name == name {
        from
    } else {
        first_named(registry, name, from + 1)
    }
}

/// Finds the first variable of this name, looking from `from` on.
pub fn find_named(registry: &Vec<Variable>, name: &str, from: usize) -> (position: usize)
    ensures
        position == first_named(models(registry@), name@, from as int),
        from <= registry.len() ==> from <= position <= registry.len(),
    decreases registry.len() - from,
{
    if from >= registry.len() {
        registry.len()
    } else if same(registry[from].name.as_str(), name) {
        from
    } else {
        find_named(registry, name, from + 1)
    }
}

/// A group of variables that are read and written by name.
pub trait VariableGroupControl {
    /// The variables of the group, in order.
    spec fn group(&self) -> Seq<VariableModel>;

    /// Stores an output under the name of a variable: the variable of
    /// that name that awaits an output holds it. No other variable
    /// changes, and a group without such a variable stays as it is.
    fn update_value(&mut self, variable_name: &str, value: String)
        ensures
            final(self).group() == stored(old(self).group(), variable_name@, value@),
    ;

    /// The value of the first variable of this name. A group without
    /// such a variable, and a variable without a value, give an error.
    fn get_value(&self, variable_name: &str) -> (value: Result<String, VariableError>)
        ensures
            match value {
                Ok(text) => {
                    let position = first_named(self.group(), variable_name@, 0);
                    position < self.group().len() && self.group()[position].value == Some(text@)
                },
                Err(error) => {
                    let position = first_named(self.group(), variable_name@, 0);
                    if position < self.group().len() {
                        &&& self.group()[position].value is None
                        &&& error matches VariableError::EmptyValue { name } && name@
                            == variable_name@
                    } else {
                        error matches VariableError::Unknown { name } && name@ == variable_name@
                    }
                },
            },
    ;
}

} // verus!
