use crate::commons::packages::{has_package, names_of, AvailablePackages, Package};
use crate::engine::command::{injected, joined, CommandLineModel};
use crate::engine::program::{
    program_models, stored_text, ProcessError, Program, ProgramExecutionResult, ProgramModel,
};
use crate::engine::registry::{
    awaits, binds_all, build_registry, collect_unbound_in_arguments, distinct_names,
    due_at_startup, due_for_program, inject_program, injected_program, knows_program,
    lemma_inject_keeps_count, lemma_inject_single, lemma_registry_knows_every_variable,
    lemma_valid_chain_binds_every_placeholder, registry_of, store_output, store_output_of,
    stored_by, supplied, unbound_in_program, unbound_models, unbound_upto, UnboundModel,
    UnboundVariable, violations,
};
use crate::engine::traits::{Execution, ExecutionType};
use crate::function::{function_in, Function};
use crate::text::{chars_of, string_of, trim_chars};
use crate::variable::{
    awaited_name, find_named, models, stored, Variable, VariableError,
    VariableGroupControl, VariableInitializationTime, VariableModel,
};
use vstd::prelude::*;
use vstd::string::StringExecFns;

verus! {

/// What a chain reports when it has run.
#[derive(Debug)]
pub struct ChainExecutionResult {
    pub output: String,
}

impl ChainExecutionResult {
    pub fn new(output: String) -> (result: Self)
        ensures
            result.output == output,
    {
        Self { output }
    }
}

/// What a run of a chain amounts to.
#[derive(Debug, Clone, Copy, PartialEq, Eq, Structural)]
pub struct Summary {
    /// How many programs failed for good.
    pub failed_count: usize,
}

/// The first failure of a batch that ends the chain.
#[derive(Debug)]
pub enum Fatal {
    /// The remedy of this program failed.
    Remedy { program: usize, cause: ProcessError },
    /// This program failed and asks the chain to stop.
    Program { program: usize, cause: ProcessError },
}

/// Why a chain was refused or did not run to its end.
#[derive(Debug)]
pub enum ChainError {
    /// Placeholders that no variable fills in time: every one of them.
    UninitializedVariables { violations: Vec<UnboundVariable> },
    /// A function in an argument gave no result.
    FunctionEvaluation { program: usize, argument: usize, reason: String },
    /// The remedy of a failed program failed itself.
    Remedy { program: usize, cause: ProcessError },
    /// A program failed and asked the chain to stop.
    Aborted { program: usize, cause: ProcessError, failed_count: usize },
    /// The chain was handed an event that it did not wait for.
    Unexpected,
}

impl ChainError {
    /// The error in words.
    pub open spec fn text(&self) -> Seq<char> {
        match *self {
            ChainError::UninitializedVariables { violations } => "Check is not passed. 😢"@,
            ChainError::FunctionEvaluation { program, argument, reason } => reason@,
            ChainError::Remedy { program, cause } => cause.text(),
            ChainError::Aborted { program, cause, failed_count } => cause.text(),
            ChainError::Unexpected => "The chain did not wait for this event"@,
        }
    }

    /// The error in words.
    pub fn message(&self) -> (text: String)
        ensures
            text@ == self.text(),
    {
        match self {
            ChainError::UninitializedVariables { violations } => String::from_str(
                "Check is not passed. 😢",
            ),
            ChainError::FunctionEvaluation { program, argument, reason } => reason.clone(),
            ChainError::Remedy { program, cause } => cause.message(),
            ChainError::Aborted { program, cause, failed_count } => cause.message(),
            ChainError::Unexpected => String::from_str("The chain did not wait for this event"),
        }
    }
}

/// What a chain waits for between two steps of a run.
#[derive(Debug, Clone, Copy, PartialEq, Eq, Structural)]
pub enum Waiting {
    /// No run is under way.
    Nothing,
    /// The value of a variable that is asked for at startup.
    StartupInput { variable: usize },
    /// The value of a variable that is asked for before `program`, a
    /// member of the batch of `len` programs that starts at `first`.
    ProgramInput { first: usize, len: usize, program: usize, variable: usize },
    /// The result of the function in an argument of `program`.
    Evaluation { first: usize, len: usize, program: usize, argument: usize },
    /// The outcomes of the batch of `len` programs that starts at `first`.
    Batch { first: usize, len: usize },
    /// The outcome of the remedy of member `member` of the batch.
    Remedy { first: usize, len: usize, member: usize },
}

/// Where a run stands when it looks for the next thing to do.
#[derive(Debug, Clone, Copy, PartialEq, Eq, Structural)]
pub enum Cursor {
    /// At the variables asked for at startup, from `variable` on.
    Startup { variable: usize },
    /// At the start of the batch that begins with program `first`.
    Batch { first: usize },
    /// At the variables asked for before `program`, from `variable` on.
    Inputs { first: usize, len: usize, program: usize, variable: usize },
    /// At the arguments of `program`, from `argument` on.
    Functions { first: usize, len: usize, program: usize, argument: usize },
    /// At the outcome of member `member` of a batch that has run.
    Settle { first: usize, len: usize, member: usize },
}

/// What the surroundings report to a chain.
#[derive(Debug)]
pub enum ChainEvent {
    /// A run is asked for.
    Start,
    /// What a person typed at the prompt.
    Input(String),
    /// What the function gave, or why it gave nothing.
    Evaluated(Result<String, String>),
    /// How each program of the batch ended, in the batch's order.
    Completed(Vec<Result<ProgramExecutionResult, ProcessError>>),
    /// How the remedy ended.
    Remedied(Result<(), ProcessError>),
}

/// What a chain asks of its surroundings.
#[derive(Debug)]
pub enum ChainAction {
    /// Ask a person for the value of this variable, then report `Input`.
    Prompt { variable: usize },
    /// Evaluate the function in this argument, then report `Evaluated`.
    Evaluate { program: usize, argument: usize },
    /// Run programs `first` to `first + len`, together where there are
    /// several, each by its own retry setting; then report `Completed`.
    Run { first: usize, len: usize },
    /// Run the remedy of this program, then report `Remedied`.
    Remedy { program: usize },
    /// The run is over.
    Finish(Result<Summary, ChainError>),
}

/// A chain at one moment of its life, as plain data.
pub ghost struct ChainState {
    pub programs: Seq<ProgramModel>,
    pub variables: Seq<VariableModel>,
    pub failed: nat,
    pub waiting: Waiting,
    pub outcomes: Seq<Result<ProgramExecutionResult, ProcessError>>,
    pub fatal: Option<Fatal>,
}

/// The end of the run of programs, from `k` on, that carry `tag`.
pub open spec fn run_end(programs: Seq<ProgramModel>, tag: Option<usize>, k: int) -> int
    decreases programs.len() - k,
{
    if 0 <= k < programs.len() && programs[k].concurrency_group == tag {
        run_end(programs, tag, k + 1)
    } else {
        k
    }
}

/// The size of the batch that starts at `first`: one for a program
/// without a concurrency group, else the length of the run of
/// neighbours that share its group.
pub open spec fn batch_len(programs: Seq<ProgramModel>, first: int) -> int {
    if programs[first].concurrency_group is None {
        1
    } else {
        run_end(programs, programs[first].concurrency_group, first + 1) - first
    }
}

/// Whether `len` programs from `first` on lie within the chain.
pub open spec fn in_chain(state: ChainState, first: usize, len: usize) -> bool {
    1 <= len && first + len <= state.programs.len()
}

/// Whether a cursor points into the chain.
pub open spec fn fits(state: ChainState, cursor: Cursor) -> bool {
    &&& state.programs.len() <= usize::MAX
    &&& state.variables.len() <= usize::MAX
    &&& state.failed <= usize::MAX
    &&& match cursor {
        Cursor::Startup { variable } => variable <= state.variables.len(),
        Cursor::Batch { first } => first <= state.programs.len(),
        Cursor::Inputs { first, len, program, variable } => {
            &&& in_chain(state, first, len)
            &&& first <= program < first + len
            &&& variable <= state.variables.len()
        },
        Cursor::Functions { first, len, program, argument } => {
            &&& in_chain(state, first, len)
            &&& first <= program < first + len
            &&& argument <= state.programs[program as int].command_line.arguments.len()
                <= usize::MAX
        },
        Cursor::Settle { first, len, member } => {
            &&& in_chain(state, first, len)
            &&& member <= len
            &&& state.outcomes.len() == len
        },
    }
}

/// The state of a chain whose run has ended.
pub open spec fn halted(state: ChainState) -> ChainState {
    ChainState { waiting: Waiting::Nothing, outcomes: Seq::empty(), fatal: None, ..state }
}

/// The error that a fatal failure ends the chain with.
pub open spec fn error_of(fatal: Fatal, failed: nat) -> ChainError {
    match fatal {
        Fatal::Remedy { program, cause } => ChainError::Remedy { program, cause },
        Fatal::Program { program, cause } => ChainError::Aborted {
            program,
            cause,
            failed_count: failed as usize,
        },
    }
}

/// The registry once the program at `index` has succeeded with this
/// output: the variable that the program declares for its output holds
/// it, provided that it awaits this program and no other.
pub open spec fn kept(
    registry: Seq<VariableModel>,
    program: ProgramModel,
    index: int,
    output: Seq<char>,
) -> Seq<VariableModel> {
    match program.stdout_stored_to {
        Some(name) => stored_by(registry, awaited_name(name), index, output),
        None => registry,
    }
}

/// The first fatal failure once a program has failed for good and its
/// remedy, if it has one, is done: the one noted before, else the
/// failure of the remedy, else that of the program where it asks the
/// chain to stop.
pub open spec fn noted(
    state: ChainState,
    program: usize,
    cause: ProcessError,
    remedy: Result<(), ProcessError>,
) -> Option<Fatal> {
    if state.fatal is Some {
        state.fatal
    } else {
        match remedy {
            Err(error) => Some(Fatal::Remedy { program, cause: error }),
            Ok(_) => if state.programs[program as int].exit_on_failure {
                Some(Fatal::Program { program, cause })
            } else {
                None
            },
        }
    }
}

/// The programs once an argument of one of them has been replaced.
pub open spec fn revised(
    programs: Seq<ProgramModel>,
    program: int,
    argument: int,
    text: Seq<char>,
) -> Seq<ProgramModel> {
    programs.update(
        program,
        ProgramModel {
            command_line: CommandLineModel {
                arguments: programs[program].command_line.arguments.update(argument, text),
                ..programs[program].command_line
            },
            ..programs[program]
        },
    )
}

/// How many programs are left from the batch at hand on.
pub open spec fn rank_programs(state: ChainState, cursor: Cursor) -> int {
    match cursor {
        Cursor::Startup { variable } => (state.programs.len() + 1) as int,
        Cursor::Batch { first } => state.programs.len() - first,
        Cursor::Inputs { first, len, program, variable } => state.programs.len() - first,
        Cursor::Functions { first, len, program, argument } => state.programs.len() - first,
        Cursor::Settle { first, len, member } => state.programs.len() - first,
    }
}

/// How many members of the batch at hand are left.
pub open spec fn rank_members(state: ChainState, cursor: Cursor) -> int {
    match cursor {
        Cursor::Startup { variable } => 0,
        Cursor::Batch { first } => state.programs.len() - first + 1,
        Cursor::Inputs { first, len, program, variable } => state.programs.len() - program,
        Cursor::Functions { first, len, program, argument } => state.programs.len() - program,
        Cursor::Settle { first, len, member } => len - member,
    }
}

/// How many stages of preparing the member at hand are left.
pub open spec fn rank_stage(cursor: Cursor) -> int {
    match cursor {
        Cursor::Inputs { first, len, program, variable } => 1,
        _ => 0,
    }
}

/// How many variables or arguments of the stage at hand are left.
pub open spec fn rank_items(state: ChainState, cursor: Cursor) -> int {
    match cursor {
        Cursor::Startup { variable } => state.variables.len() - variable,
        Cursor::Inputs { first, len, program, variable } => state.variables.len() - variable,
        Cursor::Functions { first, len, program, argument } => state.programs[program as int].command_line.arguments.len()
            - argument,
        _ => 0,
    }
}

/// What a run does from a cursor on, up to the next thing that it asks
/// of its surroundings: the state it is left in, and what it asks.
///
/// At startup every variable that is due is asked for, in the order of
/// the registry. Then batch after batch is taken. Each member of a
/// batch is prepared: the variables due for it are asked for, the
/// functions in its arguments are evaluated, and the variables with a
/// value are put into its arguments. The batch is run, and its
/// outcomes are settled in order: the output of a program that
/// succeeded is stored; a program that failed is counted, its remedy
/// is run where it has one, and a failure that ends the chain is noted.
/// Once the batch is settled the chain ends with the first such
/// failure, or goes on with the next batch; after the last it ends
/// with the number of programs that failed.
pub open spec fn proceed(state: ChainState, cursor: Cursor) -> (ChainState, ChainAction)
    decreases rank_programs(state, cursor), rank_members(state, cursor), rank_stage(cursor),
        rank_items(state, cursor),
{
    if !fits(state, cursor) {
        (halted(state), ChainAction::Finish(Err(ChainError::Unexpected)))
    } else {
        match cursor {
            Cursor::Startup { variable } => {
                if variable >= state.variables.len() {
                    proceed(state, Cursor::Batch { first: 0 })
                } else if due_at_startup(state.variables[variable as int]) {
                    (
                        ChainState { waiting: Waiting::StartupInput { variable }, ..state },
                        ChainAction::Prompt { variable },
                    )
                } else {
                    proceed(state, Cursor::Startup { variable: (variable + 1) as usize })
                }
            },
            Cursor::Batch { first } => {
                if first >= state.programs.len() {
                    (
                        halted(state),
                        ChainAction::Finish(Ok(Summary { failed_count: state.failed as usize })),
                    )
                } else {
                    proceed(
                        state,
                        Cursor::Inputs {
                            first,
                            len: #[verifier::truncate]
                            (batch_len(state.programs, first as int) as usize),
                            program: first,
                            variable: 0,
                        },
                    )
                }
            },
            Cursor::Inputs { first, len, program, variable } => {
                if variable >= state.variables.len() {
                    proceed(state, Cursor::Functions { first, len, program, argument: 0 })
                } else if due_for_program(state.variables[variable as int], program as int) {
                    (
                        ChainState {
                            waiting: Waiting::ProgramInput { first, len, program, variable },
                            ..state
                        },
                        ChainAction::Prompt { variable },
                    )
                } else {
                    proceed(
                        state,
                        Cursor::Inputs { first, len, program, variable: (variable + 1) as usize },
                    )
                }
            },
            Cursor::Functions { first, len, program, argument } => {
                let arguments = state.programs[program as int].command_line.arguments;
                if argument >= arguments.len() {
                    let prepared = ChainState {
                        programs: state.programs.update(
                            program as int,
                            injected_program(state.programs[program as int], state.variables),
                        ),
                        ..state
                    };
                    if program + 1 < first + len {
                        proceed(
                            prepared,
                            Cursor::Inputs {
                                first,
                                len,
                                program: (program + 1) as usize,
                                variable: 0,
                            },
                        )
                    } else {
                        (
                            ChainState { waiting: Waiting::Batch { first, len }, ..prepared },
                            ChainAction::Run { first, len },
                        )
                    }
                } else if function_in(arguments[argument as int]) is Some {
                    (
                        ChainState {
                            waiting: Waiting::Evaluation { first, len, program, argument },
                            ..state
                        },
                        ChainAction::Evaluate { program, argument },
                    )
                } else {
                    proceed(
                        state,
                        Cursor::Functions { first, len, program, argument: (argument + 1) as usize },
                    )
                }
            },
            Cursor::Settle { first, len, member } => {
                if member >= len {
                    match state.fatal {
                        Some(fatal) => (
                            halted(state),
                            ChainAction::Finish(Err(error_of(fatal, state.failed))),
                        ),
                        None => proceed(
                            ChainState { outcomes: Seq::empty(), ..state },
                            Cursor::Batch { first: (first + len) as usize },
                        ),
                    }
                } else {
                    let program = (first + member) as usize;
                    let next = Cursor::Settle { first, len, member: (member + 1) as usize };
                    match state.outcomes[member as int] {
                        Ok(result) => proceed(
                            ChainState {
                                variables: kept(
                                    state.variables,
                                    state.programs[program as int],
                                    program as int,
                                    result.output@,
                                ),
                                ..state
                            },
                            next,
                        ),
                        Err(cause) => {
                            let counted = ChainState { failed: state.failed + 1, ..state };
                            if state.programs[program as int].remedy_command_line is Some {
                                (
                                    ChainState {
                                        waiting: Waiting::Remedy { first, len, member },
                                        ..counted
                                    },
                                    ChainAction::Remedy { program },
                                )
                            } else {
                                proceed(
                                    ChainState {
                                        fatal: noted(counted, program, cause, Ok(())),
                                        ..counted
                                    },
                                    next,
                                )
                            }
                        },
                    }
                }
            },
        }
    }
}

/// What a chain does when its surroundings report an event: the state
/// it is left in, and what it asks next. An event that the chain does
/// not wait for ends the run.
pub open spec fn step(state: ChainState, event: ChainEvent) -> (ChainState, ChainAction) {
    let refused = (halted(state), ChainAction::Finish(Err(ChainError::Unexpected)));
    match state.waiting {
        Waiting::Nothing => match event {
            ChainEvent::Start => proceed(
                ChainState { failed: 0, ..halted(state) },
                Cursor::Startup { variable: 0 },
            ),
            _ => refused,
        },
        Waiting::StartupInput { variable } => match event {
            ChainEvent::Input(text) => proceed(
                ChainState { variables: supplied(state.variables, variable as int, text@), ..state },
                Cursor::Startup { variable: (variable + 1) as usize },
            ),
            _ => refused,
        },
        Waiting::ProgramInput { first, len, program, variable } => match event {
            ChainEvent::Input(text) => proceed(
                ChainState { variables: supplied(state.variables, variable as int, text@), ..state },
                Cursor::Inputs { first, len, program, variable: (variable + 1) as usize },
            ),
            _ => refused,
        },
        Waiting::Evaluation { first, len, program, argument } => match event {
            ChainEvent::Evaluated(Ok(text)) => proceed(
                ChainState {
                    programs: revised(state.programs, program as int, argument as int, text@),
                    ..state
                },
                Cursor::Functions { first, len, program, argument: (argument + 1) as usize },
            ),
            ChainEvent::Evaluated(Err(reason)) => (
                halted(state),
                ChainAction::Finish(
                    Err(ChainError::FunctionEvaluation { program, argument, reason }),
                ),
            ),
            _ => refused,
        },
        Waiting::Batch { first, len } => match event {
            ChainEvent::Completed(outcomes) => if outcomes.len() == len {
                proceed(
                    ChainState { outcomes: outcomes@, ..state },
                    Cursor::Settle { first, len, member: 0 },
                )
            } else {
                refused
            },
            _ => refused,
        },
        Waiting::Remedy { first, len, member } => match event {
            ChainEvent::Remedied(remedy) => match state.outcomes[member as int] {
                Err(cause) => proceed(
                    ChainState {
                        fatal: noted(state, (first + member) as usize, cause, remedy),
                        ..state
                    },
                    Cursor::Settle { first, len, member: (member + 1) as usize },
                ),
                Ok(_) => refused,
            },
            _ => refused,
        },
    }
}

/// Whether a state can arise in the life of a chain.
pub open spec fn well_formed(state: ChainState) -> bool {
    &&& state.programs.len() <= usize::MAX
    &&& state.variables.len() <= usize::MAX
    &&& state.failed <= usize::MAX
    &&& distinct_names(state.variables)
    &&& match state.waiting {
        Waiting::Nothing => state.outcomes.len() == 0 && state.fatal is None,
        Waiting::StartupInput { variable } => {
            &&& variable < state.variables.len()
            &&& state.failed == 0
            &&& state.outcomes.len() == 0
            &&& state.fatal is None
        },
        Waiting::ProgramInput { first, len, program, variable } => {
            &&& in_chain(state, first, len)
            &&& first <= program < first + len
            &&& variable < state.variables.len()
            &&& state.failed <= first
            &&& state.outcomes.len() == 0
            &&& state.fatal is None
        },
        Waiting::Evaluation { first, len, program, argument } => {
            &&& in_chain(state, first, len)
            &&& first <= program < first + len
            &&& argument < state.programs[program as int].command_line.arguments.len()
            &&& state.failed <= first
            &&& state.outcomes.len() == 0
            &&& state.fatal is None
        },
        Waiting::Batch { first, len } => {
            &&& in_chain(state, first, len)
            &&& state.failed <= first
            &&& state.outcomes.len() == 0
            &&& state.fatal is None
        },
        Waiting::Remedy { first, len, member } => {
            &&& in_chain(state, first, len)
            &&& member < len
            &&& state.outcomes.len() == len
            &&& state.outcomes[member as int] is Err
            &&& state.failed <= first + member + 1
        },
    }
}

/// Whether a run can stand at a cursor in a state.
pub open spec fn ready(state: ChainState, cursor: Cursor) -> bool {
    &&& fits(state, cursor)
    &&& distinct_names(state.variables)
    &&& match cursor {
        Cursor::Startup { variable } => state.failed == 0 && state.outcomes.len() == 0
            && state.fatal is None,
        Cursor::Batch { first } => state.failed <= first && state.outcomes.len() == 0
            && state.fatal is None,
        Cursor::Inputs { first, len, program, variable } => state.failed <= first
            && state.outcomes.len() == 0 && state.fatal is None,
        Cursor::Functions { first, len, program, argument } => state.failed <= first
            && state.outcomes.len() == 0 && state.fatal is None,
        Cursor::Settle { first, len, member } => state.failed <= first + member,
    }
}

/// The state of a chain that has just been made of these programs.
pub open spec fn initial(programs: Seq<ProgramModel>) -> ChainState {
    ChainState {
        programs,
        variables: registry_of(programs),
        failed: 0,
        waiting: Waiting::Nothing,
        outcomes: Seq::empty(),
        fatal: None,
    }
}

/// A run asks only for variables that have no value yet: whenever it
/// goes on from a cursor and stops at a prompt, the variable that it
/// asks for is in the registry and holds nothing. So a prompt never
/// replaces a value that was typed in or stored before.
pub proof fn lemma_prompts_fill_empty_variables(state: ChainState, cursor: Cursor)
    ensures
        proceed(state, cursor).1 matches ChainAction::Prompt { variable } ==> {
            let after = proceed(state, cursor).0;
            &&& variable < after.variables.len()
            &&& after.variables[variable as int].value is None
            &&& after.waiting matches Waiting::StartupInput { variable: asked } ==> asked
                == variable && due_at_startup(after.variables[variable as int])
            &&& after.waiting matches Waiting::ProgramInput {
                first,
                len,
                program,
                variable: asked,
            } ==> asked == variable && due_for_program(
                after.variables[variable as int],
                program as int,
            )
        },
    decreases rank_programs(state, cursor), rank_members(state, cursor), rank_stage(cursor),
        rank_items(state, cursor),
{
    if fits(state, cursor) {
        match cursor {
            Cursor::Startup { variable } => {
                if variable >= state.variables.len() {
                    lemma_prompts_fill_empty_variables(state, Cursor::Batch { first: 0 });
                } else if !due_at_startup(state.variables[variable as int]) {
                    lemma_prompts_fill_empty_variables(
                        state,
                        Cursor::Startup { variable: (variable + 1) as usize },
                    );
                }
            },
            Cursor::Batch { first } => {
                if first < state.programs.len() {
                    lemma_prompts_fill_empty_variables(
                        state,
                        Cursor::Inputs {
                            first,
                            len: #[verifier::truncate]
                            (batch_len(state.programs, first as int) as usize),
                            program: first,
                            variable: 0,
                        },
                    );
                }
            },
            Cursor::Inputs { first, len, program, variable } => {
                if variable >= state.variables.len() {
                    lemma_prompts_fill_empty_variables(
                        state,
                        Cursor::Functions { first, len, program, argument: 0 },
                    );
                } else if !due_for_program(state.variables[variable as int], program as int) {
                    lemma_prompts_fill_empty_variables(
                        state,
                        Cursor::Inputs { first, len, program, variable: (variable + 1) as usize },
                    );
                }
            },
            Cursor::Functions { first, len, program, argument } => {
                let arguments = state.programs[program as int].command_line.arguments;
                if argument >= arguments.len() {
                    let prepared = ChainState {
                        programs: state.programs.update(
                            program as int,
                            injected_program(state.programs[program as int], state.variables),
                        ),
                        ..state
                    };
                    if program + 1 < first + len {
                        lemma_prompts_fill_empty_variables(
                            prepared,
                            Cursor::Inputs {
                                first,
                                len,
                                program: (program + 1) as usize,
                                variable: 0,
                            },
                        );
                    }
                } else if function_in(arguments[argument as int]) is None {
                    lemma_prompts_fill_empty_variables(
                        state,
                        Cursor::Functions { first, len, program, argument: (argument + 1) as usize },
                    );
                }
            },
            Cursor::Settle { first, len, member } => {
                if member >= len {
                    if state.fatal is None {
                        lemma_prompts_fill_empty_variables(
                            ChainState { outcomes: Seq::empty(), ..state },
                            Cursor::Batch { first: (first + len) as usize },
                        );
                    }
                } else {
                    let program = (first + member) as usize;
                    let next = Cursor::Settle { first, len, member: (member + 1) as usize };
                    match state.outcomes[member as int] {
                        Ok(result) => {
                            lemma_prompts_fill_empty_variables(
                                ChainState {
                                    variables: kept(
                                        state.variables,
                                        state.programs[program as int],
                                        program as int,
                                        result.output@,
                                    ),
                                    ..state
                                },
                                next,
                            );
                        },
                        Err(cause) => {
                            let counted = ChainState { failed: state.failed + 1, ..state };
                            if state.programs[program as int].remedy_command_line is None {
                                lemma_prompts_fill_empty_variables(
                                    ChainState {
                                        fatal: noted(counted, program, cause, Ok(())),
                                        ..counted
                                    },
                                    next,
                                );
                            }
                        },
                    }
                }
            },
        }
    }
}

/// A fatal failure is never dropped: once one is noted, settling the
/// rest of the batch can only ask for remedies, with the failure still
/// noted, and then ends the chain with that very failure. No further
/// batch is prepared or run.
pub proof fn lemma_fatal_failure_ends_the_chain(
    state: ChainState,
    first: usize,
    len: usize,
    member: usize,
)
    requires
        state.fatal is Some,
        ready(state, Cursor::Settle { first, len, member }),
    ensures
        ({
            let after = proceed(state, Cursor::Settle { first, len, member }).0;
            let action = proceed(state, Cursor::Settle { first, len, member }).1;
            match action {
                ChainAction::Remedy { program } => after.fatal == state.fatal
                    && after.waiting is Remedy,
                ChainAction::Finish(ended) => ended == Err::<Summary, ChainError>(
                    error_of(state.fatal->0, after.failed),
                ) && after.waiting is Nothing,
                _ => false,
            }
        }),
    decreases len - member,
{
    if member < len {
        let program = (first + member) as usize;
        match state.outcomes[member as int] {
            Ok(result) => {
                lemma_fatal_failure_ends_the_chain(
                    ChainState {
                        variables: kept(
                            state.variables,
                            state.programs[program as int],
                            program as int,
                            result.output@,
                        ),
                        ..state
                    },
                    first,
                    len,
                    (member + 1) as usize,
                );
            },
            Err(cause) => {
                let counted = ChainState { failed: state.failed + 1, ..state };
                if state.programs[program as int].remedy_command_line is None {
                    lemma_fatal_failure_ends_the_chain(
                        ChainState { fatal: noted(counted, program, cause, Ok(())), ..counted },
                        first,
                        len,
                        (member + 1) as usize,
                    );
                }
            },
        }
    }
}

/// The failure of a remedy is always noted, unless an earlier failure
/// of the batch is; the failure of a program is noted where the
/// program asks the chain to stop, and not where it asks it to go on.
pub proof fn lemma_noted_failures(
    state: ChainState,
    program: usize,
    cause: ProcessError,
    remedy: Result<(), ProcessError>,
)
    ensures
        state.fatal is Some ==> noted(state, program, cause, remedy) == state.fatal,
        state.fatal is None && remedy is Err ==> noted(state, program, cause, remedy) == Some(
            Fatal::Remedy { program, cause: remedy->Err_0 },
        ),
        state.fatal is None && remedy is Ok ==> noted(state, program, cause, remedy) == if state.programs[program as int].exit_on_failure {
            Some(Fatal::Program { program, cause })
        } else {
            None
        },
{
}

/// A run that stands at the variables of a program of which none is
/// due goes on to the program's arguments without asking.
pub proof fn lemma_nothing_to_ask(
    state: ChainState,
    first: usize,
    len: usize,
    program: usize,
    variable: usize,
)
    requires
        fits(state, Cursor::Inputs { first, len, program, variable }),
        forall|k: int|
            variable <= k < state.variables.len() ==> !due_for_program(
                #[trigger] state.variables[k],
                program as int,
            ),
    ensures
        proceed(state, Cursor::Inputs { first, len, program, variable }) == proceed(
            state,
            Cursor::Functions { first, len, program, argument: 0 },
        ),
    decreases state.variables.len() - variable,
{
    if variable < state.variables.len() {
        lemma_nothing_to_ask(state, first, len, program, (variable + 1) as usize);
    }
}

/// A run that stands at the arguments of a program of which none holds
/// a function puts the variables into the arguments; it then goes on
/// to the next member of the batch, or asks for the batch to be run.
pub proof fn lemma_nothing_to_evaluate(
    state: ChainState,
    first: usize,
    len: usize,
    program: usize,
    argument: usize,
)
    requires
        fits(state, Cursor::Functions { first, len, program, argument }),
        forall|a: int|
            argument <= a < state.programs[program as int].command_line.arguments.len()
                ==> function_in(
                #[trigger] state.programs[program as int].command_line.arguments[a],
            ) is None,
    ensures
        ({
            let prepared = ChainState {
                programs: state.programs.update(
                    program as int,
                    injected_program(state.programs[program as int], state.variables),
                ),
                ..state
            };
            proceed(state, Cursor::Functions { first, len, program, argument }) == if program + 1
                < first + len {
                proceed(
                    prepared,
                    Cursor::Inputs { first, len, program: (program + 1) as usize, variable: 0 },
                )
            } else {
                (
                    ChainState { waiting: Waiting::Batch { first, len }, ..prepared },
                    ChainAction::Run { first, len },
                )
            }
        }),
    decreases state.programs[program as int].command_line.arguments.len() - argument,
{
    if argument < state.programs[program as int].command_line.arguments.len() {
        lemma_nothing_to_evaluate(state, first, len, program, (argument + 1) as usize);
    }
}

/// What a program stores reaches the program after it. Take a chain
/// that waits for the outcome of a program that runs alone, and let
/// the program succeed. Let the next program run alone too, with
/// nothing to ask for and no function in its arguments. Then the chain
/// asks for nothing but the run of that next program; the output is
/// held by the variable that the first program declares for it, as
/// `kept` says; and the arguments of the next program, and of its
/// remedy, are its arguments with the values of the registry put in.
/// No program is counted as failed, and no other program changes.
pub proof fn lemma_output_reaches_the_next_program(
    state: ChainState,
    first: usize,
    event: ChainEvent,
    result: ProgramExecutionResult,
)
    requires
        well_formed(state),
        state.waiting == (Waiting::Batch { first, len: 1 }),
        first + 1 < state.programs.len(),
        event matches ChainEvent::Completed(outcomes) && outcomes@ == seq![
            Ok::<ProgramExecutionResult, ProcessError>(result),
        ],
        batch_len(state.programs, first + 1) == 1,
        state.programs[first + 1].command_line.arguments.len() <= usize::MAX,
        forall|k: int|
            0 <= k < state.variables.len() ==> !due_for_program(
                #[trigger] kept(
                    state.variables,
                    state.programs[first as int],
                    first as int,
                    result.output@,
                )[k],
                first + 1,
            ),
        forall|a: int|
            0 <= a < state.programs[first + 1].command_line.arguments.len() ==> function_in(
                #[trigger] state.programs[first + 1].command_line.arguments[a],
            ) is None,
    ensures
        ({
            let held = kept(
                state.variables,
                state.programs[first as int],
                first as int,
                result.output@,
            );
            let after = step(state, event).0;
            &&& step(state, event).1 == (ChainAction::Run { first: (first + 1) as usize, len: 1 })
            &&& after.waiting == (Waiting::Batch { first: (first + 1) as usize, len: 1 })
            &&& after.variables == held
            &&& after.programs == state.programs.update(
                first + 1,
                injected_program(state.programs[first + 1], held),
            )
            &&& after.failed == state.failed
        }),
{
    let next = (first + 1) as usize;
    let held = kept(state.variables, state.programs[first as int], first as int, result.output@);
    let outcomes = event->Completed_0;
    let arrived = ChainState { outcomes: outcomes@, ..state };
    let stored = ChainState { variables: held, ..arrived };
    let settled = ChainState { outcomes: Seq::empty(), ..stored };
    assert(step(state, event) == proceed(arrived, Cursor::Settle { first, len: 1, member: 0 }));
    assert(proceed(arrived, Cursor::Settle { first, len: 1, member: 0 }) == proceed(
        stored,
        Cursor::Settle { first, len: 1, member: 1 },
    ));
    assert(proceed(stored, Cursor::Settle { first, len: 1, member: 1 }) == proceed(
        settled,
        Cursor::Batch { first: next },
    ));
    assert(proceed(settled, Cursor::Batch { first: next }) == proceed(
        settled,
        Cursor::Inputs { first: next, len: 1, program: next, variable: 0 },
    ));
    lemma_nothing_to_ask(settled, next, 1, next, 0);
    lemma_nothing_to_evaluate(settled, next, 1, next, 0);
}

/// The output of a program takes the place of its placeholder in the
/// program after it. Take a chain in which no variable has a value
/// yet and that waits for the outcome of a program that runs alone;
/// let the program declare a variable for its output, let the registry
/// hold that variable as one that awaits this program, and let the
/// program succeed with a text that it printed. Let the next program
/// run alone too, with nothing to ask for and no function in its
/// arguments. Then the variable holds what is kept of the printed
/// text, and the arguments of the next program are its arguments with
/// each `<<name>>` replaced by that text, as it is handed over to be
/// run; nothing was asked for on the way.
pub proof fn lemma_awaited_output_replaces_its_placeholder(
    state: ChainState,
    first: usize,
    event: ChainEvent,
    result: ProgramExecutionResult,
    printed: Seq<char>,
    position: int,
)
    requires
        well_formed(state),
        state.waiting == (Waiting::Batch { first, len: 1 }),
        first + 1 < state.programs.len(),
        event matches ChainEvent::Completed(outcomes) && outcomes@ == seq![
            Ok::<ProgramExecutionResult, ProcessError>(result),
        ],
        result.output@ == stored_text(state.programs[first as int], printed),
        batch_len(state.programs, first + 1) == 1,
        state.programs[first + 1].command_line.arguments.len() <= usize::MAX,
        state.programs[first as int].stdout_stored_to is Some,
        0 <= position < state.variables.len(),
        state.variables[position].name == awaited_name(
            state.programs[first as int].stdout_stored_to->0,
        ),
        awaits(state.variables[position], first as int),
        forall|k: int| 0 <= k < state.variables.len() ==> (#[trigger] state.variables[k]).value is None,
        forall|k: int|
            0 <= k < state.variables.len() ==> !due_for_program(
                #[trigger] state.variables[k],
                first + 1,
            ),
        forall|a: int|
            0 <= a < state.programs[first + 1].command_line.arguments.len() ==> function_in(
                #[trigger] state.programs[first + 1].command_line.arguments[a],
            ) is None,
    ensures
        ({
            let after = step(state, event).0;
            let name = state.variables[position].name;
            let text = stored_text(state.programs[first as int], printed);
            &&& step(state, event).1 == (ChainAction::Run { first: (first + 1) as usize, len: 1 })
            &&& after.variables[position].value == Some(text)
            &&& after.programs[first + 1].command_line.arguments == injected(
                state.programs[first + 1].command_line.arguments,
                "<<"@ + name + ">>"@,
                text,
            )
        }),
{
    let name = state.variables[position].name;
    let text = result.output@;
    let held = kept(state.variables, state.programs[first as int], first as int, text);
    assert(held == stored_by(state.variables, name, first as int, text));
    assert forall|k: int| 0 <= k < held.len() && k != position implies (#[trigger] held[k]).value is None by {
        assert(state.variables[k].value is None);
        if k < position {
            assert(state.variables[k].name != state.variables[position].name);
        } else {
            assert(state.variables[position].name != state.variables[k].name);
        }
    }
    assert forall|k: int| 0 <= k < state.variables.len() implies !due_for_program(
        #[trigger] held[k],
        first + 1,
    ) by {
        assert(!due_for_program(state.variables[k], first + 1));
    }
    lemma_output_reaches_the_next_program(state, first, event, result);
    lemma_inject_single(state.programs[first + 1].command_line.arguments, held, position);
}

/// A run of neighbours ends within the chain.
pub proof fn lemma_run_end_bounds(programs: Seq<ProgramModel>, tag: Option<usize>, k: int)
    requires
        0 <= k <= programs.len(),
    ensures
        k <= run_end(programs, tag, k) <= programs.len(),
    decreases programs.len() - k,
{
    if k < programs.len() && programs[k].concurrency_group == tag {
        lemma_run_end_bounds(programs, tag, k + 1);
    }
}

/// An ordered list of programs with the variables that their arguments
/// share, and the run that is under way, if one is.
#[derive(Debug)]
pub struct Chain {
    programs: Vec<Program>,
    variables: Vec<Variable>,
    failed_program_executions: usize,
    waiting: Waiting,
    outcomes: Vec<Result<ProgramExecutionResult, ProcessError>>,
    fatal: Option<Fatal>,
}

impl View for Chain {
    type V = ChainState;

    closed spec fn view(&self) -> ChainState {
        ChainState {
            programs: program_models(self.programs@),
            variables: models(self.variables@),
            failed: self.failed_program_executions as nat,
            waiting: self.waiting,
            outcomes: self.outcomes@,
            fatal: self.fatal,
        }
    }
}

/// Copies the outcome of a program.
fn copy_outcome(outcome: &Result<ProgramExecutionResult, ProcessError>) -> (copy: Result<
    ProgramExecutionResult,
    ProcessError,
>)
    ensures
        copy == *outcome,
{
    match outcome {
        Ok(result) => Ok(result.clone()),
        Err(error) => Err(error.clone()),
    }
}

/// Tells whether a variable is asked for when the chain starts.
fn is_due_at_startup(variable: &Variable) -> (due: bool)
    ensures
        due == due_at_startup(variable@),
{
    match variable.initialization_time {
        VariableInitializationTime::OnChainStartup(_) => variable.value.is_none(),
        _ => false,
    }
}

/// Tells whether a variable is asked for just before a program runs.
fn is_due_for_program(variable: &Variable, program_index: usize) -> (due: bool)
    ensures
        due == due_for_program(variable@, program_index as int),
{
    match variable.initialization_time {
        VariableInitializationTime::OnProgramExecution(lifetime) => {
            lifetime.initialization_program_index == program_index && variable.value.is_none()
        },
        _ => false,
    }
}

impl Chain {
    /// Whether the chain is in a state that can arise in its life.
    pub open spec fn wf(&self) -> bool {
        well_formed(self@)
    }

    /// A chain of these programs, with the variables that they declare
    /// and mention, and no run under way.
    pub fn new(programs: Vec<Program>) -> (chain: Chain)
        ensures
            chain@ == initial(program_models(programs@)),
            chain.wf(),
            distinct_names(chain@.variables),
            forall|p: int|
                0 <= p < chain@.programs.len() ==> knows_program(
                    chain@.variables,
                    #[trigger] chain@.programs[p],
                    p,
                ),
    {
        proof {
            lemma_registry_knows_every_variable(program_models(programs@));
        }
        let variables = build_registry(&programs);
        let chain = Chain {
            programs,
            variables,
            failed_program_executions: 0,
            waiting: Waiting::Nothing,
            outcomes: Vec::new(),
            fatal: None,
        };
        assert(chain@.programs.len() == chain.programs.len());
        assert(chain@.variables.len() == chain.variables.len());
        assert(chain@.outcomes.len() == 0);
        assert(chain@.outcomes =~= Seq::empty());
        chain
    }

    /// The programs, in the order in which they run.
    pub fn get_programs(&self) -> (programs: &Vec<Program>)
        ensures
            program_models(programs@) == self@.programs,
    {
        &self.programs
    }

    /// The variables, in the order in which they were found.
    pub fn get_variables(&self) -> (variables: &Vec<Variable>)
        ensures
            models(variables@) == self@.variables,
    {
        &self.variables
    }

    /// How many programs have failed for good in the last run.
    pub fn get_failed_program_execution_number(&self) -> (failed: usize)
        ensures
            failed == self@.failed,
    {
        self.failed_program_executions
    }

    /// How many programs have failed for good in the last run.
    pub fn failed_count(&self) -> (failed: usize)
        ensures
            failed == self@.failed,
    {
        self.failed_program_executions
    }

    /// What the chain waits for.
    pub fn get_waiting(&self) -> (waiting: Waiting)
        ensures
            waiting == self@.waiting,
    {
        self.waiting
    }

    /// The numbers of programs that failed and that did not, of all the
    /// programs of the chain.
    pub fn statistics(&self) -> (counts: (usize, usize))
        ensures
            counts.0 == self@.failed,
            counts.1 == if self@.failed <= self@.programs.len() {
                self@.programs.len() - self@.failed
            } else {
                0
            },
    {
        let failed = self.failed_program_executions;
        let succeeded = if failed <= self.programs.len() {
            self.programs.len() - failed
        } else {
            0
        };
        (failed, succeeded)
    }

    /// The chain in words: each program's command line, each followed
    /// by a line feed.
    pub fn to_string(&self) -> (text: String)
        ensures
            text@ == lines(self@.programs, self@.programs.len()),
    {
        let mut text = String::new();
        let mut i: usize = 0;
        while i < self.programs.len()
            invariant
                i <= self.programs.len(),
                text@ == lines(program_models(self.programs@), i as nat),
            decreases self.programs.len() - i,
        {
            let line = self.programs[i].command_line.to_string();
            text.append(line.as_str());
            text.append("\n");
            assert(text@ =~= lines(program_models(self.programs@), i as nat)
                + command_text(program_models(self.programs@)[i as int]) + "\n"@);
            i += 1;
        }
        text
    }

    /// Checks that every placeholder is filled by the time its program
    /// runs. A chain with placeholders that are not is refused, with
    /// every one of them in the error.
    pub fn validate_syntax(&self) -> (checked: Result<(), ChainError>)
        ensures
            checked is Ok <==> forall|p: int|
                0 <= p < self@.programs.len() ==> binds_all(
                    self@.variables,
                    #[trigger] self@.programs[p],
                    p,
                ),
            match checked {
                Ok(_) => violations(self@.variables, self@.programs).len() == 0,
                Err(error) => {
                    &&& error matches ChainError::UninitializedVariables { violations: found }
                    &&& found.len() > 0
                    &&& unbound_models(found@) == violations(self@.variables, self@.programs)
                },
            },
    {
        proof {
            assert(self@.programs.len() == self.programs.len());
            lemma_valid_chain_binds_every_placeholder(
                self@.variables,
                self@.programs,
                self@.programs.len(),
            );
        }
        let mut found: Vec<UnboundVariable> = Vec::new();
        let ghost registry = models(self.variables@);
        let ghost all = program_models(self.programs@);
        let mut i: usize = 0;
        assert(unbound_models(found@) =~= Seq::<UnboundModel>::empty());
        while i < self.programs.len()
            invariant
                i <= self.programs.len(),
                registry == models(self.variables@),
                all == program_models(self.programs@),
                unbound_models(found@) == unbound_upto(registry, all, i as nat),
            decreases self.programs.len() - i,
        {
            let ghost before = unbound_models(found@);
            collect_unbound_in_arguments(
                &self.variables,
                &self.programs[i].command_line.arguments,
                i,
                &mut found,
            );
            match &self.programs[i].failure_handling_options.remedy_command_line {
                Some(remedy) => {
                    collect_unbound_in_arguments(&self.variables, &remedy.arguments, i, &mut found);
                },
                None => {
                    assert(unbound_models(found@) + Seq::<UnboundModel>::empty() =~= unbound_models(
                        found@,
                    ));
                },
            }
            assert(unbound_models(found@) =~= before + unbound_in_program(
                registry,
                all[i as int],
                i,
            ));
            i += 1;
        }
        if found.len() == 0 {
            Ok(())
        } else {
            Err(ChainError::UninitializedVariables { violations: found })
        }
    }

    /// Ends the run.
    fn halt(&mut self)
        ensures
            final(self)@ == halted(old(self)@),
    {
        self.waiting = Waiting::Nothing;
        self.outcomes = Vec::new();
        self.fatal = None;
    }

    /// Ends the run because of an event that was not waited for.
    fn refuse(&mut self) -> (action: ChainAction)
        requires
            old(self).wf(),
        ensures
            final(self)@ == halted(old(self)@),
            final(self).wf(),
            action == ChainAction::Finish(Err(ChainError::Unexpected)),
    {
        self.halt();
        ChainAction::Finish(Err(ChainError::Unexpected))
    }

    /// Gives the variable at `variable` the answer to its prompt,
    /// without the white space around it.
    pub fn supply_input(&mut self, variable: usize, input: &str)
        requires
            variable < old(self)@.variables.len(),
        ensures
            final(self)@ == (ChainState {
                variables: supplied(old(self)@.variables, variable as int, input@),
                ..old(self)@
            }),
            old(self).wf() ==> final(self).wf(),
    {
        let trimmed = string_of(&trim_chars(&chars_of(input)));
        self.variables[variable].register_value(trimmed.as_str());
        assert(models(self.variables@) =~= supplied(
            models(old(self).variables@),
            variable as int,
            input@,
        ));
    }

    /// Puts `text` in the place of an argument of a program.
    fn revise(&mut self, program: usize, argument: usize, text: String)
        requires
            program < old(self).programs.len(),
            argument < old(self).programs[program as int].command_line.arguments.len(),
        ensures
            final(self)@ == (ChainState {
                programs: revised(old(self)@.programs, program as int, argument as int, text@),
                ..old(self)@
            }),
    {
        self.programs[program].command_line.revise_argument_by_index(argument, text);
        assert(program_models(self.programs@) =~= revised(
            program_models(old(self).programs@),
            program as int,
            argument as int,
            text@,
        ));
    }

    /// Puts every variable that has a value into the arguments of the
    /// program at `program_index` and into those of its remedy.
    pub fn insert_variable(&mut self, program_index: usize) -> (done: Result<(), VariableError>)
        requires
            program_index < old(self)@.programs.len(),
        ensures
            done is Ok,
            final(self)@ == (ChainState {
                programs: old(self)@.programs.update(
                    program_index as int,
                    injected_program(
                        old(self)@.programs[program_index as int],
                        old(self)@.variables,
                    ),
                ),
                ..old(self)@
            }),
            old(self).wf() ==> final(self).wf(),
    {
        inject_program(&mut self.programs[program_index], &self.variables);
        proof {
            let before = old(self)@.programs[program_index as int];
            lemma_inject_keeps_count(
                before.command_line.arguments,
                old(self)@.variables,
                old(self)@.variables.len(),
            );
            assert(program_models(self.programs@) =~= old(self)@.programs.update(
                program_index as int,
                injected_program(before, old(self)@.variables),
            ));
        }
        Ok(())
    }

    /// Stores the output of a program under a name: the variable of
    /// that name that awaits an output receives it.
    pub fn bind_await(&mut self, name: &str, value: &str)
        ensures
            final(self)@ == (ChainState {
                variables: stored(old(self)@.variables, name@, value@),
                ..old(self)@
            }),
            old(self).wf() ==> final(self).wf(),
    {
        store_output(&mut self.variables, name, value);
    }

    /// Stores the output of the program at `program` in the variable
    /// that the program declares for it.
    fn keep(&mut self, program: usize, output: &str)
        requires
            program < old(self).programs.len(),
        ensures
            final(self)@ == (ChainState {
                variables: kept(
                    old(self)@.variables,
                    old(self)@.programs[program as int],
                    program as int,
                    output@,
                ),
                ..old(self)@
            }),
            distinct_names(old(self)@.variables) ==> distinct_names(final(self)@.variables),
    {
        match &self.programs[program].stdout_stored_to {
            Some(name) => {
                let awaited = Variable::parse_await_variable(name.as_str(), program);
                store_output_of(&mut self.variables, awaited.name.as_str(), program, output);
            },
            None => {},
        }
    }

    /// The size of the batch that starts at `first`.
    pub fn batch_extent(&self, first: usize) -> (len: usize)
        requires
            first < self@.programs.len(),
        ensures
            len == batch_len(self@.programs, first as int),
            1 <= len,
            first + len <= self@.programs.len(),
    {
        assert(self@.programs.len() == self.programs.len());
        match self.programs[first].concurrency_group {
            None => 1,
            Some(tag) => {
                let ghost all = program_models(self.programs@);
                let mut k: usize = first + 1;
                proof {
                    lemma_run_end_bounds(all, Some(tag), first + 1);
                }
                loop
                    invariant
                        first < k <= self.programs.len(),
                        all == program_models(self.programs@),
                        run_end(all, Some(tag), first + 1) == run_end(all, Some(tag), k as int),
                    ensures
                        first < k <= self.programs.len(),
                        k == run_end(all, Some(tag), first + 1),
                    decreases self.programs.len() - k,
                {
                    if k >= self.programs.len() {
                        break ;
                    }
                    let same_group = match self.programs[k].concurrency_group {
                        Some(other) => other == tag,
                        None => false,
                    };
                    if !same_group {
                        break ;
                    }
                    k += 1;
                }
                k - first
            },
        }
    }
}

impl Chain {
    /// Goes on with the run from a cursor, up to the next thing that
    /// the chain asks of its surroundings.
    fn proceed_from(&mut self, start: Cursor) -> (action: ChainAction)
        requires
            ready(old(self)@, start),
        ensures
            final(self)@ == proceed(old(self)@, start).0,
            action == proceed(old(self)@, start).1,
            final(self).wf(),
    {
        let mut cursor = start;
        loop
            invariant
                ready(self@, cursor),
                proceed(self@, cursor) == proceed(old(self)@, start),
            decreases
                    rank_programs(self@, cursor),
                    rank_members(self@, cursor),
                    rank_stage(cursor),
                    rank_items(self@, cursor),
        {
            let ghost here = self@;
            match cursor {
                Cursor::Startup { variable } => {
                    if variable >= self.variables.len() {
                        cursor = Cursor::Batch { first: 0 };
                    } else if is_due_at_startup(&self.variables[variable]) {
                        self.waiting = Waiting::StartupInput { variable };
                        return ChainAction::Prompt { variable };
                    } else {
                        cursor = Cursor::Startup { variable: variable + 1 };
                    }
                },
                Cursor::Batch { first } => {
                    if first >= self.programs.len() {
                        let failed_count = self.failed_program_executions;
                        self.halt();
                        return ChainAction::Finish(Ok(Summary { failed_count }));
                    } else {
                        let len = self.batch_extent(first);
                        cursor = Cursor::Inputs { first, len, program: first, variable: 0 };
                    }
                },
                Cursor::Inputs { first, len, program, variable } => {
                    assert(self@.programs[program as int].command_line.arguments.len()
                        == self.programs[program as int].command_line.arguments.len());
                    if variable >= self.variables.len() {
                        cursor = Cursor::Functions { first, len, program, argument: 0 };
                    } else if is_due_for_program(&self.variables[variable], program) {
                        self.waiting = Waiting::ProgramInput { first, len, program, variable };
                        return ChainAction::Prompt { variable };
                    } else {
                        cursor = Cursor::Inputs { first, len, program, variable: variable + 1 };
                    }
                },
                Cursor::Functions { first, len, program, argument } => {
                    assert(self@.programs[program as int].command_line.arguments.len()
                        == self.programs[program as int].command_line.arguments.len());
                    if argument >= self.programs[program].command_line.arguments.len() {
                        let _ = self.insert_variable(program);
                        if program + 1 < first + len {
                            cursor = Cursor::Inputs { first, len, program: program + 1, variable: 0 };
                        } else {
                            self.waiting = Waiting::Batch { first, len };
                            return ChainAction::Run { first, len };
                        }
                    } else {
                        let holds_function = Function::parse(
                            self.programs[program].command_line.arguments[argument].as_str(),
                        ).is_ok();
                        if holds_function {
                            self.waiting = Waiting::Evaluation { first, len, program, argument };
                            return ChainAction::Evaluate { program, argument };
                        } else {
                            cursor = Cursor::Functions { first, len, program, argument: argument + 1 };
                        }
                    }
                },
                Cursor::Settle { first, len, member } => {
                    if member >= len {
                        let fatal = match &self.fatal {
                            Some(Fatal::Remedy { program, cause }) => Some(
                                ChainError::Remedy { program: *program, cause: cause.clone() },
                            ),
                            Some(Fatal::Program { program, cause }) => Some(
                                ChainError::Aborted {
                                    program: *program,
                                    cause: cause.clone(),
                                    failed_count: self.failed_program_executions,
                                },
                            ),
                            None => None,
                        };
                        match fatal {
                            Some(error) => {
                                self.halt();
                                return ChainAction::Finish(Err(error));
                            },
                            None => {
                                self.outcomes = Vec::new();
                                cursor = Cursor::Batch { first: first + len };
                            },
                        }
                    } else {
                        let program = first + member;
                        let next = Cursor::Settle { first, len, member: member + 1 };
                        match copy_outcome(&self.outcomes[member]) {
                            Ok(result) => {
                                self.keep(program, result.output.as_str());
                                cursor = next;
                            },
                            Err(cause) => {
                                self.failed_program_executions = self.failed_program_executions + 1;
                                let has_remedy =
                                    self.programs[program].failure_handling_options.remedy_command_line.is_some();
                                if has_remedy {
                                    self.waiting = Waiting::Remedy { first, len, member };
                                    return ChainAction::Remedy { program };
                                } else {
                                    if self.fatal.is_none()
                                        && self.programs[program].failure_handling_options.exit_on_failure {
                                        self.fatal = Some(Fatal::Program { program, cause });
                                    }
                                    cursor = next;
                                }
                            },
                        }
                    }
                },
            }
        }
    }

    /// Takes an event from the surroundings and tells what the chain
    /// asks next. A run starts with `Start` and ends with `Finish`; in
    /// between, each event answers the action before it.
    pub fn advance(&mut self, event: ChainEvent) -> (action: ChainAction)
        requires
            old(self).wf(),
        ensures
            final(self).wf(),
            final(self)@ == step(old(self)@, event).0,
            action == step(old(self)@, event).1,
    {
        match self.waiting {
            Waiting::Nothing => match event {
                ChainEvent::Start => {
                    self.halt();
                    self.failed_program_executions = 0;
                    self.proceed_from(Cursor::Startup { variable: 0 })
                },
                _ => self.refuse(),
            },
            Waiting::StartupInput { variable } => match event {
                ChainEvent::Input(text) => {
                    self.supply_input(variable, text.as_str());
                    self.proceed_from(Cursor::Startup { variable: variable + 1 })
                },
                _ => self.refuse(),
            },
            Waiting::ProgramInput { first, len, program, variable } => match event {
                ChainEvent::Input(text) => {
                    self.supply_input(variable, text.as_str());
                    self.proceed_from(
                        Cursor::Inputs { first, len, program, variable: variable + 1 },
                    )
                },
                _ => self.refuse(),
            },
            Waiting::Evaluation { first, len, program, argument } => match event {
                ChainEvent::Evaluated(Ok(text)) => {
                    assert(self@.programs[program as int].command_line.arguments.len()
                        == self.programs[program as int].command_line.arguments.len());
                    self.revise(program, argument, text);
                    self.proceed_from(
                        Cursor::Functions { first, len, program, argument: argument + 1 },
                    )
                },
                ChainEvent::Evaluated(Err(reason)) => {
                    self.halt();
                    ChainAction::Finish(
                        Err(ChainError::FunctionEvaluation { program, argument, reason }),
                    )
                },
                _ => self.refuse(),
            },
            Waiting::Batch { first, len } => match event {
                ChainEvent::Completed(outcomes) => {
                    if outcomes.len() == len {
                        self.outcomes = outcomes;
                        self.proceed_from(Cursor::Settle { first, len, member: 0 })
                    } else {
                        self.refuse()
                    }
                },
                _ => self.refuse(),
            },
            Waiting::Remedy { first, len, member } => match event {
                ChainEvent::Remedied(remedy) => {
                    match copy_outcome(&self.outcomes[member]) {
                        Err(cause) => {
                            let program = first + member;
                            if self.fatal.is_none() {
                                match remedy {
                                    Err(error) => {
                                        self.fatal = Some(Fatal::Remedy { program, cause: error });
                                    },
                                    Ok(_) => {
                                        if self.programs[program].failure_handling_options.exit_on_failure {
                                            self.fatal = Some(Fatal::Program { program, cause });
                                        }
                                    },
                                }
                            }
                            self.proceed_from(
                                Cursor::Settle { first, len, member: member + 1 },
                            )
                        },
                        Ok(_) => self.refuse(),
                    }
                },
                _ => self.refuse(),
            },
        }
    }
}

/// The command lines of the first `n` programs, each followed by a
/// line feed.
pub open spec fn lines(programs: Seq<ProgramModel>, n: nat) -> Seq<char>
    decreases n,
{
    if n == 0 {
        Seq::empty()
    } else {
        lines(programs, (n - 1) as nat) + command_text(programs[n - 1]) + "\n"@
    }
}

/// The command line of a program as one text.
pub open spec fn command_text(program: ProgramModel) -> Seq<char> {
    program.command_line.command + " "@ + joined(
        program.command_line.arguments,
        " "@,
    )
}

impl VariableGroupControl for Chain {
    open spec fn group(&self) -> Seq<VariableModel> {
        self@.variables
    }

    fn update_value(&mut self, variable_name: &str, value: String)
        ensures
            final(self)@ == (ChainState {
                variables: stored(old(self)@.variables, variable_name@, value@),
                ..old(self)@
            }),
            old(self).wf() ==> final(self).wf(),
    {
        store_output(&mut self.variables, variable_name, value.as_str());
    }

    fn get_value(&self, variable_name: &str) -> (value: Result<String, VariableError>) {
        let position = find_named(&self.variables, variable_name, 0);
        if position < self.variables.len() {
            match &self.variables[position].value {
                Some(text) => Ok(text.clone()),
                None => Err(VariableError::EmptyValue { name: String::from_str(variable_name) }),
            }
        } else {
            Err(VariableError::Unknown { name: String::from_str(variable_name) })
        }
    }
}

impl Execution for Chain {
    open spec fn execution_type(&self) -> ExecutionType {
        ExecutionType::Chain
    }

    fn get_execution_type(&self) -> (kind: ExecutionType) {
        ExecutionType::Chain
    }
}

/// The commands of the first `n` programs, each once.
pub open spec fn commands(programs: Seq<ProgramModel>, n: nat) -> Seq<Seq<char>>
    decreases n,
{
    if n == 0 {
        Seq::empty()
    } else {
        let before = commands(programs, (n - 1) as nat);
        if before.contains(programs[n - 1].command_line.command) {
            before
        } else {
            before.push(programs[n - 1].command_line.command)
        }
    }
}

impl AvailablePackages for Chain {
    /// A chain needs the commands of its programs.
    open spec fn required(&self) -> Seq<Seq<char>> {
        commands(self@.programs, self@.programs.len())
    }

    fn get_required_packages(&self) -> (packages: Vec<Package>) {
        let mut packages: Vec<Package> = Vec::new();
        let mut i: usize = 0;
        assert(names_of(packages@) =~= Seq::<Seq<char>>::empty());
        while i < self.programs.len()
            invariant
                i <= self.programs.len(),
                names_of(packages@) == commands(program_models(self.programs@), i as nat),
            decreases self.programs.len() - i,
        {
            let ghost before = names_of(packages@);
            if !has_package(&packages, self.programs[i].command_line.command.as_str()) {
                packages.push(Package::new(self.programs[i].command_line.command.clone()));
                assert(names_of(packages@) =~= before.push(
                    program_models(self.programs@)[i as int].command_line.command,
                ));
            }
            i += 1;
        }
        packages
    }
}

} // verus!
