use cchain::commons::packages::AvailablePackages;
use cchain::engine::chain::{
    Chain, ChainAction, ChainError, ChainEvent, ChainExecutionResult, Summary, Waiting,
};
use cchain::engine::command::{CommandLine, CommandLineExecutionResult};
use cchain::engine::concurrency::{ConcurrencyError, ConcurrencyGroup, ConcurrencyGroupExecutionResult};
use cchain::engine::interpreter::Interpreter;
use cchain::engine::options::{FailureHandlingOptions, StdoutStorageOptions};
use cchain::engine::program::{AttemptVerdict, ProcessError, Program, ProgramExecutionResult};
use cchain::engine::traits::{Execution, ExecutionType};
use cchain::variable::{VariableError, VariableGroupControl, VariableInitializationTime};

fn program(command: &str, arguments: &[&str]) -> Program {
    Program::new(
        command.to_string(),
        arguments.iter().map(|argument| argument.to_string()).collect(),
        None,
        None,
        None,
        StdoutStorageOptions::default(),
        None,
        FailureHandlingOptions::default(),
        None,
        0,
    )
}

fn tagged(command: &str, group: Option<usize>) -> Program {
    let mut made = program(command, &[]);
    made.concurrency_group = group;
    made
}

/// What a command of the tests prints or fails with, as a shell would.
fn pretend_to_run(program: &Program) -> Result<CommandLineExecutionResult, ProcessError> {
    let line = &program.command_line;
    match line.command.as_str() {
        "echo" => Ok(CommandLineExecutionResult::new(format!("{}\n", line.arguments.join(" ")))),
        "printf" => Ok(CommandLineExecutionResult::new(line.arguments.join(""))),
        "true" => Ok(CommandLineExecutionResult::new(String::new())),
        "false" => Err(ProcessError::Exit {
            status: "exit status: 1".to_string(),
            partial_output: String::new(),
        }),
        _ => Err(ProcessError::Spawn { reason: "No such file or directory".to_string() }),
    }
}

/// Runs a program with its retries; counts the runs in `runs`.
fn run_with_retries(
    program: &Program,
    runs: &mut Vec<String>,
) -> Result<ProgramExecutionResult, ProcessError> {
    let mut failed = 0;
    loop {
        runs.push(program.command_line.to_string());
        match program.settle_attempt(failed, pretend_to_run(program)) {
            AttemptVerdict::Succeeded(result) => return Ok(result),
            AttemptVerdict::Retry { attempt } => failed = attempt,
            AttemptVerdict::Failed(error) => return Err(error),
        }
    }
}

struct Report {
    result: Result<Summary, ChainError>,
    runs: Vec<String>,
    batches: Vec<Vec<usize>>,
    prompts: Vec<String>,
    remedies: Vec<usize>,
}

/// Drives a chain to its end: answers prompts from `answers`, runs the
/// programs by pretending, and lets every remedy end as `remedy` says.
fn execute(chain: &mut Chain, answers: &[&str], remedy: Result<(), ProcessError>) -> Report {
    let mut report = Report {
        result: Ok(Summary { failed_count: 0 }),
        runs: Vec::new(),
        batches: Vec::new(),
        prompts: Vec::new(),
        remedies: Vec::new(),
    };
    let mut answers = answers.iter();
    let mut action = chain.advance(ChainEvent::Start);
    loop {
        action = match action {
            ChainAction::Prompt { variable } => {
                report
                    .prompts
                    .push(chain.get_variables()[variable].get_human_readable_name().to_string());
                chain.advance(ChainEvent::Input(answers.next().unwrap().to_string()))
            }
            ChainAction::Evaluate { program, argument } => {
                let text = chain.get_programs()[program].command_line.arguments[argument].clone();
                let outcome = if text.starts_with("known") {
                    Ok("evaluated".to_string())
                } else {
                    Err("Function not found".to_string())
                };
                chain.advance(ChainEvent::Evaluated(outcome))
            }
            ChainAction::Run { first, len } => {
                report.batches.push((first..first + len).collect());
                let mut outcomes = Vec::new();
                for position in first..first + len {
                    outcomes.push(run_with_retries(&chain.get_programs()[position], &mut report.runs));
                }
                chain.advance(ChainEvent::Completed(outcomes))
            }
            ChainAction::Remedy { program } => {
                report.remedies.push(program);
                chain.advance(ChainEvent::Remedied(remedy.clone()))
            }
            ChainAction::Finish(result) => {
                report.result = result;
                return report;
            }
        }
    }
}

// A chain is made of programs as they are read from a chain file.
#[test]
fn test_chain_creation_from_file() {
    let programs = vec![program("echo", &["hello"])];
    let chain: Result<Chain, ChainError> = Ok(Chain::new(programs));
    assert!(chain.is_ok());
    let chain = chain.unwrap();
    assert!(!format!("{}", chain.to_string()).is_empty());
}

// Syntax validation fails when a placeholder is not bound for its program.
#[test]
fn test_validate_syntax_fails_with_uninitialized_variable() {
    let programs = vec![
        program("command-non-exist", &["$<<hello>>"]),
        program("echo", &["$<<hello:on_program_execution>>"]),
    ];
    let chain = Chain::new(programs);
    let result = chain.validate_syntax();
    assert!(result.is_err());
    assert_eq!(result.unwrap_err().message(), "Check is not passed. 😢");
}

// The failure count goes up when a program fails.
#[test]
fn test_program_failure_increments_counter() {
    let mut failing = program("invalid_command_that_does_not_exist", &[]);
    failing.failure_handling_options.exit_on_failure = false;
    let mut chain = Chain::new(vec![failing]);
    let result = execute(&mut chain, &[], Ok(())).result;

    assert!(result.is_ok());
    assert_eq!(chain.get_failed_program_execution_number(), 1);
}

#[test]
fn test_validation_lists_every_unbound_placeholder() {
    let mut second = program("echo", &["<<x>>", "<<other:ON_PROGRAM_EXECUTION>>"]);
    second.stdout_stored_to = Some("late".to_string());
    let programs = vec![program("echo", &["<<late>> <<x:on_program_execution>>"]), second];
    let chain = Chain::new(programs);
    let names: Vec<&str> =
        chain.get_variables().iter().map(|variable| variable.get_variable_name()).collect();
    assert_eq!(names, vec!["late", "x", "other"]);
    match chain.validate_syntax() {
        Err(ChainError::UninitializedVariables { violations }) => {
            let found: Vec<(usize, String)> = violations
                .iter()
                .map(|unbound| (unbound.program_index, unbound.variable.get_raw_variable_name()))
                .collect();
            assert_eq!(
                found,
                vec![(0, "<<late>>".to_string()), (1, "<<x>>".to_string())]
            );
        }
        other => panic!("expected two unbound placeholders, got {:?}", other),
    }
}

#[test]
fn test_validation_looks_into_remedies() {
    let mut first = program("echo", &["plain"]);
    first.failure_handling_options.remedy_command_line = Some(CommandLine::new(
        "echo".to_string(),
        vec!["<<result>>".to_string()],
        None,
        None,
        None,
    ));
    let mut second = program("echo", &[]);
    second.stdout_stored_to = Some("<<result>>".to_string());
    let chain = Chain::new(vec![first, second]);
    match chain.validate_syntax() {
        Err(ChainError::UninitializedVariables { violations }) => {
            assert_eq!(violations.len(), 1);
            assert_eq!(violations[0].program_index, 0);
            assert_eq!(violations[0].variable.get_variable_name(), "result");
        }
        other => panic!("expected one unbound placeholder, got {:?}", other),
    }
}

#[test]
fn test_validation_passes_a_chain_that_binds_in_time() {
    let mut first = program("echo", &["<<name>>", "<<detail:on_program_execution>>"]);
    first.stdout_stored_to = Some("greeting".to_string());
    let second = program("echo", &["<<greeting>> <<name>> <<detail:on_program_execution>>"]);
    let chain = Chain::new(vec![first, second]);
    assert!(chain.validate_syntax().is_ok());
    assert!(Chain::new(vec![program("echo", &["<<x>>"])]).validate_syntax().is_ok());
    assert!(Chain::new(vec![]).validate_syntax().is_ok());
}

#[test]
fn test_registry_keeps_the_first_of_each_name() {
    let mut first = program("echo", &["<<a>> <<b:on_program_execution>> <<a>>"]);
    first.stdout_stored_to = Some("out".to_string());
    let mut second = program("echo", &["<<b>> <<out>> <<c>>"]);
    second.stdout_stored_to = Some("  <<out>> ".to_string());
    let chain = Chain::new(vec![first, second]);
    let found: Vec<(String, VariableInitializationTime)> = chain
        .get_variables()
        .iter()
        .map(|variable| (variable.get_raw_variable_name(), variable.get_initialization_time()))
        .collect();
    assert_eq!(found.len(), 4);
    assert_eq!(found[0].0, "<<out>>");
    assert!(matches!(found[0].1, VariableInitializationTime::Await(lifetime)
        if lifetime.initialization_program_index == 0));
    assert_eq!(found[1].0, "<<a>>");
    assert_eq!(found[2].0, "<<b:on_program_execution>>");
    assert!(matches!(found[2].1, VariableInitializationTime::OnProgramExecution(lifetime)
        if lifetime.initialization_program_index == 0));
    assert_eq!(found[3].0, "<<c>>");
}

#[test]
fn test_end_to_end_single_program() {
    let mut chain = Chain::new(vec![program("echo", &["hi"])]);
    let report = execute(&mut chain, &[], Ok(()));
    assert_eq!(report.result.unwrap(), Summary { failed_count: 0 });
    assert_eq!(report.runs, vec!["echo hi"]);
    assert_eq!(chain.failed_count(), 0);
    assert_eq!(chain.get_waiting(), Waiting::Nothing);
}

#[test]
fn test_end_to_end_failure_without_abort() {
    let mut failing = program("false", &[]);
    failing.retry = 2;
    failing.failure_handling_options.exit_on_failure = false;
    let mut chain = Chain::new(vec![failing, program("echo", &["after"])]);
    let report = execute(&mut chain, &[], Ok(()));
    assert_eq!(report.result.unwrap(), Summary { failed_count: 1 });
    assert_eq!(report.runs, vec!["false ", "false ", "false ", "echo after"]);
    assert_eq!(chain.statistics(), (1, 1));
}

#[test]
fn test_end_to_end_abort() {
    let mut chain =
        Chain::new(vec![program("no_such_binary_xyz", &[]), program("echo", &["never"])]);
    let report = execute(&mut chain, &[], Ok(()));
    match report.result {
        Err(ChainError::Aborted { program, cause, failed_count }) => {
            assert_eq!(program, 0);
            assert_eq!(failed_count, 1);
            assert!(matches!(cause, ProcessError::Spawn { .. }));
        }
        other => panic!("expected an abort, got {:?}", other),
    }
    assert_eq!(chain.failed_count(), 1);
    assert_eq!(report.runs, vec!["no_such_binary_xyz "]);
}

#[test]
fn test_await_binding_reaches_later_programs() {
    let mut producer = program("printf", &["hello\n"]);
    producer.stdout_stored_to = Some("X".to_string());
    producer.stdout_storage_options = StdoutStorageOptions { without_newline_characters: true };
    let mut chain = Chain::new(vec![producer, program("echo", &["<<X>>"])]);
    let report = execute(&mut chain, &[], Ok(()));
    assert!(report.prompts.is_empty());
    assert_eq!(report.result.unwrap(), Summary { failed_count: 0 });
    assert_eq!(chain.get_programs()[1].command_line.arguments, vec!["hello"]);
    assert_eq!(report.runs, vec!["printf hello\n", "echo hello"]);
    assert_eq!(chain.get_value("X").unwrap(), "hello");
}

#[test]
fn test_batches_follow_neighbouring_groups() {
    let groups = [None, Some(1), Some(1), Some(2), Some(2), None];
    let programs = groups.iter().map(|group| tagged("true", *group)).collect();
    let mut chain = Chain::new(programs);
    let batches: Vec<Vec<usize>> = ConcurrencyGroup::from_chain(&chain)
        .iter()
        .map(|group| group.get_programs().clone())
        .collect();
    assert_eq!(batches, vec![vec![0], vec![1, 2], vec![3, 4], vec![5]]);
    let report = execute(&mut chain, &[], Ok(()));
    assert_eq!(report.batches, batches);
    assert_eq!(report.result.unwrap(), Summary { failed_count: 0 });
}

#[test]
fn test_untagged_neighbours_never_share_a_batch() {
    let groups = [None, None, Some(7), None, Some(7), Some(7), Some(8)];
    let chain = Chain::new(groups.iter().map(|group| tagged("true", *group)).collect());
    let found = ConcurrencyGroup::from_chain(&chain);
    let batches: Vec<Vec<usize>> = found.iter().map(|group| group.get_programs().clone()).collect();
    assert_eq!(batches, vec![vec![0], vec![1], vec![2], vec![3], vec![4, 5], vec![6]]);
    assert_eq!(found[4].get_group_number(), Ok(7));
    assert_eq!(found[0].get_group_number(), Err(ConcurrencyError::NoGroupNumber));
    assert_eq!(chain.batch_extent(4), 2);
    assert!(ConcurrencyGroup::from_chain(&Chain::new(vec![])).is_empty());
}

#[test]
fn test_group_takes_only_programs_of_its_group() {
    let mut group = ConcurrencyGroup::new();
    assert!(group.get_group_number().is_err());
    assert!(group.push(Some(4), 10));
    assert!(group.push(Some(4), 11));
    assert!(!group.push(Some(5), 12));
    assert!(!group.push(None, 12));
    assert_eq!(group.get_programs(), &vec![10, 11]);
    assert_eq!(group.get_group_number(), Ok(4));
    assert_eq!(group.get_execution_type(), ExecutionType::ConcurrencyGroup);

    let mut alone = ConcurrencyGroup::new();
    assert!(alone.push(None, 3));
    assert!(!alone.push(None, 4));
    assert_eq!(alone.get_programs(), &vec![3]);
    assert_eq!(
        ConcurrencyError::NoGroupNumber.message(),
        "Group number is None. This concurrency group may not yet be populated."
    );
}

#[test]
fn test_a_failing_member_does_not_stop_its_batch() {
    let mut failing = tagged("false", Some(1));
    failing.failure_handling_options.exit_on_failure = true;
    let programs = vec![failing, tagged("echo", Some(1)), tagged("echo", Some(2))];
    let mut chain = Chain::new(programs);
    let report = execute(&mut chain, &[], Ok(()));
    assert_eq!(report.batches, vec![vec![0, 1]]);
    assert_eq!(report.runs, vec!["false ", "echo "]);
    assert!(matches!(report.result, Err(ChainError::Aborted { program: 0, failed_count: 1, .. })));
}

#[test]
fn test_the_first_fatal_failure_of_a_batch_is_reported() {
    let mut lenient = tagged("false", Some(1));
    lenient.failure_handling_options.exit_on_failure = false;
    let programs = vec![lenient, tagged("false", Some(1)), tagged("missing", Some(1))];
    let mut chain = Chain::new(programs);
    let report = execute(&mut chain, &[], Ok(()));
    match report.result {
        Err(ChainError::Aborted { program, failed_count, cause }) => {
            assert_eq!(program, 1);
            assert_eq!(failed_count, 3);
            assert_eq!(cause.message(), "Process exited with non-zero status: exit status: 1");
        }
        other => panic!("expected an abort, got {:?}", other),
    }
    assert_eq!(chain.failed_count(), 3);
}

#[test]
fn test_remedy_runs_after_failure_and_its_failure_is_reported() {
    let remedy = CommandLine::new("git".to_string(), vec!["reset".to_string()], None, None, None);
    let mut failing = program("false", &[]);
    failing.failure_handling_options =
        FailureHandlingOptions { exit_on_failure: false, remedy_command_line: Some(remedy) };
    let mut chain = Chain::new(vec![program("echo", &["a"]), failing, program("echo", &["b"])]);
    let report = execute(&mut chain, &[], Ok(()));
    assert_eq!(report.remedies, vec![1]);
    assert_eq!(report.result.unwrap(), Summary { failed_count: 1 });
    assert_eq!(report.runs, vec!["echo a", "false ", "echo b"]);

    let broken = ProcessError::Exit { status: "exit status: 9".to_string(), partial_output: String::new() };
    let report = execute(&mut chain, &[], Err(broken));
    match report.result {
        Err(ChainError::Remedy { program, cause }) => {
            assert_eq!(program, 1);
            assert_eq!(cause.message(), "Process exited with non-zero status: exit status: 9");
        }
        other => panic!("expected the remedy's failure, got {:?}", other),
    }
    assert_eq!(report.runs, vec!["echo a", "false "]);
    assert_eq!(chain.failed_count(), 1);
}

#[test]
fn test_prompts_come_at_startup_and_before_the_program() {
    let programs = vec![
        program("echo", &["<<user_name>>"]),
        program("echo", &["<<user_name>> <<commit_message:on_program_execution>>"]),
    ];
    let mut chain = Chain::new(programs);
    let mut action = chain.advance(ChainEvent::Start);
    assert!(matches!(action, ChainAction::Prompt { variable: 0 }));
    assert_eq!(chain.get_waiting(), Waiting::StartupInput { variable: 0 });
    action = chain.advance(ChainEvent::Input("  Ada \n".to_string()));
    assert!(matches!(action, ChainAction::Run { first: 0, len: 1 }));
    assert_eq!(chain.get_programs()[0].command_line.arguments, vec!["Ada"]);
    let done = vec![Ok(ProgramExecutionResult::new("Ada".to_string()))];
    action = chain.advance(ChainEvent::Completed(done));
    assert!(matches!(action, ChainAction::Prompt { variable: 1 }));
    assert_eq!(
        chain.get_waiting(),
        Waiting::ProgramInput { first: 1, len: 1, program: 1, variable: 1 }
    );
    action = chain.advance(ChainEvent::Input("fix\n".to_string()));
    assert!(matches!(action, ChainAction::Run { first: 1, len: 1 }));
    assert_eq!(chain.get_programs()[1].command_line.arguments, vec!["Ada fix"]);
    action = chain.advance(ChainEvent::Completed(vec![Ok(ProgramExecutionResult::new(String::new()))]));
    assert!(matches!(action, ChainAction::Finish(Ok(Summary { failed_count: 0 }))));

    let report = execute(&mut Chain::new(vec![program("echo", &["<<user_name>>"])]), &["x"], Ok(()));
    assert_eq!(report.prompts, vec!["User Name"]);
}

#[test]
fn test_functions_in_arguments_are_evaluated_before_the_run() {
    let programs = vec![program("echo", &["plain", "known_fn('a', 'b')", "<<v>>"])];
    let mut chain = Chain::new(programs);
    let report = execute(&mut chain, &["known_fn('c', 'd')"], Ok(()));
    assert_eq!(report.result.unwrap(), Summary { failed_count: 0 });
    assert_eq!(report.runs, vec!["echo plain evaluated known_fn('c', 'd')"]);

    let mut failing = Chain::new(vec![program("echo", &["other('a', 'b')"])]);
    let report = execute(&mut failing, &[], Ok(()));
    match report.result {
        Err(ChainError::FunctionEvaluation { program, argument, reason }) => {
            assert_eq!((program, argument), (0, 0));
            assert_eq!(reason, "Function not found");
        }
        other => panic!("expected a function error, got {:?}", other),
    }
    assert!(report.runs.is_empty());
    assert_eq!(failing.get_waiting(), Waiting::Nothing);
}

#[test]
fn test_an_event_that_is_not_waited_for_ends_the_run() {
    let mut chain = Chain::new(vec![program("echo", &["<<a>>"])]);
    assert!(matches!(
        chain.advance(ChainEvent::Input("early".to_string())),
        ChainAction::Finish(Err(ChainError::Unexpected))
    ));
    assert!(matches!(chain.advance(ChainEvent::Start), ChainAction::Prompt { variable: 0 }));
    assert!(matches!(
        chain.advance(ChainEvent::Start),
        ChainAction::Finish(Err(ChainError::Unexpected))
    ));
    assert_eq!(chain.get_waiting(), Waiting::Nothing);
    assert!(matches!(chain.advance(ChainEvent::Start), ChainAction::Prompt { variable: 0 }));
    assert!(matches!(
        chain.advance(ChainEvent::Input("a".to_string())),
        ChainAction::Run { first: 0, len: 1 }
    ));
    assert!(matches!(
        chain.advance(ChainEvent::Completed(vec![])),
        ChainAction::Finish(Err(ChainError::Unexpected))
    ));
    assert_eq!(ChainError::Unexpected.message(), "The chain did not wait for this event");
}

#[test]
fn test_a_new_run_counts_failures_anew() {
    let mut failing = program("false", &[]);
    failing.failure_handling_options.exit_on_failure = false;
    let mut chain = Chain::new(vec![failing]);
    assert_eq!(execute(&mut chain, &[], Ok(())).result.unwrap(), Summary { failed_count: 1 });
    assert_eq!(execute(&mut chain, &[], Ok(())).result.unwrap(), Summary { failed_count: 1 });
}

#[test]
fn test_insert_variable_skips_variables_without_value() {
    let mut first = program("echo", &["<<a>> <<b>>"]);
    first.failure_handling_options.remedy_command_line = Some(CommandLine::new(
        "echo".to_string(),
        vec!["undo <<a>>".to_string()],
        Some(Interpreter::Sh),
        None,
        None,
    ));
    let mut chain = Chain::new(vec![first]);
    chain.supply_input(0, " one ");
    chain.insert_variable(0).unwrap();
    assert_eq!(chain.get_programs()[0].command_line.arguments, vec!["one <<b>>"]);
    assert_eq!(
        chain.get_programs()[0].get_remedy_command_line().unwrap().to_string(),
        "echo undo one"
    );
}

#[test]
fn test_values_are_read_and_written_by_name() {
    let mut producer = program("echo", &["<<plain>>"]);
    producer.stdout_stored_to = Some("out".to_string());
    let mut chain = Chain::new(vec![producer]);
    assert!(matches!(chain.get_value("out"), Err(VariableError::EmptyValue { .. })));
    assert_eq!(chain.get_value("nothing").unwrap_err().message(), "Variable nothing does not exist!");
    chain.update_value("out", "first".to_string());
    assert_eq!(chain.get_value("out").unwrap(), "first");
    chain.update_value("<<out>>", "ignored".to_string());
    chain.update_value("nothing", "ignored".to_string());
    chain.update_value("plain", "not awaited".to_string());
    assert_eq!(chain.get_value("out").unwrap(), "first");
    assert!(chain.get_value("plain").is_err());
    chain.bind_await("out", "second");
    assert_eq!(chain.get_value("out").unwrap(), "second");
    chain.bind_await("plain", "not awaited");
    assert!(chain.get_value("plain").is_err());
}

#[test]
fn test_chain_in_words_and_its_packages() {
    let chain = Chain::new(vec![
        program("git", &["add", "."]),
        program("git", &["commit"]),
        program("cargo", &[]),
    ]);
    assert_eq!(chain.to_string(), "git add .\ngit commit\ncargo \n");
    let names: Vec<String> =
        chain.get_required_packages().iter().map(|package| package.name.clone()).collect();
    assert_eq!(names, vec!["git", "cargo"]);
    assert_eq!(chain.get_execution_type(), ExecutionType::Chain);
    assert_eq!(ChainExecutionResult::new("Done".to_string()).output, "Done");
}

#[test]
fn test_group_results_keep_output_or_error() {
    let done = ConcurrencyGroupExecutionResult::new(
        2,
        Ok(ProgramExecutionResult::new("out".to_string())),
    );
    assert_eq!(done.program_index, 2);
    assert_eq!(done.output.as_deref(), Some("out"));
    assert!(done.error.is_none());
    let failed = ConcurrencyGroupExecutionResult::new(
        3,
        Err(ProcessError::Spawn { reason: "gone".to_string() }),
    );
    assert!(failed.output.is_none());
    assert_eq!(failed.error.unwrap().message(), "Failed to execute Command Line: gone");
}

#[test]
fn test_only_the_first_producer_of_a_name_stores_into_it() {
    let mut first = program("printf", &["one"]);
    first.stdout_stored_to = Some("shared".to_string());
    let mut second = program("printf", &["two"]);
    second.stdout_stored_to = Some("<<shared>>".to_string());
    let mut chain = Chain::new(vec![first, second, program("echo", &["<<shared>>"])]);
    assert_eq!(chain.get_variables().len(), 1);
    let report = execute(&mut chain, &[], Ok(()));
    assert_eq!(report.result.unwrap(), Summary { failed_count: 0 });
    assert_eq!(report.runs[2], "echo one");
    assert_eq!(chain.get_value("shared").unwrap(), "one");
}
