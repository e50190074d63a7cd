use cchain::engine::command::{CommandLine, CommandLineExecutionResult};
use cchain::engine::interpreter::Interpreter;
use cchain::engine::options::{FailureHandlingOptions, StdoutStorageOptions};
use cchain::engine::program::{AttemptVerdict, ProcessError, Program, ProgramExecutionResult};
use cchain::engine::traits::{Execution, ExecutionType};
use std::str::FromStr;

/// Runs a program against a runner that is told which run it is asked
/// for, counting from one; returns the result and the number of runs.
fn execute_with(
    program: &Program,
    runner: &dyn Fn(u64) -> Result<CommandLineExecutionResult, ProcessError>,
    limit: u64,
) -> (Result<ProgramExecutionResult, ProcessError>, u64, Vec<u64>) {
    let mut failed: u64 = 0;
    let mut runs: u64 = 0;
    let mut warnings: Vec<u64> = Vec::new();
    loop {
        runs += 1;
        assert!(runs <= limit, "the program ran more often than expected");
        match program.settle_attempt(failed, runner(runs)) {
            AttemptVerdict::Succeeded(result) => return (Ok(result), runs, warnings),
            AttemptVerdict::Retry { attempt } => {
                warnings.push(attempt);
                failed = attempt;
            }
            AttemptVerdict::Failed(error) => return (Err(error), runs, warnings),
        }
    }
}

fn exit_failure() -> ProcessError {
    ProcessError::Exit { status: "exit status: 1".to_string(), partial_output: String::new() }
}

fn program_with_retry(command: &str, retry: i32) -> Program {
    Program::new(
        command.to_string(),
        vec![],
        None,
        None,
        None,
        StdoutStorageOptions::default(),
        None,
        FailureHandlingOptions::default(),
        None,
        retry,
    )
}

#[test]
fn test_execute_success() {
    let program = Program::new(
        "echo".to_string(),
        vec!["test".to_string()],
        None,
        None,
        None,
        StdoutStorageOptions::default(),
        None,
        FailureHandlingOptions::default(),
        None,
        0,
    );
    let (result, _, _) =
        execute_with(&program, &|_| Ok(CommandLineExecutionResult::new("test\n".to_string())), 1);
    let result = vec![result.unwrap()];
    assert!(!result[0].clone().get_output().is_empty());
}

#[test]
fn test_retry_failure() {
    let program = Program::new(
        "false".to_string(),
        vec![],
        None,
        None,
        None,
        StdoutStorageOptions::default(),
        None,
        FailureHandlingOptions::default(),
        None,
        2,
    );
    let (result, _, _) = execute_with(&program, &|_| Err(exit_failure()), 3);
    assert!(result.is_err());
}

#[test]
fn test_stdout_storage_options() {
    let program = Program::new(
        "printf".to_string(),
        vec!["test\n".to_string()],
        None,
        None,
        None,
        StdoutStorageOptions {
            without_newline_characters: true,
        },
        None,
        FailureHandlingOptions::default(),
        None,
        0,
    );
    let (result, _, _) =
        execute_with(&program, &|_| Ok(CommandLineExecutionResult::new("test\n".to_string())), 1);
    let result = vec![result.unwrap()];
    assert_eq!(result[0].clone().get_output(), "test");
}

#[test]
fn test_execute_remedy_command_line() {
    let program = Program::new(
        "echo".to_string(),
        vec!["test".to_string()],
        None,
        None,
        None,
        StdoutStorageOptions::default(),
        None,
        FailureHandlingOptions {
            exit_on_failure: true,
            remedy_command_line: Some(CommandLine::new(
                "echo".to_string(),
                vec!["hello".to_string()],
                Some(Interpreter::Sh),
                None,
                None,
            )),
        },
        None,
        0,
    );
    let remedy = program.remedy_process_command().unwrap();
    assert_eq!(remedy.program, "sh");
    assert_eq!(remedy.arguments, vec!["-c", "echo hello"]);
    assert_eq!(program.get_remedy_command_line().unwrap().get_command(), "echo");
}

#[test]
fn test_program_from_str() {
    let mut program = Program::from_str("echo hello world").unwrap();
    assert_eq!(program.get_command_line().get_command(), "echo");
    assert_eq!(
        program.get_command_line().get_arguments(),
        &vec!["hello".to_string(), "world".to_string()]
    );
}

#[test]
fn test_get_concurrency_group() {
    let program = Program::new(
        "echo".to_string(),
        vec!["${{env::TEST_ARG_FUNCTION}}".to_string()],
        None,
        None,
        None,
        StdoutStorageOptions::default(),
        None,
        FailureHandlingOptions::default(),
        Some(3),
        0,
    );
    assert_eq!(program.get_concurrency_group(), Some(3));
}

#[test]
fn test_default_program() {
    let program = Program::default();
    assert_eq!(*program.get_retry(), 0);
    assert!(program.get_awaitable_variable().is_none());
    assert_eq!(program.get_concurrency_group(), None);
}

#[test]
fn test_no_retry_runs_exactly_once() {
    let program = program_with_retry("false", 0);
    let (result, runs, warnings) = execute_with(&program, &|_| Err(exit_failure()), 1);
    assert!(result.is_err());
    assert_eq!(runs, 1);
    assert!(warnings.is_empty());

    let (result, runs, _) =
        execute_with(&program, &|_| Ok(CommandLineExecutionResult::new("ok".to_string())), 1);
    assert_eq!(result.unwrap().get_output(), "ok");
    assert_eq!(runs, 1);
}

#[test]
fn test_retry_runs_at_most_one_more_than_allowed() {
    for retry in 1..6 {
        let program = program_with_retry("false", retry);
        let (result, runs, warnings) =
            execute_with(&program, &|_| Err(exit_failure()), retry as u64 + 1);
        assert!(result.is_err());
        assert_eq!(runs, retry as u64 + 1);
        assert_eq!(warnings, (1..=retry as u64).collect::<Vec<u64>>());
    }
    let program = program_with_retry("flaky", 5);
    let (result, runs, _) = execute_with(
        &program,
        &|run| {
            if run == 3 {
                Ok(CommandLineExecutionResult::new("done".to_string()))
            } else {
                Err(exit_failure())
            }
        },
        3,
    );
    assert_eq!(result.unwrap().get_output(), "done");
    assert_eq!(runs, 3);
}

#[test]
fn test_retry_forever_returns_only_on_success() {
    for k in [1u64, 2, 17, 200] {
        let program = program_with_retry("flaky", -1);
        let (result, runs, _) = execute_with(
            &program,
            &|run| {
                if run == k {
                    Ok(CommandLineExecutionResult::new("at last\n".to_string()))
                } else {
                    Err(exit_failure())
                }
            },
            k,
        );
        assert_eq!(result.unwrap().get_output(), "at last");
        assert_eq!(runs, k);
    }
}

#[test]
fn test_retry_counter_stays_at_its_largest_value() {
    let program = program_with_retry("flaky", -1);
    assert!(matches!(
        program.settle_attempt(u64::MAX, Err(exit_failure())),
        AttemptVerdict::Retry { attempt: u64::MAX }
    ));
}

#[test]
fn test_other_negative_retry_settings_do_not_retry() {
    let program = program_with_retry("false", -5);
    let (result, runs, _) = execute_with(&program, &|_| Err(exit_failure()), 1);
    assert!(result.is_err());
    assert_eq!(runs, 1);
}

#[test]
fn test_failure_carries_the_last_error() {
    let program = program_with_retry("false", 1);
    let (result, _, _) = execute_with(
        &program,
        &|run| {
            Err(ProcessError::Exit {
                status: format!("exit status: {}", run),
                partial_output: String::new(),
            })
        },
        2,
    );
    assert_eq!(
        result.unwrap_err().message(),
        "Process exited with non-zero status: exit status: 2"
    );
}

#[test]
fn test_stored_output_loses_one_line_feed_at_each_end() {
    let program = program_with_retry("echo", 0);
    assert_eq!(program.apply_stdout_storage_options("hello\n".to_string()), "hello");
    assert_eq!(program.apply_stdout_storage_options("\nhello\n\n".to_string()), "hello\n");
    assert_eq!(program.apply_stdout_storage_options("\n".to_string()), "");
    assert_eq!(program.apply_stdout_storage_options("a\nb".to_string()), "a\nb");
    assert_eq!(program.apply_stdout_storage_options(String::new()), "");

    let mut verbatim = program_with_retry("echo", 0);
    verbatim.get_command_line().get_arguments().push("x".to_string());
    verbatim.stdout_storage_options = StdoutStorageOptions { without_newline_characters: false };
    assert_eq!(verbatim.apply_stdout_storage_options("hello\n".to_string()), "hello\n");
    assert_eq!(verbatim.get_command_line().get_arguments().len(), 1);
}

#[test]
fn test_program_from_str_needs_two_words() {
    assert_eq!(Program::from_str("echo").unwrap_err(), "Invalid configuration");
    assert_eq!(Program::from_str("   ").unwrap_err(), "Invalid configuration");
    let mut program = Program::parse("  git\tstatus \n").unwrap();
    assert_eq!(program.get_command_line().get_command(), "git");
    assert_eq!(program.get_command_line().get_arguments(), &vec!["status".to_string()]);
    assert_eq!(program.get_execution_type(), ExecutionType::Program);
    assert!(program.get_failure_handling_options().exit_on_failure);
    assert!(program.remedy_process_command().is_none());
}
