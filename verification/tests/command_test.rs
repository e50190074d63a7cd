use cchain::engine::command::{join, CommandLine, CommandLineExecutionResult};
use cchain::engine::interpreter::Interpreter;
use cchain::engine::program::{process_outcome, AttemptVerdict, ProcessError, Program};
use cchain::engine::traits::{Execution, ExecutionType};
use std::collections::HashMap;

#[test]
fn test_execute_sh_command() {
    let cmd = CommandLine::new(
        "printf".to_string(),
        vec!["%s".to_string(), "test".to_string()],
        Some(Interpreter::Sh),
        None,
        None,
    );
    let process = cmd.get_process_command();
    assert_eq!(process.program, "sh");
    assert_eq!(process.arguments, vec!["-c", "printf %s test"]);
}

#[test]
fn test_environment_variable_override() {
    let mut env_vars = HashMap::new();
    env_vars.insert("TEST_VAR".to_string(), "success".to_string());
    let cmd = CommandLine::new(
        "sh".to_string(),
        vec!["-c".to_string(), "echo $TEST_VAR".to_string()],
        None,
        Some(env_vars),
        None,
    );
    let process = cmd.get_process_command();
    assert_eq!(process.arguments.len(), 2);
    assert_eq!(
        process.environment.unwrap().get("TEST_VAR").map(|value| value.trim()),
        Some("success")
    );
}

#[test]
fn test_inject_value_into_arguments() {
    let mut cmd = CommandLine::new(
        "echo".to_string(),
        vec!["Hello, <<NAME>>!".to_string()],
        None,
        None,
        None,
    );
    cmd.inject_value_to_variables("<<NAME>>", "Alice".to_string()).unwrap();
    assert_eq!(*cmd.get_arguments(), vec!["Hello, Alice!"]);
}

#[test]
fn test_revise_argument_by_index() {
    let mut cmd = CommandLine::new(
        "echo".to_string(),
        vec!["old".to_string()],
        None,
        None,
        None,
    );
    cmd.revise_argument_by_index(0, "new".to_string());
    assert_eq!(*cmd.get_arguments(), vec!["new".to_string()]);
}

#[test]
fn test_execute_invalid_command() {
    let program = Program::new(
        "nonexistentcommand".to_string(),
        vec!["".to_string()],
        None,
        None,
        None,
        Default::default(),
        None,
        Default::default(),
        None,
        0,
    );
    let spawn = ProcessError::Spawn { reason: "No such file or directory (os error 2)".to_string() };
    let result = match program.settle_attempt(0, Err(spawn)) {
        AttemptVerdict::Failed(error) => Err(error),
        _ => Ok(()),
    };
    assert!(result.is_err());
    let error_msg = result.unwrap_err().message();
    assert!(error_msg.starts_with("Failed to execute Command Line"));
}

#[test]
fn test_process_command_without_interpreter() {
    let cmd = CommandLine::new(
        "git".to_string(),
        vec!["commit".to_string(), "-m".to_string(), "two words".to_string()],
        None,
        None,
        Some("/tmp/work".to_string()),
    );
    let process = cmd.get_process_command();
    assert_eq!(process.program, "git");
    assert_eq!(process.arguments, vec!["commit", "-m", "two words"]);
    assert_eq!(process.working_directory.as_deref(), Some("/tmp/work"));
    assert!(process.environment.is_none());
    assert_eq!(cmd.to_string(), "git commit -m two words");
}

#[test]
fn test_shell_command_line_without_arguments() {
    let cmd = CommandLine::new("ls".to_string(), vec![], Some(Interpreter::Sh), None, None);
    let process = cmd.get_process_command();
    assert_eq!(process.arguments, vec!["-c", "ls "]);
}

#[test]
fn test_substitution_and_idempotence() {
    let mut cmd = CommandLine::new(
        "echo".to_string(),
        vec!["pre<<x>>post".to_string(), "untouched".to_string(), "<<x>><<x>>".to_string()],
        None,
        None,
        None,
    );
    cmd.inject_value_to_variables("<<x>>", "V".to_string()).unwrap();
    assert_eq!(*cmd.get_arguments(), vec!["preVpost", "untouched", "VV"]);
    cmd.inject_value_to_variables("<<x>>", "W".to_string()).unwrap();
    assert_eq!(*cmd.get_arguments(), vec!["preVpost", "untouched", "VV"]);
}

#[test]
fn test_injection_scans_from_the_left() {
    let mut cmd = CommandLine::new(
        "echo".to_string(),
        vec!["aaa".to_string(), "ab".to_string()],
        None,
        None,
        None,
    );
    cmd.inject_value_to_variables("aa", "b".to_string()).unwrap();
    assert_eq!(*cmd.get_arguments(), vec!["ba", "ab"]);
    cmd.inject_value_to_variables("", "-".to_string()).unwrap();
    assert_eq!(*cmd.get_arguments(), vec!["-b-a-", "-a-b-"]);
}

#[test]
fn test_join_puts_separator_between_parts() {
    assert_eq!(join(&vec![], ", "), "");
    assert_eq!(join(&vec!["a".to_string()], ", "), "a");
    assert_eq!(join(&vec!["a".to_string(), "".to_string(), "c".to_string()], ", "), "a, , c");
}

#[test]
fn test_command_line_result_and_kind() {
    let result = CommandLineExecutionResult::new("out".to_string());
    assert_eq!(result.get_output(), "out");
    let cmd = CommandLine::default();
    assert_eq!(cmd.get_command(), "");
    assert_eq!(cmd.get_execution_type(), ExecutionType::CommandLine);
    assert_eq!(cmd.get_execution_type().name(), "Command Line");
    assert_eq!(ExecutionType::ConcurrencyGroup.name(), "Concurrency Group");
}

#[test]
fn test_process_error_messages() {
    let exit = ProcessError::Exit { status: "exit status: 1".to_string(), partial_output: "x".to_string() };
    assert_eq!(exit.message(), "Process exited with non-zero status: exit status: 1");
    let wait = ProcessError::Wait { reason: "gone".to_string() };
    assert_eq!(wait.message(), "Failed to wait on child process: gone");
}

#[test]
fn test_a_status_other_than_success_is_an_error_with_what_was_printed() {
    let done = process_outcome(true, "exit status: 0".to_string(), "all\n".to_string());
    assert_eq!(done.unwrap().get_output(), "all\n");
    match process_outcome(false, "exit status: 3".to_string(), "half".to_string()) {
        Err(ProcessError::Exit { status, partial_output }) => {
            assert_eq!(status, "exit status: 3");
            assert_eq!(partial_output, "half");
        }
        other => panic!("expected an exit error, got {:?}", other),
    }
}
