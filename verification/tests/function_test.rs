use cchain::function::{Confirmation, Function, FunctionError};
use std::str::FromStr;

#[test]
fn test_from_str() {
    let func_str = r#"llm_generate('param1', 'param2')"#;
    let function = Function::from_str(func_str).unwrap();

    assert_eq!(function.get_name(), "llm_generate");
    assert_eq!(
        function.get_parameters(),
        &vec!["param1".to_string(), "param2".to_string()]
    );
}

#[test]
fn test_from_str_invalid() {
    let func_str = "invalid_function_string";
    let function = Function::from_str(func_str);

    assert!(function.is_err());
}

#[test]
fn test_get_name() {
    let function = Function::from_str("test_function('param1', 'param2')").unwrap();

    assert_eq!(function.get_name(), "test_function");
}

#[test]
fn test_get_parameters() {
    let function = Function::from_str("test_function('param1', 'param2')").unwrap();

    assert_eq!(
        function.get_parameters(),
        &vec!["param1".to_string(), "param2".to_string()]
    );
}

#[test]
fn test_parse_reports_why_no_function_is_found() {
    assert!(matches!(
        Function::parse("echo hello"),
        Err(FunctionError::NoFunctionFound)
    ));
    assert_eq!(
        Function::parse("f('only one')").unwrap_err().message(),
        "No function found"
    );
}

#[test]
fn test_parse_finds_a_call_inside_a_text() {
    let function = Function::parse("say: greet ( 'a b' ,'c' ) now").unwrap();
    assert_eq!(function.get_name(), "greet");
    assert_eq!(function.get_parameters(), &vec!["a b".to_string(), "c".to_string()]);
}

#[test]
fn test_from_captures_needs_name_and_two_parameters() {
    let whole = Some("f('a','b')".to_string());
    let complete = vec![
        whole.clone(),
        Some("f".to_string()),
        Some("a".to_string()),
        Some("b".to_string()),
    ];
    let function = Function::from_captures(&complete).unwrap();
    assert_eq!(function.get_name(), "f");
    assert_eq!(function.get_parameters(), &vec!["a".to_string(), "b".to_string()]);

    let no_name = vec![whole.clone(), None, Some("a".to_string()), Some("b".to_string())];
    assert!(matches!(
        Function::from_captures(&no_name),
        Err(FunctionError::Capture { group: 1 })
    ));
    let no_first = vec![whole.clone(), Some("f".to_string()), None, Some("b".to_string())];
    assert!(matches!(
        Function::from_captures(&no_first),
        Err(FunctionError::Capture { group: 2 })
    ));
    let short = vec![whole.clone(), Some("f".to_string()), Some("a".to_string())];
    let error = Function::from_captures(&short).unwrap_err();
    assert!(matches!(error, FunctionError::Capture { group: 3 }));
    assert_eq!(error.message(), "Failed to capture second argument");
    assert!(matches!(
        Function::from_captures(&Vec::new()),
        Err(FunctionError::Capture { group: 1 })
    ));
}

#[test]
fn test_only_the_generator_is_known() {
    assert!(Function::parse("llm_generate('a', 'b')").unwrap().is_known());
    assert!(!Function::parse("other('a', 'b')").unwrap().is_known());
    assert!(Function::parse("llm_generate('a', 'b')").unwrap().check_known().is_ok());
    let refused = Function::parse("other('a', 'b')").unwrap().check_known().unwrap_err();
    assert!(matches!(refused, FunctionError::FunctionNotFound));
    assert_eq!(refused.message(), "Function not found");
}

#[test]
fn test_context_command_is_the_second_parameter_in_words() {
    let function = Function::parse("llm_generate('summarise', 'git  diff --stat')").unwrap();
    let command = function.context_command().unwrap().unwrap();
    assert_eq!(command.program, "git");
    assert_eq!(command.arguments, vec!["diff", "--stat"]);
    assert!(command.environment.is_none());

    let blank = Function::parse("llm_generate('summarise', '  ')").unwrap();
    assert!(matches!(blank.context_command(), Err(FunctionError::NoCommand)));

    let single = Function { name: "llm_generate".to_string(), parameters: vec!["x".to_string()] };
    assert!(single.context_command().unwrap().is_none());
}

#[test]
fn test_prompt_joins_request_and_output() {
    let function = Function::parse("llm_generate('summarise', 'git diff')").unwrap();
    assert_eq!(function.prompt("+1 -1"), "summarise\n+1 -1\n");
}

#[test]
fn test_confirmation_reads_answers() {
    assert_eq!(Confirmation::parse(" YES\n"), Confirmation::Proceed);
    assert_eq!(Confirmation::parse("retry"), Confirmation::Retry);
    assert_eq!(Confirmation::parse("Abort "), Confirmation::Abort);
    assert_eq!(Confirmation::parse("maybe"), Confirmation::Unclear);
    assert_eq!(Confirmation::parse(""), Confirmation::Unclear);
}
