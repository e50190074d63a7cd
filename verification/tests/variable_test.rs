use cchain::variable::{Variable, VariableInitializationTime, VariableLifetime};

#[test]
fn test_extract_no_variables() {
    let input = "No variables here";
    assert!(Variable::extract_variable_names(input).is_empty());
}

#[test]
fn test_extract_single_variable() {
    let input = "<<test>>";
    assert_eq!(Variable::extract_variable_names(input), vec!["test"]);
}

#[test]
fn test_extract_multiple_variables() {
    let input = "<<var1>> and <<var2:on_program_execution>>";
    let vars = Variable::extract_variable_names(input);
    assert_eq!(vars, vec!["var1", "var2:on_program_execution"]);
}

#[test]
fn test_extract_adjacent_variables() {
    let input = "<<var1>><<var2>>";
    let vars = Variable::extract_variable_names(input);
    assert_eq!(vars, vec!["var1", "var2"]);
}

#[test]
fn test_parse_variables_with_different_qualifiers() {
    let input = r#"
            <<on_chain_var>> 
            <<exec_var:on_program_execution>>
            <<await_var>> 
        "#;

    let vars = Variable::parse_variables_from_str(input, 0).unwrap();

    // Test OnChainStartup variable
    assert_eq!(vars[0].get_variable_name(), "on_chain_var");
    assert!(matches!(
        vars[0].get_initialization_time(),
        VariableInitializationTime::OnChainStartup(_)
    ));

    // Test OnProgramExecution variable
    assert_eq!(vars[1].get_variable_name(), "exec_var");
    assert!(matches!(
        vars[1].get_initialization_time(),
        VariableInitializationTime::OnProgramExecution(_)
    ));

    // Test Await variable (requires separate parsing via parse_await_variable)
    let await_var = Variable::parse_await_variable("<<await_var>>", 0);
    assert_eq!(await_var.get_variable_name(), "await_var");
    assert_eq!(await_var.get_raw_variable_name(), "<<await_var>>");
    assert!(matches!(
        await_var.get_initialization_time(),
        VariableInitializationTime::Await(_)
    ));
}

#[test]
fn test_case_insensitive_qualifier() {
    let input = "<<var:ON_PROGRAM_EXECUTION>>";
    let vars = Variable::parse_variables_from_str(input, 0).unwrap();

    assert!(matches!(
        vars[0].get_initialization_time(),
        VariableInitializationTime::OnProgramExecution(_)
    ));
}

#[test]
fn test_invalid_qualifier_fallback() {
    let input = "<<var:invalid_qualifier>>";
    let vars = Variable::parse_variables_from_str(input, 0).unwrap();

    assert!(matches!(
        vars[0].get_initialization_time(),
        VariableInitializationTime::OnChainStartup(_)
    ));
}

#[test]
fn test_variable_name_parsing() {
    let input = "<<namespace::var_name:on_program_execution>>";
    let vars = Variable::parse_variables_from_str(input, 0).unwrap();

    assert_eq!(vars[0].get_raw_variable_name(), input);
    assert_eq!(vars[0].get_variable_name(), "namespace::var_name");
    assert!(matches!(
        vars[0].get_initialization_time(),
        VariableInitializationTime::OnProgramExecution(_)
    ));
}

#[test]
fn test_mixed_variable_syntax() {
    let input = r#"
            User <<$name>> needs <<count:on_program_execution>> items.
            Final result: <<result>>.
        "#;

    let vars = Variable::parse_variables_from_str(input, 0).unwrap();
    assert_eq!(vars.len(), 3);
    assert_eq!(vars[0].get_variable_name(), "$name");
    assert_eq!(vars[1].get_variable_name(), "count");
    assert_eq!(vars[2].get_variable_name(), "result");
}

#[test]
fn test_parse_variables_from_str() {
    let input = "<<var1>> <<var2:on_program_execution>>";
    let vars = Variable::parse_variables_from_str(input, 3).unwrap();
    assert_eq!(vars.len(), 2);

    assert_eq!(vars[0].get_variable_name(), "var1");
    assert!(matches!(
        vars[0].get_initialization_time(),
        VariableInitializationTime::OnChainStartup(_)
    ));

    assert_eq!(vars[1].get_variable_name(), "var2");
    assert!(matches!(
        vars[1].get_initialization_time(),
        VariableInitializationTime::OnProgramExecution(_)
    ));
}

#[test]
fn test_parse_await_variable() {
    let var = Variable::parse_await_variable("<<await_var>>", 2);
    assert_eq!(var.get_variable_name(), "await_var");
    assert!(matches!(
        var.get_initialization_time(),
        VariableInitializationTime::Await(_)
    ));
}

#[test]
fn test_human_readable_name() {
    let var = Variable::new(
        "my_variable".to_string(),
        None,
        None,
        VariableInitializationTime::OnChainStartup(VariableLifetime::new(None)),
    );
    assert_eq!(var.get_human_readable_name(), "My Variable");

    let var_custom = Variable::new(
        "var".to_string(),
        None,
        Some("Custom Name".to_string()),
        VariableInitializationTime::OnChainStartup(VariableLifetime::new(None)),
    );
    assert_eq!(var_custom.get_human_readable_name(), "Custom Name");
}

#[test]
fn test_register_and_get_value() {
    let mut var = Variable::new(
        "test".to_string(),
        None,
        None,
        VariableInitializationTime::OnChainStartup(VariableLifetime::new(None)),
    );
    var.register_value("value");
    assert_eq!(var.get_value().unwrap(), "value");
}

#[test]
fn test_get_uninitialized_value() {
    let var = Variable::new(
        "test".to_string(),
        None,
        None,
        VariableInitializationTime::OnChainStartup(VariableLifetime::new(None)),
    );
    assert!(var.get_value().is_err());
}

#[test]
fn test_raw_variable_name() {
    let var_chain = Variable::new(
        "var".to_string(),
        None,
        None,
        VariableInitializationTime::OnChainStartup(VariableLifetime::new(None)),
    );
    assert_eq!(var_chain.get_raw_variable_name(), "<<var>>");

    let var_program_exec = Variable::new(
        "var".to_string(),
        None,
        None,
        VariableInitializationTime::OnProgramExecution(VariableLifetime::new(Some(1))),
    );
    assert_eq!(
        var_program_exec.get_raw_variable_name(),
        "<<var:on_program_execution>>"
    );
}

#[test]
fn test_is_initialized() {
    let init_on_chain = VariableInitializationTime::OnChainStartup(VariableLifetime::new(None));
    assert!(init_on_chain.is_initialized(0));
    assert!(init_on_chain.is_initialized(1));

    let init_on_program =
        VariableInitializationTime::OnProgramExecution(VariableLifetime::new(Some(2)));
    assert!(init_on_program.is_initialized(2));
    assert!(!init_on_program.is_initialized(1));

    let init_await = VariableInitializationTime::Await(VariableLifetime::new(Some(3)));
    assert!(init_await.is_initialized(3));
    assert!(!init_await.is_initialized(2));
}

#[test]
fn test_is_satisfied_at_or_after_binding() {
    let on_startup = VariableInitializationTime::OnChainStartup(VariableLifetime::new(None));
    assert!(on_startup.is_satisfied_at(0));
    assert!(on_startup.is_satisfied_at(7));

    let awaited = VariableInitializationTime::Await(VariableLifetime::new(Some(3)));
    assert!(!awaited.is_satisfied_at(2));
    assert!(awaited.is_satisfied_at(3));
    assert!(awaited.is_satisfied_at(4));
}

#[test]
fn test_extract_strips_every_leading_marker() {
    assert_eq!(Variable::extract_variable_names("<<<a>>"), vec!["a"]);
    assert_eq!(Variable::extract_variable_names("x<<>>y"), vec![""]);
    assert!(Variable::extract_variable_names("<<open").is_empty());
    assert!(Variable::extract_variable_names("<<a>b>>").is_empty());
}

#[test]
fn test_names_in_matches_takes_matches_as_given() {
    let matches = vec!["<<a>>".to_string(), "<<<b:c>>".to_string(), "plain".to_string()];
    assert_eq!(Variable::names_in_matches(&matches), vec!["a", "b:c", "plain"]);
}

#[test]
fn test_parse_initialization_time_splits_at_last_colon() {
    let (name, time) = Variable::parse_initialization_time("a:b:On_Program_Execution", 4);
    assert_eq!(name, "a:b");
    assert_eq!(
        time,
        VariableInitializationTime::OnProgramExecution(VariableLifetime::new(Some(4)))
    );
    let (name, time) = Variable::parse_initialization_time("plain", 4);
    assert_eq!(name, "plain");
    assert_eq!(
        time,
        VariableInitializationTime::OnChainStartup(VariableLifetime::new(None))
    );
    let (name, time) = Variable::parse_initialization_time("a:later", 4);
    assert_eq!(name, "a");
    assert_eq!(
        time,
        VariableInitializationTime::OnChainStartup(VariableLifetime::new(Some(0)))
    );
}

#[test]
fn test_parse_await_variable_without_markers() {
    let plain = Variable::parse_await_variable("  X \n", 1);
    assert_eq!(plain.get_variable_name(), "X");
    assert_eq!(plain.get_raw_variable_name(), "<<X>>");
    let nested = Variable::parse_await_variable("<<<<deep>>>>", 1);
    assert_eq!(nested.get_variable_name(), "deep");
    let odd = Variable::parse_await_variable("<odd>", 1);
    assert_eq!(odd.get_variable_name(), "<odd>");
}

#[test]
fn test_human_readable_name_edges() {
    let time = VariableInitializationTime::OnChainStartup(VariableLifetime::new(None));
    let doubled = Variable::new("a__b".to_string(), None, None, time);
    assert_eq!(doubled.get_human_readable_name(), "A  B");
    let sharp = Variable::new("ßeta_x".to_string(), None, None, time);
    assert_eq!(sharp.get_human_readable_name(), "SSeta X");
    let empty = Variable::new(String::new(), None, None, time);
    assert_eq!(empty.get_human_readable_name(), "");
}

#[test]
fn test_variable_error_messages() {
    let var = Variable::new(
        "test".to_string(),
        None,
        None,
        VariableInitializationTime::OnChainStartup(VariableLifetime::new(None)),
    );
    assert_eq!(var.get_value().unwrap_err().message(), "Value for test is empty");
}

#[test]
fn test_find_placeholders_keeps_the_markers() {
    assert_eq!(
        Variable::find_placeholders("a <<x>> b <<<y:z>> c <<>>"),
        vec!["<<x>>", "<<<y:z>>", "<<>>"]
    );
    assert_eq!(Variable::find_placeholders("<<a\nb>>>"), vec!["<<a\nb>>"]);
    assert!(Variable::find_placeholders("<<a> >><b>>").is_empty());
    assert_eq!(Variable::placeholder_end(&"x<<ab>>".chars().collect(), 1), Some(7));
    assert_eq!(Variable::placeholder_end(&"x<<ab>>".chars().collect(), 0), None);
    assert_eq!(Variable::placeholder_end(&"<<ab>".chars().collect(), 0), None);
}

#[test]
fn test_placeholders_are_what_the_pattern_matches() {
    let pattern = regex::Regex::new(r"<<([^>]*)>>").unwrap();
    let pieces = ["<", "<<", ">", ">>", "a", ":", " ", "é", "\n", "on_program_execution"];
    let mut texts: Vec<String> = vec![String::new()];
    for _ in 0..4 {
        let mut longer = Vec::new();
        for text in &texts {
            for piece in pieces {
                longer.push(format!("{}{}", text, piece));
            }
        }
        texts.extend(longer);
    }
    assert!(texts.len() > 10_000);
    for text in &texts {
        let expected: Vec<String> =
            pattern.find_iter(text).map(|found| found.as_str().to_string()).collect();
        assert_eq!(Variable::find_placeholders(text), expected, "in {:?}", text);
    }
}
