use md2md::error::ResolveError;
use md2md::types::VariableMap;
use md2md::include_resolver::process_variables;

#[test]
fn test_process_variables_simple() {
    let content = "Hello {% name %}!";
    let mut variables = VariableMap::new();
    variables.insert("name".to_string(), "World".to_string());

    let result = process_variables(content, &variables).expect("Failed to process variables");
    assert_eq!(result, "Hello World!");
}

#[test]
fn test_process_variables_with_default() {
    let content = r#"Hello {% name || "Guest" %}!"#;
    let variables = VariableMap::new();

    let result = process_variables(content, &variables).expect("Failed to process variables");
    assert_eq!(result, "Hello Guest!");
}

#[test]
fn test_process_variables_missing_no_default() {
    let content = "Hello {% name %}!";
    let variables = VariableMap::new();

    let result = process_variables(content, &variables);
    assert!(result.is_err());
    assert!(
        result
            .expect_err("Failed to get error :/")
            .to_string()
            .contains("Variable 'name' not found")
    );
}

#[test]
fn value_of_the_name_goes_before_the_default() {
    let mut variables = VariableMap::new();
    variables.insert("n".to_string(), "V".to_string());
    assert_eq!(process_variables("{% n || \"D\" %}", &variables).unwrap(), "V");
    assert_eq!(process_variables("{% n || \"D\" %}", &VariableMap::new()).unwrap(), "D");
    match process_variables("{% n %}", &VariableMap::new()) {
        Err(ResolveError::UndefinedVariable { name }) => assert_eq!(name, "n"),
        other => panic!("unexpected: {:?}", other),
    }
}

#[test]
fn text_between_placeholders_is_kept() {
    let mut variables = VariableMap::new();
    variables.insert("a".to_string(), "1".to_string());
    variables.insert("b".to_string(), "\u{e9}".to_string());
    assert_eq!(
        process_variables("\u{fc}x {%a%}-{% b %}-{%  c ||  \"z\" %} end\n", &variables).unwrap(),
        "\u{fc}x 1-\u{e9}-z end\n"
    );
    assert_eq!(process_variables("no placeholders", &variables).unwrap(), "no placeholders");
    assert_eq!(process_variables("", &variables).unwrap(), "");
}

#[test]
fn values_that_bring_placeholders_are_replaced_in_turn() {
    let mut variables = VariableMap::new();
    variables.insert("a".to_string(), "{% b %}".to_string());
    variables.insert("b".to_string(), "done".to_string());
    assert_eq!(process_variables("{% a %}", &variables).unwrap(), "done");
}

#[test]
fn a_value_that_brings_itself_back_is_a_loop() {
    let mut variables = VariableMap::new();
    variables.insert("a".to_string(), "{% a %}".to_string());
    match process_variables("{% a %}", &variables) {
        Err(ResolveError::SubstitutionLoopDetected) => {}
        other => panic!("unexpected: {:?}", other),
    }
    assert_eq!(
        ResolveError::SubstitutionLoopDetected.to_string(),
        "Maximum variable processing iterations exceeded. Possible circular variable references."
    );
}
