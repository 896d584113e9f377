use md2md::include_resolver::parse_codesnippet_parameters;
use md2md::include_resolver::parse_include_parameters;
use md2md::error::DirectiveKind;
use md2md::error::Parameter;
use md2md::error::ResolveError;

#[test]
fn test_parse_include_parameters_simple() {
    let directive = "!include (readme-terminology.md)";
    let (path, params) =
        parse_include_parameters(directive).expect("Failed to parse include parameters");

    assert_eq!(path, "readme-terminology.md");
    assert!(params.title.is_none());
    assert_eq!(params.title_level, Some(1));
    assert!(params.values.is_empty());
}

#[test]
fn test_parse_include_parameters_with_title() {
    let directive = r#"!include (readme-terminology.md, title="The Title Here")"#;
    let (path, params) =
        parse_include_parameters(directive).expect("Failed to parse include parameters");

    assert_eq!(path, "readme-terminology.md");
    assert_eq!(params.title, Some("The Title Here".to_string()));
    assert_eq!(params.title_level, Some(1));
    assert!(params.values.is_empty());
}

#[test]
fn test_parse_include_parameters_with_title_and_level() {
    let directive =
        r#"!include (readme-terminology.md, title="The Title Here", title-level=2)"#;
    let (path, params) =
        parse_include_parameters(directive).expect("Failed to parse include parameters");

    assert_eq!(path, "readme-terminology.md");
    assert_eq!(params.title, Some("The Title Here".to_string()));
    assert_eq!(params.title_level, Some(2));
    assert!(params.values.is_empty());
}

#[test]
fn test_parse_include_parameters_with_values() {
    let directive = r#"!include (readme-terminology.md, values=[variable_name_1="Value 1", variable_name_2="Value 2"])"#;
    let (path, params) =
        parse_include_parameters(directive).expect("Failed to parse include parameters");

    assert_eq!(path, "readme-terminology.md");
    assert!(params.title.is_none());
    assert_eq!(params.title_level, Some(1));
    assert_eq!(
        params.values.get("variable_name_1"),
        Some(&"Value 1".to_string())
    );
    assert_eq!(
        params.values.get("variable_name_2"),
        Some(&"Value 2".to_string())
    );
}

#[test]
fn test_parse_include_parameters_full() {
    let directive = r#"!include (readme-terminology.md, title="The Title Here", title-level=2, values=[variable_name_1="Value 1", variable_name_2="Value 2"])"#;
    let (path, params) =
        parse_include_parameters(directive).expect("Failed to parse include parameters");

    assert_eq!(path, "readme-terminology.md");
    assert_eq!(params.title, Some("The Title Here".to_string()));
    assert_eq!(params.title_level, Some(2));
    assert_eq!(
        params.values.get("variable_name_1"),
        Some(&"Value 1".to_string())
    );
    assert_eq!(
        params.values.get("variable_name_2"),
        Some(&"Value 2".to_string())
    );
}

#[test]
fn include_without_space_and_with_quotes() {
    let (path, params) = parse_include_parameters("!include( \"docs/a.md\" )").unwrap();
    assert_eq!(path, "docs/a.md");
    assert!(params.title.is_none());
    assert!(matches!(
        parse_include_parameters("!include(\"docs/a b.md\")"),
        Err(ResolveError::MalformedDirective { .. })
    ));
    let (path, _) = parse_include_parameters("!include('header.md')").unwrap();
    assert_eq!(path, "header.md");
    let (path, _) = parse_include_parameters("!include(\u{e9}t\u{e9}.md, title=\"\u{c9}t\u{e9}\")").unwrap();
    assert_eq!(path, "\u{e9}t\u{e9}.md");
}

#[test]
fn include_title_level_out_of_range_is_rejected() {
    for text in ["!include(a.md, title-level=0)", "!include(a.md, title-level=7)", "!include(a.md, title-level=300)", "!include(a.md, title-level=99999999999999999999999999)"] {
        match parse_include_parameters(text) {
            Err(ResolveError::InvalidParameter { parameter }) => assert_eq!(parameter, Parameter::TitleLevel),
            other => panic!("unexpected for {}: {:?}", text, other),
        }
    }
    let (_, params) = parse_include_parameters("!include(a.md, title-level=6)").unwrap();
    assert_eq!(params.title_level, Some(6));
    let e = parse_include_parameters("!include(a.md, title-level=7)").err().unwrap();
    assert_eq!(e.to_string(), "title-level must be between 1 and 6");
}

#[test]
fn include_without_parentheses_is_malformed() {
    match parse_include_parameters("!include header.md") {
        Err(ResolveError::MalformedDirective { kind, directive }) => {
            assert_eq!(kind, DirectiveKind::Include);
            assert_eq!(directive, "!include header.md");
        }
        other => panic!("unexpected: {:?}", other),
    }
    assert!(matches!(
        parse_include_parameters("!include()"),
        Err(ResolveError::MalformedDirective { .. })
    ));
    assert!(matches!(
        parse_include_parameters("!include(\"\")"),
        Err(ResolveError::MalformedDirective { .. })
    ));
    let e = parse_include_parameters("!include x").err().unwrap();
    assert_eq!(e.to_string(), "Invalid include directive format '!include x'");
}

#[test]
fn later_value_of_a_name_replaces_the_earlier() {
    let (_, params) = parse_include_parameters(r#"!include(a.md, values=[k="1", k="2"])"#).unwrap();
    assert_eq!(params.values.get("k"), Some(&"2".to_string()));
    assert_eq!(params.values.get("other"), None);
    assert!(!params.values.is_empty());
}

#[test]
fn codesnippet_parameters_are_read() {
    let (path, params) = parse_codesnippet_parameters("!codesnippet(src/main.py)").unwrap();
    assert_eq!(path, "src/main.py");
    assert_eq!(params.lang, None);
    assert_eq!(params.start, None);
    assert_eq!(params.end, None);

    let (path, params) =
        parse_codesnippet_parameters(r#"!codesnippet (path/to/file.py, lang="python", start=3, end=10)"#)
            .unwrap();
    assert_eq!(path, "path/to/file.py");
    assert_eq!(params.lang, Some("python".to_string()));
    assert_eq!(params.start, Some(3));
    assert_eq!(params.end, Some(10));

    let (path, params) = parse_codesnippet_parameters(r#"!codesnippet("a b.rs" , end=2)"#).unwrap();
    assert_eq!(path, "a b.rs");
    assert_eq!(params.start, None);
    assert_eq!(params.end, Some(2));
}

#[test]
fn codesnippet_line_zero_is_rejected() {
    match parse_codesnippet_parameters("!codesnippet(a.rs, start=0)") {
        Err(ResolveError::InvalidParameter { parameter }) => assert_eq!(parameter, Parameter::Start),
        other => panic!("unexpected: {:?}", other),
    }
    match parse_codesnippet_parameters("!codesnippet(a.rs, start=1, end=0)") {
        Err(ResolveError::InvalidParameter { parameter }) => assert_eq!(parameter, Parameter::End),
        other => panic!("unexpected: {:?}", other),
    }
    match parse_codesnippet_parameters("!codesnippet(a.rs, end=99999999999999999999999999)") {
        Err(ResolveError::InvalidParameter { parameter }) => assert_eq!(parameter, Parameter::End),
        other => panic!("unexpected: {:?}", other),
    }
    assert_eq!(
        parse_codesnippet_parameters("!codesnippet(a.rs, start=0)").err().unwrap().to_string(),
        "start line must be greater than 0"
    );
    assert_eq!(
        parse_codesnippet_parameters("!codesnippet(a.rs, end=0)").err().unwrap().to_string(),
        "end line must be greater than 0"
    );
}

#[test]
fn codesnippet_without_parentheses_is_malformed() {
    match parse_codesnippet_parameters("!codesnippet a.rs") {
        Err(ResolveError::MalformedDirective { kind, .. }) => assert_eq!(kind, DirectiveKind::CodeSnippet),
        other => panic!("unexpected: {:?}", other),
    }
    assert_eq!(
        parse_codesnippet_parameters("!codesnippet a.rs").err().unwrap().to_string(),
        "Invalid codesnippet directive format"
    );
}
