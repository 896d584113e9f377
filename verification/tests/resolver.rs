use md2md::error::ResolveError;
use md2md::include_resolver::process_includes;
use md2md::include_resolver::process_includes_with_validation;
use md2md::include_resolver::process_code_snippet;
use md2md::sources::Sources;
use md2md::types::CodeSnippetParameters;
use md2md::types::IncludeResult;

fn sources_of(files: &[(&str, &str)]) -> Sources {
    let mut sources = Sources::new();
    for (path, text) in files {
        sources.insert(path.to_string(), Ok(text.to_string()));
    }
    sources
}

#[test]
fn test_process_includes_with_parameters() {
    let header_content = "# {% section_title %}\n\nWelcome to {% project_name %}!";
    let sources = sources_of(&[("/t/partials/header.md", header_content)]);

    let content = r#"!include (header.md, values=[project_name="md2md", section_title="My Project"])

This is the main content."#;
    let mut includes = Vec::new();

    let result = process_includes(content, "/t/main.md", "/t/partials", &mut includes, &sources)
        .expect("Failed to process includes");

    assert!(result.contains("# My Project"));
    assert!(result.contains("Welcome to md2md!"));
    assert!(result.contains("This is the main content."));
    assert_eq!(includes.len(), 1);
    assert!(includes[0].success);
}

#[test]
fn test_process_includes_with_title() {
    let sources = sources_of(&[("/t/partials/content.md", "This is the included content.")]);

    let content = r#"!include (content.md, title="Section Title", title-level=3)

Main content continues here."#;
    let mut includes = Vec::new();

    let result = process_includes(content, "/t/main.md", "/t/partials", &mut includes, &sources)
        .expect("Failed to process includes");

    assert!(result.contains("### Section Title"));
    assert!(result.contains("This is the included content."));
    assert!(result.contains("Main content continues here."));
    assert_eq!(includes.len(), 1);
    assert!(includes[0].success);
    assert_eq!(
        result,
        "### Section Title\n\nThis is the included content.\n\nMain content continues here."
    );
}

#[test]
fn test_preserve_trailing_whitespace_in_includes() {
    let sources = sources_of(&[("/t/partials/trailing.md", "Content with trailing lines.\n\n")]);

    let content = "# Main\n\n!include (trailing.md)\n\nEnd.";
    let mut includes = Vec::new();

    let result = process_includes(content, "/t/main.md", "/t/partials", &mut includes, &sources)
        .expect("Failed to process includes");

    assert!(result.contains("Content with trailing lines.\n\n"));
    assert!(result.contains("End."));
    assert_eq!(includes.len(), 1);
    assert!(includes[0].success);
    assert_eq!(result, "# Main\n\nContent with trailing lines.\n\nEnd.");
}

#[test]
fn text_without_directives_comes_back_unchanged() {
    let sources = Sources::new();
    let mut trace = Vec::new();
    let text = "# Title\n\nContent here.\n\u{e9}t\u{e9} `code` and !notadirective(x)\n";
    let out = process_includes(text, "/d/a.md", "/p", &mut trace, &sources).unwrap();
    assert_eq!(out, text);
    assert!(trace.is_empty());
    let again = process_includes(&out, "/d/a.md", "/p", &mut trace, &sources).unwrap();
    assert_eq!(again, text);
    assert!(trace.is_empty());
    assert_eq!(process_includes("", "/d/a.md", "/p", &mut trace, &sources).unwrap(), "");
}

#[test]
fn include_takes_the_place_of_its_directive() {
    let sources = sources_of(&[("/p/header.md", "# Hi")]);
    let mut trace = Vec::new();
    let out = process_includes("!include(header.md)\n\nBody", "/d/a.md", "/p", &mut trace, &sources)
        .unwrap();
    assert_eq!(out, "# Hi\n\nBody");
    assert_eq!(trace.len(), 1);
    assert!(trace[0].success);
    assert_eq!(trace[0].path, "/p/header.md");
    assert_eq!(trace[0].error_message, None);
}

#[test]
fn resolved_text_resolves_to_itself() {
    let sources = sources_of(&[("/p/header.md", "# Hi")]);
    let mut trace = Vec::new();
    let out = process_includes("!include(header.md)\n\nBody", "/d/a.md", "/p", &mut trace, &sources)
        .unwrap();
    let mut second = Vec::new();
    let again = process_includes(&out, "/d/a.md", "/p", &mut second, &sources).unwrap();
    assert_eq!(again, out);
    assert!(second.is_empty());
}

#[test]
fn records_are_added_behind_those_that_are_there() {
    let sources = sources_of(&[("/p/header.md", "# Hi")]);
    let mut trace = vec![IncludeResult {
        path: "earlier.md".to_string(),
        success: true,
        error_message: None,
    }];
    process_includes("!include(header.md)", "/d/a.md", "/p", &mut trace, &sources).unwrap();
    assert_eq!(trace.len(), 2);
    assert_eq!(trace[0].path, "earlier.md");
    assert_eq!(trace[1].path, "/p/header.md");
}

#[test]
fn missing_include_leaves_a_comment() {
    let mut sources = Sources::new();
    sources.insert(
        "/p/missing.md".to_string(),
        Err("No such file or directory (os error 2)".to_string()),
    );
    let mut trace = Vec::new();
    let out = process_includes("!include(missing.md)\nBody", "/d/a.md", "/p", &mut trace, &sources)
        .unwrap();
    assert!(out.contains("<!-- Failed to include: missing.md"));
    assert!(out.contains("Body"));
    assert_eq!(
        out,
        "<!-- Failed to include: missing.md (Error: No such file or directory (os error 2)) -->\nBody"
    );
    assert_eq!(trace.len(), 1);
    assert!(!trace[0].success);
    assert_eq!(trace[0].path, "/p/missing.md");
    assert_eq!(
        trace[0].error_message,
        Some("No such file or directory (os error 2)".to_string())
    );
}

#[test]
fn file_that_was_not_looked_at_ends_the_resolution() {
    let sources = sources_of(&[("/p/a.md", "A\n!include(b.md)")]);
    let mut trace = Vec::new();
    match process_includes("!include(a.md)", "/d/doc.md", "/p", &mut trace, &sources) {
        Err(ResolveError::SourceNotLoaded { path }) => assert_eq!(path, "/p/b.md"),
        other => panic!("unexpected: {:?}", other),
    }
    assert_eq!(trace.len(), 1);
    assert_eq!(trace[0].path, "/p/a.md");
    let mut trace = Vec::new();
    match process_includes("!codesnippet(x.rs)", "/d/doc.md", "/p", &mut trace, &sources) {
        Err(ResolveError::SourceNotLoaded { path }) => assert_eq!(path, "/d/x.rs"),
        other => panic!("unexpected: {:?}", other),
    }
    assert!(trace.is_empty());
}

#[test]
fn nested_includes_are_flattened() {
    let sources = sources_of(&[
        ("/p/b.md", "B start\n\n!include(c.md)\n\nB end"),
        ("/p/c.md", "C content"),
    ]);
    let mut trace = Vec::new();
    let out = process_includes("A\n\n!include(b.md)\n\nA end", "/p/a.md", "/p", &mut trace, &sources)
        .unwrap();
    assert_eq!(out, "A\n\nB start\n\nC content\n\nB end\n\nA end");
    assert_eq!(trace.len(), 2);
    assert_eq!(trace[0].path, "/p/b.md");
    assert_eq!(trace[1].path, "/p/c.md");
    assert!(trace[0].success && trace[1].success);
}

#[test]
fn include_relative_to_the_including_file() {
    let sources = sources_of(&[
        ("/p/sub/b.md", "!include(../c.md)"),
        ("/p/sub/../c.md", "C"),
    ]);
    let mut trace = Vec::new();
    let out = process_includes("!include(sub/b.md)", "/d/a.md", "/p", &mut trace, &sources).unwrap();
    assert_eq!(out, "C");
    assert_eq!(trace.len(), 2);
    assert_eq!(trace[1].path, "/p/sub/../c.md");
}

fn chain(levels: usize) -> Sources {
    let mut sources = Sources::new();
    for i in 1..=levels {
        let text = if i < levels {
            format!("level {}\n!include(l{}.md)", i, i + 1)
        } else {
            format!("level {}", i)
        };
        sources.insert(format!("/p/l{}.md", i), Ok(text));
    }
    sources
}

#[test]
fn five_levels_of_includes_are_resolved() {
    let sources = chain(5);
    let mut trace = Vec::new();
    let out = process_includes("!include(l1.md)", "/d/a.md", "/p", &mut trace, &sources).unwrap();
    assert_eq!(out, "level 1\nlevel 2\nlevel 3\nlevel 4\nlevel 5");
    assert_eq!(trace.len(), 5);
}

#[test]
fn six_levels_of_includes_exceed_the_depth() {
    let sources = chain(6);
    let mut trace = Vec::new();
    match process_includes("!include(l1.md)", "/d/a.md", "/p", &mut trace, &sources) {
        Err(ResolveError::MaxDepthExceeded) => {}
        other => panic!("unexpected: {:?}", other),
    }
    assert_eq!(trace.len(), 6);
    assert_eq!(
        ResolveError::MaxDepthExceeded.to_string(),
        "Maximum include depth (5) exceeded. Possible circular includes."
    );
}

#[test]
fn file_that_includes_itself_exceeds_the_depth() {
    let sources = sources_of(&[("/p/a.md", "again\n!include(a.md)")]);
    let mut trace = Vec::new();
    match process_includes("!include(a.md)", "/d/doc.md", "/p", &mut trace, &sources) {
        Err(ResolveError::MaxDepthExceeded) => {}
        other => panic!("unexpected: {:?}", other),
    }
}

#[test]
fn directive_in_a_fence_is_left_alone() {
    let sources = Sources::new();
    let mut trace = Vec::new();
    let doc = "```\n!include(x.md)\n```";
    let out =
        process_includes_with_validation(doc, "/d/a.md", "/p", &mut trace, Some("text"), &sources)
            .unwrap();
    assert_eq!(out, "```text\n!include(x.md)\n```");
    assert!(trace.is_empty());

    let doc = "before\n\n```md\n!include(x.md)\n\n!codesnippet(y.rs)\n```\n\nafter\n";
    let out = process_includes(doc, "/d/a.md", "/p", &mut trace, &sources).unwrap();
    assert_eq!(out, doc);
    assert!(trace.is_empty());
}

#[test]
fn directive_in_inline_code_is_left_alone() {
    let sources = sources_of(&[("/p/h.md", "H")]);
    let mut trace = Vec::new();
    let doc = "write `!include(h.md)` to include\n\n!include(h.md)\n";
    let out = process_includes(doc, "/d/a.md", "/p", &mut trace, &sources).unwrap();
    assert_eq!(out, "write `!include(h.md)` to include\n\nH\n");
    assert_eq!(trace.len(), 1);
}

#[test]
fn fence_fault_fails_before_any_directive() {
    let sources = sources_of(&[("/p/h.md", "H")]);
    let mut trace = Vec::new();
    match process_includes_with_validation(
        "!include(h.md)\n```\ncode\n```\n",
        "/d/a.md",
        "/p",
        &mut trace,
        None,
        &sources,
    ) {
        Err(ResolveError::MissingFenceLanguage { line }) => assert_eq!(line, 2),
        other => panic!("unexpected: {:?}", other),
    }
    assert!(trace.is_empty());
    let out = process_includes_with_validation(
        "!include(h.md)\n```\ncode\n```\n",
        "/d/a.md",
        "/p",
        &mut trace,
        Some("text"),
        &sources,
    )
    .unwrap();
    assert_eq!(out, "H\n```text\ncode\n```\n");
}

#[test]
fn malformed_directive_leaves_a_comment() {
    let sources = Sources::new();
    let mut trace = Vec::new();
    let out = process_includes("a\n!include()\nb", "/d/a.md", "/p", &mut trace, &sources).unwrap();
    assert_eq!(
        out,
        "a\n<!-- Failed to parse include directive: ! include() (Error: Invalid include directive format '! include()') -->\nb"
    );
    assert_eq!(trace.len(), 1);
    assert!(!trace[0].success);
    assert_eq!(trace[0].path, "!include()");
    assert_eq!(
        trace[0].error_message,
        Some("Failed to parse include directive: Invalid include directive format '!include()'".to_string())
    );
}

#[test]
fn include_with_bad_title_level_leaves_a_comment() {
    let sources = sources_of(&[("/p/h.md", "H")]);
    let mut trace = Vec::new();
    let out = process_includes(
        "!include(h.md, title=\"T\", title-level=9)",
        "/d/a.md",
        "/p",
        &mut trace,
        &sources,
    )
    .unwrap();
    assert_eq!(
        out,
        "<!-- Failed to parse include directive: ! include(h.md, title=\"T\", title-level=9) (Error: title-level must be between 1 and 6) -->"
    );
    assert_eq!(trace.len(), 1);
    assert!(!trace[0].success);
}

#[test]
fn undefined_variable_leaves_two_records_and_a_comment() {
    let sources = sources_of(&[("/p/h.md", "{% a %} and {% b %}")]);
    let mut trace = Vec::new();
    let out = process_includes(
        "x\n\n!include(h.md, values=[a=\"1\"])\n\ny",
        "/d/a.md",
        "/p",
        &mut trace,
        &sources,
    )
    .unwrap();
    assert_eq!(
        out,
        "x\n\n<!-- Failed to process variables in include: h.md (Error: Variable 'b' not found and no default value provided) -->\n\ny"
    );
    assert_eq!(trace.len(), 2);
    assert!(trace[0].success);
    assert!(!trace[1].success);
    assert_eq!(trace[1].path, "/p/h.md");
    assert_eq!(
        trace[1].error_message,
        Some("Variable processing failed: Variable 'b' not found and no default value provided".to_string())
    );
}

#[test]
fn placeholders_stay_where_the_directive_gives_no_values() {
    let sources = sources_of(&[("/p/h.md", "{% a %}")]);
    let mut trace = Vec::new();
    let out = process_includes("!include(h.md)", "/d/a.md", "/p", &mut trace, &sources).unwrap();
    assert_eq!(out, "{% a %}");
}

#[test]
fn code_snippet_takes_the_place_of_its_directive() {
    let sources = sources_of(&[("/d/src/main.py", "import os\n\ndef f():\n    pass\n")]);
    let mut trace = Vec::new();
    let out = process_includes(
        "Code:\n\n!codesnippet(src/main.py, lang=\"python\", start=3, end=4)\n\nDone",
        "/d/a.md",
        "/p",
        &mut trace,
        &sources,
    )
    .unwrap();
    assert_eq!(out, "Code:\n\n```python\ndef f():\n    pass\n```\n\nDone");
    assert_eq!(trace.len(), 1);
    assert!(trace[0].success);
    assert_eq!(trace[0].path, "src/main.py");
}

#[test]
fn code_snippet_of_a_file_that_could_not_be_read() {
    let mut sources = Sources::new();
    sources.insert("/d/x.rs".to_string(), Err("denied".to_string()));
    let mut trace = Vec::new();
    let out = process_includes("!codesnippet(x.rs)", "/d/a.md", "/p", &mut trace, &sources).unwrap();
    assert_eq!(
        out,
        "<!-- Failed to process codesnippet: x.rs (Error: Failed to read code file '/d/x.rs': denied) -->"
    );
    assert_eq!(trace.len(), 1);
    assert!(!trace[0].success);
    assert_eq!(trace[0].path, "x.rs");
    assert_eq!(
        trace[0].error_message,
        Some("Failed to read code file '/d/x.rs': denied".to_string())
    );
}

#[test]
fn malformed_code_snippet_leaves_a_comment() {
    let sources = Sources::new();
    let mut trace = Vec::new();
    let out =
        process_includes("!codesnippet(x.rs, start=0)", "/d/a.md", "/p", &mut trace, &sources)
            .unwrap();
    assert_eq!(
        out,
        "<!-- Failed to parse codesnippet directive: ! codesnippet(x.rs, start=0) (Error: start line must be greater than 0) -->"
    );
    assert_eq!(trace.len(), 1);
    assert_eq!(trace[0].path, "!codesnippet(x.rs, start=0)");
    assert_eq!(
        trace[0].error_message,
        Some("Failed to parse codesnippet directive: start line must be greater than 0".to_string())
    );
}

#[test]
fn snippet_ranges() {
    let sources = sources_of(&[("/d/f.txt", "one\ntwo\nthree\n"), ("/d/empty.txt", "")]);
    let all = CodeSnippetParameters { lang: None, start: None, end: None };
    assert_eq!(
        process_code_snippet("f.txt", "/d/a.md", &all, &sources).unwrap(),
        "```\none\ntwo\nthree\n```"
    );
    assert_eq!(process_code_snippet("empty.txt", "/d/a.md", &all, &sources).unwrap(), "");
    assert_eq!(
        process_code_snippet("/d/f.txt", "/elsewhere/a.md", &all, &sources).unwrap(),
        "```\none\ntwo\nthree\n```"
    );
    let one = CodeSnippetParameters { lang: Some("txt".to_string()), start: Some(2), end: Some(2) };
    assert_eq!(
        process_code_snippet("f.txt", "/d/a.md", &one, &sources).unwrap(),
        "```txt\ntwo\n```"
    );
    let backwards = CodeSnippetParameters { lang: Some("txt".to_string()), start: Some(3), end: Some(2) };
    match process_code_snippet("f.txt", "/d/a.md", &backwards, &sources) {
        Err(ResolveError::InvalidRange) => {}
        other => panic!("unexpected: {:?}", other),
    }
    let two = CodeSnippetParameters { lang: Some("txt".to_string()), start: Some(2), end: Some(3) };
    assert_eq!(
        process_code_snippet("f.txt", "/d/a.md", &two, &sources).unwrap(),
        "```txt\ntwo\nthree\n```"
    );
    let long = CodeSnippetParameters { lang: None, start: Some(3), end: Some(99) };
    assert_eq!(
        process_code_snippet("f.txt", "/d/a.md", &long, &sources).unwrap(),
        "```\nthree\n```"
    );
    let beyond = CodeSnippetParameters { lang: None, start: Some(4), end: None };
    match process_code_snippet("f.txt", "/d/a.md", &beyond, &sources) {
        Err(ResolveError::StartBeyondEnd { start, length }) => assert_eq!((start, length), (4, 3)),
        other => panic!("unexpected: {:?}", other),
    }
    assert_eq!(
        process_code_snippet("f.txt", "/d/a.md", &beyond, &sources).err().unwrap().to_string(),
        "Start line 4 is beyond the file length (3)"
    );
    assert_eq!(
        ResolveError::InvalidRange.to_string(),
        "End line must be greater than start line"
    );
    match process_code_snippet("f.txt", "/", &all, &sources) {
        Err(ResolveError::NoParentDirectory) => {}
        other => panic!("unexpected: {:?}", other),
    }
}

#[test]
fn directive_over_several_lines_with_nested_parentheses() {
    let sources = sources_of(&[("/p/h.md", "H")]);
    let mut trace = Vec::new();
    let out = process_includes(
        "a\n\n\n!include(h.md,\n  title=\"T (x)\")\n\nb",
        "/d/a.md",
        "/p",
        &mut trace,
        &sources,
    )
    .unwrap();
    assert_eq!(out, "a\n\n\n# T (x)\n\nH\n\nb");
}

#[test]
fn comment_holds_no_directive() {
    let mut sources = Sources::new();
    sources.insert("/p/x".to_string(), Err("see !include(x)".to_string()));
    let mut trace = Vec::new();
    let out = process_includes("!include(x)", "/d/a.md", "/p", &mut trace, &sources).unwrap();
    assert_eq!(out, "<!-- Failed to include: x (Error: see ! include(x)) -->");
    assert_eq!(trace.len(), 1);
    assert_eq!(trace[0].error_message, Some("see !include(x)".to_string()));
}

#[test]
fn comment_keeps_the_path_and_the_message_as_given() {
    let mut sources = Sources::new();
    sources.insert("/p/wow!.md".to_string(), Err("no! (really) !!codesnippet(".to_string()));
    let mut trace = Vec::new();
    let out = process_includes("a\n!include(wow!.md)\nb", "/d/a.md", "/p", &mut trace, &sources)
        .unwrap();
    assert_eq!(
        out,
        "a\n<!-- Failed to include: wow!.md (Error: no! (really) !! codesnippet() -->\nb"
    );
    assert_eq!(trace.len(), 1);
}

#[test]
fn directives_that_never_go_away_hit_the_pass_limit() {
    let sources = sources_of(&[("/d/f.txt", "```\n!codesnippet(f.txt)")]);
    let mut trace = Vec::new();
    match process_includes("!codesnippet(f.txt)", "/d/a.md", "/p", &mut trace, &sources) {
        Err(ResolveError::IterationLimitExceeded) => {}
        other => panic!("unexpected: {:?}", other),
    }
    assert_eq!(trace.len(), 50);
    assert_eq!(
        ResolveError::IterationLimitExceeded.to_string(),
        "Maximum include processing iterations exceeded. Possible circular includes or malformed directives."
    );
}

#[test]
fn snippet_of_a_file_that_could_not_be_read_fails() {
    let mut sources = Sources::new();
    sources.insert("/d/x.rs".to_string(), Err("denied".to_string()));
    let all = CodeSnippetParameters { lang: None, start: None, end: None };
    assert_eq!(
        process_code_snippet("x.rs", "/d/a.md", &all, &sources),
        Err(ResolveError::IncludeReadFailed {
            path: "/d/x.rs".to_string(),
            message: "denied".to_string()
        })
    );
    assert_eq!(
        process_code_snippet("y.rs", "/d/a.md", &all, &sources),
        Err(ResolveError::SourceNotLoaded { path: "/d/y.rs".to_string() })
    );
    assert_eq!(
        ResolveError::SourceNotLoaded { path: "/d/y.rs".to_string() }.to_string(),
        "Source not loaded: /d/y.rs"
    );
}

#[test]
fn later_reading_of_a_path_replaces_the_earlier() {
    let mut sources = Sources::new();
    assert!(!sources.contains("/p/h.md"));
    sources.insert("/p/h.md".to_string(), Err("gone".to_string()));
    sources.insert("/p/h.md".to_string(), Ok("H".to_string()));
    assert!(sources.contains("/p/h.md"));
    assert_eq!(sources.get("/p/h.md"), Some(&Ok("H".to_string())));
    assert_eq!(sources.get("/p/other.md"), None);
    let mut trace = Vec::new();
    assert_eq!(
        process_includes("!include(h.md)", "/d/a.md", "/p", &mut trace, &sources),
        Ok("H".to_string())
    );
}

#[test]
fn bare_directive_word_in_a_path_is_parted_too() {
    // What follows the path in the comment begins with a parenthesis.
    let mut sources = Sources::new();
    sources.insert("/p/!include".to_string(), Err("gone".to_string()));
    let mut trace = Vec::new();
    let out = process_includes("!include(!include)", "/d/a.md", "/p", &mut trace, &sources)
        .unwrap();
    assert_eq!(out, "<!-- Failed to include: ! include (Error: gone) -->");
    assert_eq!(trace.len(), 1);
    assert_eq!(trace[0].path, "/p/!include");
}
