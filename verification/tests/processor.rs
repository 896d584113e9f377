use md2md::file_handler::collect_markdown_files;
use md2md::processor::process_files;
use md2md::processor::process_single_file;
use md2md::processor::Document;
use md2md::processor::FileStep;
use md2md::sources::Sources;
use md2md::types::FileProcessResult;
use md2md::types::ProcessingConfig;
use md2md::types::ProcessingSummary;

fn finished(step: FileStep) -> (FileProcessResult, Option<String>) {
    match step {
        FileStep::Finished { result, output } => (result, output),
        FileStep::Missing { path } => panic!("missing source: {}", path),
    }
}

fn document(path: &str, content: &str) -> Document {
    Document { path: path.to_string(), content: content.to_string() }
}

#[test]
fn test_process_single_file_success() {
    let sources = Sources::new();
    let (result, output) = finished(process_single_file(
        "/t/source.md",
        "# Title\n\nContent here.",
        "/t/partials",
        None,
        &sources,
    ));

    assert!(result.success);
    assert_eq!(result.includes.len(), 0);
    assert!(result.error_message.is_none());
    assert_eq!(result.file_path, "/t/source.md");
    assert_eq!(output, Some("# Title\n\nContent here.".to_string()));
}

#[test]
fn test_process_single_file_with_includes() {
    let mut sources = Sources::new();
    sources.insert("/t/partials/header.md".to_string(), Ok("# Welcome".to_string()));
    let (result, output) = finished(process_single_file(
        "/t/source.md",
        "!include (header.md)\n\nMain content.",
        "/t/partials",
        None,
        &sources,
    ));

    assert!(result.success);
    assert_eq!(result.includes.len(), 1);
    assert!(result.includes[0].success);
    assert!(result.error_message.is_none());
    assert_eq!(output, Some("# Welcome\n\nMain content.".to_string()));
}

#[test]
fn test_process_single_file_with_failed_include() {
    let mut sources = Sources::new();
    sources.insert(
        "/t/partials/missing.md".to_string(),
        Err("No such file or directory (os error 2)".to_string()),
    );
    let (result, output) = finished(process_single_file(
        "/t/source.md",
        "!include (missing.md)\n\nMain content.",
        "/t/partials",
        None,
        &sources,
    ));

    assert!(!result.success);
    assert_eq!(result.includes.len(), 1);
    assert!(!result.includes[0].success);
    assert!(result.error_message.is_some());
    assert!(
        result
            .error_message
            .as_ref()
            .expect("Error message should be present for failed includes")
            .contains("failed includes")
    );
    assert_eq!(
        result.error_message,
        Some(
            "File contains failed includes:\n  \u{2022} /t/partials/missing.md (No such file or directory (os error 2))"
                .to_string()
        )
    );

    let output_content = output.expect("the document is still written");
    assert!(output_content.contains("<!-- Failed to include"));
    assert!(output_content.contains("Main content."));
}

#[test]
fn failed_includes_are_listed_one_under_the_other() {
    let mut sources = Sources::new();
    sources.insert("/p/a.md".to_string(), Err("gone".to_string()));
    sources.insert("/p/b.md".to_string(), Ok("B".to_string()));
    sources.insert("/p/c.md".to_string(), Err("denied".to_string()));
    let (result, _) = finished(process_single_file(
        "/d/doc.md",
        "!include(a.md)\n!include(b.md)\n!include(c.md)\n",
        "/p",
        None,
        &sources,
    ));
    assert!(!result.success);
    assert_eq!(result.includes.len(), 3);
    assert_eq!(
        result.error_message,
        Some(
            "File contains failed includes:\n  \u{2022} /p/a.md (gone)\n  \u{2022} /p/c.md (denied)"
                .to_string()
        )
    );
}

#[test]
fn structural_failure_is_not_written() {
    let sources = Sources::new();
    let (result, output) =
        finished(process_single_file("/d/doc.md", "```\ncode\n```\n", "/p", None, &sources));
    assert!(!result.success);
    assert_eq!(output, None);
    assert_eq!(
        result.error_message,
        Some(
            "Failed to process includes: Code fence at line 1 does not specify a language. Use --fix-code-fences to automatically fix this."
                .to_string()
        )
    );
    let (result, output) = finished(process_single_file(
        "/d/doc.md",
        "```\ncode\n```\n",
        "/p",
        Some("text"),
        &sources,
    ));
    assert!(result.success);
    assert_eq!(output, Some("```text\ncode\n```\n".to_string()));
}

#[test]
fn missing_source_is_asked_for() {
    let sources = Sources::new();
    match process_single_file("/d/doc.md", "!include(h.md)", "/p", None, &sources) {
        FileStep::Missing { path } => assert_eq!(path, "/p/h.md"),
        FileStep::Finished { .. } => panic!("nothing can be decided without the source"),
    }
}

#[test]
fn test_process_files_single_file() {
    let config = ProcessingConfig {
        source_path: "/t/source.md".to_string(),
        partials_path: "/t/partials".to_string(),
        output_path: "/t/output.md".to_string(),
        batch: false,
        verbose: false,
    };
    let documents = vec![document("/t/source.md", "# Test Document")];
    let mut summary = ProcessingSummary::new();

    let outputs = process_files(&config, &documents, &mut summary, None, &Sources::new())
        .expect("Failed to process files");

    assert_eq!(summary.results.len(), 1);
    assert!(summary.results[0].success);
    assert_eq!(outputs.len(), 1);
    assert_eq!(outputs[0].path, "/t/output.md");
    assert_eq!(outputs[0].text, "# Test Document");
    assert_eq!(summary.total_files, 1);
    assert_eq!(summary.processed_files, 1);
    assert_eq!(summary.current_file, Some("/t/source.md".to_string()));
}

#[test]
fn test_process_files_batch_mode() {
    let config = ProcessingConfig {
        source_path: "/t/source".to_string(),
        partials_path: "/t/partials".to_string(),
        output_path: "/t/output".to_string(),
        batch: true,
        verbose: false,
    };
    let documents = vec![
        document("/t/source/doc1.md", "# Document 1"),
        document("/t/source/doc2.md", "# Document 2"),
        document("/t/source/subdir/doc3.md", "# Document 3"),
    ];
    let mut summary = ProcessingSummary::new();

    let outputs = process_files(&config, &documents, &mut summary, None, &Sources::new())
        .expect("Failed to process files");

    assert_eq!(summary.results.len(), 3);
    assert!(summary.results.iter().all(|r| r.success));
    let paths: Vec<&str> = outputs.iter().map(|o| o.path.as_str()).collect();
    assert_eq!(
        paths,
        vec!["/t/output/doc1.md", "/t/output/doc2.md", "/t/output/subdir/doc3.md"]
    );
}

#[test]
fn test_end_to_end_processing_with_includes() {
    let mut sources = Sources::new();
    sources.insert(
        "/t/partials/header.md".to_string(),
        Ok("# Welcome to My Document\n\nThis is the header section.".to_string()),
    );
    sources.insert(
        "/t/partials/footer.md".to_string(),
        Ok("---\n\n\u{a9} 2025 Test Author. All rights reserved.".to_string()),
    );
    sources.insert(
        "/t/partials/intro.md".to_string(),
        Ok("## Introduction\n\n!include (header.md)\n\nLet's get started!".to_string()),
    );
    let documents = vec![
        document(
            "/t/source/main.md",
            "!include (intro.md)\n\n## Main Content\n\nThis is the main content of the document.\n\n!include (footer.md)",
        ),
        document("/t/source/simple.md", "# Simple Document\n\nThis document has no includes."),
    ];
    let config = ProcessingConfig {
        source_path: "/t/source".to_string(),
        partials_path: "/t/partials".to_string(),
        output_path: "/t/output".to_string(),
        batch: true,
        verbose: false,
    };

    let mut summary = ProcessingSummary::new();
    let outputs = process_files(&config, &documents, &mut summary, None, &sources)
        .expect("Failed to process files");

    assert_eq!(summary.results.len(), 2);
    assert!(summary.results.iter().all(|r| r.success));
    assert_eq!(summary.get_success_count(), 2);
    assert_eq!(summary.get_failed_count(), 0);
    assert_eq!(summary.get_total_includes(), 3);
    assert_eq!(summary.get_successful_includes(), 3);
    assert_eq!(summary.get_failed_includes(), 0);

    assert_eq!(outputs.len(), 2);
    assert_eq!(outputs[0].path, "/t/output/main.md");
    assert_eq!(outputs[1].path, "/t/output/simple.md");

    let main_content = &outputs[0].text;
    assert!(main_content.contains("Welcome to My Document"));
    assert!(main_content.contains("This is the main content"));
    assert!(main_content.contains("\u{a9} 2025 Test Author"));
    assert_eq!(
        main_content,
        "## Introduction\n\n# Welcome to My Document\n\nThis is the header section.\n\nLet's get started!\n\n## Main Content\n\nThis is the main content of the document.\n\n---\n\n\u{a9} 2025 Test Author. All rights reserved."
    );

    let simple_content = &outputs[1].text;
    assert!(simple_content.contains("Simple Document"));
    assert!(!simple_content.contains("!include"));
}

#[test]
fn test_processing_with_missing_partials() {
    let mut sources = Sources::new();
    sources.insert(
        "/t/partials/missing.md".to_string(),
        Err("No such file or directory (os error 2)".to_string()),
    );
    sources.insert(
        "/t/partials/also_missing.md".to_string(),
        Err("No such file or directory (os error 2)".to_string()),
    );
    let documents = vec![document(
        "/t/source.md",
        "# Document\n\n!include (missing.md)\n\n!include (also_missing.md)\n\nEnd of document.",
    )];
    let config = ProcessingConfig {
        source_path: "/t/source.md".to_string(),
        partials_path: "/t/partials".to_string(),
        output_path: "/t/output.md".to_string(),
        batch: false,
        verbose: false,
    };

    let mut summary = ProcessingSummary::new();
    let outputs = process_files(&config, &documents, &mut summary, None, &sources)
        .expect("Failed to process files with missing includes");

    assert_eq!(summary.results.len(), 1);
    assert!(!summary.results[0].success);
    assert_eq!(summary.get_success_count(), 0);
    assert_eq!(summary.get_failed_count(), 1);
    assert_eq!(summary.get_total_includes(), 2);
    assert_eq!(summary.get_successful_includes(), 0);
    assert_eq!(summary.get_failed_includes(), 2);

    assert_eq!(outputs.len(), 1);
    let content = &outputs[0].text;
    assert!(content.contains("<!-- Failed to include: missing.md"));
    assert!(content.contains("<!-- Failed to include: also_missing.md"));
    assert!(content.contains("End of document."));
}

#[test]
fn run_that_lacks_a_source_leaves_the_summary_alone() {
    let config = ProcessingConfig {
        source_path: "/s".to_string(),
        partials_path: "/p".to_string(),
        output_path: "/o".to_string(),
        batch: true,
        verbose: false,
    };
    let documents = vec![document("/s/a.md", "plain"), document("/s/b.md", "!include(h.md)")];
    let mut summary = ProcessingSummary::new();
    let mut sources = Sources::new();
    match process_files(&config, &documents, &mut summary, None, &sources) {
        Err(md2md::error::ResolveError::SourceNotLoaded { path }) => assert_eq!(path, "/p/h.md"),
        other => panic!("unexpected: {:?}", other),
    }
    assert_eq!(summary.results.len(), 0);
    assert_eq!(summary.processed_files, 0);
    assert_eq!(summary.total_files, 0);
    assert!(summary.current_file.is_none());

    sources.insert("/p/h.md".to_string(), Ok("H".to_string()));
    let outputs = process_files(&config, &documents, &mut summary, None, &sources).unwrap();
    assert_eq!(outputs.len(), 2);
    assert_eq!(outputs[1].text, "H");
    assert_eq!(summary.processed_files, 2);
    assert_eq!(summary.total_files, 2);
    assert_eq!(summary.current_file, Some("/s/b.md".to_string()));
}

#[test]
fn document_outside_the_source_path_fails() {
    let config = ProcessingConfig {
        source_path: "/s".to_string(),
        partials_path: "/p".to_string(),
        output_path: "/o".to_string(),
        batch: true,
        verbose: false,
    };
    let documents = vec![document("/elsewhere/a.md", "plain")];
    let mut summary = ProcessingSummary::new();
    let outputs = process_files(&config, &documents, &mut summary, None, &Sources::new()).unwrap();
    assert!(outputs.is_empty());
    assert_eq!(summary.results.len(), 1);
    assert!(!summary.results[0].success);
    assert_eq!(
        summary.results[0].error_message,
        Some("Failed to calculate output path for file".to_string())
    );
}

#[test]
fn test_collect_markdown_files_single_file() {
    let files = collect_markdown_files(&vec!["/t/test.md".to_string()]);
    assert_eq!(files.len(), 1);
    assert_eq!(files[0], "/t/test.md");
}

#[test]
fn test_collect_markdown_files_non_markdown_file() {
    let files = collect_markdown_files(&vec!["/t/test.txt".to_string()]);
    assert_eq!(files.len(), 0);
}

#[test]
fn test_collect_markdown_files_directory() {
    let candidates = vec![
        "/t/file1.md".to_string(),
        "/t/file2.md".to_string(),
        "/t/not_markdown.txt".to_string(),
        "/t/subdir/file3.md".to_string(),
        "/t/.md".to_string(),
        "/t/md".to_string(),
        "/t/upper.MD".to_string(),
    ];
    let files = collect_markdown_files(&candidates);
    assert_eq!(files, vec!["/t/file1.md", "/t/file2.md", "/t/subdir/file3.md"]);
}
