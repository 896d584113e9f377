use md2md::error::ResolveError;
use md2md::processor::calculate_output_path;
use md2md::include_resolver::resolve_include_path;
use std::path::PathBuf;
use tempfile::TempDir;

#[test]
fn test_resolve_include_path_relative_to_partials() {
    let temp_dir = TempDir::new().expect("Failed to create temp directory");
    let current_file = temp_dir.path().join("current.md");
    let partials_path = temp_dir.path().join("partials");

    let resolved = resolve_include_path(
        "header.md",
        current_file.to_str().expect("path is text"),
        partials_path.to_str().expect("path is text"),
    )
    .expect("Failed to resolve include path");
    assert_eq!(PathBuf::from(resolved), partials_path.join("header.md"));
}

#[test]
fn test_resolve_include_path_relative_to_current() {
    let temp_dir = TempDir::new().expect("Failed to create temp directory");
    let current_file = temp_dir.path().join("docs").join("current.md");
    let partials_path = temp_dir.path().join("partials");

    let resolved = resolve_include_path(
        "../header.md",
        current_file.to_str().expect("path is text"),
        partials_path.to_str().expect("path is text"),
    )
    .expect("Failed to resolve include path");
    assert_eq!(
        PathBuf::from(resolved),
        temp_dir.path().join("docs").join("../header.md")
    );
}

#[test]
fn test_resolve_include_path_absolute() {
    let temp_dir = TempDir::new().expect("Failed to create temp directory");
    let current_file = temp_dir.path().join("current.md");
    let partials_path = temp_dir.path().join("partials");
    let absolute_path = "/absolute/path/to/file.md";

    let resolved = resolve_include_path(
        absolute_path,
        current_file.to_str().expect("path is text"),
        partials_path.to_str().expect("path is text"),
    )
    .expect("Failed to resolve include path");
    assert_eq!(PathBuf::from(resolved), PathBuf::from(absolute_path));
}

#[test]
fn test_calculate_output_path() {
    let temp_dir = TempDir::new().expect("Failed to create temp directory");
    let source_root = temp_dir.path().join("src");
    let output_root = temp_dir.path().join("output");
    let file_path = source_root.join("docs").join("readme.md");

    let result = calculate_output_path(
        file_path.to_str().expect("path is text"),
        source_root.to_str().expect("path is text"),
        output_root.to_str().expect("path is text"),
    )
    .expect("Failed to calculate output path");
    assert_eq!(PathBuf::from(result), output_root.join("docs").join("readme.md"));
}

#[test]
fn include_paths_on_plain_texts() {
    assert_eq!(resolve_include_path("header.md", "/doc/main.md", "/p").unwrap(), "/p/header.md");
    assert_eq!(resolve_include_path(" \"header.md\" ", "/doc/main.md", "/p").unwrap(), "/p/header.md");
    assert_eq!(resolve_include_path("'sub/a.md'", "/doc/main.md", "/p/").unwrap(), "/p/sub/a.md");
    assert_eq!(resolve_include_path("../x.md", "/doc/main.md", "/p").unwrap(), "/doc/../x.md");
    assert_eq!(resolve_include_path("../x.md", "main.md", "/p").unwrap(), "../x.md");
    assert_eq!(resolve_include_path("/abs/x.md", "/doc/main.md", "/p").unwrap(), "/abs/x.md");
}

#[test]
fn include_path_from_a_file_without_parent() {
    match resolve_include_path("../x.md", "/", "/p") {
        Err(ResolveError::NoParentDirectory) => {}
        other => panic!("unexpected: {:?}", other),
    }
    match resolve_include_path("../x.md", "", "/p") {
        Err(ResolveError::NoParentDirectory) => {}
        other => panic!("unexpected: {:?}", other),
    }
    assert_eq!(
        ResolveError::NoParentDirectory.to_string(),
        "Cannot determine parent directory of current file"
    );
}

#[test]
fn output_path_of_a_file_outside_the_source_root() {
    assert_eq!(calculate_output_path("/a/b.md", "/c", "/out"), None);
    assert_eq!(
        calculate_output_path("/a/b/c.md", "/a", "/out"),
        Some("/out/b/c.md".to_string())
    );
}
