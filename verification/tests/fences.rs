use md2md::fence::is_inside_code_fence;
use md2md::fence::is_inside_inline_code;
use md2md::include_resolver::validate_and_fix_code_fences;
use md2md::error::ResolveError;

#[test]
fn test_validate_and_fix_code_fences_valid() {
    let content = r#"# Test

```rust
fn main() {
    println!("Hello");
}
```

End of test."#;

    let result =
        validate_and_fix_code_fences(content, None).expect("Valid code fences should not fail");

    assert_eq!(result, content); // Should be unchanged
}

#[test]
fn test_validate_and_fix_code_fences_missing_language_fails() {
    let content = r#"# Test

```
fn main() {
    println!("Hello");
}
```

End of test."#;

    let result = validate_and_fix_code_fences(content, None);
    assert!(result.is_err());
    assert!(
        result
            .err()
            .unwrap()
            .to_string()
            .contains("does not specify a language")
    );
}

#[test]
fn test_validate_and_fix_code_fences_missing_language_fixed() {
    let content = r#"# Test

```
fn main() {
    println!("Hello");
}
```

End of test."#;

    let result = validate_and_fix_code_fences(content, Some("rust"))
        .expect("Should fix missing language");

    assert!(result.contains("```rust"));
    assert!(!result.contains("```\nfn main"));
}

#[test]
fn test_validate_and_fix_code_fences_mismatched_indent() {
    let content = r#"# Test

```rust
    some code
  ```

End of test."#;

    let result = validate_and_fix_code_fences(content, None);
    assert!(result.is_err());
    assert!(
        result
            .err()
            .unwrap()
            .to_string()
            .contains("different indentation")
    );
}

#[test]
fn test_validate_and_fix_code_fences_unclosed() {
    let content = r#"# Test

```rust
fn main() {
    println!("Hello");
}

End of test."#;

    let result = validate_and_fix_code_fences(content, None);
    assert!(result.is_err());
    assert!(
        result
            .err()
            .unwrap()
            .to_string()
            .contains("was never closed")
    );
}

#[test]
fn test_validate_and_fix_code_fences_nested_opening() {
    let content = r#"# Test

```rust
some code

```python
more code
```"#;

    let result = validate_and_fix_code_fences(content, None);
    assert!(result.is_err());
    assert!(
        result
            .err()
            .unwrap()
            .to_string()
            .contains("new code fence opening")
    );
}

#[test]
fn fence_fix_keeps_the_rest_and_the_final_newline() {
    let fixed = validate_and_fix_code_fences("intro\n```\ncode\n```\nend\n", Some("text"))
        .expect("a fence without language is repaired");
    assert_eq!(fixed, "intro\n```text\ncode\n```\nend\n");
    let fixed = validate_and_fix_code_fences("intro\n```\ncode\n```\nend", Some("text"))
        .expect("a fence without language is repaired");
    assert_eq!(fixed, "intro\n```text\ncode\n```\nend");
}

#[test]
fn fence_fix_puts_the_language_behind_the_backticks() {
    let fixed = validate_and_fix_code_fences("  ````   \nx\n  ````\n", Some("sh"))
        .expect("a fence without language is repaired");
    assert_eq!(fixed, "  ````sh   \nx\n  ````\n");
    let fixed = validate_and_fix_code_fences("a\r\n```\r\nx\r\n```\r\n\r\n", Some("text"))
        .expect("a fence without language is repaired");
    assert_eq!(fixed, "a\r\n```text\r\nx\r\n```\r\n\r\n");
}

#[test]
fn repaired_document_is_valid_as_it_is() {
    for doc in ["\n\n\n", "```\nx\n```", "\t```  \r\nx\r\n\t```\n\n", "p\n ```\n ```\n```\nx\n```"] {
        let fixed = validate_and_fix_code_fences(doc, Some("text")).unwrap();
        assert_eq!(validate_and_fix_code_fences(&fixed, None).unwrap(), fixed, "{:?}", doc);
        assert_eq!(validate_and_fix_code_fences(&fixed, Some("other")).unwrap(), fixed);
    }
}

#[test]
fn fence_errors_carry_line_numbers() {
    match validate_and_fix_code_fences("a\nb\n```\n", None) {
        Err(ResolveError::MissingFenceLanguage { line }) => assert_eq!(line, 3),
        other => panic!("unexpected: {:?}", other),
    }
    match validate_and_fix_code_fences("```rust\n  ```\n", None) {
        Err(ResolveError::FenceIndentMismatch { open_line, close_line, open_indent, close_indent }) => {
            assert_eq!((open_line, close_line, open_indent, close_indent), (1, 2, 0, 2));
        }
        other => panic!("unexpected: {:?}", other),
    }
    match validate_and_fix_code_fences("x\n```rust\ny\n```python\n", None) {
        Err(ResolveError::UnexpectedNestedFenceOpen { open_line, new_line }) => {
            assert_eq!((open_line, new_line), (2, 4));
        }
        other => panic!("unexpected: {:?}", other),
    }
    match validate_and_fix_code_fences("x\n```rust\ny\n", None) {
        Err(ResolveError::UnclosedFence { open_line }) => assert_eq!(open_line, 2),
        other => panic!("unexpected: {:?}", other),
    }
    let e = validate_and_fix_code_fences("```rust\n  ```\n", None).err().unwrap();
    assert_eq!(
        e.to_string(),
        "Code fence closing at line 2 has different indentation than opening fence at line 1. Opening: 0 spaces, Closing: 2 spaces."
    );
}

#[test]
fn fence_validation_of_empty_and_plain_text() {
    assert_eq!(validate_and_fix_code_fences("", None).unwrap(), "");
    assert_eq!(validate_and_fix_code_fences("\n", None).unwrap(), "\n");
    assert_eq!(validate_and_fix_code_fences("a\r\nb\n", None).unwrap(), "a\r\nb\n");
    assert_eq!(validate_and_fix_code_fences("a\n\n", None).unwrap(), "a\n\n");
    assert_eq!(validate_and_fix_code_fences("\n\n", None).unwrap(), "\n\n");
    assert_eq!(validate_and_fix_code_fences("\n\n", Some("text")).unwrap(), "\n\n");
    assert_eq!(validate_and_fix_code_fences("a\rb\r", None).unwrap(), "a\rb\r");
}

#[test]
fn position_inside_a_fence_is_excluded() {
    let doc = "```\n!include(x.md)\n```\nafter";
    assert!(is_inside_code_fence(doc, 3));
    assert!(is_inside_code_fence(doc, 4));
    assert!(!is_inside_code_fence(doc, 0));
    assert!(!is_inside_code_fence(doc, doc.len()));
    assert!(!is_inside_code_fence(doc, 23));
}

#[test]
fn fence_with_other_indentation_does_not_close() {
    let doc = "```\ncode\n  ```\nstill";
    assert!(is_inside_code_fence(doc, doc.len()));
}

#[test]
fn position_inside_inline_code_is_excluded() {
    let doc = "use `!include(x.md)` here";
    assert!(is_inside_inline_code(doc, 5));
    assert!(is_inside_code_fence(doc, 5));
    assert!(!is_inside_inline_code(doc, 3));
    assert!(!is_inside_inline_code(doc, 21));
    assert!(!is_inside_inline_code("``` x", 4));
    assert!(!is_inside_inline_code("``x`` y", 6));
    assert!(is_inside_inline_code("a\n`b", 4));
    assert!(!is_inside_inline_code("`a\nb", 4));
}

#[test]
fn positions_are_byte_offsets() {
    let doc = "é`x";
    assert!(!is_inside_inline_code(doc, 2));
    assert!(is_inside_inline_code(doc, 3));
}

#[test]
fn indentation_is_measured_in_bytes() {
    // A no-break space takes two bytes, as two spaces do.
    assert_eq!(
        validate_and_fix_code_fences("\u{a0}```rust\nx\n  ```\n", None).unwrap(),
        "\u{a0}```rust\nx\n  ```\n"
    );
    match validate_and_fix_code_fences("\u{a0}```rust\nx\n ```\n", None) {
        Err(ResolveError::FenceIndentMismatch { open_indent, close_indent, .. }) => {
            assert_eq!((open_indent, close_indent), (2, 1));
        }
        other => panic!("unexpected: {:?}", other),
    }
}

#[test]
fn repaired_opening_line_keeps_its_indentation() {
    assert_eq!(
        validate_and_fix_code_fences("\t```\nx\n\t```\n", Some("sh")).unwrap(),
        "\t```sh\nx\n\t```\n"
    );
    assert_eq!(
        validate_and_fix_code_fences("`````\nx\n```\n", Some("sh")).unwrap(),
        "`````sh\nx\n```\n"
    );
}

#[test]
fn lines_with_fewer_than_three_backticks_are_no_fences() {
    assert_eq!(
        validate_and_fix_code_fences("``\n`x`\ntext ``` more\n", None).unwrap(),
        "``\n`x`\ntext ``` more\n"
    );
    assert!(!is_inside_code_fence("``\nx", 4));
    assert!(!is_inside_code_fence("text ```\nx", 10));
}

#[test]
fn fence_lines_with_a_language_close_for_the_scanner() {
    // The scanner goes by indentation alone.
    assert!(!is_inside_code_fence("```rust\ncode\n```python\nafter", 25));
    assert!(is_inside_code_fence("```rust\ncode\n```python\nafter\n```\nx", 32));
}
