use md2md::cli::confirms;
use md2md::cli::decide;
use md2md::cli::looks_like_directory;
use md2md::cli::looks_like_file;
use md2md::cli::Decision;
use md2md::cli_messages::console_summary;
use md2md::cli_messages::format_duration;
use md2md::action::Action;
use md2md::event::handle_key_event;
use md2md::event::Key;
use md2md::types::FileProcessResult;
use md2md::types::IncludeResult;
use md2md::types::ProcessingSummary;

#[test]
fn durations_in_words() {
    assert_eq!(format_duration(0, 0), "0ms");
    assert_eq!(format_duration(0, 250), "250ms");
    assert_eq!(format_duration(1, 5), "1.005s");
    assert_eq!(format_duration(59, 999), "59.999s");
    assert_eq!(format_duration(60, 999), "1m 0s");
    assert_eq!(format_duration(3725, 0), "62m 5s");
}

fn sample() -> ProcessingSummary {
    let mut summary = ProcessingSummary::new();
    summary.add_result(FileProcessResult {
        file_path: "a.md".to_string(),
        success: true,
        includes: vec![
            IncludeResult { path: "h.md".to_string(), success: true, error_message: None },
            IncludeResult {
                path: "m.md".to_string(),
                success: false,
                error_message: Some("gone".to_string()),
            },
        ],
        error_message: None,
    });
    summary.add_result(FileProcessResult {
        file_path: "b.md".to_string(),
        success: false,
        includes: vec![],
        error_message: Some("broken".to_string()),
    });
    summary.add_result(FileProcessResult {
        file_path: "c.md".to_string(),
        success: true,
        includes: vec![],
        error_message: None,
    });
    summary
}

#[test]
fn short_console_summary() {
    let report = console_summary(&sample(), false);
    assert_eq!(
        report.text,
        "Processed 3 files: 2 succeeded, 1 failed.\nSome files failed to process.\n"
    );
    assert_eq!(report.exit_code, Some(1));

    let report = console_summary(&ProcessingSummary::new(), false);
    assert_eq!(
        report.text,
        "Processed 0 files: 0 succeeded, 0 failed.\nAll files processed successfully!\n"
    );
    assert_eq!(report.exit_code, Some(0));
}

#[test]
fn full_console_summary() {
    let report = console_summary(&sample(), true);
    let expected = format!(
        "{}{}{}{}{}{}{}{}{}{}",
        "\n=== PROCESSING SUMMARY ===\n\n",
        "✓ File: a.md\n  Includes (2):\n    ✓ OK: h.md\n    ✗ Error: m.md\n      └─ gone\n\n",
        "✗ File: b.md\n  Error: broken\n",
        "✓ File: c.md\n  No includes found\n\n",
        "=== FINAL SUMMARY ===\n",
        "┌─────────────────┬───────┬─────────┬────────┐\n",
        "│ Category        │ Total │ Success │ Failed │\n├─────────────────┼───────┼─────────┼────────┤\n",
        format!("│ Files           │ {:>5} │ {:>7} │ {:>6} │\n", 3, 2, 1),
        format!("│ Includes        │ {:>5} │ {:>7} │ {:>6} │\n", 2, 1, 1),
        "└─────────────────┴───────┴─────────┴────────┘\n\nSome operations failed. Check the details above.\n"
    );
    assert_eq!(report.text, expected);
    assert_eq!(report.exit_code, None);

    let report = console_summary(&ProcessingSummary::new(), true);
    assert!(report.text.ends_with("\nAll operations completed successfully! 🎉\n"));
}

#[test]
fn output_paths_that_look_like_directories_and_files() {
    assert!(looks_like_directory("out/", false));
    assert!(looks_like_directory("out\\", false));
    assert!(looks_like_directory("out", true));
    assert!(!looks_like_directory("out", false));
    assert!(!looks_like_directory("", false));
    assert!(looks_like_file("a.md"));
    assert!(looks_like_file("dir/a.txt"));
    assert!(looks_like_file("page.html"));
    assert!(looks_like_file("doc.pdf"));
    assert!(looks_like_file("archive.tar"));
    assert!(looks_like_file(".md"));
    assert!(!looks_like_file("out"));
    assert!(!looks_like_file("out.d/dir"));
    assert!(!looks_like_file(".hidden"));
}

#[test]
fn decisions_and_answers() {
    assert_eq!(decide(true, false), Decision::Proceed);
    assert_eq!(decide(true, true), Decision::Proceed);
    assert_eq!(decide(false, true), Decision::Refuse);
    assert_eq!(decide(false, false), Decision::Ask);
    for yes in ["y", "Y", "yes", "YES", " Yes \n", "yEs\r\n"] {
        assert!(confirms(yes), "{:?}", yes);
    }
    for no in ["", "\n", "n", "no", "ye", "yess", "y e s", "ok"] {
        assert!(!confirms(no), "{:?}", no);
    }
}

#[test]
fn keys_and_what_they_ask_for() {
    assert_eq!(handle_key_event(Key::Char('q'), false, true), Some(Action::Quit));
    assert_eq!(handle_key_event(Key::Char('q'), false, false), None);
    assert_eq!(handle_key_event(Key::Char('c'), true, true), Some(Action::Quit));
    assert_eq!(handle_key_event(Key::Char('c'), false, true), None);
    assert_eq!(handle_key_event(Key::Tab, false, true), Some(Action::NextTab));
    assert_eq!(handle_key_event(Key::Right, false, true), Some(Action::NextTab));
    assert_eq!(handle_key_event(Key::BackTab, false, true), Some(Action::PreviousTab));
    assert_eq!(handle_key_event(Key::Left, false, true), Some(Action::PreviousTab));
    assert_eq!(handle_key_event(Key::Up, false, true), Some(Action::PreviousFile));
    assert_eq!(handle_key_event(Key::Char('k'), false, true), Some(Action::PreviousFile));
    assert_eq!(handle_key_event(Key::Down, false, true), Some(Action::NextFile));
    assert_eq!(handle_key_event(Key::Char('j'), true, true), Some(Action::NextFile));
    assert_eq!(handle_key_event(Key::Char('e'), false, true), Some(Action::ToggleErrorDetails));
    assert_eq!(handle_key_event(Key::Char('1'), false, true), Some(Action::GoToTab(1)));
    assert_eq!(handle_key_event(Key::Char('5'), false, true), Some(Action::GoToTab(5)));
    assert_eq!(handle_key_event(Key::Char('6'), false, true), None);
    assert_eq!(handle_key_event(Key::Char('?'), false, true), Some(Action::ToggleHelp));
    assert_eq!(handle_key_event(Key::Esc, false, true), Some(Action::HideHelp));
    assert_eq!(handle_key_event(Key::Char('r'), false, true), Some(Action::Refresh));
    assert_eq!(handle_key_event(Key::Other, false, true), None);
}
