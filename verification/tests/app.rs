use md2md::action::Action;
use md2md::app::ActiveTab;
use md2md::app::App;
use md2md::types::FileProcessResult;
use md2md::types::IncludeResult;
use md2md::types::ProcessingConfig;
use md2md::types::ProcessingSummary;

fn config() -> ProcessingConfig {
    ProcessingConfig {
        source_path: "/s".to_string(),
        partials_path: "/p".to_string(),
        output_path: "/o".to_string(),
        batch: true,
        verbose: false,
    }
}

fn file(success: bool, includes: Vec<bool>) -> FileProcessResult {
    FileProcessResult {
        file_path: "f.md".to_string(),
        success,
        includes: includes
            .into_iter()
            .map(|ok| IncludeResult { path: "i.md".to_string(), success: ok, error_message: None })
            .collect(),
        error_message: None,
    }
}

fn summary_of(files: Vec<FileProcessResult>) -> ProcessingSummary {
    let mut summary = ProcessingSummary::new();
    summary.set_total_files(files.len());
    for f in files {
        summary.add_result(f);
    }
    summary
}

#[test]
fn app_starts_on_the_progress_tab() {
    let app = App::new(config());
    assert!(app.running);
    assert_eq!(app.get_active_tab(), ActiveTab::Progress);
    assert!(!app.is_processing_complete());
    assert!(!app.has_switched_to_final_tab());
    assert!(!app.is_help_visible());
    assert_eq!(app.selected_file_index, 0);
    assert!(!app.error_details_visible);
}

#[test]
fn tab_titles() {
    assert_eq!(ActiveTab::Progress.as_str(), "Progress");
    assert_eq!(ActiveTab::Files.as_str(), "Files");
    assert_eq!(ActiveTab::Analysis.as_str(), "Analysis");
    assert_eq!(ActiveTab::Summary.as_str(), "Summary");
    assert_eq!(ActiveTab::ErrorSummary.as_str(), "Error Summary");
}

#[test]
fn tabs_go_round_without_errors() {
    let summary = summary_of(vec![file(true, vec![true])]);
    let mut app = App::new(config());
    let mut seen = vec![];
    for _ in 0..5 {
        app.next_tab(&summary);
        seen.push(app.get_active_tab());
    }
    assert_eq!(
        seen,
        vec![
            ActiveTab::Files,
            ActiveTab::Analysis,
            ActiveTab::Summary,
            ActiveTab::Progress,
            ActiveTab::Files
        ]
    );
    app.previous_tab(&summary);
    app.previous_tab(&summary);
    assert_eq!(app.get_active_tab(), ActiveTab::Summary);
    assert_eq!(
        app.get_available_tabs(&summary),
        vec![ActiveTab::Progress, ActiveTab::Files, ActiveTab::Analysis, ActiveTab::Summary]
    );
    assert_eq!(app.get_tab_index(&summary), 3);
}

#[test]
fn error_summary_is_reached_after_a_failed_run() {
    let summary = summary_of(vec![file(true, vec![true, false])]);
    let mut app = App::new(config());
    app.set_active_tab_to_summary();
    app.next_tab(&summary);
    assert_eq!(app.get_active_tab(), ActiveTab::Progress);
    app.previous_tab(&summary);
    assert_eq!(app.get_active_tab(), ActiveTab::Summary);

    app.tick(&summary);
    assert!(app.is_processing_complete());
    assert_eq!(app.get_active_tab(), ActiveTab::ErrorSummary);
    assert_eq!(app.get_tab_index(&summary), 4);
    assert_eq!(app.get_available_tabs(&summary).len(), 5);
    app.next_tab(&summary);
    assert_eq!(app.get_active_tab(), ActiveTab::Progress);
    app.previous_tab(&summary);
    assert_eq!(app.get_active_tab(), ActiveTab::ErrorSummary);
    app.previous_tab(&summary);
    assert_eq!(app.get_active_tab(), ActiveTab::Summary);
    app.next_tab(&summary);
    assert_eq!(app.get_active_tab(), ActiveTab::ErrorSummary);
}

#[test]
fn tick_completes_only_a_run_that_is_over() {
    let mut summary = ProcessingSummary::new();
    let mut app = App::new(config());
    app.tick(&summary);
    assert!(!app.is_processing_complete());
    summary.set_total_files(2);
    summary.add_result(file(true, vec![]));
    app.tick(&summary);
    assert!(!app.is_processing_complete());
    assert_eq!(app.get_active_tab(), ActiveTab::Progress);
    summary.add_result(file(true, vec![]));
    app.tick(&summary);
    assert!(app.is_processing_complete());
    assert_eq!(app.get_active_tab(), ActiveTab::Summary);
    app.handle_action(Action::GoToTab(2), &summary);
    app.tick(&summary);
    assert_eq!(app.get_active_tab(), ActiveTab::Files);
}

#[test]
fn files_are_selected_going_round() {
    let summary = summary_of(vec![file(true, vec![]), file(true, vec![]), file(false, vec![])]);
    let mut app = App::new(config());
    app.previous_file(&summary);
    assert_eq!(app.selected_file_index, 2);
    app.next_file(&summary);
    assert_eq!(app.selected_file_index, 0);
    app.next_file(&summary);
    app.next_file(&summary);
    assert_eq!(app.selected_file_index, 2);
    app.previous_file(&summary);
    assert_eq!(app.selected_file_index, 1);
    app.selected_file_index = 7;
    app.next_file(&summary);
    assert_eq!(app.selected_file_index, 2);
    app.selected_file_index = usize::MAX;
    app.next_file(&summary);
    assert_eq!(app.selected_file_index, ((usize::MAX as u128 + 1) % 3) as usize);

    let empty = ProcessingSummary::new();
    let mut app = App::new(config());
    app.next_file(&empty);
    assert_eq!(app.selected_file_index, 0);
    app.previous_file(&empty);
    assert_eq!(app.selected_file_index, 0);
}

#[test]
fn actions_make_their_moves() {
    let summary = summary_of(vec![file(false, vec![])]);
    let mut app = App::new(config());
    assert!(!app.handle_action(Action::ShowHelp, &summary));
    assert!(app.is_help_visible());
    assert!(!app.handle_action(Action::ToggleHelp, &summary));
    assert!(!app.is_help_visible());
    app.handle_action(Action::ToggleHelp, &summary);
    app.handle_action(Action::HideHelp, &summary);
    assert!(!app.is_help_visible());
    app.handle_action(Action::ToggleErrorDetails, &summary);
    assert!(app.error_details_visible);
    app.handle_action(Action::GoToTab(3), &summary);
    assert_eq!(app.get_active_tab(), ActiveTab::Analysis);
    app.handle_action(Action::GoToTab(5), &summary);
    assert_eq!(app.get_active_tab(), ActiveTab::Analysis);
    app.handle_action(Action::GoToTab(9), &summary);
    assert_eq!(app.get_active_tab(), ActiveTab::Analysis);
    app.handle_action(Action::Tick, &summary);
    assert_eq!(app.get_active_tab(), ActiveTab::ErrorSummary);
    app.handle_action(Action::GoToTab(1), &summary);
    app.handle_action(Action::GoToTab(5), &summary);
    assert_eq!(app.get_active_tab(), ActiveTab::ErrorSummary);
    app.handle_action(Action::NextTab, &summary);
    assert_eq!(app.get_active_tab(), ActiveTab::Progress);
    app.handle_action(Action::PreviousTab, &summary);
    assert_eq!(app.get_active_tab(), ActiveTab::ErrorSummary);
    app.handle_action(Action::NextFile, &summary);
    app.handle_action(Action::PreviousFile, &summary);
    assert_eq!(app.selected_file_index, 0);
    assert!(!app.handle_action(Action::Resize(80, 24), &summary));
    assert!(!app.handle_action(Action::Refresh, &summary));
    assert!(!app.handle_action(Action::Error("x".to_string()), &summary));
    assert!(app.running);
    assert!(app.handle_action(Action::Quit, &summary));
    assert!(!app.running);
    app.mark_switched_to_final_tab();
    assert!(app.has_switched_to_final_tab());
    app.set_active_tab_to_error_summary();
    assert_eq!(app.get_active_tab(), ActiveTab::ErrorSummary);
    app.toggle_error_details();
    assert!(!app.error_details_visible);
    app.quit();
    assert!(!app.running);
    app.mark_processing_complete(&ProcessingSummary::new());
    assert_eq!(app.get_active_tab(), ActiveTab::Summary);
}
