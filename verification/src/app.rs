//! The state of the dashboard and its moves.
//!
//! The state holds what the moves decide on. The summary of the run belongs
//! to whoever runs the files: a move that looks at it is handed it.

use vstd::prelude::*;
use crate::action::Action;
use crate::types::ProcessingConfig;
use crate::types::ProcessingSummary;

verus! {

/// The tabs of the dashboard.
#[derive(Debug, Clone, Copy, PartialEq, Eq, Structural)]
pub enum ActiveTab {
    Progress,
    Files,
    Analysis,
    Summary,
    ErrorSummary,
}

impl ActiveTab {
    /// The title of the tab.
    pub open spec fn title(self) -> Seq<char> {
        match self {
            ActiveTab::Progress => "Progress"@,
            ActiveTab::Files => "Files"@,
            ActiveTab::Analysis => "Analysis"@,
            ActiveTab::Summary => "Summary"@,
            ActiveTab::ErrorSummary => "Error Summary"@,
        }
    }

    /// The title of the tab.
    pub fn as_str(&self) -> (s: &str)
        ensures
            s@ == self.title(),
    {
        match self {
            ActiveTab::Progress => "Progress",
            ActiveTab::Files => "Files",
            ActiveTab::Analysis => "Analysis",
            ActiveTab::Summary => "Summary",
            ActiveTab::ErrorSummary => "Error Summary",
        }
    }

    /// The tab after this one. The error summary follows the summary only
    /// where it is shown.
    pub open spec fn next(self, errors_shown: bool) -> ActiveTab {
        match self {
            ActiveTab::Progress => ActiveTab::Files,
            ActiveTab::Files => ActiveTab::Analysis,
            ActiveTab::Analysis => ActiveTab::Summary,
            ActiveTab::Summary => if errors_shown {
                ActiveTab::ErrorSummary
            } else {
                ActiveTab::Progress
            },
            ActiveTab::ErrorSummary => ActiveTab::Progress,
        }
    }

    /// The tab before this one.
    pub open spec fn previous(self, errors_shown: bool) -> ActiveTab {
        match self {
            ActiveTab::Progress => if errors_shown {
                ActiveTab::ErrorSummary
            } else {
                ActiveTab::Summary
            },
            ActiveTab::Files => ActiveTab::Progress,
            ActiveTab::Analysis => ActiveTab::Files,
            ActiveTab::Summary => ActiveTab::Analysis,
            ActiveTab::ErrorSummary => ActiveTab::Summary,
        }
    }
}

/// The tabs that can be chosen: the error summary is among them only where
/// something failed.
pub open spec fn available_tabs(has_errors: bool) -> Seq<ActiveTab> {
    let tabs = seq![ActiveTab::Progress, ActiveTab::Files, ActiveTab::Analysis, ActiveTab::Summary];
    if has_errors {
        tabs.push(ActiveTab::ErrorSummary)
    } else {
        tabs
    }
}

/// The place of `tab` among the tabs that can be chosen; zero where it is not
/// among them.
pub open spec fn tab_index(tab: ActiveTab, has_errors: bool) -> nat {
    match tab {
        ActiveTab::Progress => 0,
        ActiveTab::Files => 1,
        ActiveTab::Analysis => 2,
        ActiveTab::Summary => 3,
        ActiveTab::ErrorSummary => if has_errors {
            4
        } else {
            0
        },
    }
}

/// The state of the dashboard.
#[derive(Debug)]
pub struct App {
    /// Is the dashboard running?
    pub running: bool,
    /// The tab that is shown.
    pub active_tab: ActiveTab,
    /// What the run was asked to do.
    pub config: ProcessingConfig,
    /// Have all files been processed?
    pub processing_complete: bool,
    /// The index of the file that is selected.
    pub selected_file_index: usize,
    /// Are the details of the errors shown?
    pub error_details_visible: bool,
    /// Has the dashboard gone to its last tab after the run?
    pub switched_to_final_tab: bool,
    /// Is the help shown?
    pub help_visible: bool,
}

impl App {
    /// Whether the run counts as complete: it has files, and all of them are
    /// processed.
    pub open spec fn run_is_over(summary: &ProcessingSummary) -> bool {
        summary.total_files > 0 && summary.processed_files >= summary.total_files
    }

    /// The state after the run was found complete: the error summary is shown
    /// where something failed, the summary where nothing did.
    pub open spec fn completed(self, has_errors: bool) -> App {
        App {
            processing_complete: true,
            active_tab: if has_errors {
                ActiveTab::ErrorSummary
            } else {
                ActiveTab::Summary
            },
            ..self
        }
    }

    /// The state after a tick.
    pub open spec fn ticked(self, summary: &ProcessingSummary) -> App {
        if !self.processing_complete && Self::run_is_over(summary) {
            self.completed(summary.has_errors())
        } else {
            self
        }
    }

    /// The index of the file after the selected one, going round.
    pub open spec fn next_index(self, files: nat) -> usize {
        if files == 0 {
            self.selected_file_index
        } else {
            ((self.selected_file_index + 1) % (files as int)) as usize
        }
    }

    /// The index of the file before the selected one, going round.
    pub open spec fn previous_index(self, files: nat) -> usize {
        if files == 0 {
            self.selected_file_index
        } else if self.selected_file_index == 0 {
            (files - 1) as usize
        } else {
            (self.selected_file_index - 1) as usize
        }
    }

    /// The state after a request for the tab of number `number`. The fifth
    /// tab is reached only after the run, where something failed.
    pub open spec fn gone_to(self, number: u8, has_errors: bool) -> App {
        match number {
            1 => App { active_tab: ActiveTab::Progress, ..self },
            2 => App { active_tab: ActiveTab::Files, ..self },
            3 => App { active_tab: ActiveTab::Analysis, ..self },
            4 => App { active_tab: ActiveTab::Summary, ..self },
            5 => if self.processing_complete && has_errors {
                App { active_tab: ActiveTab::ErrorSummary, ..self }
            } else {
                self
            },
            _ => self,
        }
    }

    /// The state after `action`.
    pub open spec fn after(self, action: Action, summary: &ProcessingSummary) -> App {
        let errors_shown = self.processing_complete && summary.has_errors();
        match action {
            Action::Quit => App { running: false, ..self },
            Action::NextTab => App { active_tab: self.active_tab.next(errors_shown), ..self },
            Action::PreviousTab => App {
                active_tab: self.active_tab.previous(errors_shown),
                ..self
            },
            Action::NextFile => App {
                selected_file_index: self.next_index(summary.results@.len()),
                ..self
            },
            Action::PreviousFile => App {
                selected_file_index: self.previous_index(summary.results@.len()),
                ..self
            },
            Action::Tick => self.ticked(summary),
            Action::ShowHelp => App { help_visible: true, ..self },
            Action::HideHelp => App { help_visible: false, ..self },
            Action::ToggleHelp => App { help_visible: !self.help_visible, ..self },
            Action::ToggleErrorDetails => App {
                error_details_visible: !self.error_details_visible,
                ..self
            },
            Action::GoToTab(number) => self.gone_to(number, summary.has_errors()),
            _ => self,
        }
    }

    /// The dashboard at its start: running, on the progress tab.
    pub fn new(config: ProcessingConfig) -> (app: App)
        ensures
            app == (App {
                running: true,
                active_tab: ActiveTab::Progress,
                config,
                processing_complete: false,
                selected_file_index: 0,
                error_details_visible: false,
                switched_to_final_tab: false,
                help_visible: false,
            }),
    {
        App {
            running: true,
            active_tab: ActiveTab::Progress,
            config,
            processing_complete: false,
            selected_file_index: 0,
            error_details_visible: false,
            switched_to_final_tab: false,
            help_visible: false,
        }
    }

    /// Finds the run complete once all of its files are processed.
    pub fn tick(&mut self, summary: &ProcessingSummary)
        ensures
            *final(self) == old(self).ticked(summary),
    {
        if !self.processing_complete {
            let over = summary.total_files > 0 && summary.processed_files >= summary.total_files;
            if over {
                self.mark_processing_complete(summary);
            }
        }
    }

    /// Stops the dashboard.
    pub fn quit(&mut self)
        ensures
            *final(self) == (App { running: false, ..*old(self) }),
    {
        self.running = false;
    }

    /// Marks the run as complete and shows the tab that tells how it went.
    pub fn mark_processing_complete(&mut self, summary: &ProcessingSummary)
        ensures
            *final(self) == old(self).completed(summary.has_errors()),
    {
        self.processing_complete = true;
        if summary.has_failures() {
            self.active_tab = ActiveTab::ErrorSummary;
        } else {
            self.active_tab = ActiveTab::Summary;
        }
    }

    /// Goes to the next tab.
    pub fn next_tab(&mut self, summary: &ProcessingSummary)
        ensures
            *final(self) == (App {
                active_tab: old(self).active_tab.next(
                    old(self).processing_complete && summary.has_errors(),
                ),
                ..*old(self)
            }),
    {
        let has_errors = summary.has_failures();
        self.active_tab = match self.active_tab {
            ActiveTab::Progress => ActiveTab::Files,
            ActiveTab::Files => ActiveTab::Analysis,
            ActiveTab::Analysis => ActiveTab::Summary,
            ActiveTab::Summary => {
                if self.processing_complete && has_errors {
                    ActiveTab::ErrorSummary
                } else {
                    ActiveTab::Progress
                }
            },
            ActiveTab::ErrorSummary => ActiveTab::Progress,
        };
    }

    /// Goes to the previous tab.
    pub fn previous_tab(&mut self, summary: &ProcessingSummary)
        ensures
            *final(self) == (App {
                active_tab: old(self).active_tab.previous(
                    old(self).processing_complete && summary.has_errors(),
                ),
                ..*old(self)
            }),
    {
        let has_errors = summary.has_failures();
        self.active_tab = match self.active_tab {
            ActiveTab::Progress => {
                if self.processing_complete && has_errors {
                    ActiveTab::ErrorSummary
                } else {
                    ActiveTab::Summary
                }
            },
            ActiveTab::Files => ActiveTab::Progress,
            ActiveTab::Analysis => ActiveTab::Files,
            ActiveTab::Summary => ActiveTab::Analysis,
            ActiveTab::ErrorSummary => ActiveTab::Summary,
        };
    }

    /// Selects the next file, the first one after the last.
    pub fn next_file(&mut self, summary: &ProcessingSummary)
        ensures
            *final(self) == (App {
                selected_file_index: old(self).next_index(summary.results@.len()),
                ..*old(self)
            }),
    {
        let files = summary.results.len();
        if files > 0 {
            let here = self.selected_file_index % files;
            assert((here + 1) % (files as int) == (self.selected_file_index + 1) % (files as int))
                by (nonlinear_arith)
                requires
                    files > 0,
                    here == self.selected_file_index % files,
            ;
            self.selected_file_index = (here + 1) % files;
        }
    }

    /// Selects the previous file, the last one before the first.
    pub fn previous_file(&mut self, summary: &ProcessingSummary)
        ensures
            *final(self) == (App {
                selected_file_index: old(self).previous_index(summary.results@.len()),
                ..*old(self)
            }),
    {
        let files = summary.results.len();
        if files > 0 {
            self.selected_file_index = if self.selected_file_index == 0 {
                files - 1
            } else {
                self.selected_file_index - 1
            };
        }
    }

    /// Shows the details of the errors, or hides them.
    pub fn toggle_error_details(&mut self)
        ensures
            *final(self) == (App {
                error_details_visible: !old(self).error_details_visible,
                ..*old(self)
            }),
    {
        self.error_details_visible = !self.error_details_visible;
    }

    /// The tab that is shown.
    pub fn get_active_tab(&self) -> (tab: ActiveTab)
        ensures
            tab == self.active_tab,
    {
        self.active_tab
    }

    /// The place of the active tab among those that can be chosen.
    pub fn get_tab_index(&self, summary: &ProcessingSummary) -> (index: usize)
        ensures
            index == tab_index(self.active_tab, summary.has_errors()),
    {
        match self.active_tab {
            ActiveTab::Progress => 0,
            ActiveTab::Files => 1,
            ActiveTab::Analysis => 2,
            ActiveTab::Summary => 3,
            ActiveTab::ErrorSummary => {
                if summary.has_failures() {
                    4
                } else {
                    0
                }
            },
        }
    }

    /// The tabs that can be chosen.
    pub fn get_available_tabs(&self, summary: &ProcessingSummary) -> (tabs: Vec<ActiveTab>)
        ensures
            tabs@ == available_tabs(summary.has_errors()),
    {
        let mut tabs: Vec<ActiveTab> = Vec::new();
        tabs.push(ActiveTab::Progress);
        tabs.push(ActiveTab::Files);
        tabs.push(ActiveTab::Analysis);
        tabs.push(ActiveTab::Summary);
        if summary.has_failures() {
            tabs.push(ActiveTab::ErrorSummary);
        }
        proof {
            assert(tabs@ =~= available_tabs(summary.has_errors()));
        }
        tabs
    }

    /// Whether the run was found complete.
    pub fn is_processing_complete(&self) -> (r: bool)
        ensures
            r == self.processing_complete,
    {
        self.processing_complete
    }

    /// Whether the dashboard has gone to its last tab after the run.
    pub fn has_switched_to_final_tab(&self) -> (r: bool)
        ensures
            r == self.switched_to_final_tab,
    {
        self.switched_to_final_tab
    }

    /// Notes that the dashboard has gone to its last tab after the run.
    pub fn mark_switched_to_final_tab(&mut self)
        ensures
            *final(self) == (App { switched_to_final_tab: true, ..*old(self) }),
    {
        self.switched_to_final_tab = true;
    }

    /// Shows the error summary.
    pub fn set_active_tab_to_error_summary(&mut self)
        ensures
            *final(self) == (App { active_tab: ActiveTab::ErrorSummary, ..*old(self) }),
    {
        self.active_tab = ActiveTab::ErrorSummary;
    }

    /// Shows the summary.
    pub fn set_active_tab_to_summary(&mut self)
        ensures
            *final(self) == (App { active_tab: ActiveTab::Summary, ..*old(self) }),
    {
        self.active_tab = ActiveTab::Summary;
    }

    /// Whether the help is shown.
    pub fn is_help_visible(&self) -> (r: bool)
        ensures
            r == self.help_visible,
    {
        self.help_visible
    }

    /// Makes the move that `action` asks for, and tells whether the dashboard
    /// is to stop.
    pub fn handle_action(&mut self, action: Action, summary: &ProcessingSummary) -> (stop: bool)
        ensures
            *final(self) == old(self).after(action, summary),
            stop == (action is Quit),
    {
        match action {
            Action::Quit => {
                self.quit();
                true
            },
            Action::NextTab => {
                self.next_tab(summary);
                false
            },
            Action::PreviousTab => {
                self.previous_tab(summary);
                false
            },
            Action::NextFile => {
                self.next_file(summary);
                false
            },
            Action::PreviousFile => {
                self.previous_file(summary);
                false
            },
            Action::Tick => {
                self.tick(summary);
                false
            },
            Action::ShowHelp => {
                self.help_visible = true;
                false
            },
            Action::HideHelp => {
                self.help_visible = false;
                false
            },
            Action::ToggleHelp => {
                self.help_visible = !self.help_visible;
                false
            },
            Action::ToggleErrorDetails => {
                self.toggle_error_details();
                false
            },
            Action::GoToTab(number) => {
                if number == 1 {
                    self.active_tab = ActiveTab::Progress;
                } else if number == 2 {
                    self.active_tab = ActiveTab::Files;
                } else if number == 3 {
                    self.active_tab = ActiveTab::Analysis;
                } else if number == 4 {
                    self.active_tab = ActiveTab::Summary;
                } else if number == 5 {
                    let has_errors = summary.has_failures();
                    if self.processing_complete && has_errors {
                        self.active_tab = ActiveTab::ErrorSummary;
                    }
                }
                false
            },
            _ => false,
        }
    }
}

} // verus!
