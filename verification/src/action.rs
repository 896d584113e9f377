//! What the dashboard can be asked to do.

use vstd::prelude::*;

verus! {

/// A request to the dashboard.
#[derive(Debug, Clone, PartialEq, Eq)]
pub enum Action {
    Tick,
    Render,
    Resize(u16, u16),
    Suspend,
    Resume,
    Quit,
    Refresh,
    Error(String),
    ShowHelp,
    HideHelp,
    ToggleHelp,
    NextTab,
    PreviousTab,
    NextFile,
    PreviousFile,
    ToggleErrorDetails,
    /// Go to the tab of this number, from one to five.
    GoToTab(u8),
}

} // verus!
