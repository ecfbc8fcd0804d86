//! The events the TUI reacts to, and the outside work its reactions ask for.
use vstd::prelude::*;

verus! {

/// Something the user asked for, decoded from a key press.
#[derive(Clone, Copy, Debug, PartialEq, Eq, Structural)]
pub enum Action {
    /// Quit the application.
    Quit,
    /// Move the selection up.
    SelectPrevious,
    /// Move the selection down.
    SelectNext,
    /// Confirm the current selection.
    Enter,
    /// Go back to the previous screen.
    Back,
    /// Open the challenge view of the selected CTF.
    OpenChallengeView,
    /// Refresh the CTF list from CTFtime.
    RefreshFromAPI,
    /// Open the settings dialog.
    OpenSettings,
    /// Type a character into the field being edited.
    InputChar(char),
    /// Delete a character from the field being edited.
    DeleteChar,
    /// Save the field being edited.
    SaveSettings,
    /// Expand or collapse the archive section.
    ToggleArchive,
    /// Move the text cursor left.
    CursorLeft,
    /// Move the text cursor right.
    CursorRight,
    /// Move the text cursor to the start.
    Home,
    /// Move the text cursor to the end.
    End,
    /// Toggle the solved mark of the selected challenge.
    ToggleSolved,
}

/// Outside work that a reaction asks the caller to perform.
#[derive(Debug)]
pub enum Effect {
    /// Nothing to do outside.
    Nothing,
    /// Onboarding: expand "~" in this path and create the workspace there,
    /// then report the outcome to `App::onboarding_directory_result`.
    PrepareWorkspace(String),
    /// Onboarding: write the configuration, then report the outcome to
    /// `App::onboarding_saved`.
    SaveOnboardingConfig,
    /// Settings changed: write the configuration; a failure ends the TUI.
    SaveConfig,
    /// Make this CTF the active one: create its directory, record it in the
    /// configuration, write the configuration, and leave the TUI.
    ActivateCtf { id: i64, path: String, name: String },
    /// Load the challenges of this CTF and show them with
    /// `App::enter_challenge_view`.
    OpenChallengeView(i64),
    /// Fetch from CTFtime in the background and hand the receiving end to
    /// `App::start_api_refresh`.
    StartApiRefresh,
    /// Toggle the solved mark of this challenge, then reload the challenges.
    ToggleSolved(i64),
    /// Report that the CTF of the challenge view was not found.
    ReportMissingCtf,
}

} // verus!
