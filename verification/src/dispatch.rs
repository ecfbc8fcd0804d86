//! How the TUI reacts to each action: the decisions of its event loop, as a
//! step from state and action to new state and the outside work to do.
//!
//! The onboarding dialog, when present, takes every action; otherwise the
//! settings dialog, when open; otherwise the screen being shown.
use vstd::prelude::*;
use vstd::string::*;

use crate::actions::{Action, Effect};
use crate::config::Config;
use crate::keys::{
    control_held, handle_key_event, handle_setup_key_event, key_action, setup_key_action, KeyCode,
    KeyEvent, KeyEventKind,
};
use crate::models::ctf_directory;
use crate::onboarding::char_len;
use crate::settings_state::{SettingField, SettingsState};
use crate::state::{App, ViewMode};
use crate::sync::{sanitize_challenge_name, sanitized};
use crate::text::{
    digits_value, decimal, join_path, joined_path, parse_u64, parses_as_u64, prefixed,
    u64_to_decimal, unsigned_digits,
};

verus! {

/// The message shown when the onboarding path is blank.
pub open spec fn empty_path_message() -> Seq<char> {
    "Path cannot be empty"@
}

/// The text the settings editor starts with for a field: the configured
/// CTF directory (empty when none), or the tick rate in decimal.
pub open spec fn initial_setting_text(config: Config, field: SettingField) -> Seq<char> {
    match field {
        SettingField::DefaultCtfDirectory => match config.default_ctf_directory {
            Some(d) => d@,
            None => Seq::<char>::empty(),
        },
        SettingField::UiTickRate => decimal(config.ui.tick_rate_ms as nat),
    }
}

/// `next` is `config` with the edited text `value` saved into `field`: an
/// empty directory clears it; a tick rate that does not read as a `u64` is
/// ignored.
pub open spec fn saved_setting(config: Config, field: SettingField, value: Seq<char>, next: Config) -> bool {
    &&& next.active_ctf_id == config.active_ctf_id
    &&& next.active_ctf_path == config.active_ctf_path
    &&& next.sync == config.sync
    &&& match field {
        SettingField::DefaultCtfDirectory => {
            &&& next.ui == config.ui
            &&& if value.len() == 0 {
                next.default_ctf_directory is None
            } else {
                next.default_ctf_directory matches Some(d) && d@ == value
            }
        },
        SettingField::UiTickRate => {
            &&& next.default_ctf_directory == config.default_ctf_directory
            &&& if parses_as_u64(value) {
                next.ui.tick_rate_ms as nat == digits_value(unsigned_digits(value))
            } else {
                next.ui == config.ui
            }
        },
    }
}

/// Where a challenge lives: `<ctf directory>/<category>/<name>`, both
/// sanitized.
pub open spec fn challenge_directory(ctf_dir: Seq<char>, category: Seq<char>, name: Seq<char>) -> Seq<char> {
    joined_path(joined_path(ctf_dir, sanitized(category)), sanitized(name))
}

/// What preparing the onboarding workspace came to.
#[derive(Debug)]
pub enum WorkspaceOutcome {
    /// The path could not be expanded; the error says why.
    InvalidPath(String),
    /// The workspace directories could not be created; the error says why.
    CreateFailed(String),
    /// The workspace is ready at this (expanded) path.
    Ready(String),
}

impl App {
    /// The onboarding dialog takes the actions.
    pub open spec fn in_onboarding(&self) -> bool {
        self.onboarding_state is Some
    }

    /// The settings dialog takes the actions.
    pub open spec fn in_settings(&self) -> bool {
        self.onboarding_state is None && self.show_settings
    }

    /// The CTF list takes the actions.
    pub open spec fn in_ctf_list(&self) -> bool {
        self.onboarding_state is None && !self.show_settings && self.current_view
            == ViewMode::CtfList
    }

    /// The challenge list takes the actions.
    pub open spec fn in_challenge_list(&self) -> bool {
        self.onboarding_state is None && !self.show_settings && self.current_view
            == ViewMode::ChallengeList
    }

    /// The same state with the onboarding dialog left out.
    pub open spec fn without_onboarding(self) -> App {
        App { onboarding_state: None, ..self }
    }

    /// The same state with the settings dialog left out.
    pub open spec fn without_settings_dialog(self, s: SettingsState) -> App {
        App { settings_state: s, ..self }
    }

    /// Opening the challenge of the challenge list would find no category
    /// (the reaction to Enter there requires one).
    pub open spec fn enter_lacks_category(&self) -> bool {
        &&& self.challenge_selected_index < self.challenges@.len()
        &&& self.current_ctf_at() is Some
        &&& self.challenges@[self.challenge_selected_index as int].category is None
    }

    /// `action` can be handled: the lists fit in memory, an edit of the
    /// onboarding text starts from a character boundary, and opening a
    /// challenge finds its category.
    pub open spec fn accepts(&self, action: Action) -> bool {
        &&& self.lists_fit()
        &&& self.onboarding_state matches Some(st) ==> match action {
            Action::InputChar(c) => st.wf() && st.cursor_position + char_len(c) <= usize::MAX,
            Action::DeleteChar => st.wf(),
            _ => true,
        }
        &&& self.in_challenge_list() && action == Action::Enter ==> !self.enter_lacks_category()
    }

    /// The reaction of the onboarding dialog to `action`.
    pub open spec fn onboarding_reaction(self, action: Action, next: App, effect: Effect) -> bool
        recommends
            self.onboarding_state is Some,
    {
        let st = self.onboarding_state->0;
        let unchanged_else = next.without_onboarding() == self.without_onboarding();
        match action {
            Action::Quit => next == (App { should_quit: true, ..self }) && effect is Nothing,
            Action::InputChar(c) => unchanged_else && (next.onboarding_state matches Some(n)
                && st.inserted(c, n)) && effect is Nothing,
            Action::DeleteChar => unchanged_else && (next.onboarding_state matches Some(n)
                && st.deleted(n)) && effect is Nothing,
            Action::CursorLeft => next == (App { onboarding_state: Some(st.after_left()), ..self })
                && effect is Nothing,
            Action::CursorRight => next == (App { onboarding_state: Some(st.after_right()), ..self })
                && effect is Nothing,
            Action::Home => next == (App { onboarding_state: Some(st.with_cursor(0)), ..self })
                && effect is Nothing,
            Action::End => next == (App {
                onboarding_state: Some(st.with_cursor(st.bytes().len() as usize as int)),
                ..self
            }) && effect is Nothing,
            Action::Enter | Action::SaveSettings => if crate::text::trimmed(st.input_buffer@).len()
                == 0 {
                &&& unchanged_else
                &&& next.onboarding_state matches Some(n) && (n.error_message matches Some(e)
                    && e@ == empty_path_message()) && n == st.with_error(n.error_message->0)
                &&& effect is Nothing
            } else {
                &&& next == (App { onboarding_state: Some(st.validation_started()), ..self })
                &&& effect matches Effect::PrepareWorkspace(p) && p@ == st.input_buffer@
            },
            _ => next == self && effect is Nothing,
        }
    }

    /// The reaction of the settings dialog to `action`; `config` becomes
    /// `next_config`.
    pub open spec fn settings_reaction(
        self,
        config: Config,
        action: Action,
        next: App,
        next_config: Config,
        effect: Effect,
    ) -> bool {
        let ss = self.settings_state;
        let ns = next.settings_state;
        let dialog_only = next.without_settings_dialog(ss) == self;
        match action {
            Action::Quit | Action::Back => next_config == config && effect is Nothing && if ss.editing {
                &&& dialog_only
                &&& !ns.editing && ns.input_buffer@.len() == 0 && ns.selected_field
                    == ss.selected_field
            } else {
                next == (App { show_settings: false, ..self })
            },
            Action::OpenSettings => next_config == config && effect is Nothing && next == (App {
                show_settings: false,
                ..self
            }),
            Action::SelectPrevious | Action::SelectNext => next_config == config && effect is Nothing
                && next == (App { settings_state: ss.after_next_field(), ..self }),
            Action::Enter => {
                &&& next_config == config
                &&& effect is Nothing
                &&& dialog_only
                &&& ns.editing && ns.selected_field == ss.selected_field
                &&& ns.input_buffer@ == initial_setting_text(config, ss.selected_field)
            },
            Action::InputChar(c) => {
                &&& next_config == config
                &&& effect is Nothing
                &&& dialog_only
                &&& ns.editing == ss.editing && ns.selected_field == ss.selected_field
                &&& ns.input_buffer@ == if ss.editing {
                    ss.input_buffer@.push(c)
                } else {
                    ss.input_buffer@
                }
            },
            Action::DeleteChar => {
                &&& next_config == config
                &&& effect is Nothing
                &&& dialog_only
                &&& ns.editing == ss.editing && ns.selected_field == ss.selected_field
                &&& ns.input_buffer@ == if ss.editing && ss.input_buffer@.len() > 0 {
                    ss.input_buffer@.drop_last()
                } else {
                    ss.input_buffer@
                }
            },
            Action::SaveSettings => {
                &&& dialog_only
                &&& !ns.editing && ns.selected_field == ss.selected_field && ns.input_buffer
                    == ss.input_buffer
                &&& saved_setting(config, ss.selected_field, ss.input_buffer@, next_config)
                &&& effect is SaveConfig
            },
            _ => next == self && next_config == config && effect is Nothing,
        }
    }

    /// The reaction of the CTF list to `action`.
    pub open spec fn ctf_list_reaction(self, config: Config, action: Action, next: App, effect: Effect) -> bool {
        let on_header = self.header_at(self.selected_index as int);
        match action {
            Action::Quit | Action::Back => next == (App { should_quit: true, ..self }) && effect is Nothing,
            Action::SelectPrevious => next == self.after_select_previous() && effect is Nothing,
            Action::SelectNext => next == self.after_select_next() && effect is Nothing,
            Action::Enter => if on_header {
                next == (App { archive_expanded: !self.archive_expanded, ..self }).after_validate()
                    && effect is Nothing
            } else {
                next == self && match self.selected_ctf_at() {
                    Some(loc) => match self.ctf_at(loc).id {
                        Some(id) => effect matches Effect::ActivateCtf { id: eid, path, name }
                            && eid == id && path@ == ctf_directory(
                            config.default_ctf_directory,
                            self.ctf_at(loc).name@,
                        ) && name@ == self.ctf_at(loc).name@,
                        None => effect is Nothing,
                    },
                    None => effect is Nothing,
                }
            },
            Action::OpenChallengeView => next == self && if !on_header && self.selected_ctf_at() is Some
                && self.ctf_at(self.selected_ctf_at()->0).id is Some {
                effect == Effect::OpenChallengeView(self.ctf_at(self.selected_ctf_at()->0).id->0)
            } else {
                effect is Nothing
            },
            Action::RefreshFromAPI => next == self && effect is StartApiRefresh,
            Action::OpenSettings => next == (App { show_settings: true, ..self }) && effect is Nothing,
            Action::ToggleArchive => next == (App {
                archive_expanded: !self.archive_expanded,
                ..self
            }).after_validate() && effect is Nothing,
            _ => next == self && effect is Nothing,
        }
    }

    /// The reaction of the challenge list to `action`.
    pub open spec fn challenge_list_reaction(
        self,
        config: Config,
        action: Action,
        next: App,
        effect: Effect,
    ) -> bool {
        let i = self.challenge_selected_index as int;
        let has_selection = i < self.challenges@.len();
        match action {
            Action::Quit | Action::Back => {
                &&& next == (App {
                    current_view: ViewMode::CtfList,
                    challenges: next.challenges,
                    challenge_selected_index: 0,
                    current_ctf_id: None,
                    ..self
                })
                &&& next.challenges@.len() == 0
                &&& effect is Nothing
            },
            Action::SelectPrevious => next == self.after_select_previous() && effect is Nothing,
            Action::SelectNext => next == self.after_select_next() && effect is Nothing,
            Action::Enter => if has_selection {
                match self.current_ctf_at() {
                    Some(loc) => {
                        let ch = self.challenges@[i];
                        &&& next == (App {
                            navigation_path: next.navigation_path,
                            should_quit: true,
                            ..self
                        })
                        &&& next.navigation_path matches Some(p) && p@ == challenge_directory(
                            ctf_directory(config.default_ctf_directory, self.ctf_at(loc).name@),
                            ch.category->0@,
                            ch.name@,
                        )
                        &&& effect is Nothing
                    },
                    None => next == self && effect is ReportMissingCtf,
                }
            } else {
                next == self && effect is Nothing
            },
            Action::ToggleSolved => next == self && if has_selection && self.challenges@[i].id is Some {
                effect == Effect::ToggleSolved(self.challenges@[i].id->0)
            } else {
                effect is Nothing
            },
            _ => next == self && effect is Nothing,
        }
    }

    /// Keys edit text: a settings field is being edited, or the onboarding
    /// dialog is open.
    pub open spec fn edit_mode(&self) -> bool {
        self.show_settings && self.settings_state.editing || self.onboarding_state is Some
    }

    /// Whether keys edit text (see `edit_mode`).
    pub fn in_edit_mode(&self) -> (r: bool)
        ensures
            r == self.edit_mode(),
    {
        self.show_settings && self.settings_state.editing || self.onboarding_state.is_some()
    }

    /// The action a key event stands for in the current state: in the
    /// setup dialog Ctrl+C exits setup and other keys edit; elsewhere keys
    /// edit text while a settings field is being edited, else they navigate.
    pub fn action_for_key(&self, key: KeyEvent) -> (r: Option<Action>)
        ensures
            self.onboarding_state is Some ==> r == setup_key_action(key),
            self.onboarding_state is None ==> r == key_action(key, self.edit_mode()),
    {
        if self.onboarding_state.is_some() {
            handle_setup_key_event(key)
        } else {
            handle_key_event(key, self.in_edit_mode())
        }
    }

    /// Reacts to a user action: updates the state (and, for saved settings,
    /// the configuration) and says what outside work is to be done.
    pub fn handle_action(&mut self, config: &mut Config, action: Action) -> (effect: Effect)
        requires
            old(self).accepts(action),
        ensures
            old(self).in_onboarding() ==> old(self).onboarding_reaction(action, *final(self), effect)
                && *final(config) == *old(config),
            old(self).in_settings() ==> old(self).settings_reaction(
                *old(config),
                action,
                *final(self),
                *final(config),
                effect,
            ),
            old(self).in_ctf_list() ==> old(self).ctf_list_reaction(*old(config), action, *final(self), effect)
                && *final(config) == *old(config),
            old(self).in_challenge_list() ==> old(self).challenge_list_reaction(
                *old(config),
                action,
                *final(self),
                effect,
            ) && *final(config) == *old(config),
    {
        if self.onboarding_state.is_some() {
            self.onboarding_action(action)
        } else if self.show_settings {
            self.settings_action(config, action)
        } else {
            match self.current_view {
                ViewMode::CtfList => self.ctf_list_action(config, action),
                ViewMode::ChallengeList => self.challenge_list_action(config, action),
            }
        }
    }

    /// Takes in what preparing the onboarding workspace came to: an error is
    /// shown in the dialog; a ready workspace becomes the configured CTF
    /// directory, to be written to the configuration file.
    pub fn onboarding_directory_result(&mut self, config: &mut Config, outcome: WorkspaceOutcome) -> (effect: Effect)
        requires
            old(self).onboarding_state is Some,
        ensures
            outcome matches WorkspaceOutcome::Ready(path) ==> *final(self) == *old(self)
                && final(config).default_ctf_directory == Some(path) && final(config).active_ctf_id
                == old(config).active_ctf_id && final(config).active_ctf_path
                == old(config).active_ctf_path && final(config).sync == old(config).sync
                && final(config).ui == old(config).ui && effect is SaveOnboardingConfig,
            outcome matches WorkspaceOutcome::InvalidPath(e) ==> *final(config) == *old(config)
                && effect is Nothing && (final(self).onboarding_state matches Some(n) && (
            n.error_message matches Some(m) && m@ == "Invalid path: "@ + e@) && n
                == old(self).onboarding_state->0.with_error(n.error_message->0)) && final(self).without_onboarding()
                == old(self).without_onboarding(),
            outcome matches WorkspaceOutcome::CreateFailed(e) ==> *final(config) == *old(config)
                && effect is Nothing && (final(self).onboarding_state matches Some(n) && (
            n.error_message matches Some(m) && m@ == "Failed to create directory: "@ + e@) && n
                == old(self).onboarding_state->0.with_error(n.error_message->0)) && final(self).without_onboarding()
                == old(self).without_onboarding(),
    {
        match outcome {
            WorkspaceOutcome::Ready(path) => {
                config.default_ctf_directory = Some(path);
                Effect::SaveOnboardingConfig
            },
            WorkspaceOutcome::InvalidPath(e) => {
                let message = prefixed("Invalid path: ", e.as_str());
                self.show_onboarding_error(message);
                Effect::Nothing
            },
            WorkspaceOutcome::CreateFailed(e) => {
                let message = prefixed("Failed to create directory: ", e.as_str());
                self.show_onboarding_error(message);
                Effect::Nothing
            },
        }
    }

    /// Takes in whether writing the configuration after onboarding worked:
    /// on success the dialog closes (the caller then loads the CTFs); on
    /// failure the error is shown in it.
    pub fn onboarding_saved(&mut self, outcome: Result<(), String>)
        requires
            old(self).onboarding_state is Some,
        ensures
            outcome is Ok ==> *final(self) == old(self).without_onboarding(),
            outcome matches Err(e) ==> (final(self).onboarding_state matches Some(n) && (
            n.error_message matches Some(m) && m@ == "Failed to save config: "@ + e@) && n
                == old(self).onboarding_state->0.with_error(n.error_message->0)) && final(self).without_onboarding()
                == old(self).without_onboarding(),
    {
        match outcome {
            Ok(()) => {
                self.onboarding_state = None;
            },
            Err(e) => {
                let message = prefixed("Failed to save config: ", e.as_str());
                self.show_onboarding_error(message);
            },
        }
    }

    fn show_onboarding_error(&mut self, message: String)
        requires
            old(self).onboarding_state is Some,
        ensures
            final(self).onboarding_state == Some(old(self).onboarding_state->0.with_error(message)),
            final(self).without_onboarding() == old(self).without_onboarding(),
    {
        let mut st = match self.onboarding_state.take() {
            Some(s) => s,
            None => {
                return;
            },
        };
        st.set_error(message);
        self.onboarding_state = Some(st);
    }

    /// Takes in how the CTFtime fetch ended: success ends the fetch and asks
    /// for the CTF lists to be reloaded (`true`); failure ends it with the
    /// error shown.
    pub fn finish_api_refresh(&mut self, outcome: Result<usize, String>) -> (reload: bool)
        ensures
            outcome is Ok ==> reload && *final(self) == (App {
                is_fetching_api: false,
                api_error_message: None,
                api_fetch_receiver: None,
                ..*old(self)
            }),
            outcome matches Err(e) ==> !reload && (final(self).api_error_message matches Some(m)
                && m@ == "Failed to fetch from CTFtime: "@ + e@) && *final(self) == (App {
                is_fetching_api: false,
                api_error_message: final(self).api_error_message,
                api_fetch_receiver: None,
                ..*old(self)
            }),
    {
        match outcome {
            Ok(_count) => {
                self.complete_api_refresh_success();
                true
            },
            Err(e) => {
                let message = prefixed("Failed to fetch from CTFtime: ", e.as_str());
                self.complete_api_refresh_error(message);
                false
            },
        }
    }

    /// Shows that reloading the CTF lists after a fetch failed.
    pub fn reload_failed(&mut self, error: &str)
        ensures
            (final(self).api_error_message matches Some(m) && m@ == "Failed to reload CTFs: "@
                + error@) && *final(self) == (App {
                is_fetching_api: false,
                api_error_message: final(self).api_error_message,
                api_fetch_receiver: None,
                ..*old(self)
            }),
    {
        let message = prefixed("Failed to reload CTFs: ", error);
        self.complete_api_refresh_error(message);
    }

    fn onboarding_action(&mut self, action: Action) -> (effect: Effect)
        requires
            old(self).in_onboarding(),
            old(self).accepts(action),
        ensures
            old(self).onboarding_reaction(action, *final(self), effect),
    {
        if let Action::Quit = action {
            self.should_quit = true;
            return Effect::Nothing;
        }
        let mut st = match self.onboarding_state.take() {
            Some(s) => s,
            None => {
                return Effect::Nothing;
            },
        };
        let effect = match action {
            Action::InputChar(c) => {
                st.insert_char(c);
                Effect::Nothing
            },
            Action::DeleteChar => {
                st.delete_char();
                Effect::Nothing
            },
            Action::CursorLeft => {
                st.move_cursor_left();
                Effect::Nothing
            },
            Action::CursorRight => {
                st.move_cursor_right();
                Effect::Nothing
            },
            Action::Home => {
                st.move_cursor_home();
                Effect::Nothing
            },
            Action::End => {
                st.move_cursor_end();
                Effect::Nothing
            },
            Action::Enter | Action::SaveSettings => {
                if st.is_empty() {
                    st.set_error(String::from_str("Path cannot be empty"));
                    Effect::Nothing
                } else {
                    st.start_validation();
                    Effect::PrepareWorkspace(st.input_buffer.clone())
                }
            },
            _ => Effect::Nothing,
        };
        self.onboarding_state = Some(st);
        effect
    }

    fn settings_action(&mut self, config: &mut Config, action: Action) -> (effect: Effect)
        requires
            old(self).in_settings(),
        ensures
            old(self).settings_reaction(*old(config), action, *final(self), *final(config), effect),
    {
        match action {
            Action::Quit | Action::Back => {
                if self.settings_state.editing {
                    self.settings_state.cancel_editing();
                } else {
                    self.show_settings = false;
                }
                Effect::Nothing
            },
            Action::OpenSettings => {
                self.show_settings = false;
                Effect::Nothing
            },
            Action::SelectPrevious => {
                self.settings_state.previous_field();
                Effect::Nothing
            },
            Action::SelectNext => {
                self.settings_state.next_field();
                Effect::Nothing
            },
            Action::Enter => {
                let initial_value = match self.settings_state.selected_field {
                    SettingField::DefaultCtfDirectory => match &config.default_ctf_directory {
                        Some(d) => d.clone(),
                        None => String::new(),
                    },
                    SettingField::UiTickRate => u64_to_decimal(config.ui.tick_rate_ms),
                };
                self.settings_state.start_editing(initial_value);
                Effect::Nothing
            },
            Action::InputChar(c) => {
                self.settings_state.push_char(c);
                Effect::Nothing
            },
            Action::DeleteChar => {
                self.settings_state.pop_char();
                Effect::Nothing
            },
            Action::SaveSettings => {
                let value = self.settings_state.finish_editing();
                match self.settings_state.selected_field {
                    SettingField::DefaultCtfDirectory => {
                        if value.as_str().is_empty() {
                            config.default_ctf_directory = None;
                        } else {
                            config.default_ctf_directory = Some(value);
                        }
                    },
                    SettingField::UiTickRate => {
                        if let Some(rate) = parse_u64(value.as_str()) {
                            config.ui.tick_rate_ms = rate;
                        }
                    },
                }
                Effect::SaveConfig
            },
            _ => Effect::Nothing,
        }
    }

    fn ctf_list_action(&mut self, config: &Config, action: Action) -> (effect: Effect)
        requires
            old(self).in_ctf_list(),
            old(self).lists_fit(),
        ensures
            old(self).ctf_list_reaction(*config, action, *final(self), effect),
    {
        match action {
            Action::Quit | Action::Back => {
                self.should_quit = true;
                Effect::Nothing
            },
            Action::SelectPrevious => {
                self.select_previous();
                Effect::Nothing
            },
            Action::SelectNext => {
                self.select_next();
                Effect::Nothing
            },
            Action::Enter => {
                if self.is_on_archive_header() {
                    self.toggle_archive();
                    Effect::Nothing
                } else {
                    match self.get_selected_ctf() {
                        Some(ctf) => match ctf.id {
                            Some(id) => {
                                let path = ctf.get_directory(config);
                                Effect::ActivateCtf { id, path, name: ctf.name.clone() }
                            },
                            None => Effect::Nothing,
                        },
                        None => Effect::Nothing,
                    }
                }
            },
            Action::OpenChallengeView => {
                if !self.is_on_archive_header() {
                    match self.get_selected_ctf() {
                        Some(ctf) => match ctf.id {
                            Some(id) => Effect::OpenChallengeView(id),
                            None => Effect::Nothing,
                        },
                        None => Effect::Nothing,
                    }
                } else {
                    Effect::Nothing
                }
            },
            Action::RefreshFromAPI => Effect::StartApiRefresh,
            Action::OpenSettings => {
                self.show_settings = true;
                Effect::Nothing
            },
            Action::ToggleArchive => {
                self.toggle_archive();
                Effect::Nothing
            },
            _ => Effect::Nothing,
        }
    }

    fn challenge_list_action(&mut self, config: &Config, action: Action) -> (effect: Effect)
        requires
            old(self).in_challenge_list(),
            old(self).lists_fit(),
            action == Action::Enter ==> !old(self).enter_lacks_category(),
        ensures
            old(self).challenge_list_reaction(*config, action, *final(self), effect),
    {
        match action {
            Action::Quit | Action::Back => {
                self.back_to_ctf_list();
                Effect::Nothing
            },
            Action::SelectPrevious => {
                self.select_previous();
                Effect::Nothing
            },
            Action::SelectNext => {
                self.select_next();
                Effect::Nothing
            },
            Action::Enter => {
                let target = match self.get_selected_challenge() {
                    Some(challenge) => match self.get_current_ctf() {
                        Some(ctf) => {
                            let ctf_path = ctf.get_directory(config);
                            let category = match &challenge.category {
                                Some(c) => c,
                                None => {
                                    return Effect::Nothing;
                                },
                            };
                            let safe_category = sanitize_challenge_name(category.as_str());
                            let safe_name = sanitize_challenge_name(challenge.name.as_str());
                            let category_path = join_path(ctf_path.as_str(), safe_category.as_str());
                            Some(Some(join_path(category_path.as_str(), safe_name.as_str())))
                        },
                        None => Some(None),
                    },
                    None => None,
                };
                match target {
                    Some(Some(path)) => {
                        self.navigation_path = Some(path);
                        self.should_quit = true;
                        Effect::Nothing
                    },
                    Some(None) => Effect::ReportMissingCtf,
                    None => Effect::Nothing,
                }
            },
            Action::ToggleSolved => {
                match self.get_selected_challenge() {
                    Some(challenge) => match challenge.id {
                        Some(id) => Effect::ToggleSolved(id),
                        None => Effect::Nothing,
                    },
                    None => Effect::Nothing,
                }
            },
            _ => Effect::Nothing,
        }
    }
}

/// The CTF list's reactions keep the selection within the list.
pub proof fn lemma_ctf_list_keeps_selection_in_range(
    app: App,
    config: Config,
    action: Action,
    next: App,
    effect: Effect,
)
    requires
        app.in_ctf_list(),
        app.lists_fit(),
        app.selection_in_range(),
        app.ctf_list_reaction(config, action, next, effect),
    ensures
        next.selection_in_range(),
        next.lists_fit(),
{
    crate::state::lemma_navigation_stays_in_range(app);
    crate::state::lemma_validate_selects_a_row(
        App { archive_expanded: !app.archive_expanded, ..app },
    );
}

/// The onboarding dialog's reactions keep its cursor on a character
/// boundary (for texts whose length is a usize, as every `String`'s is).
pub proof fn lemma_onboarding_keeps_cursor_in_input(app: App, action: Action, next: App, effect: Effect)
    requires
        app.onboarding_state matches Some(st) && st.wf(),
        app.accepts(action),
        app.onboarding_reaction(action, next, effect),
        next.onboarding_state matches Some(n) && n.bytes().len() <= usize::MAX,
    ensures
        next.onboarding_state matches Some(n) && n.wf(),
{
    let st = app.onboarding_state->0;
    let n = next.onboarding_state->0;
    match action {
        Action::InputChar(c) => {
            crate::onboarding::lemma_edits_keep_cursor_in_input(st, n, c);
        },
        Action::DeleteChar => {
            crate::onboarding::lemma_edits_keep_cursor_in_input(st, n, ' ');
        },
        Action::CursorLeft | Action::CursorRight | Action::Home | Action::End => {
            crate::onboarding::lemma_edits_keep_cursor_in_input(st, n, ' ');
        },
        _ => {},
    }
}

/// Ctrl+C exits setup: while the onboarding dialog is open its press is
/// read as Quit, and the dialog's reaction ends the TUI and asks for no
/// outside work (nothing is written).
pub proof fn lemma_ctrl_c_exits_setup(app: App, key: KeyEvent, next: App, effect: Effect)
    requires
        app.in_onboarding(),
        key.code == KeyCode::Char('c'),
        key.kind == KeyEventKind::Press,
        control_held(key.modifiers),
        app.onboarding_reaction(Action::Quit, next, effect),
    ensures
        setup_key_action(key) == Some(Action::Quit),
        next.should_quit,
        effect is Nothing,
{
}

} // verus!
