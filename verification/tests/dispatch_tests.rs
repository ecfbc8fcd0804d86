use ctf_man::keys::{KeyCode, KeyEvent, KeyModifiers};
use std::path::Path;

use ctf_man::actions::{Action, Effect};
use ctf_man::config::Config;
use ctf_man::dispatch::WorkspaceOutcome;
use ctf_man::models::{Challenge, Ctf};
use ctf_man::onboarding::OnboardingState;
use ctf_man::settings_state::SettingField;
use ctf_man::state::{App, ViewMode};

fn ctf(id: Option<i64>, name: &str) -> Ctf {
    Ctf {
        id,
        name: name.to_string(),
        url: None,
        start_date: None,
        end_date: None,
        team_name: None,
        notes: None,
        created_at: String::new(),
    }
}

fn challenge(id: Option<i64>, name: &str, category: Option<&str>) -> Challenge {
    Challenge {
        id,
        ctf_id: 1,
        name: name.to_string(),
        category: category.map(|c| c.to_string()),
        points: None,
        flag: None,
        solved: false,
        notes: None,
        created_at: String::new(),
    }
}

fn configured() -> Config {
    let mut config = Config::default();
    config.default_ctf_directory = Some("/ctf".to_string());
    config
}

#[test]
fn onboarding_takes_text_and_validates() {
    let mut app = App::new().unwrap();
    app.onboarding_state = Some(OnboardingState::new());
    let mut config = Config::default();
    assert!(matches!(app.handle_action(&mut config, Action::InputChar('s')), Effect::Nothing));
    assert_eq!(app.onboarding_state.as_ref().unwrap().get_input(), "~/ctfs");
    app.handle_action(&mut config, Action::DeleteChar);
    app.handle_action(&mut config, Action::Home);
    app.handle_action(&mut config, Action::CursorRight);
    app.handle_action(&mut config, Action::End);
    app.handle_action(&mut config, Action::CursorLeft);
    assert_eq!(app.onboarding_state.as_ref().unwrap().cursor_position, 4);
    match app.handle_action(&mut config, Action::Enter) {
        Effect::PrepareWorkspace(p) => assert_eq!(p, "~/ctf"),
        other => panic!("unexpected {:?}", other),
    }
    assert!(app.onboarding_state.as_ref().unwrap().validating);
}

#[test]
fn onboarding_rejects_a_blank_path() {
    let mut app = App::new().unwrap();
    let mut st = OnboardingState::new();
    st.input_buffer = "   ".to_string();
    st.cursor_position = 3;
    app.onboarding_state = Some(st);
    let mut config = Config::default();
    assert!(matches!(app.handle_action(&mut config, Action::SaveSettings), Effect::Nothing));
    assert_eq!(
        app.onboarding_state.as_ref().unwrap().error_message.as_deref(),
        Some("Path cannot be empty")
    );
    app.handle_action(&mut config, Action::Quit);
    assert!(app.should_quit);
}

#[test]
fn onboarding_outcomes() {
    let mut app = App::new().unwrap();
    app.onboarding_state = Some(OnboardingState::new());
    let mut config = Config::default();
    app.onboarding_directory_result(&mut config, WorkspaceOutcome::InvalidPath("no home".to_string()));
    assert_eq!(
        app.onboarding_state.as_ref().unwrap().error_message.as_deref(),
        Some("Invalid path: no home")
    );
    app.onboarding_directory_result(&mut config, WorkspaceOutcome::CreateFailed("denied".to_string()));
    assert_eq!(
        app.onboarding_state.as_ref().unwrap().error_message.as_deref(),
        Some("Failed to create directory: denied")
    );
    let effect = app.onboarding_directory_result(&mut config, WorkspaceOutcome::Ready("/home/u/ctf".to_string()));
    assert!(matches!(effect, Effect::SaveOnboardingConfig));
    assert_eq!(config.default_ctf_directory.as_deref(), Some("/home/u/ctf"));
    app.onboarding_saved(Err("disk full".to_string()));
    assert_eq!(
        app.onboarding_state.as_ref().unwrap().error_message.as_deref(),
        Some("Failed to save config: disk full")
    );
    app.onboarding_saved(Ok(()));
    assert!(app.onboarding_state.is_none());
}

#[test]
fn settings_dialog_edits_and_saves_the_tick_rate() {
    let mut app = App::new().unwrap();
    let mut config = configured();
    app.handle_action(&mut config, Action::OpenSettings);
    assert!(app.show_settings);
    app.handle_action(&mut config, Action::SelectNext);
    assert_eq!(app.settings_state.selected_field, SettingField::UiTickRate);
    app.handle_action(&mut config, Action::Enter);
    assert_eq!(app.settings_state.input_buffer, "250");
    app.handle_action(&mut config, Action::DeleteChar);
    app.handle_action(&mut config, Action::DeleteChar);
    app.handle_action(&mut config, Action::InputChar('0'));
    assert!(matches!(app.handle_action(&mut config, Action::SaveSettings), Effect::SaveConfig));
    assert_eq!(config.ui.tick_rate_ms, 20);
    app.handle_action(&mut config, Action::Enter);
    app.handle_action(&mut config, Action::InputChar('x'));
    app.handle_action(&mut config, Action::SaveSettings);
    assert_eq!(config.ui.tick_rate_ms, 20);
    app.handle_action(&mut config, Action::Back);
    assert!(!app.show_settings);
}

#[test]
fn settings_dialog_clears_the_directory() {
    let mut app = App::new().unwrap();
    let mut config = configured();
    app.show_settings = true;
    app.handle_action(&mut config, Action::Enter);
    assert_eq!(app.settings_state.input_buffer, "/ctf");
    for _ in 0..4 {
        app.handle_action(&mut config, Action::DeleteChar);
    }
    app.handle_action(&mut config, Action::SaveSettings);
    assert!(config.default_ctf_directory.is_none());
    app.handle_action(&mut config, Action::Enter);
    app.handle_action(&mut config, Action::Quit);
    assert!(!app.settings_state.editing);
    assert!(app.show_settings);
    app.handle_action(&mut config, Action::OpenSettings);
    assert!(!app.show_settings);
}

#[test]
fn enter_on_a_ctf_activates_it() {
    let mut app = App::new().unwrap();
    app.load_ctfs(vec![ctf(Some(4), "My CTF")], vec![ctf(Some(9), "Old")]);
    let mut config = configured();
    match app.handle_action(&mut config, Action::Enter) {
        Effect::ActivateCtf { id, path, name } => {
            assert_eq!(id, 4);
            assert_eq!(Path::new(&path), Path::new("/ctf/my_ctf"));
            assert_eq!(name, "My CTF");
        },
        other => panic!("unexpected {:?}", other),
    }
    app.handle_action(&mut config, Action::SelectNext);
    assert_eq!(app.selected_index, 2);
    app.handle_action(&mut config, Action::SelectPrevious);
    assert_eq!(app.selected_index, 0);
    assert!(app.archive_expanded);
    app.handle_action(&mut config, Action::ToggleArchive);
    assert!(!app.archive_expanded);
    app.selected_index = 1;
    assert!(matches!(app.handle_action(&mut config, Action::Enter), Effect::Nothing));
    assert!(app.archive_expanded);
}

#[test]
fn ctf_list_effects() {
    let mut app = App::new().unwrap();
    app.load_ctfs(vec![ctf(Some(4), "A"), ctf(None, "B")], Vec::new());
    let mut config = configured();
    assert!(matches!(app.handle_action(&mut config, Action::OpenChallengeView), Effect::OpenChallengeView(4)));
    assert!(matches!(app.handle_action(&mut config, Action::RefreshFromAPI), Effect::StartApiRefresh));
    app.handle_action(&mut config, Action::SelectNext);
    assert!(matches!(app.handle_action(&mut config, Action::OpenChallengeView), Effect::Nothing));
    assert!(matches!(app.handle_action(&mut config, Action::Enter), Effect::Nothing));
    app.handle_action(&mut config, Action::Back);
    assert!(app.should_quit);
}

#[test]
fn enter_on_a_challenge_navigates_to_its_directory() {
    let mut app = App::new().unwrap();
    app.load_ctfs(vec![ctf(Some(4), "My CTF")], Vec::new());
    let mut config = configured();
    app.enter_challenge_view(4, vec![challenge(Some(1), "Easy Pwn!", Some("Pwn"))]);
    assert!(matches!(app.handle_action(&mut config, Action::ToggleSolved), Effect::ToggleSolved(1)));
    assert!(matches!(app.handle_action(&mut config, Action::Enter), Effect::Nothing));
    assert!(app.should_quit);
    assert_eq!(
        Path::new(app.navigation_path.as_deref().unwrap()),
        Path::new("/ctf/my_ctf/pwn/easy_pwn!")
    );
}

#[test]
fn challenge_view_without_its_ctf_reports_it() {
    let mut app = App::new().unwrap();
    let mut config = configured();
    app.enter_challenge_view(4, vec![challenge(None, "x", Some("web"))]);
    assert!(matches!(app.handle_action(&mut config, Action::Enter), Effect::ReportMissingCtf));
    assert!(matches!(app.handle_action(&mut config, Action::ToggleSolved), Effect::Nothing));
    app.handle_action(&mut config, Action::Quit);
    assert_eq!(app.current_view, ViewMode::CtfList);
    assert!(!app.should_quit);
}

#[test]
fn edit_mode_follows_the_open_editor() {
    let mut app = App::new().unwrap();
    assert!(!app.in_edit_mode());
    app.show_settings = true;
    assert!(!app.in_edit_mode());
    app.settings_state.editing = true;
    assert!(app.in_edit_mode());
    app.show_settings = false;
    assert!(!app.in_edit_mode());
    app.onboarding_state = Some(OnboardingState::new());
    assert!(app.in_edit_mode());
}

#[test]
fn ctrl_c_exits_setup() {
    let mut app = App::new().unwrap();
    app.onboarding_state = Some(OnboardingState::new());
    let mut config = Config::default();
    let key = KeyEvent::new(KeyCode::Char('c'), KeyModifiers::control());
    let action = app.action_for_key(key).unwrap();
    assert_eq!(action, Action::Quit);
    assert!(matches!(app.handle_action(&mut config, action), Effect::Nothing));
    assert!(app.should_quit);
    assert_eq!(app.onboarding_state.as_ref().unwrap().input_buffer, "~/ctf");
    assert!(config.default_ctf_directory.is_none());
    let mut settings = App::new().unwrap();
    settings.show_settings = true;
    settings.settings_state.editing = true;
    assert_eq!(settings.action_for_key(key), Some(Action::InputChar('c')));
}

#[test]
fn blank_input_is_all_whitespace() {
    let mut st = OnboardingState::new();
    st.input_buffer = " \t\u{3000}\u{a0}".to_string();
    assert!(st.is_empty());
    st.input_buffer = " x ".to_string();
    assert!(!st.is_empty());
}
