use ctf_man::onboarding::OnboardingState;
use ctf_man::settings_state::{SettingField, SettingsState};

#[test]
fn onboarding_starts_with_the_default_path() {
    let s = OnboardingState::new();
    assert_eq!(s.get_input(), "~/ctf");
    assert_eq!(s.cursor_position, 5);
    assert!(s.error_message.is_none());
    assert!(!s.validating);
    let d = OnboardingState::default();
    assert_eq!(d.input_buffer, "~/ctf");
}

#[test]
fn typing_inserts_at_the_cursor_and_clears_the_error() {
    let mut s = OnboardingState::new();
    s.set_error("bad".to_string());
    s.move_cursor_home();
    s.insert_char('x');
    assert_eq!(s.get_input(), "x~/ctf");
    assert_eq!(s.cursor_position, 1);
    assert!(s.error_message.is_none());
}

#[test]
fn backspace_undoes_typing() {
    let mut s = OnboardingState::new();
    s.move_cursor_left();
    s.move_cursor_left();
    s.insert_char('Z');
    assert_eq!(s.get_input(), "~/cZtf");
    s.delete_char();
    assert_eq!(s.get_input(), "~/ctf");
    assert_eq!(s.cursor_position, 3);
}

#[test]
fn backspace_at_the_start_does_nothing() {
    let mut s = OnboardingState::new();
    s.set_error("keep".to_string());
    s.move_cursor_home();
    s.delete_char();
    assert_eq!(s.get_input(), "~/ctf");
    assert_eq!(s.cursor_position, 0);
    assert_eq!(s.error_message.as_deref(), Some("keep"));
}

#[test]
fn cursor_moves_stay_within_the_text() {
    let mut s = OnboardingState::new();
    s.move_cursor_right();
    assert_eq!(s.cursor_position, 5);
    s.move_cursor_home();
    s.move_cursor_left();
    assert_eq!(s.cursor_position, 0);
    s.move_cursor_right();
    assert_eq!(s.cursor_position, 1);
    s.move_cursor_end();
    assert_eq!(s.cursor_position, 5);
}

#[test]
fn cursor_moves_by_whole_characters() {
    let mut s = OnboardingState::new();
    s.insert_char('é');
    assert_eq!(s.get_input(), "~/ctfé");
    assert_eq!(s.cursor_position, 7);
    s.insert_char('日');
    assert_eq!(s.cursor_position, 10);
    s.move_cursor_left();
    assert_eq!(s.cursor_position, 7);
    s.move_cursor_left();
    assert_eq!(s.cursor_position, 5);
    s.move_cursor_right();
    assert_eq!(s.cursor_position, 7);
    assert!(s.cursor_at_char());
    assert_eq!(s.input_display(), "~/ctfé|日");
    s.move_cursor_right();
    s.delete_char();
    assert_eq!(s.get_input(), "~/ctfé");
    assert_eq!(s.cursor_position, 7);
    s.delete_char();
    assert_eq!(s.get_input(), "~/ctf");
    assert_eq!(s.cursor_position, 5);
    s.move_cursor_end();
    assert_eq!(s.cursor_position, 5);
}

#[test]
fn a_cursor_inside_a_character_moves_to_its_edges() {
    let mut s = OnboardingState::new();
    s.input_buffer = "aé".to_string();
    s.cursor_position = 2;
    assert!(!s.cursor_at_char());
    s.move_cursor_right();
    assert_eq!(s.cursor_position, 3);
    s.cursor_position = 2;
    s.move_cursor_left();
    assert_eq!(s.cursor_position, 1);
}

#[test]
fn validation_and_errors() {
    let mut s = OnboardingState::new();
    s.start_validation();
    assert!(s.validating);
    assert!(s.error_message.is_none());
    assert_eq!(s.input_display(), "~/ctf  [Validating...]");
    s.set_error("nope".to_string());
    assert!(!s.validating);
    assert_eq!(s.error_message.as_deref(), Some("nope"));
    s.move_cursor_home();
    assert_eq!(s.input_display(), "|~/ctf");
}

#[test]
fn blank_input_is_empty() {
    let mut s = OnboardingState::new();
    assert!(!s.is_empty());
    s.input_buffer = " \t ".to_string();
    assert!(s.is_empty());
    s.input_buffer = String::new();
    assert!(s.is_empty());
}

#[test]
fn settings_fields_cycle_unless_editing() {
    let mut s = SettingsState::new();
    assert_eq!(s.selected_field, SettingField::DefaultCtfDirectory);
    s.next_field();
    assert_eq!(s.selected_field, SettingField::UiTickRate);
    s.previous_field();
    assert_eq!(s.selected_field, SettingField::DefaultCtfDirectory);
    s.start_editing("abc".to_string());
    s.next_field();
    assert_eq!(s.selected_field, SettingField::DefaultCtfDirectory);
}

#[test]
fn settings_editing_buffer() {
    let mut s = SettingsState::default();
    s.push_char('x');
    assert_eq!(s.input_buffer, "");
    s.start_editing("25".to_string());
    s.push_char('0');
    assert_eq!(s.input_buffer, "250");
    s.pop_char();
    s.pop_char();
    s.pop_char();
    s.pop_char();
    assert_eq!(s.input_buffer, "");
    s.push_char('7');
    assert_eq!(s.finish_editing(), "7");
    assert!(!s.editing);
    s.start_editing("q".to_string());
    s.cancel_editing();
    assert!(!s.editing);
    assert_eq!(s.input_buffer, "");
}

#[test]
fn typing_appends_to_the_starting_text() {
    let mut s = SettingsState::new();
    s.start_editing("/ctf".to_string());
    for c in "/é2".chars() {
        s.push_char(c);
    }
    assert_eq!(s.finish_editing(), "/ctf/é2");
    assert!(!s.editing);
    assert_eq!(s.selected_field, SettingField::DefaultCtfDirectory);
}
