use ctf_man::actions::Action;
use ctf_man::keys::{
    handle_key_event, handle_setup_key_event, KeyCode, KeyEvent, KeyEventKind, KeyModifiers,
};

#[test]
fn test_quit_keys() {
    let q_event = KeyEvent::new(KeyCode::Char('q'), KeyModifiers::none());
    assert_eq!(handle_key_event(q_event, false), Some(Action::Quit));
}

#[test]
fn test_back_keys() {
    let esc_event = KeyEvent::new(KeyCode::Esc, KeyModifiers::none());
    assert_eq!(handle_key_event(esc_event, false), Some(Action::Back));

    let backspace_event = KeyEvent::new(KeyCode::Backspace, KeyModifiers::none());
    assert_eq!(handle_key_event(backspace_event, false), Some(Action::Back));
}

#[test]
fn test_navigation_keys() {
    let up_event = KeyEvent::new(KeyCode::Up, KeyModifiers::none());
    assert_eq!(handle_key_event(up_event, false), Some(Action::SelectPrevious));

    let down_event = KeyEvent::new(KeyCode::Down, KeyModifiers::none());
    assert_eq!(handle_key_event(down_event, false), Some(Action::SelectNext));

    let enter_event = KeyEvent::new(KeyCode::Enter, KeyModifiers::none());
    assert_eq!(handle_key_event(enter_event, false), Some(Action::Enter));
}

#[test]
fn test_edit_mode_input() {
    let char_event = KeyEvent::new(KeyCode::Char('a'), KeyModifiers::none());
    assert_eq!(handle_key_event(char_event, true), Some(Action::InputChar('a')));

    let backspace_event = KeyEvent::new(KeyCode::Backspace, KeyModifiers::none());
    assert_eq!(handle_key_event(backspace_event, true), Some(Action::DeleteChar));
}

#[test]
fn releases_and_repeats_are_ignored() {
    let mut ev = KeyEvent::new(KeyCode::Char('q'), KeyModifiers::none());
    ev.kind = KeyEventKind::Release;
    assert_eq!(handle_key_event(ev, false), None);
    ev.kind = KeyEventKind::Repeat;
    assert_eq!(handle_key_event(ev, true), None);
}

#[test]
fn normal_mode_key_table() {
    let k = |code| handle_key_event(KeyEvent::new(code, KeyModifiers::none()), false);
    assert_eq!(k(KeyCode::Char('Q')), Some(Action::Quit));
    assert_eq!(k(KeyCode::Char('k')), Some(Action::SelectPrevious));
    assert_eq!(k(KeyCode::Char('j')), Some(Action::SelectNext));
    assert_eq!(k(KeyCode::Right), Some(Action::OpenChallengeView));
    assert_eq!(k(KeyCode::Char('l')), Some(Action::OpenChallengeView));
    assert_eq!(k(KeyCode::Left), Some(Action::Back));
    assert_eq!(k(KeyCode::Char('h')), Some(Action::Back));
    assert_eq!(k(KeyCode::Char(' ')), Some(Action::ToggleSolved));
    assert_eq!(k(KeyCode::Char('r')), Some(Action::RefreshFromAPI));
    assert_eq!(k(KeyCode::F(5)), Some(Action::RefreshFromAPI));
    assert_eq!(k(KeyCode::F(4)), None);
    assert_eq!(k(KeyCode::Char('s')), Some(Action::OpenSettings));
    assert_eq!(k(KeyCode::Char('S')), Some(Action::OpenSettings));
    assert_eq!(k(KeyCode::Char('a')), Some(Action::ToggleArchive));
    assert_eq!(k(KeyCode::Char('A')), Some(Action::ToggleArchive));
    assert_eq!(k(KeyCode::Char('x')), None);
    assert_eq!(k(KeyCode::Home), None);
    assert_eq!(k(KeyCode::Other), None);
}

#[test]
fn edit_mode_key_table() {
    let k = |code| handle_key_event(KeyEvent::new(code, KeyModifiers::none()), true);
    assert_eq!(k(KeyCode::Char('q')), Some(Action::InputChar('q')));
    assert_eq!(k(KeyCode::Enter), Some(Action::SaveSettings));
    assert_eq!(k(KeyCode::Esc), Some(Action::Back));
    assert_eq!(k(KeyCode::Left), Some(Action::CursorLeft));
    assert_eq!(k(KeyCode::Right), Some(Action::CursorRight));
    assert_eq!(k(KeyCode::Home), Some(Action::Home));
    assert_eq!(k(KeyCode::End), Some(Action::End));
    assert_eq!(k(KeyCode::Up), None);
    assert_eq!(k(KeyCode::F(5)), None);
}

#[test]
fn ctrl_c_exits_setup_but_types_in_settings() {
    let ctrl_c = KeyEvent::new(KeyCode::Char('c'), KeyModifiers::control());
    assert_eq!(handle_setup_key_event(ctrl_c), Some(Action::Quit));
    let ctrl_shift_c = KeyEvent::new(KeyCode::Char('c'), KeyModifiers { bits: 3 });
    assert_eq!(handle_setup_key_event(ctrl_shift_c), Some(Action::Quit));
    assert_eq!(handle_key_event(ctrl_c, true), Some(Action::InputChar('c')));
    let plain_c = KeyEvent::new(KeyCode::Char('c'), KeyModifiers::none());
    assert_eq!(handle_setup_key_event(plain_c), Some(Action::InputChar('c')));
    let ctrl_d = KeyEvent::new(KeyCode::Char('d'), KeyModifiers::control());
    assert_eq!(handle_setup_key_event(ctrl_d), Some(Action::InputChar('d')));
    let esc = KeyEvent::new(KeyCode::Esc, KeyModifiers::none());
    assert_eq!(handle_setup_key_event(esc), Some(Action::Back));
}
