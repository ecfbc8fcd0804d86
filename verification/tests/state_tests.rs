use std::sync::mpsc;

use ctf_man::models::{Challenge, Ctf};
use ctf_man::state::{App, FetchPoll, ViewMode};

fn ctf(id: i64, name: &str) -> Ctf {
    Ctf {
        id: Some(id),
        name: name.to_string(),
        url: None,
        start_date: None,
        end_date: None,
        team_name: None,
        notes: None,
        created_at: String::new(),
    }
}

fn challenge(id: i64, name: &str) -> Challenge {
    Challenge {
        id: Some(id),
        ctf_id: 1,
        name: name.to_string(),
        category: Some("pwn".to_string()),
        points: None,
        flag: None,
        solved: false,
        notes: None,
        created_at: String::new(),
    }
}

fn app_with(active: usize, archived: usize) -> App {
    let mut app = App::new().unwrap();
    let a = (0..active).map(|i| ctf(i as i64 + 1, &format!("A{}", i))).collect();
    let r = (0..archived).map(|i| ctf(100 + i as i64, &format!("R{}", i))).collect();
    app.load_ctfs(a, r);
    app
}

#[test]
fn new_app_is_empty() {
    let app = App::new().unwrap();
    assert!(!app.should_quit);
    assert_eq!(app.current_view, ViewMode::CtfList);
    assert!(app.ctfs.is_empty() && app.archived_ctfs.is_empty());
    assert_eq!(app.selected_index, 0);
    assert!(app.get_selected_ctf().is_none());
    let d = App::default();
    assert_eq!(d.selected_index, 0);
}

#[test]
fn moving_down_onto_the_archive_header_expands_it() {
    let mut app = app_with(2, 2);
    app.select_next();
    assert_eq!(app.selected_index, 1);
    app.select_next();
    assert!(app.archive_expanded);
    assert_eq!(app.selected_index, 3);
    assert_eq!(app.get_selected_ctf().unwrap().name, "R0");
    app.select_next();
    assert_eq!(app.selected_index, 4);
    app.select_next();
    assert_eq!(app.selected_index, 4);
}

#[test]
fn moving_up_steps_over_the_archive_header() {
    let mut app = app_with(2, 2);
    app.select_next();
    app.select_next();
    app.select_previous();
    assert_eq!(app.selected_index, 1);
    app.select_previous();
    app.select_previous();
    assert_eq!(app.selected_index, 0);
}

#[test]
fn header_alone_stays_selectable() {
    let mut app = app_with(0, 1);
    assert_eq!(app.selected_index, 0);
    assert!(app.is_on_archive_header());
    app.select_next();
    assert!(!app.archive_expanded);
    assert_eq!(app.selected_index, 0);
    app.toggle_archive();
    assert!(app.archive_expanded);
    assert_eq!(app.selected_index, 1);
    assert_eq!(app.get_selected_ctf().unwrap().name, "R0");
}

#[test]
fn collapsing_the_archive_pulls_the_selection_back() {
    let mut app = app_with(2, 3);
    app.toggle_archive();
    app.selected_index = 5;
    app.toggle_archive();
    assert!(!app.archive_expanded);
    assert_eq!(app.selected_index, 1);
}

#[test]
fn loading_fewer_ctfs_clamps_the_selection() {
    let mut app = app_with(5, 0);
    app.selected_index = 4;
    app.load_ctfs(vec![ctf(1, "only")], Vec::new());
    assert_eq!(app.selected_index, 0);
}

#[test]
fn expanded_header_selects_no_ctf() {
    let mut app = app_with(1, 2);
    app.toggle_archive();
    app.selected_index = 1;
    assert!(app.is_on_archive_header());
    assert!(app.get_selected_ctf().is_none());
    app.selected_index = 2;
    assert_eq!(app.get_selected_ctf().unwrap().name, "R0");
    app.selected_index = 4;
    assert!(app.get_selected_ctf().is_none());
}

#[test]
fn challenge_list_navigation() {
    let mut app = app_with(1, 0);
    app.enter_challenge_view(1, vec![challenge(1, "a"), challenge(2, "b")]);
    assert_eq!(app.current_view, ViewMode::ChallengeList);
    assert_eq!(app.current_ctf_id, Some(1));
    app.select_next();
    app.select_next();
    assert_eq!(app.challenge_selected_index, 1);
    assert_eq!(app.get_selected_challenge().unwrap().name, "b");
    app.select_previous();
    app.select_previous();
    assert_eq!(app.challenge_selected_index, 0);
    assert_eq!(app.get_current_ctf().unwrap().name, "A0");
    app.back_to_ctf_list();
    assert_eq!(app.current_view, ViewMode::CtfList);
    assert!(app.challenges.is_empty());
    assert!(app.current_ctf_id.is_none());
    assert!(app.get_current_ctf().is_none());
}

#[test]
fn current_ctf_is_found_among_archived() {
    let mut app = app_with(1, 2);
    app.enter_challenge_view(101, Vec::new());
    assert_eq!(app.get_current_ctf().unwrap().name, "R1");
    app.enter_challenge_view(7, Vec::new());
    assert!(app.get_current_ctf().is_none());
}

#[test]
fn api_fetch_lifecycle() {
    let mut app = App::new().unwrap();
    assert!(app.check_api_fetch_complete().is_none());
    let (tx, rx) = mpsc::channel();
    app.start_api_refresh(rx);
    assert!(app.is_fetching_api);
    assert!(app.check_api_fetch_complete().is_none());
    assert!(app.is_fetching_api);
    tx.send(Ok(3)).unwrap();
    assert_eq!(app.check_api_fetch_complete(), Some(Ok(3)));
    assert!(!app.is_fetching_api);
    assert!(app.api_fetch_receiver.is_none());
}

#[test]
fn api_fetch_disconnect_is_an_error() {
    let mut app = App::new().unwrap();
    let (tx, rx) = mpsc::channel::<Result<usize, String>>();
    app.start_api_refresh(rx);
    drop(tx);
    assert_eq!(
        app.check_api_fetch_complete(),
        Some(Err("API fetch thread disconnected unexpectedly".to_string()))
    );
    assert!(!app.is_fetching_api);
    assert_eq!(app.apply_fetch_poll(FetchPoll::Pending), None);
}

#[test]
fn api_refresh_completion() {
    let mut app = App::new().unwrap();
    app.complete_api_refresh_error("boom".to_string());
    assert_eq!(app.api_error_message.as_deref(), Some("boom"));
    app.complete_api_refresh_success();
    assert!(app.api_error_message.is_none());
    assert!(app.finish_api_refresh(Ok(2)));
    assert!(!app.finish_api_refresh(Err("net".to_string())));
    assert_eq!(app.api_error_message.as_deref(), Some("Failed to fetch from CTFtime: net"));
    app.reload_failed("db");
    assert_eq!(app.api_error_message.as_deref(), Some("Failed to reload CTFs: db"));
}

#[test]
fn no_ctfs_until_some_are_loaded() {
    let mut app = App::new().unwrap();
    assert!(app.has_no_ctfs());
    app.load_ctfs(Vec::new(), vec![ctf(9, "old")]);
    assert!(!app.has_no_ctfs());
}
