use std::path::Path;

use ctf_man::cli::{invocation, Invocation};
use ctf_man::config::Config;
use ctf_man::runner::{confirms_sync, ctftime_refresh_due_at, needs_onboarding, plan_challenge};

#[test]
fn plan_without_active_ctf_fails() {
    let c = Config::default();
    let e = plan_challenge(&c, "pwn", "Easy One").unwrap_err();
    assert_eq!(e, "No active CTF. Run 'ctf' to select one");
}

#[test]
fn plan_without_active_path_fails() {
    let mut c = Config::default();
    c.active_ctf_id = Some(2);
    let e = plan_challenge(&c, "pwn", "Easy One").unwrap_err();
    assert_eq!(
        e,
        "No active CTF. Run 'ctf' to select one: No active CTF selected. Run 'ctf' to select one."
    );
}

#[test]
fn plan_sanitizes_the_path_and_records_the_challenge() {
    let mut c = Config::default();
    c.set_active_ctf(5, "/ctf/htb".to_string());
    let p = plan_challenge(&c, "Web Exploit", "Easy One!").unwrap();
    assert_eq!(Path::new(&p.challenge_path), Path::new("/ctf/htb/web_exploit/easy_one!"));
    assert!(p.template_path.is_none());
    assert_eq!(p.challenge.ctf_id, 5);
    assert_eq!(p.challenge.name, "Easy One!");
    assert_eq!(p.challenge.category.as_deref(), Some("Web Exploit"));
    assert!(!p.challenge.solved && p.challenge.id.is_none() && p.challenge.points.is_none());

    c.default_ctf_directory = Some("/ctf".to_string());
    let p = plan_challenge(&c, "pwn", "x").unwrap();
    assert_eq!(
        Path::new(p.template_path.as_ref().unwrap()),
        Path::new("/ctf/templates/pwn")
    );
}

#[test]
fn sync_confirmation() {
    assert!(confirms_sync("y"));
    assert!(confirms_sync("  YES \n"));
    assert!(confirms_sync("Y"));
    assert!(!confirms_sync(""));
    assert!(!confirms_sync("no"));
    assert!(!confirms_sync("yess"));
}

#[test]
fn onboarding_needed_without_directory() {
    let mut c = Config::default();
    assert!(needs_onboarding(&c));
    c.default_ctf_directory = Some("/ctf".to_string());
    assert!(!needs_onboarding(&c));
}

#[test]
fn refresh_after_twelve_hours() {
    let last = "2024-01-01T00:00:00+00:00";
    let at = 1_704_067_200i128 * 1_000_000_000;
    let twelve_hours = 43_200_000_000_000i128;
    assert!(ctftime_refresh_due_at(None, at));
    assert!(ctftime_refresh_due_at(Some("not a time"), at));
    assert!(!ctftime_refresh_due_at(Some(last), at));
    assert!(!ctftime_refresh_due_at(Some(last), at + twelve_hours));
    assert!(ctftime_refresh_due_at(Some(last), at + twelve_hours + 1));
    assert!(!ctftime_refresh_due_at(Some("2024-01-01T02:00:00+02:00"), at + twelve_hours));
    assert!(!ctftime_refresh_due_at(Some("2024-01-01T00:00:00.5Z"), at + twelve_hours + 1));
}

#[test]
fn command_lines() {
    assert_eq!(invocation(1), Invocation::Tui);
    assert_eq!(invocation(3), Invocation::CreateChallenge);
    assert_eq!(invocation(2), Invocation::Usage);
    assert_eq!(invocation(0), Invocation::Usage);
}

#[test]
fn a_newly_active_ctf_receives_challenges_where_the_list_opens_them() {
    let mut c = Config::default();
    c.default_ctf_directory = Some("/ctf".to_string());
    let dir = ctf_man::models::Ctf {
        id: Some(3),
        name: "My CTF".to_string(),
        url: None,
        start_date: None,
        end_date: None,
        team_name: None,
        notes: None,
        created_at: String::new(),
    }
    .get_directory(&c);
    c.set_active_ctf(3, dir);
    let p = plan_challenge(&c, "Pwn", "Baby ROP").unwrap();
    assert_eq!(Path::new(&p.challenge_path), Path::new("/ctf/my_ctf/pwn/baby_rop"));
    assert_eq!(p.challenge.ctf_id, 3);
    let scanned = vec![("pwn".to_string(), "baby_rop".to_string())];
    let orphans = ctf_man::sync::find_orphaned_challenges(&vec![p.challenge], &scanned);
    assert!(orphans.is_empty());
}
