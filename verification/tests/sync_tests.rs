use ctf_man::models::Challenge;
use ctf_man::sync::{find_orphaned_challenges, sanitize_challenge_name, scanned_folder_key, SyncResult};

#[test]
fn test_sanitize_challenge_name() {
    assert_eq!(sanitize_challenge_name("Easy Pwn"), "easy_pwn");
    assert_eq!(sanitize_challenge_name("Web/XSS"), "web_xss");
    assert_eq!(
        sanitize_challenge_name("⭐ Step 1: Read the rules"),
        "step_1_read_the_rules"
    );
    assert_eq!(
        sanitize_challenge_name("Super<Crazy>|Name?"),
        "super_crazy_name"
    );
}

#[test]
fn sanitize_collapses_runs_but_keeps_literal_underscores() {
    assert_eq!(sanitize_challenge_name("a   b"), "a_b");
    assert_eq!(sanitize_challenge_name("a_ b"), "a__b");
    assert_eq!(sanitize_challenge_name("__Leading and trailing__"), "leading_and_trailing");
}

#[test]
fn sanitize_of_only_replaced_characters_is_empty() {
    assert_eq!(sanitize_challenge_name(""), "");
    assert_eq!(sanitize_challenge_name("///"), "");
    assert_eq!(sanitize_challenge_name("日本語"), "");
}

#[test]
fn sanitize_is_idempotent_on_examples() {
    for name in ["Easy Pwn", "⭐ Step 1: Read the rules", "Super<Crazy>|Name?", "A__B", "x"] {
        let once = sanitize_challenge_name(name);
        assert_eq!(sanitize_challenge_name(&once), once);
    }
}

fn challenge(id: i64, name: &str, category: Option<&str>) -> Challenge {
    Challenge {
        id: Some(id),
        ctf_id: 1,
        name: name.to_string(),
        category: category.map(|c| c.to_string()),
        points: None,
        flag: None,
        solved: false,
        notes: None,
        created_at: String::new(),
    }
}

#[test]
fn orphaned_challenges_are_those_without_a_directory() {
    let challenges = vec![
        challenge(1, "Easy Pwn", Some("Pwn")),
        challenge(2, "Baby RSA", Some("crypto")),
        challenge(3, "Loose", None),
    ];
    let existing = vec![("pwn".to_string(), "easy_pwn".to_string())];
    let orphaned = find_orphaned_challenges(&challenges, &existing);
    let ids: Vec<Option<i64>> = orphaned.iter().map(|c| c.id).collect();
    assert_eq!(ids, vec![Some(2), Some(3)]);
}

#[test]
fn uncategorized_challenges_are_looked_for_under_uncategorized() {
    let challenges = vec![challenge(3, "Loose", None)];
    let existing = vec![("uncategorized".to_string(), "loose".to_string())];
    assert!(find_orphaned_challenges(&challenges, &existing).is_empty());
}

#[test]
fn sync_result_emptiness() {
    let mut result = SyncResult::new();
    assert!(result.is_empty());
    result.challenges_removed.push(("CTF".to_string(), "chal".to_string()));
    assert!(!result.is_empty());
}

#[test]
fn scanned_folder_keys_are_sanitized() {
    assert_eq!(
        scanned_folder_key("Web Exploit", "Baby ROP"),
        ("web_exploit".to_string(), "baby_rop".to_string())
    );
    assert_eq!(scanned_folder_key("pwn", "baby_rop"), ("pwn".to_string(), "baby_rop".to_string()));
}

#[test]
fn sanitized_names_are_never_longer() {
    for name in ["Easy Pwn", "⭐ Step 1", "日本語", "a  b", "", "__x__"] {
        let r = sanitize_challenge_name(name);
        assert!(r.is_ascii());
        assert!(r.chars().count() <= name.chars().count());
        assert!(r.len() <= name.len());
    }
}
