use ctf_man::models::{Challenge, Ctf};
use ctf_man::view::{
    active_id_text, archive_header_text, category_header_text, calculate_visual_index, challenge_line_text,
    challenge_view_title, ctf_line_text, group_challenges_by_category, setting_display_value,
    text_or_none,
};

fn challenge(name: &str, category: Option<&str>, points: Option<i32>, solved: bool) -> Challenge {
    Challenge {
        id: None,
        ctf_id: 1,
        name: name.to_string(),
        category: category.map(|c| c.to_string()),
        points,
        flag: None,
        solved,
        notes: None,
        created_at: String::new(),
    }
}

fn ctf(id: Option<i64>, name: &str) -> Ctf {
    Ctf {
        id,
        name: name.to_string(),
        url: None,
        start_date: None,
        end_date: None,
        team_name: None,
        notes: None,
        created_at: String::new(),
    }
}

#[test]
fn grouping_sorts_categories_and_keeps_list_order() {
    let list = vec![
        challenge("a", Some("web"), None, false),
        challenge("b", Some("pwn"), None, false),
        challenge("c", None, None, false),
        challenge("d", Some("web"), None, false),
        challenge("e", Some("pwn"), None, false),
    ];
    let groups = group_challenges_by_category(&list);
    let names: Vec<&str> = groups.iter().map(|g| g.0.as_str()).collect();
    assert_eq!(names, vec!["Uncategorized", "pwn", "web"]);
    assert_eq!(groups[0].1, vec![2]);
    assert_eq!(groups[1].1, vec![1, 4]);
    assert_eq!(groups[2].1, vec![0, 3]);
}

#[test]
fn grouping_of_nothing_is_empty() {
    assert!(group_challenges_by_category(&Vec::new()).is_empty());
}

#[test]
fn visual_index_counts_headers_and_blank_lines() {
    let list = vec![
        challenge("a", Some("web"), None, false),
        challenge("b", Some("pwn"), None, false),
        challenge("c", Some("web"), None, false),
    ];
    let groups = group_challenges_by_category(&list);
    // pwn header, b, blank, web header, a, c, blank
    assert_eq!(calculate_visual_index(&groups, 1), Some(1));
    assert_eq!(calculate_visual_index(&groups, 0), Some(4));
    assert_eq!(calculate_visual_index(&groups, 2), Some(5));
    assert_eq!(calculate_visual_index(&groups, 3), None);
}

#[test]
fn ctf_lines() {
    let mut c = ctf(Some(3), "DEF CON");
    assert_eq!(ctf_line_text(&c, None), "DEF CON");
    assert_eq!(ctf_line_text(&c, Some(3)), "DEF CON [ACTIVE]");
    c.start_date = Some("2024-08-09".to_string());
    assert_eq!(ctf_line_text(&c, Some(4)), "DEF CON [2024-08-09]");
    c.end_date = Some("2024-08-11".to_string());
    c.team_name = Some("ours".to_string());
    assert_eq!(
        ctf_line_text(&c, Some(3)),
        "DEF CON [2024-08-09 - 2024-08-11] (ours) [ACTIVE]"
    );
    let unsaved = ctf(None, "new");
    assert_eq!(ctf_line_text(&unsaved, None), "new [ACTIVE]");
}

#[test]
fn archive_header() {
    assert_eq!(archive_header_text(0, false), "▶ Archived CTFs (0)");
    assert_eq!(archive_header_text(12, true), "▼ Archived CTFs (12)");
}

#[test]
fn challenge_lines() {
    assert_eq!(challenge_line_text(&challenge("rop", None, None, false)), "[ ] rop");
    assert_eq!(
        challenge_line_text(&challenge("rop", None, Some(500), true)),
        "[✓] rop (500pts)"
    );
    assert_eq!(
        challenge_line_text(&challenge("x", None, Some(-5), false)),
        "[ ] x (-5pts)"
    );
}

#[test]
fn titles_and_setting_values() {
    assert_eq!(challenge_view_title(Some("HTB")), "Challenges - HTB");
    assert_eq!(challenge_view_title(None), "Challenges - Unknown CTF");
    assert_eq!(setting_display_value(true, "/tmp/x", "old".to_string()), "/tmp/x_");
    assert_eq!(setting_display_value(false, "/tmp/x", "old".to_string()), "old");
    assert_eq!(text_or_none(Some("v".to_string())), "v");
    assert_eq!(text_or_none(None), "None");
    assert_eq!(active_id_text(Some(42)), "42");
    assert_eq!(active_id_text(Some(-1)), "-1");
    assert_eq!(active_id_text(None), "None");
}

#[test]
fn category_headers() {
    assert_eq!(category_header_text("pwn"), "━━ pwn ━━");
}
