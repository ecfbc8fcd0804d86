use ctf_man::listing::split_ctfs;
use ctf_man::models::Ctf;

fn ctf(name: &str, start: Option<&str>, end: Option<&str>, created: &str) -> Ctf {
    Ctf {
        id: None,
        name: name.to_string(),
        url: None,
        start_date: start.map(|s| s.to_string()),
        end_date: end.map(|s| s.to_string()),
        team_name: None,
        notes: None,
        created_at: created.to_string(),
    }
}

fn names(v: &[Ctf]) -> Vec<&str> {
    v.iter().map(|c| c.name.as_str()).collect()
}

#[test]
fn ctfs_split_at_today_and_sort_by_section() {
    let all = vec![
        ctf("old", Some("2024-01-01"), Some("2024-01-03"), "2024-01-01 00:00:00"),
        ctf("later", Some("2024-06-10"), Some("2024-06-12"), "2024-01-01 00:00:00"),
        ctf("today", Some("2024-05-30"), Some("2024-06-01"), "2024-01-01 00:00:00"),
        ctf("open", None, None, "2024-02-01 00:00:00"),
        ctf("older", Some("2023-11-01"), Some("2023-11-02"), "2024-01-01 00:00:00"),
        ctf("no end", Some("2024-03-01"), None, "2024-01-01 00:00:00"),
    ];
    let (active, archived) = split_ctfs(&all, "2024-06-01");
    assert_eq!(names(&active), vec!["open", "no end", "today", "later"]);
    assert_eq!(names(&archived), vec!["old", "older"]);
    assert_eq!(active.len() + archived.len(), all.len());
}

#[test]
fn equal_keys_keep_their_order() {
    let all = vec![
        ctf("b", Some("2024-07-01"), None, ""),
        ctf("a", Some("2024-07-01"), None, ""),
        ctf("y", None, Some("2020-01-01"), ""),
        ctf("x", None, Some("2020-01-01"), ""),
    ];
    let (active, archived) = split_ctfs(&all, "2024-01-01");
    assert_eq!(names(&active), vec!["b", "a"]);
    assert_eq!(names(&archived), vec!["y", "x"]);
    let (active, archived) = split_ctfs(&Vec::new(), "2024-01-01");
    assert!(active.is_empty() && archived.is_empty());
}
