use ctf_man::import::{
    find_ctf_by_host, first_ctf_with_host, match_stored_ctf, new_challenge_positions, CtfMatch,
};
use ctf_man::models::ChallengeImport;

#[test]
fn first_matching_host_wins() {
    let rows = vec![
        (1, None),
        (2, Some("ctftime.org".to_string())),
        (3, Some("ctftime.org".to_string())),
    ];
    assert_eq!(first_ctf_with_host("ctftime.org", &rows), Some(2));
    assert_eq!(first_ctf_with_host("example.com", &rows), None);
}

#[test]
fn finds_stored_ctf_by_url_host() {
    let stored = vec![
        (1, "not a url".to_string()),
        (4, "https://play.example.com/scoreboard".to_string()),
        (9, "https://play.example.com/".to_string()),
    ];
    assert_eq!(find_ctf_by_host("https://play.example.com/challenges", &stored), Some(4));
    assert_eq!(find_ctf_by_host("https://other.example.com", &stored), None);
    assert_eq!(find_ctf_by_host("no host here", &stored), None);
    assert_eq!(find_ctf_by_host("https://play.example.com", &Vec::new()), None);
}

fn import(name: &str) -> ChallengeImport {
    ChallengeImport { name: name.to_string(), category: None, points: None, solved: false }
}

#[test]
fn import_skips_stored_and_repeated_names() {
    let stored = vec!["baby rop".to_string()];
    let imports = vec![import("baby rop"), import("heap"), import("web1"), import("heap")];
    assert_eq!(new_challenge_positions(&stored, &imports), vec![1, 2]);
    assert_eq!(new_challenge_positions(&Vec::new(), &Vec::new()), Vec::<usize>::new());
}

#[test]
fn importing_twice_adds_nothing_the_second_time() {
    let mut stored = vec!["a".to_string()];
    let imports = vec![import("b"), import("a"), import("c"), import("b")];
    let added = new_challenge_positions(&stored, &imports);
    assert_eq!(added, vec![0, 2]);
    for k in added {
        stored.push(imports[k].name.clone());
    }
    assert!(new_challenge_positions(&stored, &imports).is_empty());
}

#[test]
fn exact_url_wins_over_host() {
    let stored = vec![
        (1, "https://ctf.example.com/".to_string()),
        (2, "http://ctf.example.com".to_string()),
    ];
    assert_eq!(match_stored_ctf("http://ctf.example.com", &stored), CtfMatch::Exact(2));
    assert_eq!(match_stored_ctf("https://ctf.example.com/x", &stored), CtfMatch::SameHost(1));
    assert_eq!(match_stored_ctf("https://elsewhere.org", &stored), CtfMatch::NoMatch);
    assert_eq!(match_stored_ctf("", &vec![(5, "".to_string())]), CtfMatch::Exact(5));
}

#[test]
fn reimport_matches_exactly() {
    let mut stored = vec![(1, "https://ctf.example.com/".to_string())];
    let url = "https://ctf.example.com/challenges";
    assert_eq!(match_stored_ctf(url, &stored), CtfMatch::SameHost(1));
    stored[0].1 = url.to_string();
    assert_eq!(match_stored_ctf(url, &stored), CtfMatch::Exact(1));
    let other = "https://new.example.org";
    assert_eq!(match_stored_ctf(other, &stored), CtfMatch::NoMatch);
    stored.push((2, other.to_string()));
    assert_eq!(match_stored_ctf(other, &stored), CtfMatch::Exact(2));
}
