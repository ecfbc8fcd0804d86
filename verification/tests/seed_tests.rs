use ctf_man::seed::sample_ctfs;

#[test]
fn sample_data_is_two_ctfs() {
    let s = sample_ctfs();
    assert_eq!(s.len(), 2);
    assert_eq!(s[0].name, "PicoCTF 2024");
    assert_eq!(s[0].url.as_deref(), Some("https://picoctf.org"));
    assert_eq!(s[0].start_date.as_deref(), Some("2024-03-12"));
    assert_eq!(s[0].end_date.as_deref(), Some("2024-03-26"));
    assert_eq!(s[0].team_name.as_deref(), Some("MyTeam"));
    assert_eq!(s[0].notes.as_deref(), Some("Great beginner-friendly CTF"));
    assert_eq!(s[1].name, "HackTheBox Cyber Apocalypse");
    assert_eq!(s[1].url.as_deref(), Some("https://ctf.hackthebox.com"));
    assert_eq!(s[1].notes.as_deref(), Some("Annual HTB CTF event"));
    assert!(s.iter().all(|c| c.id.is_none()));
}
