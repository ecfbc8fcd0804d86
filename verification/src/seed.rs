//! The CTFs a new database starts with when CTFtime cannot supply any.
use vstd::prelude::*;
use vstd::string::*;

use crate::models::Ctf;

verus! {

/// A CTF not stored yet: no id, no creation time, the other fields given.
pub open spec fn new_ctf_with(
    ctf: Ctf,
    name: Seq<char>,
    url: Seq<char>,
    start: Seq<char>,
    end: Seq<char>,
    team: Seq<char>,
    notes: Seq<char>,
) -> bool {
    &&& ctf.id is None
    &&& ctf.name@ == name
    &&& ctf.url matches Some(u) && u@ == url
    &&& ctf.start_date matches Some(s) && s@ == start
    &&& ctf.end_date matches Some(e) && e@ == end
    &&& ctf.team_name matches Some(t) && t@ == team
    &&& ctf.notes matches Some(n) && n@ == notes
    &&& ctf.created_at@.len() == 0
}

fn new_ctf(name: &str, url: &str, start: &str, end: &str, team: &str, notes: &str) -> (r: Ctf)
    ensures
        new_ctf_with(r, name@, url@, start@, end@, team@, notes@),
{
    Ctf {
        id: None,
        name: String::from_str(name),
        url: Some(String::from_str(url)),
        start_date: Some(String::from_str(start)),
        end_date: Some(String::from_str(end)),
        team_name: Some(String::from_str(team)),
        notes: Some(String::from_str(notes)),
        created_at: String::new(),
    }
}

/// The sample CTFs: PicoCTF 2024 and HackTheBox Cyber Apocalypse.
pub fn sample_ctfs() -> (r: Vec<Ctf>)
    ensures
        r.len() == 2,
        new_ctf_with(
            r[0],
            "PicoCTF 2024"@,
            "https://picoctf.org"@,
            "2024-03-12"@,
            "2024-03-26"@,
            "MyTeam"@,
            "Great beginner-friendly CTF"@,
        ),
        new_ctf_with(
            r[1],
            "HackTheBox Cyber Apocalypse"@,
            "https://ctf.hackthebox.com"@,
            "2024-04-10"@,
            "2024-04-14"@,
            "MyTeam"@,
            "Annual HTB CTF event"@,
        ),
{
    let mut r: Vec<Ctf> = Vec::new();
    r.push(
        new_ctf(
            "PicoCTF 2024",
            "https://picoctf.org",
            "2024-03-12",
            "2024-03-26",
            "MyTeam",
            "Great beginner-friendly CTF",
        ),
    );
    r.push(
        new_ctf(
            "HackTheBox Cyber Apocalypse",
            "https://ctf.hackthebox.com",
            "2024-04-10",
            "2024-04-14",
            "MyTeam",
            "Annual HTB CTF event",
        ),
    );
    r
}

} // verus!
