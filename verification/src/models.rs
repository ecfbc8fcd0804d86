//! The records the library works on: CTF competitions and their challenges.
use vstd::prelude::*;
use vstd::string::*;

use crate::config::Config;
use crate::text::{chars_of, join_path, joined_path, lowercase, string_from_chars, to_lowercase};

verus! {

/// A CTF competition.
#[derive(Debug)]
pub struct Ctf {
    pub id: Option<i64>,
    pub name: String,
    pub url: Option<String>,
    pub start_date: Option<String>,
    pub end_date: Option<String>,
    pub team_name: Option<String>,
    pub notes: Option<String>,
    pub created_at: String,
}

/// A single challenge within a CTF.
#[derive(Debug)]
pub struct Challenge {
    pub id: Option<i64>,
    pub ctf_id: i64,
    pub name: String,
    pub category: Option<String>,
    pub points: Option<i32>,
    pub flag: Option<String>,
    pub solved: bool,
    pub notes: Option<String>,
    pub created_at: String,
}

/// A challenge as an external importer hands it over: the CTF and the
/// creation time are filled in on import.
#[derive(Debug)]
pub struct ChallengeImport {
    pub name: String,
    pub category: Option<String>,
    pub points: Option<i32>,
    pub solved: bool,
}

/// A copy of an optional string.
pub fn copy_opt_string(s: &Option<String>) -> (r: Option<String>)
    ensures
        r == *s,
{
    match s {
        Some(v) => Some(v.clone()),
        None => None,
    }
}

impl Ctf {
    /// A field-for-field copy.
    pub fn duplicate(&self) -> (r: Ctf)
        ensures
            r == *self,
    {
        Ctf {
            id: self.id,
            name: self.name.clone(),
            url: copy_opt_string(&self.url),
            start_date: copy_opt_string(&self.start_date),
            end_date: copy_opt_string(&self.end_date),
            team_name: copy_opt_string(&self.team_name),
            notes: copy_opt_string(&self.notes),
            created_at: self.created_at.clone(),
        }
    }

    /// The directory of this CTF: its directory name inside the configured
    /// CTF directory, or inside "." when none is configured.
    pub fn get_directory(&self, config: &Config) -> (r: String)
        ensures
            r@ == ctf_directory(config.default_ctf_directory, self.name@),
    {
        let name = ctf_dir_name(self.name.as_str());
        match &config.default_ctf_directory {
            Some(base) => join_path(base.as_str(), name.as_str()),
            None => join_path(".", name.as_str()),
        }
    }
}

impl Challenge {
    /// A field-for-field copy.
    pub fn duplicate(&self) -> (r: Challenge)
        ensures
            r == *self,
    {
        Challenge {
            id: self.id,
            ctf_id: self.ctf_id,
            name: self.name.clone(),
            category: copy_opt_string(&self.category),
            points: self.points,
            flag: copy_opt_string(&self.flag),
            solved: self.solved,
            notes: copy_opt_string(&self.notes),
            created_at: self.created_at.clone(),
        }
    }
}

/// The character a CTF directory name uses in place of `c`: space becomes
/// '_', and both slashes become '-'.
pub open spec fn dir_char(c: char) -> char {
    if c == ' ' {
        '_'
    } else if c == '/' || c == '\\' {
        '-'
    } else {
        c
    }
}

/// The directory name of a CTF with display name `name`.
pub open spec fn ctf_dir_name_spec(name: Seq<char>) -> Seq<char> {
    lowercase(name.map_values(|c: char| dir_char(c)))
}

/// A CTF's directory name is its display name with each space made '_' and
/// each '/' and '\\' made '-', every other character kept as it is, then
/// lowercased (so "Hack.lu CTF" gives the lowercase of "Hack.lu_CTF").
pub proof fn lemma_dir_name_changes_only_separators(name: Seq<char>)
    ensures
        exists|m: Seq<char>|
            {
                &&& ctf_dir_name_spec(name) == lowercase(m)
                &&& m.len() == name.len()
                &&& forall|i: int|
                    0 <= i < name.len() ==> (#[trigger] m[i]) == if name[i] == ' ' {
                        '_'
                    } else if name[i] == '/' || name[i] == '\\' {
                        '-'
                    } else {
                        name[i]
                    }
            },
{
    let m = name.map_values(|c: char| dir_char(c));
    assert(ctf_dir_name_spec(name) == lowercase(m));
}

/// Where a CTF named `name` lives, given the configured base directory.
pub open spec fn ctf_directory(base: Option<String>, name: Seq<char>) -> Seq<char> {
    joined_path(
        match base {
            Some(b) => b@,
            None => "."@,
        },
        ctf_dir_name_spec(name),
    )
}

/// The filesystem directory name of a CTF, from its display name: spaces
/// become '_', '/' and '\' become '-', and the result is lowercased.
pub fn ctf_dir_name(name: &str) -> (r: String)
    ensures
        r@ == ctf_dir_name_spec(name@),
{
    let chars = chars_of(name);
    let mut mapped: Vec<char> = Vec::new();
    let mut i: usize = 0;
    while i < chars.len()
        invariant
            i <= chars.len(),
            mapped@ == chars@.take(i as int).map_values(|c: char| dir_char(c)),
        decreases chars.len() - i,
    {
        let c = chars[i];
        let d = if c == ' ' {
            '_'
        } else if c == '/' || c == '\\' {
            '-'
        } else {
            c
        };
        mapped.push(d);
        assert(chars@.take(i + 1).map_values(|c: char| dir_char(c)) =~= chars@.take(
            i as int,
        ).map_values(|c: char| dir_char(c)).push(d));
        i = i + 1;
    }
    assert(chars@.take(chars.len() as int) =~= chars@);
    let s = string_from_chars(&mapped);
    to_lowercase(s.as_str())
}

} // verus!
