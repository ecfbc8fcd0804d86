//! Directory-name sanitizing and the decisions of the filesystem-to-database
//! sync: which recorded challenges no longer have a directory.
use vstd::prelude::*;
use vstd::string::*;

use crate::models::Challenge;
use crate::text::{chars_of, push_char, str_equal};

verus! {

/// Characters that never appear in a sanitized name: path separators, the
/// characters Windows forbids in file names, NUL, space and every non-ASCII
/// character.
pub open spec fn is_replaced_char(c: char) -> bool {
    ||| c == '/'
    ||| c == '\\'
    ||| c == ':'
    ||| c == '*'
    ||| c == '?'
    ||| c == '"'
    ||| c == '<'
    ||| c == '>'
    ||| c == '|'
    ||| c == '\0'
    ||| c == ' '
    ||| !((c as u32) < 128)
}

/// Replaces each maximal run of replaced characters by a single '_', reading
/// left to right. The flag says whether the last character read was a
/// replaced one.
pub open spec fn collapse_runs(s: Seq<char>) -> (Seq<char>, bool)
    decreases s.len(),
{
    if s.len() == 0 {
        (Seq::<char>::empty(), false)
    } else {
        let (out, last_replaced) = collapse_runs(s.drop_last());
        let c = s.last();
        if is_replaced_char(c) {
            if last_replaced {
                (out, true)
            } else {
                (out.push('_'), true)
            }
        } else {
            (out.push(c), false)
        }
    }
}

/// `s` without its leading underscores.
pub open spec fn strip_leading_underscores(s: Seq<char>) -> Seq<char>
    decreases s.len(),
{
    if s.len() > 0 && s[0] == '_' {
        strip_leading_underscores(s.drop_first())
    } else {
        s
    }
}

/// `s` without its trailing underscores.
pub open spec fn strip_trailing_underscores(s: Seq<char>) -> Seq<char>
    decreases s.len(),
{
    if s.len() > 0 && s.last() == '_' {
        strip_trailing_underscores(s.drop_last())
    } else {
        s
    }
}

/// ASCII lowercase of one character ('A'..='Z' to 'a'..='z', all else kept).
pub open spec fn ascii_lower(c: char) -> char {
    if 'A' <= c && c <= 'Z' {
        ((c as u32) + 32) as char
    } else {
        c
    }
}

/// The sanitized form of a challenge or category name: runs of replaced
/// characters become one '_', leading and trailing '_' are dropped, and the
/// result is lowercased (it is ASCII by then, so ASCII lowercase is the
/// whole of the Unicode lowercase mapping on it).
pub open spec fn sanitized(name: Seq<char>) -> Seq<char> {
    strip_trailing_underscores(strip_leading_underscores(collapse_runs(name).0)).map_values(
        |c: char| ascii_lower(c),
    )
}

fn is_replaced(c: char) -> (r: bool)
    ensures
        r == is_replaced_char(c),
{
    c == '/' || c == '\\' || c == ':' || c == '*' || c == '?' || c == '"' || c == '<' || c
        == '>' || c == '|' || c == '\0' || c == ' ' || !((c as u32) < 128)
}

fn lower_ascii_char(c: char) -> (r: char)
    ensures
        r == ascii_lower(c),
{
    if 'A' <= c && c <= 'Z' {
        let b: u8 = (c as u32 + 32) as u8;
        b as char
    } else {
        c
    }
}

proof fn lemma_strip_leading_skip(s: Seq<char>, i: int)
    requires
        0 <= i <= s.len(),
        forall|j: int| 0 <= j < i ==> s[j] == '_',
    ensures
        strip_leading_underscores(s) == strip_leading_underscores(s.skip(i)),
    decreases i,
{
    if i > 0 {
        assert(s.drop_first().skip(i - 1) =~= s.skip(i));
        lemma_strip_leading_skip(s.drop_first(), i - 1);
    } else {
        assert(s.skip(0) =~= s);
    }
}

proof fn lemma_strip_trailing_take(s: Seq<char>, i: int)
    requires
        0 <= i <= s.len(),
        forall|j: int| i <= j < s.len() ==> s[j] == '_',
    ensures
        strip_trailing_underscores(s) == strip_trailing_underscores(s.take(i)),
    decreases s.len() - i,
{
    if i < s.len() {
        assert(s.drop_last().take(i) =~= s.take(i));
        lemma_strip_trailing_take(s.drop_last(), i);
    } else {
        assert(s.take(i) =~= s);
    }
}

/// Sanitizes a challenge or category name for use as a directory name.
pub fn sanitize_challenge_name(name: &str) -> (r: String)
    ensures
        r@ == sanitized(name@),
{
    let chars = chars_of(name);
    let mut collapsed: Vec<char> = Vec::new();
    let mut last_was_underscore = false;
    let mut i: usize = 0;
    while i < chars.len()
        invariant
            i <= chars.len(),
            (collapsed@, last_was_underscore) == collapse_runs(chars@.take(i as int)),
        decreases chars.len() - i,
    {
        let c = chars[i];
        assert(chars@.take(i + 1).drop_last() =~= chars@.take(i as int));
        if is_replaced(c) {
            if !last_was_underscore {
                collapsed.push('_');
                last_was_underscore = true;
            }
        } else {
            collapsed.push(c);
            last_was_underscore = false;
        }
        i = i + 1;
    }
    assert(chars@.take(chars.len() as int) =~= chars@);
    let n = collapsed.len();
    let mut lo: usize = 0;
    while lo < n && collapsed[lo] == '_'
        invariant
            n == collapsed.len(),
            lo <= n,
            forall|j: int| 0 <= j < lo ==> collapsed@[j] == '_',
        decreases n - lo,
    {
        lo = lo + 1;
    }
    proof {
        lemma_strip_leading_skip(collapsed@, lo as int);
    }
    let ghost lead = collapsed@.skip(lo as int);
    assert(strip_leading_underscores(lead) == lead);
    let mut hi: usize = n;
    while hi > lo && collapsed[hi - 1] == '_'
        invariant
            n == collapsed.len(),
            lo <= hi <= n,
            forall|j: int| hi <= j < n ==> collapsed@[j] == '_',
        decreases hi,
    {
        hi = hi - 1;
    }
    proof {
        lemma_strip_trailing_take(lead, hi - lo);
        assert(lead.take(hi - lo) =~= collapsed@.subrange(lo as int, hi as int));
    }
    let ghost core = collapsed@.subrange(lo as int, hi as int);
    assert(strip_trailing_underscores(core) == core);
    let mut out = String::new();
    let mut k: usize = lo;
    while k < hi
        invariant
            lo <= k <= hi <= n,
            n == collapsed.len(),
            core == collapsed@.subrange(lo as int, hi as int),
            out@ == core.take(k - lo).map_values(|c: char| ascii_lower(c)),
        decreases hi - k,
    {
        let c = lower_ascii_char(collapsed[k]);
        push_char(&mut out, c);
        assert(core.take(k + 1 - lo).map_values(|c: char| ascii_lower(c)) =~= core.take(
            k - lo,
        ).map_values(|c: char| ascii_lower(c)).push(c));
        k = k + 1;
    }
    assert(core.take(hi - lo) =~= core);
    out
}

/// A name as sanitizing leaves it: no replaced characters, no ASCII
/// uppercase letters, and no '_' at either end.
pub open spec fn is_sanitized_form(t: Seq<char>) -> bool {
    &&& forall|i: int| 0 <= i < t.len() ==> !is_replaced_char(#[trigger] t[i])
    &&& forall|i: int| 0 <= i < t.len() ==> !('A' <= #[trigger] t[i] && t[i] <= 'Z')
    &&& t.len() > 0 ==> t[0] != '_' && t.last() != '_'
}

proof fn lemma_collapse_has_no_replaced(s: Seq<char>)
    ensures
        forall|i: int|
            0 <= i < collapse_runs(s).0.len() ==> !is_replaced_char(#[trigger] collapse_runs(s).0[i]),
    decreases s.len(),
{
    if s.len() > 0 {
        lemma_collapse_has_no_replaced(s.drop_last());
        let prev = collapse_runs(s.drop_last()).0;
        let out = collapse_runs(s).0;
        assert forall|i: int| 0 <= i < out.len() implies !is_replaced_char(#[trigger] out[i]) by {
            if i < prev.len() {
                assert(out[i] == prev[i]);
            }
        }
    }
}

proof fn lemma_collapse_keeps_clean(t: Seq<char>)
    requires
        forall|i: int| 0 <= i < t.len() ==> !is_replaced_char(#[trigger] t[i]),
    ensures
        collapse_runs(t) == (t, false),
    decreases t.len(),
{
    if t.len() > 0 {
        lemma_collapse_keeps_clean(t.drop_last());
        assert(t.drop_last().push(t.last()) =~= t);
    } else {
        assert(t =~= Seq::<char>::empty());
    }
}

proof fn lemma_strip_leading_suffix(s: Seq<char>)
    ensures
        exists|k: int| 0 <= k <= s.len() && strip_leading_underscores(s) == s.skip(k),
        strip_leading_underscores(s).len() > 0 ==> strip_leading_underscores(s)[0] != '_',
    decreases s.len(),
{
    if s.len() > 0 && s[0] == '_' {
        lemma_strip_leading_suffix(s.drop_first());
        let k = choose|k: int|
            0 <= k <= s.drop_first().len() && strip_leading_underscores(s.drop_first())
                == s.drop_first().skip(k);
        assert(s.drop_first().skip(k) =~= s.skip(k + 1));
    } else {
        assert(s.skip(0) =~= s);
    }
}

proof fn lemma_strip_trailing_prefix(s: Seq<char>)
    ensures
        exists|k: int| 0 <= k <= s.len() && strip_trailing_underscores(s) == s.take(k),
        strip_trailing_underscores(s).len() > 0 ==> strip_trailing_underscores(s).last() != '_',
    decreases s.len(),
{
    if s.len() > 0 && s.last() == '_' {
        lemma_strip_trailing_prefix(s.drop_last());
        let k = choose|k: int|
            0 <= k <= s.drop_last().len() && strip_trailing_underscores(s.drop_last())
                == s.drop_last().take(k);
        assert(s.drop_last().take(k) =~= s.take(k));
    } else {
        assert(s.take(s.len() as int) =~= s);
    }
}

proof fn lemma_strip_trailing_keeps_first(s: Seq<char>)
    requires
        s.len() > 0 ==> s[0] != '_',
    ensures
        strip_trailing_underscores(s).len() > 0 ==> strip_trailing_underscores(s)[0] != '_',
{
    lemma_strip_trailing_prefix(s);
}

/// A sanitized name is in sanitized form.
pub proof fn lemma_sanitized_form(name: Seq<char>)
    ensures
        is_sanitized_form(sanitized(name)),
{
    let c = collapse_runs(name).0;
    lemma_collapse_has_no_replaced(name);
    let l = strip_leading_underscores(c);
    lemma_strip_leading_suffix(c);
    let kl = choose|k: int| 0 <= k <= c.len() && l == c.skip(k);
    let t = strip_trailing_underscores(l);
    lemma_strip_trailing_prefix(l);
    lemma_strip_trailing_keeps_first(l);
    let kt = choose|k: int| 0 <= k <= l.len() && t == l.take(k);
    assert forall|i: int| 0 <= i < t.len() implies !is_replaced_char(#[trigger] t[i]) by {
        assert(t[i] == c[i + kl]);
    }
    let r = sanitized(name);
    assert(r == t.map_values(|ch: char| ascii_lower(ch)));
    assert forall|i: int| 0 <= i < r.len() implies !is_replaced_char(#[trigger] r[i]) && !(
    'A' <= r[i] && r[i] <= 'Z') by {
        assert(r[i] == ascii_lower(t[i]));
        assert(!is_replaced_char(t[i]));
    }
    if r.len() > 0 {
        assert(r[0] == ascii_lower(t[0]));
        assert(r.last() == ascii_lower(t.last()));
    }
}

/// Sanitizing a sanitized name changes nothing.
pub proof fn lemma_sanitize_idempotent(name: Seq<char>)
    ensures
        sanitized(sanitized(name)) == sanitized(name),
{
    let t = sanitized(name);
    lemma_sanitized_form(name);
    lemma_collapse_keeps_clean(t);
    assert(strip_leading_underscores(t) == t);
    assert(strip_trailing_underscores(t) == t);
    assert(t.map_values(|ch: char| ascii_lower(ch)) =~= t);
}

/// Sanitizing keeps every ASCII character other than / \ : * ? " < > |
/// NUL, space and the capital letters: a name made only of such characters,
/// with no '_' at either end, comes back unchanged (so "baby-heap",
/// "v1.2" and "a__b" keep their '-', '.' and '_').
pub proof fn lemma_plain_names_are_kept(s: Seq<char>)
    requires
        forall|i: int|
            0 <= i < s.len() ==> {
                let c = #[trigger] s[i];
                &&& (c as u32) < 128
                &&& c != '/' && c != '\\' && c != ':' && c != '*' && c != '?' && c != '"'
                &&& c != '<' && c != '>' && c != '|' && c != '\0' && c != ' '
                &&& !('A' <= c && c <= 'Z')
            },
        s.len() > 0 ==> s[0] != '_' && s.last() != '_',
    ensures
        sanitized(s) == s,
{
    lemma_collapse_keeps_clean(s);
    assert(strip_leading_underscores(s) == s);
    assert(strip_trailing_underscores(s) == s);
    assert(s.map_values(|ch: char| ascii_lower(ch)) =~= s);
}

/// Capital ASCII letters are lowercased and nothing else about a kept
/// character changes: a name of ASCII letters and digits sanitizes to its
/// lowercase form, letter for letter.
pub proof fn lemma_letters_are_lowercased(s: Seq<char>)
    requires
        forall|i: int|
            0 <= i < s.len() ==> {
                let c = #[trigger] s[i];
                ('a' <= c && c <= 'z') || ('A' <= c && c <= 'Z') || ('0' <= c && c <= '9')
            },
    ensures
        sanitized(s).len() == s.len(),
        forall|i: int|
            0 <= i < s.len() ==> (#[trigger] sanitized(s)[i]) as int == if 'A' <= s[i] && s[i]
                <= 'Z' {
                s[i] as int + 32
            } else {
                s[i] as int
            },
{
    lemma_collapse_keeps_clean(s);
    assert(strip_leading_underscores(s) == s);
    assert(strip_trailing_underscores(s) == s);
}

proof fn lemma_collapse_not_longer(s: Seq<char>)
    ensures
        collapse_runs(s).0.len() <= s.len(),
    decreases s.len(),
{
    if s.len() > 0 {
        lemma_collapse_not_longer(s.drop_last());
    }
}

proof fn lemma_strip_leading_not_longer(s: Seq<char>)
    ensures
        strip_leading_underscores(s).len() <= s.len(),
    decreases s.len(),
{
    if s.len() > 0 && s[0] == '_' {
        lemma_strip_leading_not_longer(s.drop_first());
    }
}

proof fn lemma_strip_trailing_not_longer(s: Seq<char>)
    ensures
        strip_trailing_underscores(s).len() <= s.len(),
    decreases s.len(),
{
    if s.len() > 0 && s.last() == '_' {
        lemma_strip_trailing_not_longer(s.drop_last());
    }
}

/// A sanitized name is never longer than the name (in characters; being
/// ASCII, it has as many bytes as characters, so it is no longer in bytes
/// either).
pub proof fn lemma_sanitized_not_longer(name: Seq<char>)
    ensures
        sanitized(name).len() <= name.len(),
{
    let c = collapse_runs(name).0;
    lemma_collapse_not_longer(name);
    lemma_strip_leading_not_longer(c);
    lemma_strip_trailing_not_longer(strip_leading_underscores(c));
}

/// The outcome of a filesystem-to-database sync: the (CTF name, challenge
/// name) pairs whose database entries were, or would be, removed.
#[derive(Debug)]
pub struct SyncResult {
    pub challenges_removed: Vec<(String, String)>,
}

impl SyncResult {
    /// An outcome that removed nothing.
    pub fn new() -> (r: SyncResult)
        ensures
            r.challenges_removed@.len() == 0,
    {
        SyncResult { challenges_removed: Vec::new() }
    }

    /// True when the sync removed nothing.
    pub fn is_empty(&self) -> (r: bool)
        ensures
            r == (self.challenges_removed@.len() == 0),
    {
        self.challenges_removed.len() == 0
    }
}

/// The key under which a challenge's directory is looked for: its sanitized
/// category ("uncategorized" when it has none) and its sanitized name.
pub open spec fn challenge_key(ch: Challenge) -> (Seq<char>, Seq<char>) {
    (
        sanitized(
            match ch.category {
                Some(c) => c@,
                None => "uncategorized"@,
            },
        ),
        sanitized(ch.name@),
    )
}

/// The key a scan records for a challenge folder `<category_dir>/<challenge_dir>`:
/// both folder names sanitized.
pub open spec fn folder_key(category_dir: Seq<char>, challenge_dir: Seq<char>) -> (Seq<char>, Seq<char>) {
    (sanitized(category_dir), sanitized(challenge_dir))
}

/// The key a scan records for the challenge folder `<category_dir>/<challenge_dir>`.
pub fn scanned_folder_key(category_dir: &str, challenge_dir: &str) -> (r: (String, String))
    ensures
        (r.0@, r.1@) == folder_key(category_dir@, challenge_dir@),
{
    (sanitize_challenge_name(category_dir), sanitize_challenge_name(challenge_dir))
}

/// True when some directory key equals `key`.
pub open spec fn key_present(existing: Seq<(String, String)>, key: (Seq<char>, Seq<char>)) -> bool {
    exists|i: int| 0 <= i < existing.len() && (#[trigger] existing[i]).0@ == key.0 && existing[i].1@ == key.1
}

/// True when a challenge's directory is missing from the scanned keys.
pub open spec fn is_orphaned(existing: Seq<(String, String)>, ch: Challenge) -> bool {
    !key_present(existing, challenge_key(ch))
}

fn contains_key(existing: &Vec<(String, String)>, category: &String, name: &String) -> (r: bool)
    ensures
        r == key_present(existing@, (category@, name@)),
{
    let mut i: usize = 0;
    while i < existing.len()
        invariant
            i <= existing.len(),
            forall|j: int|
                0 <= j < i ==> !((#[trigger] existing@[j]).0@ == category@ && existing@[j].1@
                    == name@),
        decreases existing.len() - i,
    {
        let (c, n) = (&existing[i].0, &existing[i].1);
        if str_equal(c.as_str(), category.as_str()) && str_equal(n.as_str(), name.as_str()) {
            return true;
        }
        i = i + 1;
    }
    false
}

/// The challenges, in their order, whose directory (category/name, both
/// sanitized) is not among the scanned `existing` keys.
pub fn find_orphaned_challenges(challenges: &Vec<Challenge>, existing: &Vec<(String, String)>) -> (r:
    Vec<Challenge>)
    ensures
        r@ == challenges@.filter(|ch: Challenge| is_orphaned(existing@, ch)),
{
    let ghost pred = |ch: Challenge| is_orphaned(existing@, ch);
    let mut orphaned: Vec<Challenge> = Vec::new();
    let mut i: usize = 0;
    while i < challenges.len()
        invariant
            i <= challenges.len(),
            pred == (|ch: Challenge| is_orphaned(existing@, ch)),
            orphaned@ == challenges@.take(i as int).filter(pred),
        decreases challenges.len() - i,
    {
        let ch = &challenges[i];
        let category = match &ch.category {
            Some(c) => sanitize_challenge_name(c.as_str()),
            None => {
                let s = "uncategorized";
                sanitize_challenge_name(s)
            },
        };
        let name = sanitize_challenge_name(ch.name.as_str());
        let present = contains_key(existing, &category, &name);
        proof {
            reveal_with_fuel(Seq::<_>::filter, 1);
            assert(challenges@.take(i + 1).drop_last() =~= challenges@.take(i as int));
        }
        if !present {
            orphaned.push(ch.duplicate());
        }
        i = i + 1;
    }
    assert(challenges@.take(challenges.len() as int) =~= challenges@);
    orphaned
}

} // verus!
