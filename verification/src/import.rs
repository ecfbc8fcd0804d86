//! Importing a CTF from an external tool: matching it to a stored CTF by
//! the host of its URL, and choosing which of its challenges to add.
use vstd::prelude::*;
use vstd::string::*;

use crate::models::ChallengeImport;
use crate::text::str_equal;

verus! {

/// The host that `reqwest::Url::parse` finds in a URL, if the URL parses
/// and has one.
pub uninterp spec fn url_host(url: Seq<char>) -> Option<Seq<char>>;

/// `reqwest::Url::parse` followed by `host_str`: the host of a URL, when it
/// parses and has one. Its result is named `url_host`; the URL grammar is
/// not restated.
#[verifier::external_body]
fn host_of(url: &str) -> (r: Option<String>)
    ensures
        r matches Some(h) ==> url_host(url@) == Some(h@),
        r is None ==> url_host(url@) is None,
{
    reqwest::Url::parse(url).ok().and_then(|u| u.host_str().map(str::to_owned))
}

/// The position of the first row whose host is `host`, if any.
pub open spec fn first_with_host(rows: Seq<(i64, Option<String>)>, host: Seq<char>) -> Option<int>
    decreases rows.len(),
{
    if rows.len() == 0 {
        None
    } else {
        match first_with_host(rows.drop_last(), host) {
            Some(k) => Some(k),
            None => if rows.last().1 matches Some(h) && h@ == host {
                Some(rows.len() - 1)
            } else {
                None
            },
        }
    }
}

proof fn lemma_first_with_host_prefix(rows: Seq<(i64, Option<String>)>, host: Seq<char>, n: int)
    requires
        0 < n <= rows.len(),
        first_with_host(rows.take(n), host) is Some,
    ensures
        first_with_host(rows, host) == first_with_host(rows.take(n), host),
    decreases rows.len() - n,
{
    if n < rows.len() {
        assert(rows.take(n + 1).drop_last() =~= rows.take(n));
        lemma_first_with_host_prefix(rows, host, n + 1);
    } else {
        assert(rows.take(n) =~= rows);
    }
}

proof fn lemma_first_with_host_bounds(rows: Seq<(i64, Option<String>)>, host: Seq<char>)
    ensures
        first_with_host(rows, host) matches Some(k) ==> 0 <= k < rows.len(),
    decreases rows.len(),
{
    if rows.len() > 0 {
        lemma_first_with_host_bounds(rows.drop_last(), host);
    }
}

/// The id of the first stored CTF whose URL host is `host`, given the hosts
/// of the stored URLs.
pub fn first_ctf_with_host(host: &str, rows: &Vec<(i64, Option<String>)>) -> (r: Option<i64>)
    ensures
        match first_with_host(rows@, host@) {
            Some(k) => r == Some(rows@[k].0),
            None => r is None,
        },
{
    proof {
        lemma_first_with_host_bounds(rows@, host@);
    }
    let mut i: usize = 0;
    while i < rows.len()
        invariant
            i <= rows.len(),
            first_with_host(rows@.take(i as int), host@) is None,
        decreases rows.len() - i,
    {
        assert(rows@.take(i + 1).drop_last() =~= rows@.take(i as int));
        let matches_host = match &rows[i].1 {
            Some(h) => str_equal(h.as_str(), host),
            None => false,
        };
        if matches_host {
            proof {
                lemma_first_with_host_prefix(rows@, host@, i + 1);
            }
            return Some(rows[i].0);
        }
        i = i + 1;
    }
    assert(rows@.take(rows.len() as int) =~= rows@);
    None
}

/// The first stored row (id and URL) whose URL has the given host.
pub open spec fn first_stored_with_host(stored: Seq<(i64, String)>, host: Seq<char>) -> Option<int>
    decreases stored.len(),
{
    if stored.len() == 0 {
        None
    } else {
        match first_stored_with_host(stored.drop_last(), host) {
            Some(k) => Some(k),
            None => if url_host(stored.last().1@) == Some(host) {
                Some(stored.len() - 1)
            } else {
                None
            },
        }
    }
}

/// `rows` holds, for each stored row, its id and the host of its URL.
pub open spec fn hosts_of(stored: Seq<(i64, String)>, rows: Seq<(i64, Option<String>)>) -> bool {
    &&& rows.len() == stored.len()
    &&& forall|k: int|
        0 <= k < rows.len() ==> (#[trigger] rows[k]).0 == stored[k].0 && match rows[k].1 {
            Some(h) => url_host(stored[k].1@) == Some(h@),
            None => url_host(stored[k].1@) is None,
        }
}

proof fn lemma_first_with_host_matches(
    stored: Seq<(i64, String)>,
    rows: Seq<(i64, Option<String>)>,
    host: Seq<char>,
)
    requires
        hosts_of(stored, rows),
    ensures
        first_with_host(rows, host) == first_stored_with_host(stored, host),
    decreases rows.len(),
{
    if rows.len() > 0 {
        let r2 = rows.drop_last();
        let s2 = stored.drop_last();
        assert forall|k: int| 0 <= k < r2.len() implies (#[trigger] r2[k]).0 == s2[k].0 && match r2[k].1 {
            Some(h) => url_host(s2[k].1@) == Some(h@),
            None => url_host(s2[k].1@) is None,
        } by {
            assert(r2[k] == rows[k]);
            assert(s2[k] == stored[k]);
        }
        lemma_first_with_host_matches(s2, r2, host);
        let last = rows.len() - 1;
        assert(rows[last] == rows.last());
        assert(stored[last] == stored.last());
    }
}

/// The id of the first stored CTF (given as id and URL) whose URL has the
/// same host as `url`; none when `url` has no host.
pub fn find_ctf_by_host(url: &str, stored: &Vec<(i64, String)>) -> (r: Option<i64>)
    ensures
        url_host(url@) is None ==> r is None,
        url_host(url@) matches Some(target) ==> match first_stored_with_host(stored@, target) {
            Some(k) => r == Some(stored@[k].0),
            None => r is None,
        },
{
    let target = match host_of(url) {
        Some(h) => h,
        None => {
            return None;
        },
    };
    let mut rows: Vec<(i64, Option<String>)> = Vec::new();
    let mut i: usize = 0;
    while i < stored.len()
        invariant
            i <= stored.len(),
            hosts_of(stored@.take(i as int), rows@),
        decreases stored.len() - i,
    {
        let host = host_of(stored[i].1.as_str());
        let ghost before = rows@;
        rows.push((stored[i].0, host));
        proof {
            let st = stored@.take(i + 1);
            assert forall|k: int| 0 <= k < rows@.len() implies (#[trigger] rows@[k]).0 == st[k].0
                && match rows@[k].1 {
                Some(h) => url_host(st[k].1@) == Some(h@),
                None => url_host(st[k].1@) is None,
            } by {
                if k < i {
                    assert(rows@[k] == before[k]);
                    assert(st[k] == stored@.take(i as int)[k]);
                }
            }
        }
        i = i + 1;
    }
    assert(stored@.take(stored.len() as int) =~= stored@);
    proof {
        lemma_first_with_host_matches(stored@, rows@, target@);
        lemma_first_with_host_bounds(rows@, target@);
    }
    first_ctf_with_host(target.as_str(), &rows)
}

/// The position of the first stored row whose URL is exactly `url`.
pub open spec fn first_with_url(stored: Seq<(i64, String)>, url: Seq<char>) -> Option<int>
    decreases stored.len(),
{
    if stored.len() == 0 {
        None
    } else {
        match first_with_url(stored.drop_last(), url) {
            Some(k) => Some(k),
            None => if stored.last().1@ == url {
                Some(stored.len() - 1)
            } else {
                None
            },
        }
    }
}

proof fn lemma_first_with_url_prefix(stored: Seq<(i64, String)>, url: Seq<char>, n: int)
    requires
        0 <= n <= stored.len(),
        first_with_url(stored.take(n), url) is Some || n == stored.len(),
    ensures
        first_with_url(stored, url) == first_with_url(stored.take(n), url),
    decreases stored.len() - n,
{
    if n < stored.len() {
        assert(stored.take(n + 1).drop_last() =~= stored.take(n));
        lemma_first_with_url_prefix(stored, url, n + 1);
    } else {
        assert(stored.take(n) =~= stored);
    }
}

proof fn lemma_first_with_url_bounds(stored: Seq<(i64, String)>, url: Seq<char>)
    ensures
        first_with_url(stored, url) matches Some(k) ==> 0 <= k < stored.len() && stored[k].1@
            == url,
    decreases stored.len(),
{
    if stored.len() > 0 {
        lemma_first_with_url_bounds(stored.drop_last(), url);
    }
}

/// How an imported CTF's URL matches the stored CTFs.
#[derive(Debug, PartialEq, Eq, Structural)]
pub enum CtfMatch {
    /// A stored CTF has exactly this URL.
    Exact(i64),
    /// No stored URL is the same, but this CTF's URL has the same host; its
    /// URL is to become the imported one, so that the next import matches
    /// exactly.
    SameHost(i64),
    /// No stored CTF matches: a new one is to be created.
    NoMatch,
}

/// How an import from `url` matches the stored CTFs (given as id and URL):
/// the first with exactly this URL; else the first whose URL has the same
/// host (this tolerates scheme, path and trailing-slash differences); else
/// none.
pub open spec fn ctf_match(stored: Seq<(i64, String)>, url: Seq<char>) -> CtfMatch {
    match first_with_url(stored, url) {
        Some(k) => CtfMatch::Exact(stored[k].0),
        None => match url_host(url) {
            Some(h) => match first_stored_with_host(stored, h) {
                Some(k) => CtfMatch::SameHost(stored[k].0),
                None => CtfMatch::NoMatch,
            },
            None => CtfMatch::NoMatch,
        },
    }
}

/// Finds the stored CTF that an import from `url` belongs to (see
/// `ctf_match`).
pub fn match_stored_ctf(url: &str, stored: &Vec<(i64, String)>) -> (r: CtfMatch)
    ensures
        r == ctf_match(stored@, url@),
{
    proof {
        lemma_first_with_url_bounds(stored@, url@);
    }
    let mut i: usize = 0;
    while i < stored.len()
        invariant
            i <= stored.len(),
            first_with_url(stored@.take(i as int), url@) is None,
        decreases stored.len() - i,
    {
        assert(stored@.take(i + 1).drop_last() =~= stored@.take(i as int));
        if str_equal(stored[i].1.as_str(), url) {
            proof {
                lemma_first_with_url_prefix(stored@, url@, i + 1);
            }
            return CtfMatch::Exact(stored[i].0);
        }
        i = i + 1;
    }
    proof {
        lemma_first_with_url_prefix(stored@, url@, stored.len() as int);
    }
    match find_ctf_by_host(url, stored) {
        Some(id) => CtfMatch::SameHost(id),
        None => CtfMatch::NoMatch,
    }
}

/// Whether a challenge of the given name is among the stored names.
pub open spec fn name_stored(stored: Seq<String>, name: Seq<char>) -> bool {
    exists|e: int| 0 <= e < stored.len() && (#[trigger] stored[e])@ == name
}

/// Whether the import at position `k` adds a challenge: no challenge of its
/// name is stored for the CTF, and no earlier import has the same name.
pub open spec fn adds_challenge(stored: Seq<String>, imports: Seq<ChallengeImport>, k: int) -> bool {
    &&& !name_stored(stored, imports[k].name@)
    &&& forall|j: int| 0 <= j < k ==> (#[trigger] imports[j]).name@ != imports[k].name@
}

fn has_name(stored: &Vec<String>, name: &str) -> (r: bool)
    ensures
        r == name_stored(stored@, name@),
{
    let mut i: usize = 0;
    while i < stored.len()
        invariant
            i <= stored.len(),
            forall|e: int| 0 <= e < i ==> (#[trigger] stored@[e])@ != name@,
        decreases stored.len() - i,
    {
        if str_equal(stored[i].as_str(), name) {
            return true;
        }
        i = i + 1;
    }
    false
}

fn named_earlier(imports: &Vec<ChallengeImport>, k: usize) -> (r: bool)
    requires
        k < imports.len(),
    ensures
        r == exists|j: int| 0 <= j < k && (#[trigger] imports@[j]).name@ == imports@[k as int].name@,
{
    let mut j: usize = 0;
    while j < k
        invariant
            j <= k < imports.len(),
            forall|i: int| 0 <= i < j ==> (#[trigger] imports@[i]).name@ != imports@[k as int].name@,
        decreases k - j,
    {
        if str_equal(imports[j].name.as_str(), imports[k].name.as_str()) {
            return true;
        }
        j = j + 1;
    }
    false
}

/// The positions, in order, of the imports that add a challenge to a CTF
/// whose stored challenges have the names `stored`: a challenge whose name
/// is already there is skipped, so that what was added or edited before is
/// kept, and of several imports with one name only the first is added.
pub fn new_challenge_positions(stored: &Vec<String>, imports: &Vec<ChallengeImport>) -> (r: Vec<usize>)
    ensures
        forall|a: int, b: int| 0 <= a < b < r.len() ==> r@[a] < r@[b],
        forall|a: int| 0 <= a < r.len() ==> r@[a] < imports.len(),
        forall|k: int|
            0 <= k < imports.len() ==> (r@.contains(k as usize) <==> adds_challenge(
                stored@,
                imports@,
                k,
            )),
{
    let mut r: Vec<usize> = Vec::new();
    let mut k: usize = 0;
    while k < imports.len()
        invariant
            k <= imports.len(),
            forall|a: int, b: int| 0 <= a < b < r.len() ==> r@[a] < r@[b],
            forall|a: int| 0 <= a < r.len() ==> r@[a] < k,
            forall|i: int|
                0 <= i < k ==> (r@.contains(i as usize) <==> adds_challenge(stored@, imports@, i)),
        decreases imports.len() - k,
    {
        let stored_already = has_name(stored, imports[k].name.as_str());
        let seen = named_earlier(imports, k);
        let ghost before = r@;
        if !stored_already && !seen {
            r.push(k);
        }
        proof {
            assert forall|i: int| 0 <= i < k + 1 implies (r@.contains(i as usize) <==> adds_challenge(
                stored@,
                imports@,
                i,
            )) by {
                if i < k {
                    if r@.contains(i as usize) {
                        let a = choose|a: int| 0 <= a < r@.len() && r@[a] == i as usize;
                        if a == before.len() {
                        } else {
                            assert(before[a] == r@[a]);
                        }
                    }
                    if before.contains(i as usize) {
                        let a = choose|a: int| 0 <= a < before.len() && before[a] == i as usize;
                        assert(r@[a] == before[a]);
                    }
                } else {
                    if !stored_already && !seen {
                        assert(r@[before.len() as int] == k);
                    } else if r@.contains(i as usize) {
                        let a = choose|a: int| 0 <= a < r@.len() && r@[a] == i as usize;
                        assert(r@[a] == before[a]);
                    }
                    if seen {
                        let j = choose|j: int| 0 <= j < k && (#[trigger] imports@[j]).name@ == imports@[k as int].name@;
                        assert(imports@[j].name@ == imports@[i].name@);
                    }
                }
            }
        }
        k = k + 1;
    }
    r
}

proof fn lemma_first_with_name_adds(stored: Seq<String>, imports: Seq<ChallengeImport>, k: int)
    requires
        0 <= k < imports.len(),
        !name_stored(stored, imports[k].name@),
    ensures
        exists|j: int|
            0 <= j <= k && (#[trigger] imports[j]).name@ == imports[k].name@ && adds_challenge(
                stored,
                imports,
                j,
            ),
    decreases k,
{
    if forall|j: int| 0 <= j < k ==> (#[trigger] imports[j]).name@ != imports[k].name@ {
        assert(imports[k].name@ == imports[k].name@ && adds_challenge(stored, imports, k));
    } else {
        let j = choose|j: int| 0 <= j < k && (#[trigger] imports[j]).name@ == imports[k].name@;
        lemma_first_with_name_adds(stored, imports, j);
        let i = choose|i: int|
            0 <= i <= j && (#[trigger] imports[i]).name@ == imports[j].name@ && adds_challenge(
                stored,
                imports,
                i,
            );
        assert(imports[i].name@ == imports[k].name@);
    }
}

/// Importing is idempotent: once the stored names take in those of the
/// challenges an import added, importing the same challenges again adds
/// none of them.
pub proof fn lemma_import_is_idempotent(
    stored: Seq<String>,
    imports: Seq<ChallengeImport>,
    added: Seq<usize>,
    stored_after: Seq<String>,
)
    requires
        imports.len() <= usize::MAX,
        forall|k: int|
            0 <= k < imports.len() ==> (added.contains(k as usize) <==> adds_challenge(
                stored,
                imports,
                k,
            )),
        forall|e: int| 0 <= e < stored.len() ==> name_stored(stored_after, (#[trigger] stored[e])@),
        forall|a: int|
            0 <= a < added.len() && added[a] < imports.len() ==> name_stored(
                stored_after,
                imports[(#[trigger] added[a]) as int].name@,
            ),
    ensures
        forall|k: int| 0 <= k < imports.len() ==> !adds_challenge(stored_after, imports, k),
{
    assert forall|k: int| 0 <= k < imports.len() implies !adds_challenge(stored_after, imports, k) by {
        if name_stored(stored, imports[k].name@) {
            let e = choose|e: int| 0 <= e < stored.len() && (#[trigger] stored[e])@ == imports[k].name@;
            assert(name_stored(stored_after, stored[e]@));
        } else {
            lemma_first_with_name_adds(stored, imports, k);
            let j = choose|j: int|
                0 <= j <= k && (#[trigger] imports[j]).name@ == imports[k].name@ && adds_challenge(
                    stored,
                    imports,
                    j,
                );
            assert(added.contains(j as usize));
            let a = choose|a: int| 0 <= a < added.len() && added[a] == j as usize;
            assert(name_stored(stored_after, imports[added[a] as int].name@));
        }
    }
}

proof fn lemma_first_with_url_none(stored: Seq<(i64, String)>, url: Seq<char>)
    ensures
        first_with_url(stored, url) is None <==> forall|k: int|
            0 <= k < stored.len() ==> (#[trigger] stored[k]).1@ != url,
    decreases stored.len(),
{
    if stored.len() > 0 {
        let rest = stored.drop_last();
        lemma_first_with_url_none(rest, url);
        if first_with_url(stored, url) is None {
            assert forall|k: int| 0 <= k < stored.len() implies (#[trigger] stored[k]).1@ != url by {
                if k < rest.len() {
                    assert(stored[k] == rest[k]);
                }
            }
        } else if first_with_url(rest, url) is Some {
            let k = choose|k: int| 0 <= k < rest.len() && (#[trigger] rest[k]).1@ == url;
            assert(stored[k] == rest[k]);
        }
    }
}

proof fn lemma_first_with_url_only(stored: Seq<(i64, String)>, url: Seq<char>, k: int)
    requires
        0 <= k < stored.len(),
        stored[k].1@ == url,
        forall|j: int| 0 <= j < stored.len() && j != k ==> (#[trigger] stored[j]).1@ != url,
    ensures
        first_with_url(stored, url) == Some(k),
    decreases stored.len(),
{
    let rest = stored.drop_last();
    if k < stored.len() - 1 {
        assert forall|j: int| 0 <= j < rest.len() && j != k implies (#[trigger] rest[j]).1@ != url by {
            assert(rest[j] == stored[j]);
        }
        assert(rest[k] == stored[k]);
        lemma_first_with_url_only(rest, url, k);
    } else {
        assert forall|j: int| 0 <= j < rest.len() implies (#[trigger] rest[j]).1@ != url by {
            assert(rest[j] == stored[j]);
        }
        lemma_first_with_url_none(rest, url);
    }
}

/// The CTF an import settles on: the one matched, or the new one.
pub open spec fn settled_ctf(m: CtfMatch, new_id: i64) -> i64 {
    match m {
        CtfMatch::Exact(id) => id,
        CtfMatch::SameHost(id) => id,
        CtfMatch::NoMatch => new_id,
    }
}

/// The stored CTFs after an import from `url` settled: a same-host match
/// takes the imported URL, and an unmatched import adds a CTF `new_id` with
/// it.
pub open spec fn stored_after_import(stored: Seq<(i64, String)>, url: String, new_id: i64) -> Seq<(i64, String)> {
    match ctf_match(stored, url@) {
        CtfMatch::Exact(_) => stored,
        CtfMatch::SameHost(id) => stored.update(
            first_stored_with_host(stored, url_host(url@)->0)->0,
            (id, url),
        ),
        CtfMatch::NoMatch => stored.push((new_id, url)),
    }
}

/// Importing again from the same URL finds, by an exact URL match, the CTF
/// the first import settled on.
pub proof fn lemma_reimport_matches_exactly(stored: Seq<(i64, String)>, url: String, new_id: i64)
    ensures
        ctf_match(stored_after_import(stored, url, new_id), url@) == CtfMatch::Exact(
            settled_ctf(ctf_match(stored, url@), new_id),
        ),
{
    let after = stored_after_import(stored, url, new_id);
    lemma_first_with_url_bounds(stored, url@);
    match ctf_match(stored, url@) {
        CtfMatch::Exact(_) => {},
        CtfMatch::SameHost(id) => {
            let h = url_host(url@)->0;
            lemma_first_stored_with_host_bounds(stored, h);
            let k = first_stored_with_host(stored, h)->0;
            lemma_first_with_url_none(stored, url@);
            assert forall|j: int| 0 <= j < after.len() && j != k implies (#[trigger] after[j]).1@ != url@ by {
                assert(after[j] == stored[j]);
            }
            lemma_first_with_url_only(after, url@, k);
        },
        CtfMatch::NoMatch => {
            lemma_first_with_url_none(stored, url@);
            let k = stored.len() as int;
            assert forall|j: int| 0 <= j < after.len() && j != k implies (#[trigger] after[j]).1@ != url@ by {
                assert(after[j] == stored[j]);
            }
            lemma_first_with_url_only(after, url@, k);
        },
    }
}

proof fn lemma_first_stored_with_host_bounds(stored: Seq<(i64, String)>, host: Seq<char>)
    ensures
        first_stored_with_host(stored, host) matches Some(k) ==> 0 <= k < stored.len(),
    decreases stored.len(),
{
    if stored.len() > 0 {
        lemma_first_stored_with_host_bounds(stored.drop_last(), host);
    }
}

/// Importing the same CTF twice changes nothing the second time: the second
/// import settles, by an exact URL match, on the CTF the first settled on,
/// rewrites no stored URL and creates no CTF, and adds no challenge, since
/// the names of the challenges the first import added are stored by then
/// (stored challenges, with their notes, flags and solved marks, are never
/// rewritten: only added positions are inserted).
pub proof fn lemma_second_import_changes_nothing(
    stored: Seq<(i64, String)>,
    url: String,
    first_new_id: i64,
    second_new_id: i64,
    names: Seq<String>,
    imports: Seq<ChallengeImport>,
    added: Seq<usize>,
    names_after: Seq<String>,
)
    requires
        imports.len() <= usize::MAX,
        forall|k: int|
            0 <= k < imports.len() ==> (added.contains(k as usize) <==> adds_challenge(
                names,
                imports,
                k,
            )),
        forall|e: int| 0 <= e < names.len() ==> name_stored(names_after, (#[trigger] names[e])@),
        forall|a: int|
            0 <= a < added.len() && added[a] < imports.len() ==> name_stored(
                names_after,
                imports[(#[trigger] added[a]) as int].name@,
            ),
    ensures
        ({
            let after = stored_after_import(stored, url, first_new_id);
            &&& ctf_match(after, url@) == CtfMatch::Exact(
                settled_ctf(ctf_match(stored, url@), first_new_id),
            )
            &&& stored_after_import(after, url, second_new_id) == after
        }),
        forall|k: int| 0 <= k < imports.len() ==> !adds_challenge(names_after, imports, k),
{
    lemma_reimport_matches_exactly(stored, url, first_new_id);
    lemma_import_is_idempotent(names, imports, added, names_after);
}

} // verus!
