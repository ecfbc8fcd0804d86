//! Which CTFs the CTF list shows as active and which as archived, and in
//! what order: a CTF is archived once its end date is before today (dates
//! are compared as text, "YYYY-MM-DD"); active CTFs come by start date
//! (creation time when there is none), earliest first; archived CTFs by end
//! date, latest first.
use vstd::prelude::*;
use vstd::seq_lib::*;

use crate::models::Ctf;
use crate::text::{
    chars_less, chars_of, lemma_seq_less_irreflexive, lemma_seq_less_total,
    lemma_seq_less_transitive, seq_less,
};

verus! {

/// Whether a CTF counts as archived on the day `today`: it has an end date
/// and that date comes before `today`.
pub open spec fn is_archived_on(ctf: Ctf, today: Seq<char>) -> bool {
    ctf.end_date matches Some(e) && seq_less(e@, today)
}

/// The text an active CTF is ordered by: its start date, or its creation
/// time when it has none.
pub open spec fn start_key(ctf: Ctf) -> Seq<char> {
    match ctf.start_date {
        Some(s) => s@,
        None => ctf.created_at@,
    }
}

/// The text an archived CTF is ordered by: its end date.
pub open spec fn end_key(ctf: Ctf) -> Seq<char> {
    match ctf.end_date {
        Some(e) => e@,
        None => Seq::<char>::empty(),
    }
}

/// The key a CTF is ordered by in its section.
pub open spec fn list_key(ctf: Ctf, archived: bool) -> Seq<char> {
    if archived {
        end_key(ctf)
    } else {
        start_key(ctf)
    }
}

/// `a` is at most `b` in text order.
pub open spec fn text_le(a: Seq<char>, b: Seq<char>) -> bool {
    !seq_less(b, a)
}

/// A CTF with key `a` may be listed before one with key `b`: ascending keys
/// for active CTFs, descending for archived ones.
pub open spec fn may_precede(a: Seq<char>, b: Seq<char>, archived: bool) -> bool {
    if archived {
        text_le(b, a)
    } else {
        text_le(a, b)
    }
}

/// The CTFs of a section are in the section's order.
pub open spec fn listed_in_order(s: Seq<Ctf>, archived: bool) -> bool {
    forall|i: int, j: int|
        0 <= i < j < s.len() ==> may_precede(
            list_key(#[trigger] s[i], archived),
            list_key(#[trigger] s[j], archived),
            archived,
        )
}

proof fn lemma_text_le_total(a: Seq<char>, b: Seq<char>)
    ensures
        text_le(a, b) || text_le(b, a),
{
    if seq_less(a, b) && seq_less(b, a) {
        lemma_seq_less_transitive(a, b, a);
        lemma_seq_less_irreflexive(a);
    }
}

proof fn lemma_text_le_transitive(a: Seq<char>, b: Seq<char>, c: Seq<char>)
    requires
        text_le(a, b),
        text_le(b, c),
    ensures
        text_le(a, c),
{
    if seq_less(c, a) {
        if a == b {
        } else {
            lemma_seq_less_total(a, b);
            lemma_seq_less_transitive(c, a, b);
        }
    }
}

proof fn lemma_may_precede_total(a: Seq<char>, b: Seq<char>, archived: bool)
    ensures
        may_precede(a, b, archived) || may_precede(b, a, archived),
{
    lemma_text_le_total(a, b);
}

proof fn lemma_may_precede_transitive(a: Seq<char>, b: Seq<char>, c: Seq<char>, archived: bool)
    requires
        may_precede(a, b, archived),
        may_precede(b, c, archived),
    ensures
        may_precede(a, c, archived),
{
    if archived {
        lemma_text_le_transitive(c, b, a);
    } else {
        lemma_text_le_transitive(a, b, c);
    }
}

fn key_chars(ctf: &Ctf, archived: bool) -> (r: Vec<char>)
    ensures
        r@ == list_key(*ctf, archived),
{
    if archived {
        match &ctf.end_date {
            Some(e) => chars_of(e.as_str()),
            None => Vec::new(),
        }
    } else {
        match &ctf.start_date {
            Some(s) => chars_of(s.as_str()),
            None => chars_of(ctf.created_at.as_str()),
        }
    }
}

/// Puts `ctf` into the ordered section `v` after every CTF that may precede
/// it, so the section stays in order and equal keys keep their arrival order.
fn insert_in_order(v: &mut Vec<Ctf>, ctf: Ctf, archived: bool)
    requires
        listed_in_order(old(v)@, archived),
    ensures
        listed_in_order(final(v)@, archived),
        final(v)@.to_multiset() == old(v)@.to_multiset().insert(ctf),
{
    let k = key_chars(&ctf, archived);
    let mut p: usize = 0;
    while p < v.len()
        invariant
            p <= v.len(),
            k@ == list_key(ctf, archived),
            forall|m: int| 0 <= m < p ==> may_precede(list_key(#[trigger] v@[m], archived), k@, archived),
        ensures
            p <= v.len(),
            forall|m: int| 0 <= m < p ==> may_precede(list_key(#[trigger] v@[m], archived), k@, archived),
            p < v.len() ==> !may_precede(list_key(v@[p as int], archived), k@, archived),
        decreases v.len() - p,
    {
        let vk = key_chars(&v[p], archived);
        let fits = if archived {
            !chars_less(&vk, &k)
        } else {
            !chars_less(&k, &vk)
        };
        if !fits {
            break;
        }
        p = p + 1;
    }
    let ghost s = v@;
    proof {
        if p < s.len() {
            lemma_may_precede_total(list_key(s[p as int], archived), k@, archived);
            assert forall|m: int| p <= m < s.len() implies may_precede(k@, list_key(#[trigger] s[m], archived), archived) by {
                if m > p {
                    lemma_may_precede_transitive(k@, list_key(s[p as int], archived), list_key(s[m], archived), archived);
                }
            }
        }
    }
    v.insert(p, ctf);
    proof {
        let t = v@;
        assert(t == s.insert(p as int, ctf));
        assert forall|i: int, j: int| 0 <= i < j < t.len() implies may_precede(
            list_key(#[trigger] t[i], archived),
            list_key(#[trigger] t[j], archived),
            archived,
        ) by {
            if j < p {
                assert(t[i] == s[i] && t[j] == s[j]);
            } else if j == p {
                assert(t[i] == s[i]);
            } else if i == p {
                assert(t[j] == s[j - 1]);
            } else if i < p {
                assert(t[i] == s[i] && t[j] == s[j - 1]);
            } else {
                assert(t[i] == s[i - 1] && t[j] == s[j - 1]);
            }
        }
        to_multiset_insert(s, p as int, ctf);
    }
}

/// Splits the stored CTFs into the active section and the archive section
/// as of the day `today`, each in its order.
pub fn split_ctfs(all: &Vec<Ctf>, today: &str) -> (r: (Vec<Ctf>, Vec<Ctf>))
    ensures
        r.0@.to_multiset() == all@.filter(|c: Ctf| !is_archived_on(c, today@)).to_multiset(),
        listed_in_order(r.0@, false),
        r.1@.to_multiset() == all@.filter(|c: Ctf| is_archived_on(c, today@)).to_multiset(),
        listed_in_order(r.1@, true),
        // Active CTFs: no end date, or an end date not before today; in
        // ascending order of the start date, or of the creation time when
        // there is no start date.
        forall|k: int|
            0 <= k < r.0@.len() ==> !((#[trigger] r.0@[k]).end_date matches Some(e) && seq_less(
                e@,
                today@,
            )),
        forall|i: int, j: int|
            0 <= i < j < r.0@.len() ==> !seq_less(
                match (#[trigger] r.0@[j]).start_date {
                    Some(d) => d@,
                    None => r.0@[j].created_at@,
                },
                match (#[trigger] r.0@[i]).start_date {
                    Some(d) => d@,
                    None => r.0@[i].created_at@,
                },
            ),
        // Archived CTFs: an end date before today; latest end date first.
        forall|k: int|
            0 <= k < r.1@.len() ==> ((#[trigger] r.1@[k]).end_date matches Some(e) && seq_less(
                e@,
                today@,
            )),
        forall|i: int, j: int|
            0 <= i < j < r.1@.len() ==> (#[trigger] r.1@[i]).end_date is Some && (#[trigger] r.1@[
                j
            ]).end_date is Some && !seq_less(
                r.1@[i].end_date->0@,
                r.1@[j].end_date->0@,
            ),
{
    let today_chars = chars_of(today);
    let ghost archived_pred = |c: Ctf| is_archived_on(c, today@);
    let ghost active_pred = |c: Ctf| !is_archived_on(c, today@);
    let mut active: Vec<Ctf> = Vec::new();
    let mut archived: Vec<Ctf> = Vec::new();
    let mut i: usize = 0;
    proof {
        assert(all@.take(0).filter(active_pred) =~= Seq::<Ctf>::empty());
        assert(all@.take(0).filter(archived_pred) =~= Seq::<Ctf>::empty());
    }
    while i < all.len()
        invariant
            i <= all.len(),
            today_chars@ == today@,
            archived_pred == (|c: Ctf| is_archived_on(c, today@)),
            active_pred == (|c: Ctf| !is_archived_on(c, today@)),
            active@.to_multiset() == all@.take(i as int).filter(active_pred).to_multiset(),
            archived@.to_multiset() == all@.take(i as int).filter(archived_pred).to_multiset(),
            listed_in_order(active@, false),
            listed_in_order(archived@, true),
        decreases all.len() - i,
    {
        let ctf = all[i].duplicate();
        let ended = match &all[i].end_date {
            Some(e) => {
                let ec = chars_of(e.as_str());
                chars_less(&ec, &today_chars)
            },
            None => false,
        };
        proof {
            reveal_with_fuel(Seq::<_>::filter, 1);
            assert(all@.take(i + 1).drop_last() =~= all@.take(i as int));
            assert(all@.take(i + 1).last() == all@[i as int]);
        }
        if ended {
            insert_in_order(&mut archived, ctf, true);
            proof {
                to_multiset_build(all@.take(i as int).filter(archived_pred), all@[i as int]);
            }
        } else {
            insert_in_order(&mut active, ctf, false);
            proof {
                to_multiset_build(all@.take(i as int).filter(active_pred), all@[i as int]);
            }
        }
        i = i + 1;
    }
    assert(all@.take(all.len() as int) =~= all@);
    proof {
        lemma_section_members(all@, active@, active_pred);
        lemma_section_members(all@, archived@, archived_pred);
        assert forall|i: int, j: int| 0 <= i < j < active@.len() implies !seq_less(
            match (#[trigger] active@[j]).start_date {
                Some(d) => d@,
                None => active@[j].created_at@,
            },
            match (#[trigger] active@[i]).start_date {
                Some(d) => d@,
                None => active@[i].created_at@,
            },
        ) by {
            assert(may_precede(list_key(active@[i], false), list_key(active@[j], false), false));
        }
        assert forall|i: int, j: int| 0 <= i < j < archived@.len() implies (#[trigger] archived@[
            i
        ]).end_date is Some && (#[trigger] archived@[j]).end_date is Some && !seq_less(
            archived@[i].end_date->0@,
            archived@[j].end_date->0@,
        ) by {
            assert(archived_pred(archived@[i]));
            assert(archived_pred(archived@[j]));
            assert(may_precede(list_key(archived@[i], true), list_key(archived@[j], true), true));
        }
        assert forall|k: int| 0 <= k < active@.len() implies !((#[trigger] active@[k]).end_date matches Some(
            e,
        ) && seq_less(e@, today@)) by {
            assert(active_pred(active@[k]));
        }
        assert forall|k: int| 0 <= k < archived@.len() implies ((#[trigger] archived@[k]).end_date matches Some(
            e,
        ) && seq_less(e@, today@)) by {
            assert(archived_pred(archived@[k]));
        }
    }
    (active, archived)
}

/// Every CTF of a section satisfies the section's test.
proof fn lemma_section_members(all: Seq<Ctf>, section: Seq<Ctf>, pred: spec_fn(Ctf) -> bool)
    requires
        section.to_multiset() == all.filter(pred).to_multiset(),
    ensures
        forall|k: int| 0 <= k < section.len() ==> pred(#[trigger] section[k]),
{
    broadcast use group_to_multiset_ensures;
    broadcast use group_filter_ensures;

    assert forall|k: int| 0 <= k < section.len() implies pred(#[trigger] section[k]) by {
        let x = section[k];
        assert(section.contains(x));
        assert(section.to_multiset().count(x) > 0);
        assert(all.filter(pred).contains(x));
        let m = choose|m: int| 0 <= m < all.filter(pred).len() && all.filter(pred)[m] == x;
        assert(pred(all.filter(pred)[m]));
    }
}

/// The two sections together list every stored CTF exactly once.
pub proof fn lemma_sections_cover_every_ctf(all: Seq<Ctf>, today: Seq<char>)
    ensures
        all.filter(|c: Ctf| !is_archived_on(c, today)).to_multiset().add(
            all.filter(|c: Ctf| is_archived_on(c, today)).to_multiset(),
        ) == all.to_multiset(),
    decreases all.len(),
{
    broadcast use vstd::multiset::group_multiset_axioms;

    let active_pred = |c: Ctf| !is_archived_on(c, today);
    let archived_pred = |c: Ctf| is_archived_on(c, today);
    if all.len() == 0 {
        broadcast use group_to_multiset_ensures;

        assert(all.filter(active_pred) =~= Seq::<Ctf>::empty());
        assert(all.filter(archived_pred) =~= Seq::<Ctf>::empty());
        assert(all.to_multiset().len() == 0);
        assert(all.filter(active_pred).to_multiset().len() == 0);
        assert(all.filter(archived_pred).to_multiset().len() == 0);
        assert(all.filter(active_pred).to_multiset().add(all.filter(archived_pred).to_multiset())
            =~= all.to_multiset());
    } else {
        let rest = all.drop_last();
        let x = all.last();
        lemma_sections_cover_every_ctf(rest, today);
        reveal_with_fuel(Seq::<_>::filter, 1);
        assert(all =~= rest.push(x));
        to_multiset_build(rest, x);
        to_multiset_build(rest.filter(active_pred), x);
        to_multiset_build(rest.filter(archived_pred), x);
        let a = rest.filter(active_pred).to_multiset();
        let b = rest.filter(archived_pred).to_multiset();
        assert(a.add(b) == rest.to_multiset());
        assert(all.to_multiset() == rest.to_multiset().insert(x));
        if is_archived_on(x, today) {
            assert(all.filter(archived_pred) == rest.filter(archived_pred).push(x));
            assert(all.filter(active_pred) == rest.filter(active_pred));
            assert(a.add(b.insert(x)) =~= a.add(b).insert(x));
        } else {
            assert(all.filter(active_pred) == rest.filter(active_pred).push(x));
            assert(all.filter(archived_pred) == rest.filter(archived_pred));
            assert(a.insert(x).add(b) =~= a.add(b).insert(x));
        }
    }
}

} // verus!
