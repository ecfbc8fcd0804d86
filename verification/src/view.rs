//! What the screens show, as text and positions; drawing them is the
//! caller's business.
use vstd::prelude::*;
use vstd::string::*;

use crate::models::{Challenge, Ctf};
use crate::text::{
    chars_equal, chars_less, chars_of, decimal, i64_to_decimal, lemma_seq_less_total,
    lemma_seq_less_transitive, prefixed, push_str, seq_less, signed_decimal, string_from_chars,
    u64_to_decimal,
};

verus! {

/// The category a challenge is listed under ("Uncategorized" when it has none).
pub open spec fn listed_category(ch: Challenge) -> Seq<char> {
    match ch.category {
        Some(c) => c@,
        None => "Uncategorized"@,
    }
}

/// `groups` lists the challenges by category: categories in increasing
/// order without repeats, each with the positions of its challenges in
/// increasing order, every challenge in the group of its category, and no
/// empty group.
pub open spec fn groups_challenges(challenges: Seq<Challenge>, groups: Seq<(String, Vec<usize>)>) -> bool {
    &&& forall|g: int, h: int|
        0 <= g < h < groups.len() ==> seq_less((#[trigger] groups[g]).0@, (#[trigger] groups[h]).0@)
    &&& forall|g: int| 0 <= g < groups.len() ==> (#[trigger] groups[g]).1@.len() > 0
    &&& forall|g: int, a: int, b: int|
        #![trigger groups[g].1@[a], groups[g].1@[b]]
        0 <= g < groups.len() && 0 <= a < b < groups[g].1@.len() ==> groups[g].1@[a]
            < groups[g].1@[b]
    &&& forall|g: int, a: int|
        #![trigger groups[g].1@[a]]
        0 <= g < groups.len() && 0 <= a < groups[g].1@.len() ==> {
            let k = groups[g].1@[a] as int;
            &&& k < challenges.len()
            &&& listed_category(challenges[k]) == groups[g].0@
        }
    &&& forall|k: int|
        0 <= k < challenges.len() ==> exists|g: int|
            0 <= g < groups.len() && (#[trigger] groups[g]).0@ == listed_category(
                #[trigger] challenges[k],
            ) && groups[g].1@.contains(k as usize)
}

fn category_chars(ch: &Challenge) -> (r: Vec<char>)
    ensures
        r@ == listed_category(*ch),
{
    match &ch.category {
        Some(c) => chars_of(c.as_str()),
        None => chars_of("Uncategorized"),
    }
}

/// The challenges grouped by category, categories in increasing order,
/// each group holding the positions of its challenges in order.
pub fn group_challenges_by_category(challenges: &Vec<Challenge>) -> (r: Vec<(String, Vec<usize>)>)
    ensures
        groups_challenges(challenges@, r@),
{
    let mut keys: Vec<Vec<char>> = Vec::new();
    let mut groups: Vec<(String, Vec<usize>)> = Vec::new();
    let mut i: usize = 0;
    while i < challenges.len()
        invariant
            i <= challenges.len(),
            keys@.len() == groups@.len(),
            forall|g: int| 0 <= g < groups@.len() ==> (#[trigger] keys@[g])@ == groups@[g].0@,
            groups_challenges(challenges@.take(i as int), groups@),
            forall|g: int, a: int|
                #![trigger groups@[g].1@[a]]
                0 <= g < groups@.len() && 0 <= a < groups@[g].1@.len() ==> groups@[g].1@[a] < i,
        decreases challenges.len() - i,
    {
        let ghost old_groups = groups@;
        let ghost prefix = challenges@.take(i as int);
        let ghost next_prefix = challenges@.take(i + 1);
        assert forall|k: int| 0 <= k < i implies next_prefix[k] == prefix[k] by {}
        let cat = category_chars(&challenges[i]);
        let mut p: usize = 0;
        while p < keys.len() && chars_less(&keys[p], &cat)
            invariant
                p <= keys@.len(),
                keys@.len() == groups@.len(),
                forall|g: int| 0 <= g < p ==> seq_less((#[trigger] keys@[g])@, cat@),
            decreases keys@.len() - p,
        {
            p = p + 1;
        }
        let found = p < keys.len() && chars_equal(&keys[p], &cat);
        if found {
            let (name, mut members) = groups.remove(p);
            members.push(i);
            groups.insert(p, (name, members));
            proof {
                assert forall|g: int| 0 <= g < groups@.len() implies (#[trigger] keys@[g])@
                    == groups@[g].0@ by {
                    if g != p {
                        assert(groups@[g] == old_groups[g]);
                    }
                }
                assert(groups_challenges(next_prefix, groups@)) by {
                    assert forall|g: int, h: int|
                        0 <= g < h < groups@.len() implies seq_less(
                        (#[trigger] groups@[g]).0@,
                        (#[trigger] groups@[h]).0@,
                    ) by {
                        assert(groups@[g].0 == old_groups[g].0);
                        assert(groups@[h].0 == old_groups[h].0);
                    }
                    assert forall|g: int| 0 <= g < groups@.len() implies (
                    #[trigger] groups@[g]).1@.len() > 0 by {
                        if g != p {
                            assert(groups@[g] == old_groups[g]);
                        }
                    }
                    assert forall|g: int, a: int, b: int|
                        #![trigger groups@[g].1@[a], groups@[g].1@[b]]
                        0 <= g < groups@.len() && 0 <= a < b < groups@[g].1@.len() implies groups@[g].1@[a]
                            < groups@[g].1@[b] by {
                        if g != p {
                            assert(groups@[g] == old_groups[g]);
                        }
                    }
                    assert forall|g: int, a: int|
                        #![trigger groups@[g].1@[a]]
                        0 <= g < groups@.len() && 0 <= a < groups@[g].1@.len() implies {
                        let k = groups@[g].1@[a] as int;
                        &&& k < next_prefix.len()
                        &&& listed_category(next_prefix[k]) == groups@[g].0@
                    } by {
                        if g != p {
                            assert(groups@[g] == old_groups[g]);
                        } else if a < old_groups[g].1@.len() {
                            assert(groups@[g].1@[a] == old_groups[g].1@[a]);
                        }
                    }
                    assert forall|k: int| 0 <= k < next_prefix.len() implies exists|g: int|
                        0 <= g < groups@.len() && (#[trigger] groups@[g]).0@ == listed_category(
                            #[trigger] next_prefix[k],
                        ) && groups@[g].1@.contains(k as usize) by {
                        if k < i {
                            let g = choose|g: int|
                                0 <= g < old_groups.len() && (#[trigger] old_groups[g]).0@
                                    == listed_category(#[trigger] prefix[k])
                                    && old_groups[g].1@.contains(k as usize);
                            let a = choose|a: int|
                                0 <= a < old_groups[g].1@.len() && old_groups[g].1@[a]
                                    == k as usize;
                            assert(groups@[g].1@[a] == k as usize);
                            assert(groups@[g].0@ == listed_category(next_prefix[k]));
                        } else {
                            assert(groups@[p as int].1@[groups@[p as int].1@.len() - 1] == i);
                            assert(groups@[p as int].0@ == listed_category(next_prefix[k]));
                        }
                    }
                }
            }
        } else {
            proof {
                if p < keys@.len() {
                    lemma_seq_less_total(keys@[p as int]@, cat@);
                }
            }
            let name = string_from_chars(&cat);
            let mut members: Vec<usize> = Vec::new();
            members.push(i);
            keys.insert(p, cat);
            groups.insert(p, (name, members));
            proof {
                assert forall|g: int| 0 <= g < groups@.len() implies (#[trigger] keys@[g])@
                    == groups@[g].0@ by {
                    if g < p {
                        assert(groups@[g] == old_groups[g]);
                    } else if g > p {
                        assert(groups@[g] == old_groups[g - 1]);
                    }
                }
                assert(groups_challenges(next_prefix, groups@)) by {
                    assert forall|g: int, h: int|
                        0 <= g < h < groups@.len() implies seq_less(
                        (#[trigger] groups@[g]).0@,
                        (#[trigger] groups@[h]).0@,
                    ) by {
                        if h < p {
                            assert(groups@[g] == old_groups[g]);
                            assert(groups@[h] == old_groups[h]);
                        } else if h == p {
                            assert(groups@[g] == old_groups[g]);
                            assert(keys@[g]@ == old_groups[g].0@);
                        } else if g == p {
                            assert(groups@[h] == old_groups[h - 1]);
                            if h - 1 > p {
                                assert(seq_less(old_groups[p as int].0@, old_groups[h - 1].0@));
                                lemma_seq_less_transitive(
                                    cat@,
                                    old_groups[p as int].0@,
                                    old_groups[h - 1].0@,
                                );
                            }
                        } else if g < p {
                            assert(groups@[g] == old_groups[g]);
                            assert(groups@[h] == old_groups[h - 1]);
                        } else {
                            assert(groups@[g] == old_groups[g - 1]);
                            assert(groups@[h] == old_groups[h - 1]);
                        }
                    }
                    assert forall|g: int| 0 <= g < groups@.len() implies (
                    #[trigger] groups@[g]).1@.len() > 0 by {
                        if g < p {
                            assert(groups@[g] == old_groups[g]);
                        } else if g > p {
                            assert(groups@[g] == old_groups[g - 1]);
                        }
                    }
                    assert forall|g: int, a: int, b: int|
                        #![trigger groups@[g].1@[a], groups@[g].1@[b]]
                        0 <= g < groups@.len() && 0 <= a < b < groups@[g].1@.len() implies groups@[g].1@[a]
                            < groups@[g].1@[b] by {
                        if g < p {
                            assert(groups@[g] == old_groups[g]);
                        } else if g > p {
                            assert(groups@[g] == old_groups[g - 1]);
                        }
                    }
                    assert forall|g: int, a: int|
                        #![trigger groups@[g].1@[a]]
                        0 <= g < groups@.len() && 0 <= a < groups@[g].1@.len() implies {
                        let k = groups@[g].1@[a] as int;
                        &&& k < next_prefix.len()
                        &&& listed_category(next_prefix[k]) == groups@[g].0@
                    } by {
                        if g < p {
                            assert(groups@[g] == old_groups[g]);
                        } else if g > p {
                            assert(groups@[g] == old_groups[g - 1]);
                        }
                    }
                    assert forall|k: int| 0 <= k < next_prefix.len() implies exists|g: int|
                        0 <= g < groups@.len() && (#[trigger] groups@[g]).0@ == listed_category(
                            #[trigger] next_prefix[k],
                        ) && groups@[g].1@.contains(k as usize) by {
                        if k < i {
                            let g = choose|g: int|
                                0 <= g < old_groups.len() && (#[trigger] old_groups[g]).0@
                                    == listed_category(#[trigger] prefix[k])
                                    && old_groups[g].1@.contains(k as usize);
                            let g2 = if g < p {
                                g
                            } else {
                                g + 1
                            };
                            assert(groups@[g2] == old_groups[g]);
                            assert(groups@[g2].0@ == listed_category(next_prefix[k]));
                        } else {
                            assert(groups@[p as int].1@[0] == i);
                            assert(groups@[p as int].0@ == listed_category(next_prefix[k]));
                        }
                    }
                }
            }
        }
        i = i + 1;
    }
    assert(challenges@.take(challenges.len() as int) =~= challenges@);
    groups
}

/// The first position of `x` in `s`.
pub open spec fn position_of(s: Seq<usize>, x: usize) -> Option<int>
    decreases s.len(),
{
    if s.len() == 0 {
        None
    } else if s[0] == x {
        Some(0)
    } else {
        match position_of(s.drop_first(), x) {
            Some(k) => Some(k + 1),
            None => None,
        }
    }
}

/// The rows the grouped list takes: per group a header, its challenges, and
/// a blank spacer.
pub open spec fn grouped_rows(groups: Seq<(String, Vec<usize>)>) -> int
    decreases groups.len(),
{
    if groups.len() == 0 {
        0
    } else {
        groups[0].1@.len() + 2 + grouped_rows(groups.drop_first())
    }
}

/// The row of the grouped list that shows challenge `flat_index`: each
/// group takes a header row, a row per challenge and a spacer row.
pub open spec fn visual_index(groups: Seq<(String, Vec<usize>)>, flat_index: usize) -> Option<int>
    decreases groups.len(),
{
    if groups.len() == 0 {
        None
    } else {
        match position_of(groups[0].1@, flat_index) {
            Some(k) => Some(1 + k),
            None => match visual_index(groups.drop_first(), flat_index) {
                Some(v) => Some(groups[0].1@.len() + 2 + v),
                None => None,
            },
        }
    }
}

proof fn lemma_grouped_rows_nonneg(groups: Seq<(String, Vec<usize>)>)
    ensures
        grouped_rows(groups) >= 0,
    decreases groups.len(),
{
    if groups.len() > 0 {
        lemma_grouped_rows_nonneg(groups.drop_first());
    }
}

proof fn lemma_visual_index_below_rows(groups: Seq<(String, Vec<usize>)>, flat_index: usize)
    ensures
        visual_index(groups, flat_index) matches Some(v) ==> 0 <= v < grouped_rows(groups),
    decreases groups.len(),
{
    if groups.len() > 0 {
        lemma_visual_index_below_rows(groups.drop_first(), flat_index);
        lemma_position_of_bounds(groups[0].1@, flat_index);
        lemma_grouped_rows_nonneg(groups.drop_first());
    }
}

proof fn lemma_position_of_bounds(s: Seq<usize>, x: usize)
    ensures
        position_of(s, x) matches Some(k) ==> 0 <= k < s.len() && s[k] == x && forall|j: int|
            0 <= j < k ==> s[j] != x,
        position_of(s, x) is None ==> !s.contains(x),
    decreases s.len(),
{
    if s.len() > 0 {
        lemma_position_of_bounds(s.drop_first(), x);
        if s[0] != x {
            if let Some(k) = position_of(s.drop_first(), x) {
                assert forall|j: int| 0 <= j < k + 1 implies s[j] != x by {
                    if j > 0 {
                        assert(s[j] == s.drop_first()[j - 1]);
                    }
                }
            }
            if position_of(s.drop_first(), x) is None {
                assert forall|j: int| 0 <= j < s.len() implies s[j] != x by {
                    if j > 0 {
                        assert(s[j] == s.drop_first()[j - 1]);
                    }
                }
            }
        }
    }
}

fn find_position(s: &Vec<usize>, x: usize) -> (r: Option<usize>)
    ensures
        match position_of(s@, x) {
            Some(k) => r == Some(k as usize),
            None => r is None,
        },
{
    let mut i: usize = 0;
    assert(s@.skip(0) =~= s@);
    while i < s.len()
        invariant
            i <= s@.len(),
            position_of(s@, x) == match position_of(s@.skip(i as int), x) {
                Some(k) => Some(k + i),
                None => None,
            },
            forall|j: int| 0 <= j < i ==> s@[j] != x,
        decreases s.len() - i,
    {
        assert(s@.skip(i as int).drop_first() =~= s@.skip(i + 1));
        if s[i] == x {
            proof {
                lemma_position_of_bounds(s@, x);
            }
            return Some(i);
        }
        i = i + 1;
    }
    proof {
        lemma_position_of_bounds(s@, x);
    }
    None
}

/// The row of the grouped challenge list showing challenge `flat_index`.
pub fn calculate_visual_index(groups: &Vec<(String, Vec<usize>)>, flat_index: usize) -> (r: Option<usize>)
    requires
        grouped_rows(groups@) <= usize::MAX,
    ensures
        match visual_index(groups@, flat_index) {
            Some(v) => r == Some(v as usize),
            None => r is None,
        },
{
    let mut visual: usize = 0;
    let mut g: usize = 0;
    proof {
        lemma_grouped_rows_nonneg(groups@);
        assert(groups@.skip(0) =~= groups@);
    }
    while g < groups.len()
        invariant
            g <= groups@.len(),
            grouped_rows(groups@) <= usize::MAX,
            visual as int + grouped_rows(groups@.skip(g as int)) == grouped_rows(groups@),
            visual_index(groups@, flat_index) == match visual_index(groups@.skip(g as int), flat_index) {
                Some(v) => Some(v + visual),
                None => None,
            },
        decreases groups.len() - g,
    {
        let ghost rest = groups@.skip(g as int);
        assert(rest.drop_first() =~= groups@.skip(g + 1));
        assert(rest[0] == groups@[g as int]);
        proof {
            lemma_grouped_rows_nonneg(rest.drop_first());
            lemma_position_of_bounds(groups@[g as int].1@, flat_index);
        }
        let members = &groups[g].1;
        match find_position(members, flat_index) {
            Some(k) => {
                return Some(visual + 1 + k);
            },
            None => {},
        }
        visual = visual + members.len() + 2;
        g = g + 1;
    }
    None
}

/// The dates of a CTF as listed: " [start - end]", " [start]", or nothing.
pub open spec fn date_info(ctf: Ctf) -> Seq<char> {
    match (ctf.start_date, ctf.end_date) {
        (Some(s), Some(e)) => " ["@ + s@ + " - "@ + e@ + "]"@,
        (Some(s), None) => " ["@ + s@ + "]"@,
        _ => Seq::<char>::empty(),
    }
}

/// The team of a CTF as listed: " (team)" or nothing.
pub open spec fn team_info(ctf: Ctf) -> Seq<char> {
    match ctf.team_name {
        Some(t) => " ("@ + t@ + ")"@,
        None => Seq::<char>::empty(),
    }
}

/// The line of the CTF list for a CTF: name, dates, team, and " [ACTIVE]"
/// when its id equals the active id (two absent ids count as equal).
pub open spec fn ctf_line(ctf: Ctf, active_ctf_id: Option<i64>) -> Seq<char> {
    ctf.name@ + date_info(ctf) + team_info(ctf) + if ctf.id == active_ctf_id {
        " [ACTIVE]"@
    } else {
        Seq::<char>::empty()
    }
}

/// The text of a CTF's line in the CTF list.
pub fn ctf_line_text(ctf: &Ctf, active_ctf_id: Option<i64>) -> (r: String)
    ensures
        r@ == ctf_line(*ctf, active_ctf_id),
{
    let mut r = ctf.name.clone();
    match (&ctf.start_date, &ctf.end_date) {
        (Some(s), Some(e)) => {
            push_str(&mut r, " [");
            push_str(&mut r, s.as_str());
            push_str(&mut r, " - ");
            push_str(&mut r, e.as_str());
            push_str(&mut r, "]");
        },
        (Some(s), None) => {
            push_str(&mut r, " [");
            push_str(&mut r, s.as_str());
            push_str(&mut r, "]");
        },
        _ => {},
    }
    let ghost with_dates = r@;
    assert(with_dates == ctf.name@ + date_info(*ctf)) by {
        match (ctf.start_date, ctf.end_date) {
            (Some(s), Some(e)) => {
                assert(with_dates =~= ctf.name@ + (" ["@ + s@ + " - "@ + e@ + "]"@));
            },
            (Some(s), None) => {
                assert(with_dates =~= ctf.name@ + (" ["@ + s@ + "]"@));
            },
            _ => {
                assert(with_dates =~= ctf.name@ + Seq::<char>::empty());
            },
        }
    }
    match &ctf.team_name {
        Some(t) => {
            push_str(&mut r, " (");
            push_str(&mut r, t.as_str());
            push_str(&mut r, ")");
            assert(r@ =~= with_dates + (" ("@ + t@ + ")"@));
        },
        None => {
            assert(r@ =~= with_dates + Seq::<char>::empty());
        },
    }
    let ghost with_team = r@;
    if ctf.id == active_ctf_id {
        push_str(&mut r, " [ACTIVE]");
    } else {
        assert(r@ =~= with_team + Seq::<char>::empty());
    }
    r
}

/// The line of the archive header: an arrow showing whether the section is
/// expanded, and the number of archived CTFs.
pub open spec fn archive_header_line(count: usize, is_expanded: bool) -> Seq<char> {
    (if is_expanded {
        "▼"@
    } else {
        "▶"@
    }) + " Archived CTFs ("@ + decimal(count as nat) + ")"@
}

/// The text of the archive header row.
pub fn archive_header_text(count: usize, is_expanded: bool) -> (r: String)
    ensures
        r@ == archive_header_line(count, is_expanded),
{
    let mut r = if is_expanded {
        String::from_str("▼")
    } else {
        String::from_str("▶")
    };
    push_str(&mut r, " Archived CTFs (");
    let n = u64_to_decimal(count as u64);
    push_str(&mut r, n.as_str());
    push_str(&mut r, ")");
    r
}

/// The line of the challenge list for a challenge: a check mark when solved,
/// the name, and the points when known.
pub open spec fn challenge_line(ch: Challenge) -> Seq<char> {
    "["@ + (if ch.solved {
        "✓"@
    } else {
        " "@
    }) + "] "@ + ch.name@ + match ch.points {
        Some(p) => " ("@ + signed_decimal(p as int) + "pts)"@,
        None => Seq::<char>::empty(),
    }
}

/// The text of a challenge's line in the challenge list.
pub fn challenge_line_text(ch: &Challenge) -> (r: String)
    ensures
        r@ == challenge_line(*ch),
{
    let mut r = String::from_str("[");
    if ch.solved {
        push_str(&mut r, "✓");
    } else {
        push_str(&mut r, " ");
    }
    push_str(&mut r, "] ");
    push_str(&mut r, ch.name.as_str());
    let ghost base = r@;
    match ch.points {
        Some(p) => {
            push_str(&mut r, " (");
            let d = i64_to_decimal(p as i64);
            push_str(&mut r, d.as_str());
            push_str(&mut r, "pts)");
            assert(r@ =~= base + (" ("@ + signed_decimal(p as int) + "pts)"@));
        },
        None => {
            assert(r@ =~= base + Seq::<char>::empty());
        },
    }
    r
}

/// The title of the challenge view: the selected CTF's name, or "Unknown CTF".
pub fn challenge_view_title(ctf_name: Option<&str>) -> (r: String)
    ensures
        ctf_name matches Some(n) ==> r@ == "Challenges - "@ + n@,
        ctf_name is None ==> r@ == "Challenges - Unknown CTF"@,
{
    match ctf_name {
        Some(n) => prefixed("Challenges - ", n),
        None => String::from_str("Challenges - Unknown CTF"),
    }
}

/// How a settings field shows its value: the text being typed followed by a
/// '_' cursor when it is being edited, the stored value otherwise.
pub fn setting_display_value(is_editing: bool, input_buffer: &str, value: String) -> (r: String)
    ensures
        is_editing ==> r@ == input_buffer@ + "_"@,
        !is_editing ==> r == value,
{
    if is_editing {
        let mut r = String::from_str(input_buffer);
        push_str(&mut r, "_");
        r
    } else {
        value
    }
}

/// The text shown for an optional value: the value, or "None".
pub fn text_or_none(value: Option<String>) -> (r: String)
    ensures
        value matches Some(v) ==> r == v,
        value is None ==> r@ == "None"@,
{
    match value {
        Some(v) => v,
        None => String::from_str("None"),
    }
}

/// The active CTF id as the settings dialog shows it: its decimal text, or "None".
pub fn active_id_text(active_ctf_id: Option<i64>) -> (r: String)
    ensures
        active_ctf_id matches Some(id) ==> r@ == signed_decimal(id as int),
        active_ctf_id is None ==> r@ == "None"@,
{
    match active_ctf_id {
        Some(id) => i64_to_decimal(id),
        None => String::from_str("None"),
    }
}

/// The header line of a category in the challenge list.
pub fn category_header_text(category: &str) -> (r: String)
    ensures
        r@ == "━━ "@ + category@ + " ━━"@,
{
    let mut r = prefixed("━━ ", category);
    push_str(&mut r, " ━━");
    r
}

} // verus!
