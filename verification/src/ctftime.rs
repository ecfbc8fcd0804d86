//! Importing events from CTFtime: the two-week window asked for, the URL,
//! how an event becomes a CTF row, and the retry schedule.
//!
//! Dates are day numbers as chrono's `num_days_from_ce` counts them
//! (0001-01-01, a Monday, is day 1; 1970-01-01 is day 719163).
use vstd::prelude::*;
use vstd::string::*;

use std::time::SystemTime;

use crate::text::{
    chars_of, decimal, i64_to_decimal, prefixed, push_str, signed_decimal, string_from_chars,
    u64_to_decimal,
};

verus! {

#[verifier::external_type_specification]
#[verifier::external_body]
pub struct ExSystemTime(SystemTime);

/// An organizer of a CTFtime event.
#[derive(Debug)]
pub struct Organizer {
    pub name: String,
}

/// A CTFtime event, as the events API describes it.
#[derive(Debug)]
pub struct CtfTimeEvent {
    pub title: String,
    pub url: String,
    /// Start, ISO 8601 ("2024-01-15T00:00:00+00:00").
    pub start: String,
    /// End, ISO 8601.
    pub finish: String,
    pub description: String,
    pub organizers: Vec<Organizer>,
    pub format: Option<String>,
    pub onsite: Option<bool>,
}

/// The CTF row an event is stored as.
#[derive(Debug)]
pub struct EventRow {
    pub name: String,
    pub url: String,
    pub start_date: String,
    pub end_date: String,
    pub notes: String,
}

/// The day of the week of a day number, Monday being 0.
pub open spec fn weekday_from_monday(day: int) -> int {
    (day - 1) % 7
}

/// Thursday, counted from Monday.
pub open spec fn thursday() -> int {
    3
}

/// How many days back the previous Thursday is, by weekday: a whole week
/// on a Thursday, else back to the last Thursday.
pub open spec fn days_back_to_thursday(weekday: int) -> int {
    (weekday + 3) % 7 + 1
}

/// The previous Thursday before the given day.
pub open spec fn previous_thursday(day: int) -> int {
    day - days_back_to_thursday(weekday_from_monday(day))
}

/// std's `SystemTime::now`: the system clock's time now. It reads the clock,
/// so nothing is claimed of it.
#[verifier::external_body]
fn system_now() -> (r: SystemTime) {
    SystemTime::now()
}

/// std's `SystemTime::duration_since(UNIX_EPOCH)`, in whole seconds: `None`
/// when the time is before 1970-01-01 UTC. The time is opaque here, so
/// nothing is claimed of the result.
#[verifier::external_body]
fn seconds_since_epoch(t: &SystemTime) -> (r: Option<u64>) {
    t.duration_since(std::time::UNIX_EPOCH).ok().map(|d| d.as_secs())
}

/// std's `UNIX_EPOCH.duration_since(t)`, in nanoseconds: how long before
/// 1970-01-01 UTC the time `t` lies, or `None` when it lies after. The time
/// is opaque here, so nothing is claimed of the result.
#[verifier::external_body]
fn nanos_before_epoch(t: &SystemTime) -> (r: Option<u128>) {
    std::time::UNIX_EPOCH.duration_since(*t).ok().map(|d| d.as_nanos())
}

/// The day number of the UTC day that a Unix time (seconds since
/// 1970-01-01 UTC, day 719163) falls on.
pub open spec fn unix_day(secs: nat) -> int {
    719_163 + (secs / 86_400) as int
}

/// The day of the week of a day number, Monday being 0.
pub fn weekday_of(day: i32) -> (r: u32)
    requires
        -100_000_000 < day < 100_000_000,
    ensures
        r as int == weekday_from_monday(day as int),
        r < 7,
{
    let shifted: u64 = (day as i64 + 700_000_000 - 1) as u64;
    assert((day as int + 700_000_000 - 1) % 7 == (day as int - 1) % 7) by {
        assert(700_000_000int == 7 * 100_000_000);
        vstd::arithmetic::div_mod::lemma_mod_add_multiples_vanish(day as int - 1, 7);
        assert(((day as int - 1) + 7 * 100_000_000) % 7 == (day as int - 1) % 7) by {
            vstd::arithmetic::div_mod::lemma_mod_multiples_vanish(100_000_000, day as int - 1, 7);
        }
    }
    (shifted % 7) as u32
}

/// The previous Thursday before `today`: a week back when `today` is a
/// Thursday.
pub fn previous_thursday_from(today: i32) -> (r: i32)
    requires
        -100_000_000 < today < 100_000_000,
    ensures
        r as int == previous_thursday(today as int),
{
    let weekday = weekday_of(today);
    let days_back: i32 = match weekday {
        3 => 7,
        4 => 1,
        5 => 2,
        6 => 3,
        0 => 4,
        1 => 5,
        _ => 6,
    };
    today - days_back
}

/// The Thursday before the UTC day of a Unix time, as a day number; `None`
/// for a time too far ahead for the day numbers handled here.
pub fn previous_thursday_at(secs: u64) -> (r: Option<i32>)
    ensures
        unix_day(secs as nat) < 100_000_000 ==> r == Some(
            previous_thursday(unix_day(secs as nat)) as i32,
        ),
        unix_day(secs as nat) >= 100_000_000 ==> r is None,
        // A Thursday (day 1, 0001-01-01, is a Monday), one to seven days
        // before the UTC day the time falls on.
        r matches Some(d) ==> (d - 1) % 7 == 3 && 1 <= 719_163 + (secs / 86_400) as int - d <= 7,
{
    proof {
        lemma_previous_thursday_is_a_thursday(unix_day(secs as nat));
    }
    let days: u64 = secs / 86_400;
    if days >= 100_000_000 - 719_163 {
        return None;
    }
    let today: i32 = (719_163 + days) as i32;
    Some(previous_thursday_from(today))
}

/// The day number of the UTC day on which a time `nanos` nanoseconds
/// before 1970-01-01 UTC falls.
pub open spec fn day_before_epoch(nanos: nat) -> int {
    719_163 - ((nanos + 86_399_999_999_999) / 86_400_000_000_000) as int
}

/// The Thursday before the UTC day of a time `nanos` nanoseconds before
/// 1970-01-01 UTC, as a day number; `None` for a time too far back for the
/// day numbers handled here.
pub fn previous_thursday_before_epoch(nanos: u128) -> (r: Option<i32>)
    ensures
        day_before_epoch(nanos as nat) > -99_999_990 ==> r == Some(
            previous_thursday(day_before_epoch(nanos as nat)) as i32,
        ),
        day_before_epoch(nanos as nat) <= -99_999_990 ==> r is None,
        // A Thursday, one to seven days before the UTC day on which the time
        // (`nanos` before 1970-01-01, day 719163) falls.
        r matches Some(d) ==> (d - 1) % 7 == 3 && 1 <= 719_163 - ((nanos + 86_399_999_999_999)
            / 86_400_000_000_000) as int - d <= 7,
{
    proof {
        lemma_previous_thursday_is_a_thursday(day_before_epoch(nanos as nat));
    }
    if nanos > 100_000_000_000_000_000_000_000u128 {
        return None;
    }
    let days: u128 = (nanos + 86_399_999_999_999) / 86_400_000_000_000;
    if days >= 100_719_153 {
        return None;
    }
    let today: i32 = (719_163 - days as i64) as i32;
    Some(previous_thursday_from(today))
}

/// The Thursday before today (UTC), as a day number, whether the clock reads
/// after or before 1970; `None` only for a clock read beyond the day
/// numbers handled here (some hundred thousand years away).
pub fn get_previous_thursday() -> (r: Option<i32>)
    ensures
        r matches Some(d) ==> exists|day: int|
            -99_999_990 < day < 100_000_000 && d as int == previous_thursday(day),
        r matches Some(d) ==> -100_000_000 < d < 100_000_000,
        r matches Some(d) ==> (d - 1) % 7 == 3,
{
    let now = system_now();
    let r = match seconds_since_epoch(&now) {
        Some(secs) => previous_thursday_at(secs),
        None => match nanos_before_epoch(&now) {
            Some(nanos) => previous_thursday_before_epoch(nanos),
            None => None,
        },
    };
    proof {
        if let Some(d) = r {
            let day = choose|day: int| -99_999_990 < day < 100_000_000 && d as int == previous_thursday(day);
            lemma_previous_thursday_is_a_thursday(day);
        }
    }
    r
}

/// The previous Thursday falls on a Thursday, at most a week back and
/// never on the day itself.
pub proof fn lemma_previous_thursday_is_a_thursday(day: int)
    ensures
        weekday_from_monday(previous_thursday(day)) == thursday(),
        1 <= day - previous_thursday(day) <= 7,
{
    let w = weekday_from_monday(day);
    let back = days_back_to_thursday(w);
    assert(0 <= w < 7);
    assert(1 <= back <= 7);
    assert((day - back - 1) % 7 == 3) by {
        assert(w == 0 ==> back == 4);
        assert(w == 1 ==> back == 5);
        assert(w == 2 ==> back == 6);
        assert(w == 3 ==> back == 7);
        assert(w == 4 ==> back == 1);
        assert(w == 5 ==> back == 2);
        assert(w == 6 ==> back == 3);
        vstd::arithmetic::div_mod::lemma_fundamental_div_mod(day - 1, 7);
        let q = (day - 1) / 7;
        assert(day - 1 == 7 * q + w);
        assert(day - back - 1 == 7 * q + w - back);
        if w >= 4 {
            assert(day - back - 1 == 7 * q + 3);
            vstd::arithmetic::div_mod::lemma_mod_multiples_vanish(q, 3, 7);
        } else {
            assert(day - back - 1 == 7 * (q - 1) + 3);
            vstd::arithmetic::div_mod::lemma_mod_multiples_vanish(q - 1, 3, 7);
        }
    }
}

/// The Unix time of midnight (UTC) starting a day.
pub open spec fn day_start_timestamp(day: int) -> int {
    (day - 719_163) * 86_400
}

/// The window of events asked for: from the start of the given Thursday to
/// the last second of the day two weeks later, as Unix times.
pub fn ctftime_window(thursday_day: i32) -> (r: (i64, i64))
    requires
        -100_000_000 < thursday_day < 100_000_000,
    ensures
        r.0 as int == day_start_timestamp(thursday_day as int),
        r.1 as int == day_start_timestamp(thursday_day + 14) + 86_399,
{
    let start: i64 = (thursday_day as i64 - 719_163) * 86_400;
    let end: i64 = (thursday_day as i64 + 14 - 719_163) * 86_400 + 86_399;
    (start, end)
}

/// The events API address for a window.
pub open spec fn events_url_text(start: i64, finish: i64) -> Seq<char> {
    "https://ctftime.org/api/v1/events/?limit=100&start="@ + signed_decimal(start as int)
        + "&finish="@ + signed_decimal(finish as int)
}

/// The events API address asking for at most 100 events in the window.
pub fn events_url(start: i64, finish: i64) -> (r: String)
    ensures
        r@ == events_url_text(start, finish),
{
    let mut r = String::from_str("https://ctftime.org/api/v1/events/?limit=100&start=");
    let s = i64_to_decimal(start);
    push_str(&mut r, s.as_str());
    push_str(&mut r, "&finish=");
    let f = i64_to_decimal(finish);
    push_str(&mut r, f.as_str());
    r
}

/// The text before the first 'T' (all of it when there is none).
pub open spec fn before_t(s: Seq<char>) -> Seq<char>
    decreases s.len(),
{
    if s.len() == 0 {
        s
    } else if s[0] == 'T' {
        Seq::<char>::empty()
    } else {
        seq![s[0]] + before_t(s.drop_first())
    }
}

/// The date part of an ISO 8601 time stamp: the text before the first 'T'.
pub fn date_part(s: &str) -> (r: String)
    ensures
        r@ == before_t(s@),
{
    let chars = chars_of(s);
    let mut out: Vec<char> = Vec::new();
    let mut i: usize = 0;
    assert(chars@.skip(0) =~= chars@);
    while i < chars.len() && chars[i] != 'T'
        invariant
            i <= chars.len(),
            before_t(chars@) == out@ + before_t(chars@.skip(i as int)),
        decreases chars.len() - i,
    {
        assert(chars@.skip(i as int).drop_first() =~= chars@.skip(i + 1));
        assert(out@ + (seq![chars@[i as int]] + before_t(chars@.skip(i + 1))) =~= out@.push(
            chars@[i as int],
        ) + before_t(chars@.skip(i + 1)));
        out.push(chars[i]);
        i = i + 1;
    }
    assert(out@ + Seq::<char>::empty() =~= out@);
    string_from_chars(&out)
}

/// A description cut to its first 500 characters, with "..." appended,
/// when it is longer than that.
pub open spec fn short_description(d: Seq<char>) -> Seq<char> {
    if d.len() > 500 {
        d.take(500) + "..."@
    } else {
        d
    }
}

/// The notes stored with an event: its format, its first organizer, whether
/// it is onsite, a blank line, then the short description.
pub open spec fn event_notes(e: CtfTimeEvent) -> Seq<char> {
    (match e.format {
        Some(f) => "Format: "@ + f@ + "\n"@,
        None => Seq::<char>::empty(),
    }) + (if e.organizers@.len() > 0 {
        "Organized by: "@ + e.organizers@[0].name@ + "\n"@
    } else {
        Seq::<char>::empty()
    }) + (if e.onsite == Some(true) {
        "Location: Onsite\n"@
    } else {
        Seq::<char>::empty()
    }) + "\n"@ + short_description(e.description@)
}

fn short_description_text(d: &str) -> (r: String)
    ensures
        r@ == short_description(d@),
{
    let chars = chars_of(d);
    if chars.len() > 500 {
        let mut head: Vec<char> = Vec::new();
        let mut i: usize = 0;
        while i < 500
            invariant
                i <= 500,
                chars@.len() > 500,
                head@ == chars@.take(i as int),
            decreases 500 - i,
        {
            head.push(chars[i]);
            i = i + 1;
        }
        let mut r = string_from_chars(&head);
        push_str(&mut r, "...");
        r
    } else {
        String::from_str(d)
    }
}

/// The notes of an event.
pub fn event_notes_text(e: &CtfTimeEvent) -> (r: String)
    ensures
        r@ == event_notes(*e),
{
    let mut notes = String::new();
    if let Some(format) = &e.format {
        push_str(&mut notes, "Format: ");
        push_str(&mut notes, format.as_str());
        push_str(&mut notes, "\n");
    }
    let ghost n1 = notes@;
    assert(n1 =~= match e.format {
        Some(f) => "Format: "@ + f@ + "\n"@,
        None => Seq::<char>::empty(),
    });
    if e.organizers.len() > 0 {
        push_str(&mut notes, "Organized by: ");
        push_str(&mut notes, e.organizers[0].name.as_str());
        push_str(&mut notes, "\n");
    }
    let ghost n2 = notes@;
    assert(n2 =~= n1 + (if e.organizers@.len() > 0 {
        "Organized by: "@ + e.organizers@[0].name@ + "\n"@
    } else {
        Seq::<char>::empty()
    }));
    if let Some(onsite) = e.onsite {
        if onsite {
            push_str(&mut notes, "Location: Onsite\n");
        }
    }
    let ghost n3 = notes@;
    assert(n3 =~= n2 + (if e.onsite == Some(true) {
        "Location: Onsite\n"@
    } else {
        Seq::<char>::empty()
    }));
    push_str(&mut notes, "\n");
    let short = short_description_text(e.description.as_str());
    push_str(&mut notes, short.as_str());
    notes
}

/// The CTF row an event is stored as: its title, URL, the dates of its start
/// and end, and its notes.
pub fn event_row(e: &CtfTimeEvent) -> (r: EventRow)
    ensures
        r.name@ == e.title@,
        r.url@ == e.url@,
        r.start_date@ == before_t(e.start@),
        r.end_date@ == before_t(e.finish@),
        r.notes@ == event_notes(*e),
{
    EventRow {
        name: e.title.clone(),
        url: e.url.clone(),
        start_date: date_part(e.start.as_str()),
        end_date: date_part(e.finish.as_str()),
        notes: event_notes_text(e),
    }
}

/// How many times a fetch is tried.
pub const MAX_RETRIES: u32 = 3;

/// The pause before a try, in milliseconds: none before the first, then
/// 1000 ms doubling with each further try.
pub open spec fn backoff_ms(attempt: nat) -> Option<nat>
    decreases attempt,
{
    if attempt == 0 {
        None
    } else if attempt == 1 {
        Some(1000)
    } else {
        match backoff_ms((attempt - 1) as nat) {
            Some(ms) => Some(2 * ms),
            None => None,
        }
    }
}

/// The pause before try number `attempt` (counting from 0), if any.
pub fn retry_backoff_ms(attempt: u32) -> (r: Option<u64>)
    requires
        attempt < MAX_RETRIES,
    ensures
        match backoff_ms(attempt as nat) {
            Some(ms) => r == Some(ms as u64),
            None => r is None,
        },
{
    proof {
        reveal_with_fuel(backoff_ms, 3);
    }
    if attempt == 0 {
        None
    } else if attempt == 1 {
        Some(1000)
    } else {
        Some(2000)
    }
}

/// The fetch status recorded after a success.
pub fn success_status(count: usize) -> (r: String)
    ensures
        r@ == "success: "@ + decimal(count as nat) + " events"@,
{
    let n = u64_to_decimal(count as u64);
    let mut r = prefixed("success: ", n.as_str());
    push_str(&mut r, " events");
    r
}

/// The fetch status recorded after every try failed.
pub fn error_status(error: &str) -> (r: String)
    ensures
        r@ == "error: "@ + error@,
{
    prefixed("error: ", error)
}

/// What follows a try of the fetch.
#[derive(Debug, PartialEq, Eq, Structural)]
pub enum FetchStep {
    /// The fetch stored this many events: record the success and stop.
    Done(usize),
    /// The fetch failed: wait this many milliseconds and try again.
    RetryAfter(u64),
    /// The fetch failed and no try is left: record the error and stop.
    GiveUp,
}

/// The step after try number `attempt` (counting from 0) ended with
/// `outcome`: a success ends the fetch, a failure is tried again after the
/// backoff while tries are left, so that at most `MAX_RETRIES` tries are made.
pub fn after_fetch_attempt(attempt: u32, outcome: &Result<usize, String>) -> (r: FetchStep)
    requires
        attempt < MAX_RETRIES,
    ensures
        outcome matches Ok(n) ==> r == FetchStep::Done(*n),
        outcome is Err && attempt + 1 < MAX_RETRIES ==> (r matches FetchStep::RetryAfter(ms)
            && backoff_ms((attempt + 1) as nat) == Some(ms as nat)),
        outcome is Err && attempt + 1 >= MAX_RETRIES ==> r == FetchStep::GiveUp,
{
    proof {
        reveal_with_fuel(backoff_ms, 3);
    }
    match outcome {
        Ok(n) => FetchStep::Done(*n),
        Err(_) => {
            if attempt + 1 < MAX_RETRIES {
                match retry_backoff_ms(attempt + 1) {
                    Some(ms) => FetchStep::RetryAfter(ms),
                    None => FetchStep::GiveUp,
                }
            } else {
                FetchStep::GiveUp
            }
        },
    }
}

/// Whether a new database is filled with the sample CTFs: the first fetch
/// from CTFtime failed or stored no event.
pub fn falls_back_to_samples(fetched: &Result<usize, String>) -> (r: bool)
    ensures
        r == !(fetched matches Ok(n) && n > 0),
{
    match fetched {
        Ok(n) => *n == 0,
        Err(_) => true,
    }
}

} // verus!
