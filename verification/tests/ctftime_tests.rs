use chrono::{Datelike, NaiveDate, TimeZone, Utc, Weekday};

use ctf_man::ctftime::{
    after_fetch_attempt, falls_back_to_samples, FetchStep,
    ctftime_window, date_part, error_status, event_row, events_url, get_previous_thursday,
    previous_thursday_at, previous_thursday_before_epoch, previous_thursday_from, retry_backoff_ms, success_status, weekday_of, CtfTimeEvent,
    Organizer, MAX_RETRIES,
};

#[test]
fn test_previous_thursday() {
    let thursday = get_previous_thursday().unwrap();
    let date = NaiveDate::from_num_days_from_ce_opt(thursday).unwrap();
    assert_eq!(date.weekday(), Weekday::Thu);
}

#[test]
fn weekday_agrees_with_chrono() {
    for day in (1..800_000).step_by(997) {
        let date = NaiveDate::from_num_days_from_ce_opt(day).unwrap();
        assert_eq!(weekday_of(day), date.weekday().num_days_from_monday());
    }
    for day in [-1000, -1, 0, 1, 2, 719_163] {
        let date = NaiveDate::from_num_days_from_ce_opt(day).unwrap();
        assert_eq!(weekday_of(day), date.weekday().num_days_from_monday());
    }
}

#[test]
fn previous_thursday_goes_back_a_week_from_a_thursday() {
    // 2024-01-18 is a Thursday.
    let thu = NaiveDate::from_ymd_opt(2024, 1, 18).unwrap().num_days_from_ce();
    assert_eq!(previous_thursday_from(thu), thu - 7);
    // The Friday after goes back one day.
    assert_eq!(previous_thursday_from(thu + 1), thu);
    // The Wednesday before goes back six days.
    assert_eq!(previous_thursday_from(thu - 1), thu - 7);
}

#[test]
fn window_matches_chrono_timestamps() {
    let thu = NaiveDate::from_ymd_opt(2024, 1, 18).unwrap();
    let (start, end) = ctftime_window(thu.num_days_from_ce());
    let expected_start = thu.and_hms_opt(0, 0, 0).unwrap().and_utc().timestamp();
    let end_date = thu + chrono::Duration::weeks(2);
    let expected_end = end_date.and_hms_opt(23, 59, 59).unwrap().and_utc().timestamp();
    assert_eq!(start, expected_start);
    assert_eq!(end, expected_end);
    assert_eq!(start, Utc.with_ymd_and_hms(2024, 1, 18, 0, 0, 0).unwrap().timestamp());
}

#[test]
fn events_url_lists_the_window() {
    assert_eq!(
        events_url(1705536000, -5),
        "https://ctftime.org/api/v1/events/?limit=100&start=1705536000&finish=-5"
    );
}

#[test]
fn date_part_cuts_at_the_first_t() {
    assert_eq!(date_part("2024-01-15T00:00:00+00:00"), "2024-01-15");
    assert_eq!(date_part("no time here"), "no time here");
    assert_eq!(date_part(""), "");
    assert_eq!(date_part("T"), "");
}

fn event(description: &str) -> CtfTimeEvent {
    CtfTimeEvent {
        title: "Some CTF".to_string(),
        url: "https://some.ctf".to_string(),
        start: "2024-01-15T00:00:00+00:00".to_string(),
        finish: "2024-01-17T12:00:00+00:00".to_string(),
        description: description.to_string(),
        organizers: vec![Organizer { name: "Org".to_string() }, Organizer { name: "Other".to_string() }],
        format: Some("Jeopardy".to_string()),
        onsite: Some(true),
    }
}

#[test]
fn event_row_builds_notes() {
    let row = event_row(&event("Fun."));
    assert_eq!(row.name, "Some CTF");
    assert_eq!(row.url, "https://some.ctf");
    assert_eq!(row.start_date, "2024-01-15");
    assert_eq!(row.end_date, "2024-01-17");
    assert_eq!(
        row.notes,
        "Format: Jeopardy\nOrganized by: Org\nLocation: Onsite\n\nFun."
    );
}

#[test]
fn event_notes_leave_out_what_is_missing() {
    let mut e = event("d");
    e.format = None;
    e.organizers.clear();
    e.onsite = Some(false);
    assert_eq!(event_row(&e).notes, "\nd");
    e.onsite = None;
    assert_eq!(event_row(&e).notes, "\nd");
}

#[test]
fn long_descriptions_are_cut_to_500_characters() {
    let long: String = std::iter::repeat('é').take(501).collect();
    let mut e = event(&long);
    e.format = None;
    e.organizers.clear();
    e.onsite = None;
    let notes = event_row(&e).notes;
    let expected: String = std::iter::repeat('é').take(500).collect::<String>() + "...";
    assert_eq!(notes, format!("\n{}", expected));
    let exact: String = std::iter::repeat('x').take(500).collect();
    let mut e2 = event(&exact);
    e2.format = None;
    e2.organizers.clear();
    e2.onsite = None;
    assert_eq!(event_row(&e2).notes, format!("\n{}", exact));
}

#[test]
fn retry_schedule_doubles_from_one_second() {
    assert_eq!(MAX_RETRIES, 3);
    assert_eq!(retry_backoff_ms(0), None);
    assert_eq!(retry_backoff_ms(1), Some(1000));
    assert_eq!(retry_backoff_ms(2), Some(2000));
}

#[test]
fn fetch_status_texts() {
    assert_eq!(success_status(12), "success: 12 events");
    assert_eq!(success_status(0), "success: 0 events");
    assert_eq!(error_status("timeout"), "error: timeout");
}

#[test]
fn fetch_steps() {
    assert_eq!(after_fetch_attempt(0, &Ok(4)), FetchStep::Done(4));
    assert_eq!(after_fetch_attempt(2, &Ok(0)), FetchStep::Done(0));
    assert_eq!(after_fetch_attempt(0, &Err("x".to_string())), FetchStep::RetryAfter(1000));
    assert_eq!(after_fetch_attempt(1, &Err("x".to_string())), FetchStep::RetryAfter(2000));
    assert_eq!(after_fetch_attempt(2, &Err("x".to_string())), FetchStep::GiveUp);
}

#[test]
fn samples_when_nothing_was_fetched() {
    assert!(falls_back_to_samples(&Ok(0)));
    assert!(falls_back_to_samples(&Err("offline".to_string())));
    assert!(!falls_back_to_samples(&Ok(3)));
}

#[test]
fn previous_thursday_of_unix_times() {
    // 1970-01-01 was a Thursday: a week back.
    let d = previous_thursday_at(0).unwrap();
    assert_eq!(d, 719_163 - 7);
    assert_eq!(NaiveDate::from_num_days_from_ce_opt(d).unwrap(), NaiveDate::from_ymd_opt(1969, 12, 25).unwrap());
    // 2024-06-03 12:00 UTC, a Monday.
    let secs = Utc.with_ymd_and_hms(2024, 6, 3, 12, 0, 0).unwrap().timestamp() as u64;
    let d = previous_thursday_at(secs).unwrap();
    assert_eq!(NaiveDate::from_num_days_from_ce_opt(d).unwrap(), NaiveDate::from_ymd_opt(2024, 5, 30).unwrap());
    assert_eq!(previous_thursday_at(u64::MAX), None);
}

#[test]
fn previous_thursday_before_1970() {
    let day = 86_400_000_000_000u128;
    // 1 ns before 1970: 1969-12-31, a Wednesday.
    let d = previous_thursday_before_epoch(1).unwrap();
    assert_eq!(NaiveDate::from_num_days_from_ce_opt(d).unwrap(), NaiveDate::from_ymd_opt(1969, 12, 25).unwrap());
    assert_eq!(previous_thursday_before_epoch(day), Some(719_156));
    // Just over a week back: 1969-12-24, a Wednesday.
    let d = previous_thursday_before_epoch(7 * day + 1).unwrap();
    assert_eq!(NaiveDate::from_num_days_from_ce_opt(d).unwrap(), NaiveDate::from_ymd_opt(1969, 12, 18).unwrap());
    assert_eq!(previous_thursday_before_epoch(u128::MAX), None);
}
