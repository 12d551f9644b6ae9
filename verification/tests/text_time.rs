use chrono::{Datelike, NaiveDate, TimeZone, Utc};
use shade::records::Session;
use shade::text::{format_hm, format_short_duration, i64_text, u64_text};
use shade::time::{day_string, rfc3339_string, seconds_between};

#[test]
fn decimal_text() {
    assert_eq!(u64_text(0), "0");
    assert_eq!(u64_text(1234567890), "1234567890");
    assert_eq!(i64_text(-42), "-42");
    assert_eq!(i64_text(i64::MIN), i64::MIN.to_string());
}

#[test]
fn hours_and_minutes() {
    assert_eq!(format_hm(3661), "1h 1m");
    assert_eq!(format_hm(0), "0h 0m");
    assert_eq!(format_hm(-3661), "-1h -1m");
    assert_eq!(format_short_duration(59), "0m");
    assert_eq!(format_short_duration(7260), "2h 1m");
}

#[test]
fn day_text_comes_from_the_calendar() {
    let d = NaiveDate::from_ymd_opt(2026, 1, 30).unwrap().num_days_from_ce();
    assert_eq!(day_string(d), "2026-01-30");
    assert_eq!(day_string(1), "0001-01-01");
}

#[test]
fn instant_text_is_rfc3339() {
    let t = Utc.with_ymd_and_hms(2026, 1, 30, 12, 0, 0).unwrap();
    let n = t.timestamp_nanos_opt().unwrap() as i128;
    assert_eq!(rfc3339_string(n), "2026-01-30T12:00:00+00:00");
    assert_eq!(rfc3339_string(n + 500_000_000), "2026-01-30T12:00:00.500+00:00");
    assert_eq!(rfc3339_string(-1), "1969-12-31T23:59:59.999999999+00:00");
}

#[test]
fn whole_seconds_truncate_toward_zero() {
    assert_eq!(seconds_between(0, 1_999_999_999), 1);
    assert_eq!(seconds_between(1_999_999_999, 0), -1);
}

#[test]
fn session_duration_counts_up_to_now_while_open() {
    let s = Session { id: 1, application_id: 2, started_at: 0, ended_at: None, window_title: None, ended_idle: false };
    assert_eq!(s.duration_secs(90_000_000_000), 90);
    let ended = Session { ended_at: Some(30_000_000_000), ..s };
    assert_eq!(ended.duration_secs(90_000_000_000), 30);
}
