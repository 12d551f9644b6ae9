use chrono::{Datelike, Duration, NaiveDate, TimeZone, Utc};
use shade::analytics::categories::default_categories;
use shade::analytics::daily::{compute_daily_summary, AppTime, DailySummary};
use shade::analytics::focus::{
    analyze_focus, calculate_focus_score, calculate_total_active_time, count_app_switches,
    detect_flow_sessions, session_duration_secs, FocusAnalysis, SessionWithApp,
};

fn day(y: i32, m: u32, d: u32) -> i32 {
    NaiveDate::from_ymd_opt(y, m, d).unwrap().num_days_from_ce()
}

fn nanos(t: chrono::DateTime<Utc>) -> i128 {
    t.timestamp_nanos_opt().unwrap() as i128
}

fn make_session(
    id: i64,
    app_id: i64,
    app_name: &str,
    bundle_id: &str,
    start_offset_mins: i64,
    duration_mins: i64,
) -> SessionWithApp {
    let base = Utc.with_ymd_and_hms(2026, 3, 11, 9, 0, 0).unwrap();
    let started_at = base + Duration::minutes(start_offset_mins);
    let ended_at = started_at + Duration::minutes(duration_mins);

    SessionWithApp {
        id,
        application_id: app_id,
        started_at: nanos(started_at),
        ended_at: Some(nanos(ended_at)),
        ended_idle: false,
        bundle_id: bundle_id.to_string(),
        app_name: app_name.to_string(),
    }
}

fn later() -> i128 {
    nanos(Utc.with_ymd_and_hms(2026, 3, 12, 0, 0, 0).unwrap())
}

#[test]
fn test_compute_daily_summary_empty() {
    let today = day(2026, 1, 30);
    let summary = compute_daily_summary(today, 0, vec![], None);
    assert_eq!(summary.date, today);
    assert_eq!(summary.total_screen_time_secs, 0);
    assert!(summary.top_apps.is_empty());
}

#[test]
fn summary_without_categories_is_all_uncategorized() {
    let apps = vec![AppTime { name: "Example App".to_string(), bundle_id: "com.example.app".to_string(), seconds: 100 }];
    let summary = compute_daily_summary(day(2026, 1, 30), 100, apps, None);
    assert_eq!(summary.category_breakdown.len(), 1);
    assert_eq!(summary.category_breakdown[0].category, "Uncategorized");
    assert_eq!(summary.category_breakdown[0].seconds, 100);
}

#[test]
fn summary_with_categories_groups_top_apps() {
    let apps = vec![
        AppTime { name: "Safari".to_string(), bundle_id: "com.apple.Safari".to_string(), seconds: 100 },
        AppTime { name: "Xcode".to_string(), bundle_id: "com.apple.dt.Xcode".to_string(), seconds: 300 },
    ];
    let cats = default_categories();
    let summary = compute_daily_summary(day(2026, 1, 30), 400, apps, Some(&cats));
    assert_eq!(summary.category_breakdown.len(), 2);
    assert_eq!(summary.category_breakdown[0].category, "Development");
    assert_eq!(summary.category_breakdown[1].category, "Browsers");
}

#[test]
fn test_daily_summary_format_total_time() {
    let summary = DailySummary {
        date: day(2026, 1, 30),
        total_screen_time_secs: 3661,
        category_breakdown: vec![],
        top_apps: vec![],
    };
    assert_eq!(summary.format_total_time(), "1h 1m");
}

#[test]
fn format_total_time_of_zero() {
    let summary = DailySummary { date: day(2026, 1, 30), total_screen_time_secs: 59, category_breakdown: vec![], top_apps: vec![] };
    assert_eq!(summary.format_total_time(), "0h 0m");
}

#[test]
fn test_count_app_switches_empty() {
    let sessions: Vec<SessionWithApp> = vec![];
    assert_eq!(count_app_switches(&sessions, later()), 0);
}

#[test]
fn test_count_app_switches_single() {
    let sessions = vec![make_session(1, 1, "VSCode", "com.microsoft.VSCode", 0, 60)];
    assert_eq!(count_app_switches(&sessions, later()), 0);
}

#[test]
fn test_count_app_switches_same_app() {
    let sessions = vec![
        make_session(1, 1, "VSCode", "com.microsoft.VSCode", 0, 30),
        make_session(2, 1, "VSCode", "com.microsoft.VSCode", 30, 30),
    ];
    assert_eq!(count_app_switches(&sessions, later()), 0);
}

#[test]
fn test_count_app_switches_different_apps() {
    let sessions = vec![
        make_session(1, 1, "VSCode", "com.microsoft.VSCode", 0, 30),
        make_session(2, 2, "Safari", "com.apple.Safari", 30, 15),
        make_session(3, 1, "VSCode", "com.microsoft.VSCode", 45, 30),
    ];
    assert_eq!(count_app_switches(&sessions, later()), 2);
}

#[test]
fn brief_sessions_do_not_count_as_switches() {
    let base = Utc.with_ymd_and_hms(2026, 3, 11, 9, 0, 0).unwrap();
    let mut blip = make_session(2, 2, "Safari", "com.apple.Safari", 30, 0);
    blip.ended_at = Some(nanos(base + Duration::minutes(30) + Duration::seconds(3)));
    let sessions = vec![
        make_session(1, 1, "VSCode", "com.microsoft.VSCode", 0, 30),
        blip,
        make_session(3, 1, "VSCode", "com.microsoft.VSCode", 31, 30),
    ];
    assert_eq!(count_app_switches(&sessions, later()), 0);
}

#[test]
fn test_detect_flow_sessions_none() {
    let sessions = vec![
        make_session(1, 1, "VSCode", "com.microsoft.VSCode", 0, 15),
        make_session(2, 2, "Safari", "com.apple.Safari", 15, 10),
    ];
    let flows = detect_flow_sessions(&sessions, later());
    assert!(flows.is_empty());
}

#[test]
fn test_detect_flow_sessions_single_long() {
    let sessions = vec![make_session(1, 1, "VSCode", "com.microsoft.VSCode", 0, 45)];
    let flows = detect_flow_sessions(&sessions, later());
    assert_eq!(flows.len(), 1);
    assert_eq!(flows[0].app_name, "VSCode");
    assert_eq!(flows[0].duration_secs, 45 * 60);
}

#[test]
fn test_detect_flow_sessions_accumulated() {
    let sessions = vec![
        make_session(1, 1, "VSCode", "com.microsoft.VSCode", 0, 20),
        make_session(2, 1, "VSCode", "com.microsoft.VSCode", 20, 20),
    ];
    let flows = detect_flow_sessions(&sessions, later());
    assert_eq!(flows.len(), 1);
    assert_eq!(flows[0].duration_secs, 40 * 60);
}

#[test]
fn flow_start_is_written_in_rfc3339() {
    let sessions = vec![make_session(1, 1, "VSCode", "com.microsoft.VSCode", 0, 45)];
    let flows = detect_flow_sessions(&sessions, later());
    assert_eq!(flows[0].started_at, "2026-03-11T09:00:00+00:00");
    assert_eq!(flows[0].bundle_id, "com.microsoft.VSCode");
}

#[test]
fn test_calculate_focus_score_perfect() {
    assert_eq!(calculate_focus_score(0, 3600, 3600), 100);
}

#[test]
fn test_calculate_focus_score_poor() {
    assert_eq!(calculate_focus_score(60, 0, 3600), 0);
}

#[test]
fn test_calculate_focus_score_mixed() {
    let score = calculate_focus_score(10, 1800, 3600);
    assert!(score >= 65 && score <= 75);
    assert_eq!(score, 70);
}

#[test]
fn focus_score_without_activity_is_zero() {
    assert_eq!(calculate_focus_score(3, 0, 0), 0);
}

#[test]
fn test_focus_analysis_interpretation() {
    let analysis = FocusAnalysis {
        date: day(2026, 1, 30),
        switch_count: 5,
        flow_sessions: vec![],
        total_flow_secs: 3600,
        total_active_secs: 7200,
        focus_score: 85,
    };
    assert_eq!(analysis.score_interpretation(), "Good");
}

#[test]
fn score_words_at_the_edges() {
    let mut analysis = FocusAnalysis { date: 0, switch_count: 0, flow_sessions: vec![], total_flow_secs: 0, total_active_secs: 0, focus_score: 90 };
    assert_eq!(analysis.score_interpretation(), "Excellent");
    analysis.focus_score = 50;
    assert_eq!(analysis.score_interpretation(), "Fair");
    analysis.focus_score = 30;
    assert_eq!(analysis.score_interpretation(), "Poor");
    analysis.focus_score = 29;
    assert_eq!(analysis.score_interpretation(), "Very Distracted");
    analysis.focus_score = 101;
    assert_eq!(analysis.score_interpretation(), "Very Distracted");
}

#[test]
fn test_format_flow_time() {
    let analysis = FocusAnalysis {
        date: day(2026, 1, 30),
        switch_count: 0,
        flow_sessions: vec![],
        total_flow_secs: 3661,
        total_active_secs: 0,
        focus_score: 0,
    };
    assert_eq!(analysis.format_flow_time(), "1h 1m");
}

#[test]
fn flow_time_under_an_hour_shows_minutes() {
    let analysis = FocusAnalysis { date: 0, switch_count: 0, flow_sessions: vec![], total_flow_secs: 1800, total_active_secs: 0, focus_score: 0 };
    assert_eq!(analysis.format_flow_time(), "30m");
}

#[test]
fn open_session_counts_up_to_now() {
    let base = Utc.with_ymd_and_hms(2026, 3, 11, 9, 0, 0).unwrap();
    let mut s = make_session(1, 1, "VSCode", "com.microsoft.VSCode", 0, 0);
    s.ended_at = None;
    let now = nanos(base + Duration::seconds(90));
    assert_eq!(session_duration_secs(&s, now), 90);
}

#[test]
fn analysis_keeps_flow_within_active_time() {
    let sessions = vec![
        make_session(1, 1, "VSCode", "com.microsoft.VSCode", 0, 40),
        make_session(2, 2, "Safari", "com.apple.Safari", 40, 10),
        make_session(3, 1, "VSCode", "com.microsoft.VSCode", 50, 20),
    ];
    let a = analyze_focus(day(2026, 3, 11), &sessions, later());
    assert_eq!(a.total_active_secs, 70 * 60);
    assert_eq!(calculate_total_active_time(&sessions, later()), 70 * 60);
    assert_eq!(a.total_flow_secs, 40 * 60);
    assert!(a.total_flow_secs <= a.total_active_secs);
    assert_eq!(a.switch_count, 2);
    assert!(a.focus_score <= 100);
}
