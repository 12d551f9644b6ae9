use chrono::{Datelike, NaiveDate};
use shade::analytics::categories::default_categories;
use shade::analytics::daily::{AppTime, CategoryTime, DailySummary};
use shade::commands::{
    export_dates, goal_line, minutes_of_secs, parse_export_format, period_range, resolve_export_dates, usage_from_summary,
    ExportFormat,
};
use shade::config::TimeGoal;
use shade::maps::{text_less, CategoryMap};

fn day(y: i32, m: u32, d: u32) -> i32 {
    NaiveDate::from_ymd_opt(y, m, d).unwrap().num_days_from_ce()
}

#[test]
fn periods_end_today() {
    let today = day(2026, 1, 30);
    assert_eq!(period_range("week", today), (today - 7, today));
    assert_eq!(period_range("month", today), (today - 30, today));
    assert_eq!(period_range("today", today), (today, today));
    assert_eq!(period_range("WEEK", today), (today, today));
}

#[test]
fn export_dates_default_to_the_last_thirty_days() {
    let today = day(2026, 1, 30);
    assert_eq!(export_dates(None, None, today), Ok((today - 30, today)));
    assert_eq!(
        export_dates(Some("2026-01-01"), Some("2026-01-15"), today),
        Ok((day(2026, 1, 1), day(2026, 1, 15)))
    );
    assert_eq!(export_dates(Some("2026-01-01"), None, today), Ok((day(2026, 1, 1), today)));
}

#[test]
fn unreadable_export_dates_are_errors() {
    let today = day(2026, 1, 30);
    let msg = "Invalid date format. Use YYYY-MM-DD".to_string();
    assert_eq!(export_dates(Some("30/01/2026"), None, today), Err(msg.clone()));
    assert_eq!(export_dates(None, Some("2026-02-30"), today), Err(msg.clone()));
    assert_eq!(resolve_export_dates(Some(None), Some(Some(5)), today), Err(msg));
    assert_eq!(resolve_export_dates(Some(Some(5)), None, today), Ok((5, today)));
}

#[test]
fn export_format_names() {
    assert_eq!(parse_export_format("JSON"), Ok(ExportFormat::Json));
    assert_eq!(parse_export_format("csv"), Ok(ExportFormat::Csv));
    assert_eq!(parse_export_format("xml"), Err("Unknown format 'xml'. Use 'json' or 'csv'.".to_string()));
}

#[test]
fn minutes_truncate_and_wrap() {
    assert_eq!(minutes_of_secs(3599), 59);
    assert_eq!(minutes_of_secs(0), 0);
    assert_eq!(minutes_of_secs(-61), ((-61i64 / 60) as u32));
    assert_eq!(minutes_of_secs(i64::MAX), ((i64::MAX / 60) as u32));
}

#[test]
fn usage_maps_come_from_the_summary() {
    let summary = DailySummary {
        date: day(2026, 1, 30),
        total_screen_time_secs: 5400,
        category_breakdown: vec![CategoryTime { category: "Development".to_string(), seconds: 5400 }],
        top_apps: vec![
            AppTime { name: "Code".to_string(), bundle_id: "code".to_string(), seconds: 3600 },
            AppTime { name: "Term".to_string(), bundle_id: "term".to_string(), seconds: 1799 },
        ],
    };
    let (apps, cats) = usage_from_summary(&summary);
    assert_eq!(apps.get("code"), Some(&60));
    assert_eq!(apps.get("term"), Some(&29));
    assert_eq!(cats.get("Development"), Some(&90));
    assert_eq!(apps.len(), 2);
}

#[test]
fn goal_lines() {
    assert_eq!(goal_line(&TimeGoal::for_app("com.example.app", 90)), format!("  {:30} 1h 30m/day (app)", "com.example.app"));
    assert_eq!(goal_line(&TimeGoal::for_category("Social", 45)), format!("  {:30} 45m/day (category)", "Social"));
}

#[test]
fn keys_for_a_category() {
    let defaults = default_categories();
    let browsers = defaults.keys_for_value("Browsers");
    assert_eq!(browsers.len(), 7);
    assert!(browsers.contains(&"com.apple.Safari".to_string()));
    assert!(defaults.keys_for_value("Nothing").is_empty());
}

#[test]
fn value_counts_are_sorted_by_name() {
    let mut m = CategoryMap::new();
    m.insert("a".to_string(), "Work".to_string());
    m.insert("b".to_string(), "Fun".to_string());
    m.insert("c".to_string(), "Work".to_string());
    m.insert("d".to_string(), "Chat".to_string());
    let counts = m.value_counts();
    assert_eq!(
        counts,
        vec![("Chat".to_string(), 1), ("Fun".to_string(), 1), ("Work".to_string(), 2)]
    );
    let defaults = default_categories().value_counts();
    let total: usize = defaults.iter().map(|(_, n)| n).sum();
    assert_eq!(total, default_categories().len());
    for w in defaults.windows(2) {
        assert!(w[0].0 < w[1].0);
    }
}

#[test]
fn text_order_follows_str() {
    for (a, b) in [("a", "b"), ("ab", "a"), ("", "x"), ("Z", "a"), ("é", "z"), ("same", "same")] {
        assert_eq!(text_less(a, b), a < b);
    }
}
