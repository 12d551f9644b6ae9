use chrono::{Datelike, NaiveDate, TimeZone, Utc};
use shade::analytics::categories::default_categories;
use shade::analytics::daily::{compute_daily_summary, AppTime, CategoryTime, DailySummary};
use shade::export::csv::parse_export_type;
use shade::export::{days_in_range, escape_csv_field, export_apps_csv, export_categories_csv, export_daily_csv, export_range, CsvExportType};

fn day(y: i32, m: u32, d: u32) -> i32 {
    NaiveDate::from_ymd_opt(y, m, d).unwrap().num_days_from_ce()
}

fn empty_days(start: i32, end: i32) -> Vec<DailySummary> {
    let cats = default_categories();
    days_in_range(start, end)
        .into_iter()
        .map(|d| compute_daily_summary(d, 0, vec![], Some(&cats)))
        .collect()
}

#[test]
fn test_export_daily_csv_empty() {
    let today = day(2026, 1, 30);
    let csv = export_daily_csv(&empty_days(today, today));
    assert!(csv.starts_with("date,total_screen_time_secs,total_screen_time_formatted\n"));
    let lines: Vec<&str> = csv.lines().collect();
    assert_eq!(lines.len(), 2);
    assert_eq!(lines[1], "2026-01-30,0,0h 0m");
}

#[test]
fn test_export_daily_csv_multiple_days() {
    let today = day(2026, 1, 30);
    let csv = export_daily_csv(&empty_days(today - 7, today));
    let lines: Vec<&str> = csv.lines().collect();
    assert_eq!(lines.len(), 9);
    assert_eq!(lines[1], "2026-01-23,0,0h 0m");
}

#[test]
fn test_export_apps_csv_header() {
    let today = day(2026, 1, 30);
    let csv = export_apps_csv(&empty_days(today, today));
    assert!(csv.starts_with("date,app_name,bundle_id,duration_secs,duration_formatted\n"));
}

#[test]
fn test_export_categories_csv_header() {
    let today = day(2026, 1, 30);
    let csv = export_categories_csv(&empty_days(today, today));
    assert!(csv.starts_with("date,category,duration_secs,duration_formatted\n"));
}

#[test]
fn apps_and_categories_csv_rows() {
    let summary = DailySummary {
        date: day(2026, 1, 30),
        total_screen_time_secs: 3900,
        category_breakdown: vec![CategoryTime { category: "Browsers".to_string(), seconds: 3900 }],
        top_apps: vec![
            AppTime { name: "Safari, Web".to_string(), bundle_id: "com.apple.Safari".to_string(), seconds: 3660 },
            AppTime { name: "Chrome".to_string(), bundle_id: "com.google.Chrome".to_string(), seconds: 240 },
        ],
    };
    let apps = export_apps_csv(std::slice::from_ref(&summary));
    assert_eq!(
        apps,
        "date,app_name,bundle_id,duration_secs,duration_formatted\n\
         2026-01-30,\"Safari, Web\",com.apple.Safari,3660,1h 1m\n\
         2026-01-30,Chrome,com.google.Chrome,240,4m\n"
    );
    let cats = export_categories_csv(std::slice::from_ref(&summary));
    assert_eq!(cats, "date,category,duration_secs,duration_formatted\n2026-01-30,Browsers,3900,1h 5m\n");
    let daily = export_daily_csv(std::slice::from_ref(&summary));
    assert_eq!(daily, "date,total_screen_time_secs,total_screen_time_formatted\n2026-01-30,3900,1h 5m\n");
}

#[test]
fn test_escape_csv_field_simple() {
    assert_eq!(escape_csv_field("hello"), "hello");
}

#[test]
fn test_escape_csv_field_with_comma() {
    assert_eq!(escape_csv_field("hello, world"), "\"hello, world\"");
}

#[test]
fn test_escape_csv_field_with_quote() {
    assert_eq!(escape_csv_field("say \"hi\""), "\"say \"\"hi\"\"\"");
}

#[test]
fn escape_csv_field_with_newline() {
    assert_eq!(escape_csv_field("a\nb"), "\"a\nb\"");
    assert_eq!(escape_csv_field(""), "");
}

#[test]
fn test_csv_export_type_from_str() {
    assert_eq!("daily".parse::<CsvExportType>().unwrap(), CsvExportType::Daily);
    assert_eq!("apps".parse::<CsvExportType>().unwrap(), CsvExportType::Apps);
    assert_eq!("CATEGORIES".parse::<CsvExportType>().unwrap(), CsvExportType::Categories);
    assert!("invalid".parse::<CsvExportType>().is_err());
}

#[test]
fn unknown_export_type_message() {
    assert_eq!(parse_export_type("Weekly"), Err("Unknown CSV export type: Weekly".to_string()));
    assert_eq!(parse_export_type("DaIlY"), Ok(CsvExportType::Daily));
}

#[test]
fn test_export_range_empty() {
    let today = day(2026, 1, 30);
    let now = Utc.with_ymd_and_hms(2026, 1, 30, 12, 0, 0).unwrap().timestamp_nanos_opt().unwrap() as i128;
    let export = export_range(today, today, empty_days(today, today), 0, now);
    assert_eq!(export.summaries.len(), 1);
    assert_eq!(export.total_screen_time_secs, 0);
    assert_eq!(export.app_count, 0);
    assert_eq!(export.export_date, "2026-01-30T12:00:00+00:00");
    assert_eq!(export.date_range.start, "2026-01-30");
}

#[test]
fn test_export_range_multiple_days() {
    let today = day(2026, 1, 30);
    let week_ago = today - 7;
    let export = export_range(week_ago, today, empty_days(week_ago, today), 3, 0);
    assert_eq!(export.summaries.len(), 8);
    assert_eq!(export.date_range.start, "2026-01-23");
    assert_eq!(export.date_range.end, "2026-01-30");
    assert_eq!(export.export_date, "1970-01-01T00:00:00+00:00");
}

#[test]
fn export_total_is_the_sum_of_the_days() {
    let a = compute_daily_summary(day(2026, 1, 1), 100, vec![], None);
    let b = compute_daily_summary(day(2026, 1, 2), 250, vec![], None);
    let export = export_range(day(2026, 1, 1), day(2026, 1, 2), vec![a, b], 2, 0);
    assert_eq!(export.total_screen_time_secs, 350);
}

#[test]
fn days_in_range_lists_each_day_once() {
    let start = day(2024, 2, 27);
    let days = days_in_range(start, day(2024, 3, 1));
    assert_eq!(days, vec![start, start + 1, start + 2, start + 3]);
    assert!(days_in_range(start, start - 1).is_empty());
}

#[test]
fn escaping_keeps_fields_apart() {
    let fields = ["a", "\"a\"", "a,b", "\"a,b\"", "a\"\"", "", "\"", "\"\""];
    for (i, x) in fields.iter().enumerate() {
        for (j, y) in fields.iter().enumerate() {
            if i != j {
                assert_ne!(escape_csv_field(x), escape_csv_field(y));
            }
        }
    }
}
