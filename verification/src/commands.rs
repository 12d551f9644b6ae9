//! Decisions behind the command-line interface: the days a report or an
//! export covers, the export format, the usage that goals are checked
//! against, and the text of goal listings.

use vstd::prelude::*;
use chrono::Datelike;
use crate::analytics::daily::{AppTime, CategoryTime, DailySummary};
use crate::config::TimeGoal;
use crate::maps::UsageMap;
use crate::text::{align_left, lowercase_text, nat_text, push_left, str_eq, to_lowercase, trunc_div, u64_text};
use crate::time::valid_day;

verus! {

/// The days a report over `period` covers, ending `today`: the last seven
/// days and today for "week", the last thirty and today for "month", else
/// today alone.
pub open spec fn period_days(period: Seq<char>, today: int) -> (int, int) {
    if period == "week"@ {
        (today - 7, today)
    } else if period == "month"@ {
        (today - 30, today)
    } else {
        (today, today)
    }
}

/// The first and last day a report over `period` covers.
pub fn period_range(period: &str, today: i32) -> (r: (i32, i32))
    requires
        valid_day(today as int),
        period@ == "week"@ ==> valid_day(today - 7),
        period@ == "month"@ ==> valid_day(today - 30),
    ensures
        r.0 == period_days(period@, today as int).0,
        r.1 == period_days(period@, today as int).1,
{
    if str_eq(period, "week") {
        (today - 7, today)
    } else if str_eq(period, "month") {
        (today - 30, today)
    } else {
        (today, today)
    }
}

/// The day chrono's `NaiveDate` parser reads from a text, if it reads one.
pub uninterp spec fn parsed_day(s: Seq<char>) -> Option<i32>;

/// Reads a `YYYY-MM-DD` date as its day number.
///
/// Trusted: calls `str::parse::<NaiveDate>` and converts a parsed date with
/// `num_days_from_ce`; the result is named by `parsed_day`. A `NaiveDate`
/// lies between chrono's earliest and latest dates, so a parsed day is valid.
#[verifier::external_body]
fn parse_day(s: &str) -> (r: Option<i32>)
    ensures
        r == parsed_day(s@),
        r matches Some(d) ==> valid_day(d as int),
{
    match s.parse::<chrono::NaiveDate>() {
        Ok(d) => Some(d.num_days_from_ce()),
        Err(_) => None,
    }
}

/// The message for a date that cannot be read.
pub open spec fn bad_date_text() -> Seq<char> {
    "Invalid date format. Use YYYY-MM-DD"@
}

/// The days an export covers, from what was given for its start and its
/// end: `None` when nothing was given, `Some(None)` when the text could not
/// be read. The start defaults to thirty days before today, the end to
/// today; an unreadable date is an error.
pub open spec fn export_days(from: Option<Option<i32>>, to: Option<Option<i32>>, today: i32) -> Result<(int, int), Seq<char>> {
    match (from, to) {
        (Some(None), _) => Err(bad_date_text()),
        (_, Some(None)) => Err(bad_date_text()),
        _ => Ok(
            (
                match from {
                    Some(Some(d)) => d as int,
                    _ => today - 30,
                },
                match to {
                    Some(Some(d)) => d as int,
                    _ => today as int,
                },
            ),
        ),
    }
}

/// The days an export covers, from the days read for its start and end.
pub fn resolve_export_dates(from: Option<Option<i32>>, to: Option<Option<i32>>, today: i32) -> (r: Result<(i32, i32), String>)
    requires
        valid_day(today as int),
        from is None ==> valid_day(today - 30),
    ensures
        match export_days(from, to, today) {
            Ok(days) => r matches Ok(p) && p.0 == days.0 && p.1 == days.1,
            Err(msg) => r is Err && r->Err_0@ == msg,
        },
{
    let start: i32 = match from {
        None => today - 30,
        Some(None) => {
            return Err(String::from_str("Invalid date format. Use YYYY-MM-DD"));
        },
        Some(Some(d)) => d,
    };
    let end: i32 = match to {
        None => today,
        Some(None) => {
            return Err(String::from_str("Invalid date format. Use YYYY-MM-DD"));
        },
        Some(Some(d)) => d,
    };
    Ok((start, end))
}

/// What was read from an optional date text.
pub open spec fn read_day(s: Option<Seq<char>>) -> Option<Option<i32>> {
    match s {
        Some(t) => Some(parsed_day(t)),
        None => None,
    }
}

/// The view of an optional string slice.
pub open spec fn opt_text(s: Option<&str>) -> Option<Seq<char>> {
    match s {
        Some(t) => Some(t@),
        None => None,
    }
}

/// The days an export covers, from the `--from` and `--to` texts.
pub fn export_dates(from: Option<&str>, to: Option<&str>, today: i32) -> (r: Result<(i32, i32), String>)
    requires
        valid_day(today as int),
        from is None ==> valid_day(today - 30),
    ensures
        match export_days(read_day(opt_text(from)), read_day(opt_text(to)), today) {
            Ok(days) => r matches Ok(p) && p.0 == days.0 && p.1 == days.1,
            Err(msg) => r is Err && r->Err_0@ == msg,
        },
{
    let f: Option<Option<i32>> = match from {
        Some(s) => Some(parse_day(s)),
        None => None,
    };
    let t: Option<Option<i32>> = match to {
        Some(s) => Some(parse_day(s)),
        None => None,
    };
    resolve_export_dates(f, t, today)
}

/// Export formats.
#[derive(Debug, Clone, Copy, PartialEq, Eq, Structural)]
pub enum ExportFormat {
    Json,
    Csv,
}

/// The format a lower-cased name stands for.
pub open spec fn format_of(lower: Seq<char>) -> Option<ExportFormat> {
    if lower == "json"@ {
        Some(ExportFormat::Json)
    } else if lower == "csv"@ {
        Some(ExportFormat::Csv)
    } else {
        None
    }
}

/// The format named by an already lower-cased name.
pub fn export_format_from_lowercase(lower: &str) -> (f: Option<ExportFormat>)
    ensures
        f == format_of(lower@),
{
    if str_eq(lower, "json") {
        Some(ExportFormat::Json)
    } else if str_eq(lower, "csv") {
        Some(ExportFormat::Csv)
    } else {
        None
    }
}

/// The format named by `format`, in any letter case; an unknown name gives
/// `Unknown format '{format}'. Use 'json' or 'csv'.`
pub fn parse_export_format(format: &str) -> (r: Result<ExportFormat, String>)
    ensures
        match format_of(lowercase_text(format@)) {
            Some(f) => r == Ok::<ExportFormat, String>(f),
            None => r is Err && r->Err_0@ == "Unknown format '"@ + format@ + "'. Use 'json' or 'csv'."@,
        },
{
    let lower = to_lowercase(format);
    match export_format_from_lowercase(lower.as_str()) {
        Some(f) => Ok(f),
        None => {
            let mut msg = String::from_str("Unknown format '");
            msg.append(format);
            msg.append("'. Use 'json' or 'csv'.");
            Err(msg)
        },
    }
}

/// Whole minutes of `secs` read as `u32`, as `(secs / 60) as u32` gives them.
pub open spec fn minutes_u32(secs: i64) -> int {
    trunc_div(secs as int, 60) % 0x1_0000_0000
}

/// Whole minutes of a number of seconds, as `u32`.
pub fn minutes_of_secs(secs: i64) -> (m: u32)
    ensures
        m == minutes_u32(secs),
{
    let mag: u64 = if secs >= 0 {
        secs as u64
    } else {
        (0i128 - secs as i128) as u64
    };
    let q: u64 = mag / 60;
    let low: u64 = q % 0x1_0000_0000;
    proof {
        let d: int = 0x1_0000_0000;
        let k: int = q as int / d;
        assert(q as int == k * d + low as int);
        if secs < 0 && low > 0 {
            vstd::arithmetic::div_mod::lemma_fundamental_div_mod_converse(
                -(q as int),
                d,
                -k - 1,
                d - low as int,
            );
        }
        if secs < 0 && low == 0 {
            vstd::arithmetic::div_mod::lemma_fundamental_div_mod_converse(-(q as int), d, -k, 0);
        }
    }
    if secs >= 0 || low == 0 {
        low as u32
    } else {
        (0x1_0000_0000 - low) as u32
    }
}

/// Minutes per application: each app's whole minutes under its bundle ID, a
/// later app replacing an earlier one with the same ID.
pub open spec fn app_minutes(apps: Seq<AppTime>) -> Map<Seq<char>, u32>
    decreases apps.len(),
{
    if apps.len() == 0 {
        Map::empty()
    } else {
        app_minutes(apps.drop_last()).insert(apps.last().bundle_id@, minutes_u32(apps.last().seconds) as u32)
    }
}

/// Minutes per category, in the same way.
pub open spec fn category_minutes(cats: Seq<CategoryTime>) -> Map<Seq<char>, u32>
    decreases cats.len(),
{
    if cats.len() == 0 {
        Map::empty()
    } else {
        category_minutes(cats.drop_last()).insert(
            cats.last().category@,
            minutes_u32(cats.last().seconds) as u32,
        )
    }
}

/// The app and category usage, in minutes, that goals are checked against.
pub fn usage_from_summary(summary: &DailySummary) -> (r: (UsageMap, UsageMap))
    ensures
        r.0@ == app_minutes(summary.top_apps@),
        r.1@ == category_minutes(summary.category_breakdown@),
{
    let mut apps = UsageMap::new();
    let n = summary.top_apps.len();
    let mut i: usize = 0;
    while i < n
        invariant
            n == summary.top_apps@.len(),
            i <= n,
            apps@ == app_minutes(summary.top_apps@.take(i as int)),
        decreases n - i,
    {
        let a = &summary.top_apps[i];
        assert(summary.top_apps@.take(i + 1).drop_last() =~= summary.top_apps@.take(i as int));
        apps.insert(a.bundle_id.clone(), minutes_of_secs(a.seconds));
        i = i + 1;
    }
    assert(summary.top_apps@.take(n as int) =~= summary.top_apps@);
    let mut cats = UsageMap::new();
    let k = summary.category_breakdown.len();
    let mut j: usize = 0;
    while j < k
        invariant
            k == summary.category_breakdown@.len(),
            j <= k,
            cats@ == category_minutes(summary.category_breakdown@.take(j as int)),
        decreases k - j,
    {
        let c = &summary.category_breakdown[j];
        assert(summary.category_breakdown@.take(j + 1).drop_last() =~= summary.category_breakdown@.take(
            j as int,
        ));
        cats.insert(c.category.clone(), minutes_of_secs(c.seconds));
        j = j + 1;
    }
    assert(summary.category_breakdown@.take(k as int) =~= summary.category_breakdown@);
    (apps, cats)
}

/// The line listing a goal: `  {target:30} {h}h {m}m/day ({kind})` for a
/// limit of an hour or more, else `  {target:30} {m}m/day ({kind})`, the
/// kind being "category" or "app".
pub open spec fn goal_line_text(goal: TimeGoal) -> Seq<char> {
    let h = goal.daily_limit_minutes / 60;
    let m = goal.daily_limit_minutes % 60;
    let kind = if goal.is_category {
        "category"@
    } else {
        "app"@
    };
    "  "@ + align_left(goal.target@, 30) + " "@ + if h > 0 {
        nat_text(h as nat) + "h "@ + nat_text(m as nat) + "m/day ("@ + kind + ")"@
    } else {
        nat_text(m as nat) + "m/day ("@ + kind + ")"@
    }
}

/// The line listing a goal.
pub fn goal_line(goal: &TimeGoal) -> (line: String)
    ensures
        line@ == goal_line_text(*goal),
{
    let h = goal.daily_limit_minutes / 60;
    let m = goal.daily_limit_minutes % 60;
    let mut line = String::from_str("  ");
    push_left(&mut line, goal.target.as_str(), 30);
    line.append(" ");
    if h > 0 {
        let ht = u64_text(h as u64);
        line.append(ht.as_str());
        line.append("h ");
    }
    let mt = u64_text(m as u64);
    line.append(mt.as_str());
    line.append("m/day (");
    if goal.is_category {
        line.append("category");
    } else {
        line.append("app");
    }
    line.append(")");
    line
}

} // verus!
