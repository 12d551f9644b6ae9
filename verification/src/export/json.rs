//! The data written by the JSON export: the day summaries of a range of
//! days with their total and the number of known applications.

use vstd::prelude::*;
use crate::analytics::daily::DailySummary;
use crate::time::{
    date_text, day_string, rfc3339_string, rfc3339_text, split_instant, valid_day, valid_instant,
    MAX_DAY,
};

verus! {

/// Exported session data
pub struct SessionExport {
    pub app_name: String,
    pub bundle_id: String,
    pub started_at: String,
    pub ended_at: Option<String>,
    pub duration_secs: i64,
    pub ended_idle: bool,
}

/// Date range for export
pub struct DateRange {
    pub start: String,
    pub end: String,
}

/// Full export data structure
pub struct ExportData {
    pub export_date: String,
    pub date_range: DateRange,
    pub summaries: Vec<DailySummary>,
    pub total_screen_time_secs: i64,
    pub app_count: usize,
}

/// The days from `start` to `end`, both included.
pub open spec fn range_len(start: i32, end: i32) -> int {
    if start <= end {
        end - start + 1
    } else {
        0
    }
}

/// Sum of the daily totals.
pub open spec fn total_of(ss: Seq<DailySummary>) -> int
    decreases ss.len(),
{
    if ss.len() == 0 {
        0
    } else {
        total_of(ss.drop_last()) + ss.last().total_screen_time_secs
    }
}

/// Every running total of the summaries fits in `i64`.
pub open spec fn totals_fit(ss: Seq<DailySummary>) -> bool {
    forall|k: int| 0 <= k <= ss.len() ==> i64::MIN <= #[trigger] total_of(ss.take(k)) <= i64::MAX
}

/// The days of a range, in order: `start`, the day after, and so on up to
/// `end`; none when `end` comes before `start`.
pub fn days_in_range(start: i32, end: i32) -> (days: Vec<i32>)
    requires
        valid_day(start as int),
        valid_day(end as int),
        start <= end ==> end < MAX_DAY,
    ensures
        days@.len() == range_len(start, end),
        forall|i: int| 0 <= i < days@.len() ==> #[trigger] days@[i] == start + i,
{
    let mut days: Vec<i32> = Vec::new();
    if start > end {
        return days;
    }
    let mut current: i32 = start;
    while current <= end
        invariant
            start <= current <= end + 1,
            end < MAX_DAY,
            days@.len() == current - start,
            forall|i: int| 0 <= i < days@.len() ==> #[trigger] days@[i] == start + i,
        decreases end + 1 - current,
    {
        days.push(current);
        current = current + 1;
    }
    days
}

/// The summaries are one per day from `start` to `end`, in order.
pub open spec fn one_per_day(ss: Seq<DailySummary>, start: i32, end: i32) -> bool {
    &&& ss.len() == range_len(start, end)
    &&& forall|i: int| 0 <= i < ss.len() ==> #[trigger] ss[i].date == start + i
}

/// The export of a range of days: the export time, the range's first and
/// last day, the day summaries (one per day of the range, as
/// `days_in_range` lists them), their total, and the number of known
/// applications.
pub fn export_range(
    start: i32,
    end: i32,
    summaries: Vec<DailySummary>,
    app_count: usize,
    now: i128,
) -> (data: ExportData)
    requires
        valid_day(start as int),
        valid_day(end as int),
        valid_instant(now as int),
        totals_fit(summaries@),
        one_per_day(summaries@, start, end),
    ensures
        one_per_day(data.summaries@, start, end),
        data.export_date@ == rfc3339_text(
            split_instant(now as int).0 as i64,
            split_instant(now as int).1 as u32,
        ),
        data.date_range.start@ == date_text(start),
        data.date_range.end@ == date_text(end),
        data.summaries == summaries,
        data.total_screen_time_secs == total_of(summaries@),
        data.app_count == app_count,
{
    let mut total: i64 = 0;
    let mut i: usize = 0;
    while i < summaries.len()
        invariant
            i <= summaries@.len(),
            totals_fit(summaries@),
            total == total_of(summaries@.take(i as int)),
        decreases summaries@.len() - i,
    {
        assert(summaries@.take(i + 1).drop_last() =~= summaries@.take(i as int));
        assert(i64::MIN <= total_of(summaries@.take(i + 1)) <= i64::MAX);
        total = total + summaries[i].total_screen_time_secs;
        i = i + 1;
    }
    assert(summaries@.take(summaries@.len() as int) =~= summaries@);
    ExportData {
        export_date: rfc3339_string(now),
        date_range: DateRange { start: day_string(start), end: day_string(end) },
        summaries,
        total_screen_time_secs: total,
        app_count,
    }
}

} // verus!
