//! CSV export: daily totals, per-app and per-category time, one line per
//! row after a header line.

use vstd::prelude::*;
use crate::analytics::daily::{AppTime, CategoryTime, DailySummary};
use crate::text::{
    format_short_duration, hm_text, i64_text, int_text, lowercase_text, push_char, short_duration_text,
    str_eq, to_lowercase,
};
use crate::time::{date_text, day_string, valid_day};

verus! {

/// Header of the daily CSV.
pub open spec fn daily_header() -> Seq<char> {
    "date,total_screen_time_secs,total_screen_time_formatted\n"@
}

/// Header of the per-app CSV.
pub open spec fn apps_header() -> Seq<char> {
    "date,app_name,bundle_id,duration_secs,duration_formatted\n"@
}

/// Header of the per-category CSV.
pub open spec fn categories_header() -> Seq<char> {
    "date,category,duration_secs,duration_formatted\n"@
}

/// A character that makes a CSV field need quoting.
pub open spec fn special(c: char) -> bool {
    c == ',' || c == '"' || c == '\n'
}

/// Whether a field holds a comma, a quote or a newline.
pub open spec fn needs_quoting(s: Seq<char>) -> bool {
    exists|j: int| 0 <= j < s.len() && special(#[trigger] s[j])
}

/// `s` with each `"` doubled.
pub open spec fn double_quotes(s: Seq<char>) -> Seq<char>
    decreases s.len(),
{
    if s.len() == 0 {
        Seq::empty()
    } else {
        double_quotes(s.drop_last()) + if s.last() == '"' {
            seq!['"', '"']
        } else {
            seq![s.last()]
        }
    }
}

/// A field as written to CSV: quoted, with quotes doubled, when it holds a
/// comma, a quote or a newline; else as it is.
pub open spec fn escaped(s: Seq<char>) -> Seq<char> {
    if needs_quoting(s) {
        seq!['"'] + double_quotes(s) + seq!['"']
    } else {
        s
    }
}

proof fn lemma_double_quotes_last(s: Seq<char>)
    requires
        s.len() > 0,
    ensures
        s.last() == '"' ==> double_quotes(s) == double_quotes(s.drop_last()) + seq!['"', '"'],
        s.last() != '"' ==> double_quotes(s) == double_quotes(s.drop_last()).push(s.last()),
{
    if s.last() != '"' {
        assert(double_quotes(s.drop_last()) + seq![s.last()] =~= double_quotes(s.drop_last()).push(
            s.last(),
        ));
    }
}

proof fn lemma_double_quotes_len(s: Seq<char>)
    ensures
        double_quotes(s).len() >= s.len(),
        s.len() > 0 ==> double_quotes(s).len() > 0,
    decreases s.len(),
{
    if s.len() > 0 {
        lemma_double_quotes_len(s.drop_last());
    }
}

proof fn lemma_double_quotes_injective(a: Seq<char>, b: Seq<char>)
    requires
        double_quotes(a) == double_quotes(b),
    ensures
        a == b,
    decreases a.len() + b.len(),
{
    lemma_double_quotes_len(a);
    lemma_double_quotes_len(b);
    if a.len() == 0 || b.len() == 0 {
        assert(a.len() == 0 && b.len() == 0);
        assert(a =~= b);
    } else {
        lemma_double_quotes_last(a);
        lemma_double_quotes_last(b);
        let da = double_quotes(a);
        let pa = double_quotes(a.drop_last());
        let pb = double_quotes(b.drop_last());
        if a.last() == '"' && b.last() == '"' {
            assert(pa =~= da.subrange(0, da.len() - 2));
            assert(pb =~= da.subrange(0, da.len() - 2));
        } else if a.last() != '"' && b.last() != '"' {
            assert(pa =~= da.drop_last());
            assert(pb =~= da.drop_last());
            assert(a.last() == da.last() && b.last() == da.last());
        } else if a.last() == '"' {
            assert(da.last() == '"');
            assert(double_quotes(b).last() == b.last());
        } else {
            assert(da.last() == a.last());
            assert(double_quotes(b).last() == '"');
        }
        if a.last() == b.last() {
            lemma_double_quotes_injective(a.drop_last(), b.drop_last());
            assert(a =~= a.drop_last().push(a.last()));
            assert(b =~= b.drop_last().push(b.last()));
        }
    }
}

/// Escaping loses nothing: different fields are written differently.
pub proof fn law_escaping_is_injective(a: Seq<char>, b: Seq<char>)
    requires
        escaped(a) == escaped(b),
    ensures
        a == b,
{
    let qa = needs_quoting(a);
    let qb = needs_quoting(b);
    if qa && qb {
        let ea = escaped(a);
        assert(double_quotes(a) =~= ea.subrange(1, ea.len() - 1));
        assert(double_quotes(b) =~= ea.subrange(1, ea.len() - 1));
        lemma_double_quotes_injective(a, b);
    } else if qa && !qb {
        assert(escaped(a)[0] == '"');
        assert(b[0] == '"');
        assert(special(b[0]));
    } else if !qa && qb {
        assert(escaped(b)[0] == '"');
        assert(a[0] == '"');
        assert(special(a[0]));
    }
}

/// All days of the summaries can be written.
pub open spec fn days_valid(ss: Seq<DailySummary>) -> bool {
    forall|i: int| 0 <= i < ss.len() ==> valid_day(#[trigger] ss[i].date as int)
}

/// `date,total_secs,total_formatted` for one day.
pub open spec fn daily_line(s: DailySummary) -> Seq<char> {
    date_text(s.date) + ","@ + int_text(s.total_screen_time_secs as int) + ","@ + hm_text(
        s.total_screen_time_secs as int,
    ) + "\n"@
}

/// The daily lines of several days.
pub open spec fn daily_rows(ss: Seq<DailySummary>) -> Seq<char>
    decreases ss.len(),
{
    if ss.len() == 0 {
        Seq::empty()
    } else {
        daily_rows(ss.drop_last()) + daily_line(ss.last())
    }
}

/// `date,name,bundle_id,secs,formatted` for one app.
pub open spec fn app_line(day: i32, a: AppTime) -> Seq<char> {
    date_text(day) + ","@ + escaped(a.name@) + ","@ + a.bundle_id@ + ","@ + int_text(a.seconds as int)
        + ","@ + short_duration_text(a.seconds as int) + "\n"@
}

/// The app lines of one day.
pub open spec fn app_lines(day: i32, apps: Seq<AppTime>) -> Seq<char>
    decreases apps.len(),
{
    if apps.len() == 0 {
        Seq::empty()
    } else {
        app_lines(day, apps.drop_last()) + app_line(day, apps.last())
    }
}

/// The app lines of several days.
pub open spec fn apps_rows(ss: Seq<DailySummary>) -> Seq<char>
    decreases ss.len(),
{
    if ss.len() == 0 {
        Seq::empty()
    } else {
        apps_rows(ss.drop_last()) + app_lines(ss.last().date, ss.last().top_apps@)
    }
}

/// `date,category,secs,formatted` for one category.
pub open spec fn category_line(day: i32, c: CategoryTime) -> Seq<char> {
    date_text(day) + ","@ + c.category@ + ","@ + int_text(c.seconds as int) + ","@
        + short_duration_text(c.seconds as int) + "\n"@
}

/// The category lines of one day.
pub open spec fn category_lines(day: i32, cats: Seq<CategoryTime>) -> Seq<char>
    decreases cats.len(),
{
    if cats.len() == 0 {
        Seq::empty()
    } else {
        category_lines(day, cats.drop_last()) + category_line(day, cats.last())
    }
}

/// The category lines of several days.
pub open spec fn categories_rows(ss: Seq<DailySummary>) -> Seq<char>
    decreases ss.len(),
{
    if ss.len() == 0 {
        Seq::empty()
    } else {
        categories_rows(ss.drop_last()) + category_lines(
            ss.last().date,
            ss.last().category_breakdown@,
        )
    }
}

/// Every line written for a day begins with that day's date and a comma.
pub proof fn law_lines_start_with_their_date(s: DailySummary, day: i32, a: AppTime, c: CategoryTime)
    ensures
        daily_line(s).take(date_text(s.date).len() as int + 1) == date_text(s.date) + ","@,
        app_line(day, a).take(date_text(day).len() as int + 1) == date_text(day) + ","@,
        category_line(day, c).take(date_text(day).len() as int + 1) == date_text(day) + ","@,
{
    reveal_strlit(",");
    let d = date_text(s.date);
    let rest = int_text(s.total_screen_time_secs as int) + ","@ + hm_text(s.total_screen_time_secs as int)
        + "\n"@;
    assert(daily_line(s) =~= (d + ","@) + rest);
    assert(daily_line(s).take(d.len() as int + 1) =~= d + ","@);
    let e = date_text(day);
    assert(app_line(day, a).take(e.len() as int + 1) =~= e + ","@);
    assert(category_line(day, c).take(e.len() as int + 1) =~= e + ","@);
}

/// The rows of consecutive days are the rows of each day, in order: the
/// table of `a` followed by `b` is the table of `a` followed by that of `b`.
pub proof fn law_rows_concatenate(a: Seq<DailySummary>, b: Seq<DailySummary>)
    ensures
        daily_rows(a + b) == daily_rows(a) + daily_rows(b),
        apps_rows(a + b) == apps_rows(a) + apps_rows(b),
        categories_rows(a + b) == categories_rows(a) + categories_rows(b),
    decreases b.len(),
{
    if b.len() == 0 {
        assert(a + b =~= a);
        assert(daily_rows(a) + daily_rows(b) =~= daily_rows(a));
        assert(apps_rows(a) + apps_rows(b) =~= apps_rows(a));
        assert(categories_rows(a) + categories_rows(b) =~= categories_rows(a));
    } else {
        assert((a + b).drop_last() =~= a + b.drop_last());
        assert((a + b).last() == b.last());
        law_rows_concatenate(a, b.drop_last());
        assert(daily_rows(a + b) =~= daily_rows(a) + daily_rows(b));
        assert(apps_rows(a + b) =~= apps_rows(a) + apps_rows(b));
        assert(categories_rows(a + b) =~= categories_rows(a) + categories_rows(b));
    }
}

/// The rows of one day: its daily line; and its app and category lines,
/// each dated with that day.
pub proof fn law_rows_of_one_day(s: DailySummary)
    ensures
        daily_rows(seq![s]) == daily_line(s),
        apps_rows(seq![s]) == app_lines(s.date, s.top_apps@),
        categories_rows(seq![s]) == category_lines(s.date, s.category_breakdown@),
{
    let one = seq![s];
    assert(one.drop_last() =~= Seq::<DailySummary>::empty());
    assert(one.last() == s);
    assert(daily_rows(Seq::<DailySummary>::empty()) == Seq::<char>::empty());
    assert(apps_rows(Seq::<DailySummary>::empty()) == Seq::<char>::empty());
    assert(categories_rows(Seq::<DailySummary>::empty()) == Seq::<char>::empty());
    assert(Seq::<char>::empty() + daily_line(s) =~= daily_line(s));
    assert(Seq::<char>::empty() + app_lines(s.date, s.top_apps@) =~= app_lines(s.date, s.top_apps@));
    assert(Seq::<char>::empty() + category_lines(s.date, s.category_breakdown@) =~= category_lines(
        s.date,
        s.category_breakdown@,
    ));
}

/// The lines of a day's apps (or categories) are the line of each, in
/// order, all with the same date.
pub proof fn law_lines_concatenate(day: i32, a: Seq<AppTime>, b: Seq<AppTime>, c: Seq<CategoryTime>, d: Seq<CategoryTime>, x: AppTime, y: CategoryTime)
    ensures
        app_lines(day, a + b) == app_lines(day, a) + app_lines(day, b),
        category_lines(day, c + d) == category_lines(day, c) + category_lines(day, d),
        app_lines(day, seq![x]) == app_line(day, x),
        category_lines(day, seq![y]) == category_line(day, y),
{
    lemma_app_lines_concat(day, a, b);
    lemma_category_lines_concat(day, c, d);
    let one = seq![x];
    assert(one.drop_last() =~= Seq::<AppTime>::empty());
    assert(one.last() == x);
    assert(app_lines(day, Seq::<AppTime>::empty()) == Seq::<char>::empty());
    assert(Seq::<char>::empty() + app_line(day, x) =~= app_line(day, x));
    let two = seq![y];
    assert(two.drop_last() =~= Seq::<CategoryTime>::empty());
    assert(two.last() == y);
    assert(category_lines(day, Seq::<CategoryTime>::empty()) == Seq::<char>::empty());
    assert(Seq::<char>::empty() + category_line(day, y) =~= category_line(day, y));
}

proof fn lemma_app_lines_concat(day: i32, a: Seq<AppTime>, b: Seq<AppTime>)
    ensures
        app_lines(day, a + b) == app_lines(day, a) + app_lines(day, b),
    decreases b.len(),
{
    if b.len() == 0 {
        assert(a + b =~= a);
        assert(app_lines(day, a) + app_lines(day, b) =~= app_lines(day, a));
    } else {
        assert((a + b).drop_last() =~= a + b.drop_last());
        assert((a + b).last() == b.last());
        lemma_app_lines_concat(day, a, b.drop_last());
        assert(app_lines(day, a + b) =~= app_lines(day, a) + app_lines(day, b));
    }
}

proof fn lemma_category_lines_concat(day: i32, a: Seq<CategoryTime>, b: Seq<CategoryTime>)
    ensures
        category_lines(day, a + b) == category_lines(day, a) + category_lines(day, b),
    decreases b.len(),
{
    if b.len() == 0 {
        assert(a + b =~= a);
        assert(category_lines(day, a) + category_lines(day, b) =~= category_lines(day, a));
    } else {
        assert((a + b).drop_last() =~= a + b.drop_last());
        assert((a + b).last() == b.last());
        lemma_category_lines_concat(day, a, b.drop_last());
        assert(category_lines(day, a + b) =~= category_lines(day, a) + category_lines(day, b));
    }
}

/// Escapes a CSV field: wraps it in quotes, doubling the quotes inside, when
/// it holds a comma, a quote or a newline.
pub fn escape_csv_field(field: &str) -> (s: String)
    ensures
        s@ == escaped(field@),
{
    let n = field.unicode_len();
    let mut doubled = String::new();
    let mut found = false;
    let mut i: usize = 0;
    while i < n
        invariant
            n == field@.len(),
            i <= n,
            doubled@ == double_quotes(field@.take(i as int)),
            found <==> exists|j: int| 0 <= j < i && special(#[trigger] field@[j]),
        decreases n - i,
    {
        let c = field.get_char(i);
        assert(field@.take(i + 1).drop_last() =~= field@.take(i as int));
        if c == '"' {
            push_char(&mut doubled, '"');
            push_char(&mut doubled, '"');
            assert(doubled@ =~= double_quotes(field@.take(i as int)) + seq!['"', '"']);
        } else {
            push_char(&mut doubled, c);
        }
        if c == ',' || c == '"' || c == '\n' {
            found = true;
        }
        i = i + 1;
    }
    assert(field@.take(n as int) =~= field@);
    if found {
        let mut s = String::new();
        push_char(&mut s, '"');
        s.append(doubled.as_str());
        push_char(&mut s, '"');
        assert(s@ =~= seq!['"'] + double_quotes(field@) + seq!['"']);
        s
    } else {
        field.to_owned()
    }
}

/// Daily totals as CSV: `date,total_screen_time_secs,total_screen_time_formatted`.
pub fn export_daily_csv(summaries: &[DailySummary]) -> (csv: String)
    requires
        days_valid(summaries@),
    ensures
        csv@ == daily_header() + daily_rows(summaries@),
{
    let mut csv = String::from_str("date,total_screen_time_secs,total_screen_time_formatted\n");
    let mut i: usize = 0;
    while i < summaries.len()
        invariant
            i <= summaries@.len(),
            days_valid(summaries@),
            csv@ == daily_header() + daily_rows(summaries@.take(i as int)),
        decreases summaries@.len() - i,
    {
        let s = &summaries[i];
        assert(summaries@.take(i + 1).drop_last() =~= summaries@.take(i as int));
        assert(valid_day(summaries@[i as int].date as int));
        let day = day_string(s.date);
        csv.append(day.as_str());
        csv.append(",");
        let total = i64_text(s.total_screen_time_secs);
        csv.append(total.as_str());
        csv.append(",");
        let formatted = s.format_total_time();
        csv.append(formatted.as_str());
        csv.append("\n");
        i = i + 1;
    }
    assert(summaries@.take(summaries@.len() as int) =~= summaries@);
    csv
}

/// Appends the app lines of one day.
#[verifier::rlimit(40)]
fn push_app_lines(csv: &mut String, day: i32, apps: &[AppTime])
    requires
        valid_day(day as int),
    ensures
        final(csv)@ == old(csv)@ + app_lines(day, apps@),
{
    let ghost start = csv@;
    let mut j: usize = 0;
    while j < apps.len()
        invariant
            j <= apps@.len(),
            valid_day(day as int),
            csv@ == start + app_lines(day, apps@.take(j as int)),
        decreases apps@.len() - j,
    {
        let a = &apps[j];
        assert(apps@.take(j + 1).drop_last() =~= apps@.take(j as int));
        let d = day_string(day);
        csv.append(d.as_str());
        csv.append(",");
        let name = escape_csv_field(a.name.as_str());
        csv.append(name.as_str());
        csv.append(",");
        csv.append(a.bundle_id.as_str());
        csv.append(",");
        let secs = i64_text(a.seconds);
        csv.append(secs.as_str());
        csv.append(",");
        let formatted = format_short_duration(a.seconds);
        csv.append(formatted.as_str());
        csv.append("\n");
        j = j + 1;
    }
    assert(apps@.take(apps@.len() as int) =~= apps@);
}

/// Per-app time as CSV: `date,app_name,bundle_id,duration_secs,duration_formatted`,
/// with app names escaped.
pub fn export_apps_csv(summaries: &[DailySummary]) -> (csv: String)
    requires
        days_valid(summaries@),
    ensures
        csv@ == apps_header() + apps_rows(summaries@),
{
    let mut csv = String::from_str("date,app_name,bundle_id,duration_secs,duration_formatted\n");
    let mut i: usize = 0;
    while i < summaries.len()
        invariant
            i <= summaries@.len(),
            days_valid(summaries@),
            csv@ == apps_header() + apps_rows(summaries@.take(i as int)),
        decreases summaries@.len() - i,
    {
        let s = &summaries[i];
        assert(summaries@.take(i + 1).drop_last() =~= summaries@.take(i as int));
        assert(valid_day(summaries@[i as int].date as int));
        push_app_lines(&mut csv, s.date, s.top_apps.as_slice());
        i = i + 1;
    }
    assert(summaries@.take(summaries@.len() as int) =~= summaries@);
    csv
}

/// Appends the category lines of one day.
#[verifier::rlimit(40)]
fn push_category_lines(csv: &mut String, day: i32, cats: &[CategoryTime])
    requires
        valid_day(day as int),
    ensures
        final(csv)@ == old(csv)@ + category_lines(day, cats@),
{
    let ghost start = csv@;
    let mut j: usize = 0;
    while j < cats.len()
        invariant
            j <= cats@.len(),
            valid_day(day as int),
            csv@ == start + category_lines(day, cats@.take(j as int)),
        decreases cats@.len() - j,
    {
        let c = &cats[j];
        assert(cats@.take(j + 1).drop_last() =~= cats@.take(j as int));
        let d = day_string(day);
        csv.append(d.as_str());
        csv.append(",");
        csv.append(c.category.as_str());
        csv.append(",");
        let secs = i64_text(c.seconds);
        csv.append(secs.as_str());
        csv.append(",");
        let formatted = format_short_duration(c.seconds);
        csv.append(formatted.as_str());
        csv.append("\n");
        j = j + 1;
    }
    assert(cats@.take(cats@.len() as int) =~= cats@);
}

/// Per-category time as CSV: `date,category,duration_secs,duration_formatted`.
pub fn export_categories_csv(summaries: &[DailySummary]) -> (csv: String)
    requires
        days_valid(summaries@),
    ensures
        csv@ == categories_header() + categories_rows(summaries@),
{
    let mut csv = String::from_str("date,category,duration_secs,duration_formatted\n");
    let mut i: usize = 0;
    while i < summaries.len()
        invariant
            i <= summaries@.len(),
            days_valid(summaries@),
            csv@ == categories_header() + categories_rows(summaries@.take(i as int)),
        decreases summaries@.len() - i,
    {
        let s = &summaries[i];
        assert(summaries@.take(i + 1).drop_last() =~= summaries@.take(i as int));
        assert(valid_day(summaries@[i as int].date as int));
        push_category_lines(&mut csv, s.date, s.category_breakdown.as_slice());
        i = i + 1;
    }
    assert(summaries@.take(summaries@.len() as int) =~= summaries@);
    csv
}

/// CSV export type
#[derive(Debug, Clone, Copy, PartialEq, Eq, Structural)]
pub enum CsvExportType {
    /// Daily totals
    Daily,
    /// Per-app breakdown
    Apps,
    /// Category breakdown
    Categories,
}

/// The export type a lower-cased name stands for.
pub open spec fn export_type_of(lower: Seq<char>) -> Option<CsvExportType> {
    if lower == "daily"@ {
        Some(CsvExportType::Daily)
    } else if lower == "apps"@ {
        Some(CsvExportType::Apps)
    } else if lower == "categories"@ {
        Some(CsvExportType::Categories)
    } else {
        None
    }
}

/// The export type named by an already lower-cased name.
pub fn export_type_from_lowercase(lower: &str) -> (t: Option<CsvExportType>)
    ensures
        t == export_type_of(lower@),
{
    if str_eq(lower, "daily") {
        Some(CsvExportType::Daily)
    } else if str_eq(lower, "apps") {
        Some(CsvExportType::Apps)
    } else if str_eq(lower, "categories") {
        Some(CsvExportType::Categories)
    } else {
        None
    }
}

/// The export type named by `s`, in any letter case; an unknown name gives
/// `Unknown CSV export type: {s}`.
pub fn parse_export_type(s: &str) -> (r: Result<CsvExportType, String>)
    ensures
        match export_type_of(lowercase_text(s@)) {
            Some(t) => r == Ok::<CsvExportType, String>(t),
            None => r is Err && r->Err_0@ == "Unknown CSV export type: "@ + s@,
        },
{
    let lower = to_lowercase(s);
    match export_type_from_lowercase(lower.as_str()) {
        Some(t) => Ok(t),
        None => {
            let mut msg = String::from_str("Unknown CSV export type: ");
            msg.append(s);
            Err(msg)
        },
    }
}

impl std::str::FromStr for CsvExportType {
    type Err = String;

    fn from_str(s: &str) -> (r: Result<Self, Self::Err>)
        ensures
            match export_type_of(lowercase_text(s@)) {
                Some(t) => r == Ok::<CsvExportType, String>(t),
                None => r is Err && r->Err_0@ == "Unknown CSV export type: "@ + s@,
            },
    {
        parse_export_type(s)
    }
}

} // verus!
