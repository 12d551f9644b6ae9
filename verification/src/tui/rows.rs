//! The text of the dashboard's list rows and the position of each tab in
//! the tab bar.

use vstd::prelude::*;
use crate::analytics::daily::{AppTime, CategoryTime};
use crate::text::{
    align_left, align_right, hours_minutes, hours_of, i64_text, int_text, minutes_of, nat_text, push_left,
    push_right, u64_text,
};
use crate::tui::app::Tab;

verus! {

/// Position of a tab in the tab bar.
pub open spec fn tab_position(t: Tab) -> int {
    match t {
        Tab::Today => 0,
        Tab::Apps => 1,
        Tab::Categories => 2,
    }
}

/// Position of a tab in the tab bar.
pub fn tab_index(t: Tab) -> (i: usize)
    ensures
        i == tab_position(t),
{
    match t {
        Tab::Today => 0,
        Tab::Apps => 1,
        Tab::Categories => 2,
    }
}

/// The row of the app at position `i` (from 0) in the Apps list:
/// `{i+1:>2}. {name:30} {h:>2}h {m:>2}m`.
pub open spec fn app_row_text(i: int, a: AppTime) -> Seq<char> {
    align_right(nat_text((i + 1) as nat), 2) + ". "@ + align_left(a.name@, 30) + " "@ + align_right(
        int_text(hours_of(a.seconds as int)),
        2,
    ) + "h "@ + align_right(int_text(minutes_of(a.seconds as int)), 2) + "m"@
}

/// The row of a category in the Categories list: `{category:20} {h:>2}h {m:>2}m`.
pub open spec fn category_row_text(c: CategoryTime) -> Seq<char> {
    align_left(c.category@, 20) + " "@ + align_right(int_text(hours_of(c.seconds as int)), 2) + "h "@
        + align_right(int_text(minutes_of(c.seconds as int)), 2) + "m"@
}

/// Appends ` {h:>2}h {m:>2}m` for a number of seconds.
fn push_hours_minutes(s: &mut String, secs: i64)
    ensures
        final(s)@ == old(s)@ + " "@ + align_right(int_text(hours_of(secs as int)), 2) + "h "@
            + align_right(int_text(minutes_of(secs as int)), 2) + "m"@,
{
    let (h, m) = hours_minutes(secs);
    s.append(" ");
    let ht = i64_text(h);
    push_right(s, ht.as_str(), 2);
    s.append("h ");
    let mt = i64_text(m);
    push_right(s, mt.as_str(), 2);
    s.append("m");
}

/// The row of the app at position `i` in the Apps list.
pub fn app_row(i: usize, a: &AppTime) -> (row: String)
    requires
        i < usize::MAX,
    ensures
        row@ == app_row_text(i as int, *a),
{
    let mut row = String::new();
    let num = u64_text(i as u64 + 1);
    push_right(&mut row, num.as_str(), 2);
    row.append(". ");
    push_left(&mut row, a.name.as_str(), 30);
    push_hours_minutes(&mut row, a.seconds);
    row
}

/// The row of a category in the Categories list.
pub fn category_row(c: &CategoryTime) -> (row: String)
    ensures
        row@ == category_row_text(*c),
{
    let mut row = String::new();
    push_left(&mut row, c.category.as_str(), 20);
    push_hours_minutes(&mut row, c.seconds);
    row
}

} // verus!
