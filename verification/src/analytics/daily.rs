//! Daily summaries: total screen time, time per category and top apps.

use vstd::prelude::*;
use crate::analytics::categories::{category_of, get_category_for_bundle_id, uncategorized};
use crate::maps::CategoryMap;
use crate::text::{format_hm, hm_text, str_eq};

verus! {

/// Time spent in a category.
pub struct CategoryTime {
    pub category: String,
    pub seconds: i64,
}

/// Time spent in an application.
pub struct AppTime {
    pub name: String,
    pub bundle_id: String,
    pub seconds: i64,
}

/// Summary of one day's usage.
pub struct DailySummary {
    /// The day, as its day number (see `crate::time`)
    pub date: i32,
    /// Total screen time in seconds
    pub total_screen_time_secs: i64,
    /// Breakdown by category
    pub category_breakdown: Vec<CategoryTime>,
    /// Top applications
    pub top_apps: Vec<AppTime>,
}

impl DailySummary {
    /// Total screen time as `"{h}h {m}m"`.
    pub fn format_total_time(&self) -> (s: String)
        ensures
            s@ == hm_text(self.total_screen_time_secs as int),
    {
        format_hm(self.total_screen_time_secs)
    }
}

/// The category an app falls in.
pub open spec fn app_category(categories: Map<Seq<char>, Seq<char>>, app: AppTime) -> Seq<char> {
    category_of(categories, app.bundle_id@)
}

/// Sum of the seconds of the apps that fall in `category`.
pub open spec fn category_total(apps: Seq<AppTime>, categories: Map<Seq<char>, Seq<char>>, category: Seq<char>) -> int
    decreases apps.len(),
{
    if apps.len() == 0 {
        0
    } else {
        category_total(apps.drop_last(), categories, category) + if app_category(
            categories,
            apps.last(),
        ) == category {
            apps.last().seconds as int
        } else {
            0
        }
    }
}

/// Every running per-category sum over `apps` fits in an `i64`.
pub open spec fn totals_fit(apps: Seq<AppTime>, categories: Map<Seq<char>, Seq<char>>) -> bool {
    forall|k: int, c: Seq<char>|
        0 <= k <= apps.len() ==> i64::MIN <= #[trigger] category_total(apps.take(k), categories, c)
            <= i64::MAX
}

/// No category occurs twice.
pub open spec fn distinct_categories(b: Seq<CategoryTime>) -> bool {
    forall|i: int, j: int|
        0 <= i < b.len() && 0 <= j < b.len() && i != j ==> b[i].category@ != b[j].category@
}

/// Some entry of `b` is for category `c`.
#[verifier::opaque]
pub open spec fn lists_category(b: Seq<CategoryTime>, c: Seq<char>) -> bool {
    exists|i: int| 0 <= i < b.len() && b[i].category@ == c
}

/// Some app of `apps` falls in category `c`.
#[verifier::opaque]
pub open spec fn some_app_in(apps: Seq<AppTime>, categories: Map<Seq<char>, Seq<char>>, c: Seq<char>) -> bool {
    exists|k: int| 0 <= k < apps.len() && app_category(categories, apps[k]) == c
}

/// `b` lists each category that some app falls in exactly once, with the
/// total seconds of the apps in it.
#[verifier::opaque]
pub open spec fn is_breakdown(b: Seq<CategoryTime>, apps: Seq<AppTime>, categories: Map<Seq<char>, Seq<char>>) -> bool {
    &&& distinct_categories(b)
    &&& forall|i: int|
        0 <= i < b.len() ==> (#[trigger] b[i]).seconds == category_total(apps, categories, b[i].category@)
    &&& forall|i: int| 0 <= i < b.len() ==> some_app_in(apps, categories, (#[trigger] b[i]).category@)
    &&& forall|k: int|
        0 <= k < apps.len() ==> lists_category(b, app_category(categories, #[trigger] apps[k]))
}

proof fn lemma_lists_intro(b: Seq<CategoryTime>, i: int)
    requires
        0 <= i < b.len(),
    ensures
        lists_category(b, b[i].category@),
{
    reveal(lists_category);
}

proof fn lemma_lists_elim(b: Seq<CategoryTime>, c: Seq<char>) -> (i: int)
    requires
        lists_category(b, c),
    ensures
        0 <= i < b.len() && b[i].category@ == c,
{
    reveal(lists_category);
    choose|i: int| 0 <= i < b.len() && b[i].category@ == c
}

proof fn lemma_some_app_intro(apps: Seq<AppTime>, categories: Map<Seq<char>, Seq<char>>, k: int)
    requires
        0 <= k < apps.len(),
    ensures
        some_app_in(apps, categories, app_category(categories, apps[k])),
{
    reveal(some_app_in);
}

proof fn lemma_some_app_elim(apps: Seq<AppTime>, categories: Map<Seq<char>, Seq<char>>, c: Seq<char>) -> (k: int)
    requires
        some_app_in(apps, categories, c),
    ensures
        0 <= k < apps.len() && app_category(categories, apps[k]) == c,
{
    reveal(some_app_in);
    choose|k: int| 0 <= k < apps.len() && app_category(categories, apps[k]) == c
}

/// Longest first.
pub open spec fn sorted_by_time(b: Seq<CategoryTime>) -> bool {
    forall|i: int, j: int| 0 <= i < j < b.len() ==> b[i].seconds >= b[j].seconds
}

proof fn lemma_total_push(apps: Seq<AppTime>, k: int, categories: Map<Seq<char>, Seq<char>>, c: Seq<char>)
    requires
        0 <= k < apps.len(),
    ensures
        category_total(apps.take(k + 1), categories, c) == category_total(apps.take(k), categories, c)
            + if app_category(categories, apps[k]) == c {
            apps[k].seconds as int
        } else {
            0
        },
{
    assert(apps.take(k + 1).drop_last() =~= apps.take(k));
}

/// Position of `category` in `acc`, if present.
fn find_category_time(acc: &Vec<CategoryTime>, category: &str) -> (r: Option<usize>)
    ensures
        r matches Some(i) ==> i < acc@.len() && acc@[i as int].category@ == category@,
        r is None ==> forall|i: int| 0 <= i < acc@.len() ==> acc@[i].category@ != category@,
{
    let n = acc.len();
    let mut i: usize = 0;
    while i < n
        invariant
            n == acc@.len(),
            i <= n,
            forall|j: int| 0 <= j < i ==> acc@[j].category@ != category@,
        decreases n - i,
    {
        if str_eq(acc[i].category.as_str(), category) {
            return Some(i);
        }
        i = i + 1;
    }
    None
}

proof fn lemma_step_existing(
    apps: Seq<AppTime>,
    i: int,
    cats: Map<Seq<char>, Seq<char>>,
    before: Seq<CategoryTime>,
    after: Seq<CategoryTime>,
    j: int,
)
    requires
        0 <= i < apps.len(),
        is_breakdown(before, apps.take(i), cats),
        0 <= j < before.len(),
        before[j].category@ == app_category(cats, apps[i]),
        after.len() == before.len(),
        forall|a: int| 0 <= a < before.len() && a != j ==> after[a] == before[a],
        after[j].category@ == before[j].category@,
        after[j].seconds == before[j].seconds + apps[i].seconds,
    ensures
        is_breakdown(after, apps.take(i + 1), cats),
{
    reveal(is_breakdown);
    let prefix = apps.take(i);
    let next = apps.take(i + 1);
    assert(next[i] == apps[i]);
    assert forall|a: int| 0 <= a < after.len() implies (#[trigger] after[a]).seconds == category_total(
        next,
        cats,
        after[a].category@,
    ) by {
        lemma_total_push(apps, i, cats, after[a].category@);
        if a != j {
            assert(after[a] == before[a]);
            assert(before[a].category@ != before[j].category@);
        }
    }
    assert forall|a: int| 0 <= a < after.len() implies some_app_in(
        next,
        cats,
        (#[trigger] after[a]).category@,
    ) by {
        assert(after[a].category@ == before[a].category@);
        let k = lemma_some_app_elim(prefix, cats, before[a].category@);
        assert(next[k] == prefix[k]);
        lemma_some_app_intro(next, cats, k);
    }
    assert forall|k: int| 0 <= k < next.len() implies lists_category(
        after,
        app_category(cats, #[trigger] next[k]),
    ) by {
        if k < i {
            assert(prefix[k] == next[k]);
            let a = lemma_lists_elim(before, app_category(cats, prefix[k]));
            assert(after[a].category@ == before[a].category@);
            lemma_lists_intro(after, a);
        } else {
            lemma_lists_intro(after, j);
        }
    }
    assert forall|a: int, b: int|
        0 <= a < after.len() && 0 <= b < after.len() && a != b implies after[a].category@
        != after[b].category@ by {
        assert(after[a].category@ == before[a].category@);
        assert(after[b].category@ == before[b].category@);
    }
}

proof fn lemma_step_new(
    apps: Seq<AppTime>,
    i: int,
    cats: Map<Seq<char>, Seq<char>>,
    before: Seq<CategoryTime>,
    after: Seq<CategoryTime>,
)
    requires
        0 <= i < apps.len(),
        is_breakdown(before, apps.take(i), cats),
        forall|a: int| 0 <= a < before.len() ==> before[a].category@ != app_category(cats, apps[i]),
        after.len() == before.len() + 1,
        forall|a: int| 0 <= a < before.len() ==> after[a] == before[a],
        after[before.len() as int].category@ == app_category(cats, apps[i]),
        after[before.len() as int].seconds == apps[i].seconds,
    ensures
        is_breakdown(after, apps.take(i + 1), cats),
{
    reveal(is_breakdown);
    let prefix = apps.take(i);
    let next = apps.take(i + 1);
    let cv = app_category(cats, apps[i]);
    let n = before.len() as int;
    assert(next[i] == apps[i]);
    assert forall|k: int| 0 <= k < prefix.len() implies app_category(cats, #[trigger] prefix[k]) != cv by {
        let a = lemma_lists_elim(before, app_category(cats, prefix[k]));
    }
    lemma_total_absent(prefix, cats, cv);
    assert forall|a: int| 0 <= a < after.len() implies (#[trigger] after[a]).seconds == category_total(
        next,
        cats,
        after[a].category@,
    ) by {
        lemma_total_push(apps, i, cats, after[a].category@);
        if a < n {
            assert(after[a] == before[a]);
        }
    }
    assert forall|a: int| 0 <= a < after.len() implies some_app_in(
        next,
        cats,
        (#[trigger] after[a]).category@,
    ) by {
        if a < n {
            assert(after[a] == before[a]);
            let k = lemma_some_app_elim(prefix, cats, before[a].category@);
            assert(next[k] == prefix[k]);
            lemma_some_app_intro(next, cats, k);
        } else {
            lemma_some_app_intro(next, cats, i);
        }
    }
    assert forall|k: int| 0 <= k < next.len() implies lists_category(
        after,
        app_category(cats, #[trigger] next[k]),
    ) by {
        if k < i {
            assert(prefix[k] == next[k]);
            let a = lemma_lists_elim(before, app_category(cats, prefix[k]));
            assert(after[a] == before[a]);
            lemma_lists_intro(after, a);
        } else {
            lemma_lists_intro(after, n);
        }
    }
    assert forall|a: int, b: int|
        0 <= a < after.len() && 0 <= b < after.len() && a != b implies after[a].category@
        != after[b].category@ by {
        if a < n && b < n {
            assert(after[a] == before[a] && after[b] == before[b]);
        } else if a < n {
            assert(after[a] == before[a]);
        } else {
            assert(after[b] == before[b]);
        }
    }
}

/// Totals per category, in the order categories first appear.
fn accumulate_categories(apps: &[AppTime], categories: &CategoryMap) -> (acc: Vec<CategoryTime>)
    requires
        totals_fit(apps@, categories@),
    ensures
        is_breakdown(acc@, apps@, categories@),
{
    let ghost cats = categories@;
    let mut acc: Vec<CategoryTime> = Vec::new();
    let n = apps.len();
    let mut i: usize = 0;
    assert(apps@.take(0) =~= Seq::<AppTime>::empty());
    proof {
        reveal(is_breakdown);
    }
    while i < n
        invariant
            n == apps@.len(),
            cats == categories@,
            totals_fit(apps@, cats),
            i <= n,
            is_breakdown(acc@, apps@.take(i as int), cats),
        decreases n - i,
    {
        let ghost before = acc@;
        let app = &apps[i];
        let c = get_category_for_bundle_id(app.bundle_id.as_str(), categories);
        match find_category_time(&acc, c.as_str()) {
            Some(j) => {
                proof {
                    reveal(is_breakdown);
                    lemma_total_push(apps@, i as int, cats, c@);
                    assert(apps@.take(i + 1)[i as int] == apps@[i as int]);
                    assert(i64::MIN <= category_total(apps@.take(i + 1), cats, c@) <= i64::MAX);
                }
                let old_entry = acc.remove(j);
                let entry = CategoryTime { category: old_entry.category, seconds: old_entry.seconds + app.seconds };
                acc.insert(j, entry);
                proof {
                    lemma_step_existing(apps@, i as int, cats, before, acc@, j as int);
                }
            },
            None => {
                let entry = CategoryTime { category: c, seconds: app.seconds };
                acc.push(entry);
                proof {
                    lemma_step_new(apps@, i as int, cats, before, acc@);
                }
            },
        }
        i = i + 1;
    }
    assert(apps@.take(n as int) =~= apps@);
    acc
}

/// A category no app falls in has total zero.
proof fn lemma_total_absent(apps: Seq<AppTime>, categories: Map<Seq<char>, Seq<char>>, c: Seq<char>)
    requires
        forall|k: int| 0 <= k < apps.len() ==> app_category(categories, #[trigger] apps[k]) != c,
    ensures
        category_total(apps, categories, c) == 0,
    decreases apps.len(),
{
    if apps.len() > 0 {
        let p = apps.drop_last();
        assert forall|k: int| 0 <= k < p.len() implies app_category(categories, #[trigger] p[k]) != c by {
            assert(p[k] == apps[k]);
        }
        lemma_total_absent(p, categories, c);
        assert(app_category(categories, apps[apps.len() - 1]) != c);
    }
}

/// `b` with the entries at `i` and `i + 1` exchanged.
pub open spec fn swap_next(b: Seq<CategoryTime>, i: int) -> Seq<CategoryTime> {
    b.update(i, b[i + 1]).update(i + 1, b[i])
}

/// Exchanging two neighbours keeps a breakdown a breakdown.
proof fn lemma_swap_keeps_breakdown(
    b: Seq<CategoryTime>,
    i: int,
    apps: Seq<AppTime>,
    cats: Map<Seq<char>, Seq<char>>,
)
    requires
        0 <= i && i + 1 < b.len(),
        is_breakdown(b, apps, cats),
    ensures
        is_breakdown(swap_next(b, i), apps, cats),
{
    reveal(is_breakdown);
    let c = swap_next(b, i);
    assert forall|a: int| 0 <= a < c.len() && a != i && a != i + 1 implies c[a] == b[a] by {}
    assert(c[i] == b[i + 1] && c[i + 1] == b[i]);
    assert forall|a: int| 0 <= a < c.len() implies (#[trigger] c[a]).seconds == category_total(
        apps,
        cats,
        c[a].category@,
    ) && some_app_in(apps, cats, c[a].category@) by {
        let s = if a == i { i + 1 } else if a == i + 1 { i } else { a };
        assert(c[a] == b[s]);
        assert(b[s].seconds == category_total(apps, cats, b[s].category@));
        assert(some_app_in(apps, cats, b[s].category@));
    }
    assert forall|k: int| 0 <= k < apps.len() implies lists_category(
        c,
        app_category(cats, #[trigger] apps[k]),
    ) by {
        let j = lemma_lists_elim(b, app_category(cats, apps[k]));
        let s = if j == i { i + 1 } else if j == i + 1 { i } else { j };
        assert(c[s] == b[j]);
        lemma_lists_intro(c, s);
    }
    assert forall|x: int, y: int|
        0 <= x < c.len() && 0 <= y < c.len() && x != y implies c[x].category@ != c[y].category@ by {
        let sx = if x == i { i + 1 } else if x == i + 1 { i } else { x };
        let sy = if y == i { i + 1 } else if y == i + 1 { i } else { y };
        assert(c[x] == b[sx] && c[y] == b[sy]);
    }
}

/// Reorders a breakdown longest first; entries of equal time keep no
/// particular order.
fn sort_by_time(
    acc: Vec<CategoryTime>,
    Ghost(apps): Ghost<Seq<AppTime>>,
    Ghost(cats): Ghost<Map<Seq<char>, Seq<char>>>,
) -> (out: Vec<CategoryTime>)
    requires
        is_breakdown(acc@, apps, cats),
    ensures
        is_breakdown(out@, apps, cats),
        sorted_by_time(out@),
{
    let mut b = acc;
    let n = b.len();
    let mut i: usize = 1;
    if n == 0 {
        return b;
    }
    while i < n
        invariant
            n == b@.len(),
            1 <= i <= n,
            is_breakdown(b@, apps, cats),
            forall|p: int, q: int| 0 <= p < q < i ==> b@[p].seconds >= b@[q].seconds,
        decreases n - i,
    {
        let mut j: usize = i;
        while j > 0 && b[j - 1].seconds < b[j].seconds
            invariant
                n == b@.len(),
                1 <= i < n,
                j <= i,
                is_breakdown(b@, apps, cats),
                forall|p: int, q: int| 0 <= p < q < j ==> b@[p].seconds >= b@[q].seconds,
                forall|p: int, q: int| j < p < q <= i ==> b@[p].seconds >= b@[q].seconds,
                forall|p: int, q: int| 0 <= p < j && j < q <= i ==> b@[p].seconds >= b@[q].seconds,
                forall|q: int| j < q <= i ==> b@[j as int].seconds >= b@[q].seconds,
            decreases j,
        {
            let ghost before = b@;
            let x = b.remove(j);
            b.insert(j - 1, x);
            proof {
                assert(b@ =~= swap_next(before, j - 1));
                lemma_swap_keeps_breakdown(before, j - 1, apps, cats);
            }
            j = j - 1;
        }
        proof {
            assert forall|p: int, q: int| 0 <= p < q < i + 1 implies b@[p].seconds >= b@[q].seconds by {
                if q == j {
                    if p < j - 1 {
                        assert(b@[p].seconds >= b@[j - 1].seconds);
                    }
                } else if p == j {
                } else if q < j {
                } else if p > j {
                } else {
                }
            }
        }
        i = i + 1;
    }
    b
}

/// Time per category over `apps`, longest first.
pub fn compute_category_breakdown(apps: &[AppTime], categories: &CategoryMap) -> (b: Vec<CategoryTime>)
    requires
        totals_fit(apps@, categories@),
    ensures
        is_breakdown(b@, apps@, categories@),
        sorted_by_time(b@),
{
    let acc = accumulate_categories(apps, categories);
    sort_by_time(acc, Ghost(apps@), Ghost(categories@))
}

/// The day's summary from what was read for it: the total screen time and
/// the top apps. With a category map, the breakdown groups the top apps by
/// category; without one, all the time is "Uncategorized".
pub fn compute_daily_summary(
    date: i32,
    total_screen_time_secs: i64,
    top_apps: Vec<AppTime>,
    categories: Option<&CategoryMap>,
) -> (s: DailySummary)
    requires
        categories matches Some(m) ==> totals_fit(top_apps@, m@),
    ensures
        s.date == date,
        s.total_screen_time_secs == total_screen_time_secs,
        s.top_apps == top_apps,
        categories matches Some(m) ==> is_breakdown(s.category_breakdown@, top_apps@, m@)
            && sorted_by_time(s.category_breakdown@),
        categories is None ==> s.category_breakdown@.len() == 1
            && s.category_breakdown@[0].category@ == uncategorized()
            && s.category_breakdown@[0].seconds == total_screen_time_secs,
{
    let category_breakdown = match categories {
        Some(m) => compute_category_breakdown(top_apps.as_slice(), m),
        None => {
            let mut v = Vec::new();
            v.push(CategoryTime { category: String::from_str("Uncategorized"), seconds: total_screen_time_secs });
            v
        },
    };
    DailySummary { date, total_screen_time_secs, category_breakdown, top_apps }
}

/// Total seconds of the apps.
pub open spec fn apps_total(apps: Seq<AppTime>) -> int
    decreases apps.len(),
{
    if apps.len() == 0 {
        0
    } else {
        apps_total(apps.drop_last()) + apps.last().seconds
    }
}

/// Total seconds of a breakdown.
pub open spec fn breakdown_total(b: Seq<CategoryTime>) -> int
    decreases b.len(),
{
    if b.len() == 0 {
        0
    } else {
        breakdown_total(b.drop_last()) + b.last().seconds
    }
}

/// Sum over the categories `cs` of the time of the apps in each.
spec fn totals_over(cs: Seq<Seq<char>>, apps: Seq<AppTime>, cats: Map<Seq<char>, Seq<char>>) -> int
    decreases cs.len(),
{
    if cs.len() == 0 {
        0
    } else {
        totals_over(cs.drop_last(), apps, cats) + category_total(apps, cats, cs.last())
    }
}

/// `v` for each entry of `cs` equal to `x`.
spec fn count_times(cs: Seq<Seq<char>>, x: Seq<char>, v: int) -> int
    decreases cs.len(),
{
    if cs.len() == 0 {
        0
    } else {
        count_times(cs.drop_last(), x, v) + if cs.last() == x {
            v
        } else {
            0
        }
    }
}

proof fn lemma_breakdown_as_totals(b: Seq<CategoryTime>, apps: Seq<AppTime>, cats: Map<Seq<char>, Seq<char>>)
    requires
        forall|i: int|
            0 <= i < b.len() ==> (#[trigger] b[i]).seconds == category_total(apps, cats, b[i].category@),
    ensures
        breakdown_total(b) == totals_over(b.map_values(|c: CategoryTime| c.category@), apps, cats),
    decreases b.len(),
{
    if b.len() > 0 {
        let rest = b.drop_last();
        assert forall|i: int| 0 <= i < rest.len() implies (#[trigger] rest[i]).seconds == category_total(
            apps,
            cats,
            rest[i].category@,
        ) by {
            assert(rest[i] == b[i]);
        }
        lemma_breakdown_as_totals(rest, apps, cats);
        assert(b.map_values(|c: CategoryTime| c.category@).drop_last() =~= rest.map_values(
            |c: CategoryTime| c.category@,
        ));
        assert(b[b.len() - 1].seconds == category_total(apps, cats, b[b.len() - 1].category@));
    }
}

proof fn lemma_totals_step(cs: Seq<Seq<char>>, apps: Seq<AppTime>, k: int, cats: Map<Seq<char>, Seq<char>>)
    requires
        0 <= k < apps.len(),
    ensures
        totals_over(cs, apps.take(k + 1), cats) == totals_over(cs, apps.take(k), cats) + count_times(
            cs,
            app_category(cats, apps[k]),
            apps[k].seconds as int,
        ),
    decreases cs.len(),
{
    if cs.len() > 0 {
        lemma_totals_step(cs.drop_last(), apps, k, cats);
        lemma_total_push(apps, k, cats, cs.last());
    }
}

proof fn lemma_count_absent(cs: Seq<Seq<char>>, x: Seq<char>, v: int)
    requires
        !cs.contains(x),
    ensures
        count_times(cs, x, v) == 0,
    decreases cs.len(),
{
    if cs.len() > 0 {
        let rest = cs.drop_last();
        if rest.contains(x) {
            let k = choose|k: int| 0 <= k < rest.len() && rest[k] == x;
            assert(cs[k] == x);
        }
        assert(cs.last() != x) by {
            if cs.last() == x {
                assert(cs[cs.len() - 1] == x);
            }
        }
        lemma_count_absent(rest, x, v);
    }
}

proof fn lemma_count_once(cs: Seq<Seq<char>>, x: Seq<char>, v: int)
    requires
        cs.contains(x),
        forall|i: int, j: int| 0 <= i < cs.len() && 0 <= j < cs.len() && i != j ==> cs[i] != cs[j],
    ensures
        count_times(cs, x, v) == v,
    decreases cs.len(),
{
    let rest = cs.drop_last();
    let k = choose|k: int| 0 <= k < cs.len() && cs[k] == x;
    if cs.last() == x {
        assert(!rest.contains(x)) by {
            if rest.contains(x) {
                let m = choose|m: int| 0 <= m < rest.len() && rest[m] == x;
                assert(cs[m] == cs[cs.len() - 1]);
            }
        }
        lemma_count_absent(rest, x, v);
    } else {
        assert(k < cs.len() - 1);
        assert(rest[k] == x);
        assert forall|i: int, j: int| 0 <= i < rest.len() && 0 <= j < rest.len() && i != j implies rest[i]
            != rest[j] by {
            assert(rest[i] == cs[i] && rest[j] == cs[j]);
        }
        lemma_count_once(rest, x, v);
    }
}

proof fn lemma_totals_cover(cs: Seq<Seq<char>>, apps: Seq<AppTime>, cats: Map<Seq<char>, Seq<char>>, k: int)
    requires
        0 <= k <= apps.len(),
        forall|i: int, j: int| 0 <= i < cs.len() && 0 <= j < cs.len() && i != j ==> cs[i] != cs[j],
        forall|m: int| 0 <= m < apps.len() ==> cs.contains(app_category(cats, #[trigger] apps[m])),
    ensures
        totals_over(cs, apps.take(k), cats) == apps_total(apps.take(k)),
    decreases k,
{
    if k == 0 {
        lemma_totals_empty(cs, apps.take(0), cats);
    } else {
        lemma_totals_cover(cs, apps, cats, k - 1);
        lemma_totals_step(cs, apps, k - 1, cats);
        lemma_count_once(cs, app_category(cats, apps[k - 1]), apps[k - 1].seconds as int);
        assert(apps.take(k).drop_last() =~= apps.take(k - 1));
    }
}

proof fn lemma_totals_empty(cs: Seq<Seq<char>>, apps: Seq<AppTime>, cats: Map<Seq<char>, Seq<char>>)
    requires
        apps.len() == 0,
    ensures
        totals_over(cs, apps, cats) == 0,
    decreases cs.len(),
{
    if cs.len() > 0 {
        lemma_totals_empty(cs.drop_last(), apps, cats);
    }
}

/// A breakdown accounts for all the time of the apps: its seconds add up to
/// theirs.
pub proof fn law_breakdown_keeps_total(b: Seq<CategoryTime>, apps: Seq<AppTime>, cats: Map<Seq<char>, Seq<char>>)
    requires
        is_breakdown(b, apps, cats),
    ensures
        breakdown_total(b) == apps_total(apps),
{
    reveal(is_breakdown);
    let cs = b.map_values(|c: CategoryTime| c.category@);
    lemma_breakdown_as_totals(b, apps, cats);
    assert forall|m: int| 0 <= m < apps.len() implies cs.contains(app_category(cats, #[trigger] apps[m])) by {
        let i = lemma_lists_elim(b, app_category(cats, apps[m]));
        assert(cs[i] == b[i].category@);
    }
    assert forall|i: int, j: int| 0 <= i < cs.len() && 0 <= j < cs.len() && i != j implies cs[i]
        != cs[j] by {
        assert(cs[i] == b[i].category@ && cs[j] == b[j].category@);
    }
    lemma_totals_cover(cs, apps, cats, apps.len() as int);
    assert(apps.take(apps.len() as int) =~= apps);
}

} // verus!
