//! Goal progress and warnings.
//!
//! A percentage of a limit is compared exactly: a goal's warning threshold
//! of `w` percent is reached when `used * 100 >= w * limit`.

use vstd::prelude::*;
use crate::config::TimeGoal;
use crate::maps::UsageMap;
use crate::text::{int_text, u64_text};

verus! {

/// Progress toward a time goal.
pub struct GoalProgress {
    /// The goal being tracked
    pub goal: TimeGoal,
    /// Time used in minutes
    pub used_minutes: u32,
    /// Share of the limit used, in tenths of a percent, rounded down
    /// (0 when the limit is 0)
    pub percent_used_tenths: u64,
    /// Whether the warning threshold is reached
    pub warning_triggered: bool,
    /// Whether the limit is reached
    pub limit_exceeded: bool,
}

/// Warning level for a goal.
#[derive(Debug, Clone, Copy, PartialEq, Eq, Structural)]
pub enum WarningLevel {
    /// Under the warning threshold
    Normal,
    /// At or over the warning threshold, under the limit
    Warning,
    /// At or over the limit
    Exceeded,
}

/// Tenths of a percent of the limit that `used` minutes make, rounded down.
pub open spec fn percent_tenths(limit: u32, used: u32) -> int {
    if limit > 0 {
        (used as int * 1000) / limit as int
    } else {
        0
    }
}

/// The warning threshold is reached: `used / limit * 100 >= warn`, and with
/// no limit the share counts as 0%.
pub open spec fn warning_reached(goal: TimeGoal, used: u32) -> bool {
    if goal.daily_limit_minutes > 0 {
        used as int * 100 >= goal.warn_at_percent as int * goal.daily_limit_minutes as int
    } else {
        goal.warn_at_percent == 0
    }
}

/// The limit is reached: 100% or more of a nonzero limit is used.
pub open spec fn limit_reached(goal: TimeGoal, used: u32) -> bool {
    goal.daily_limit_minutes > 0 && used >= goal.daily_limit_minutes
}

/// The progress a goal has with `used` minutes.
pub open spec fn progress_of(goal: TimeGoal, used: u32) -> GoalProgress {
    GoalProgress {
        goal,
        used_minutes: used,
        percent_used_tenths: percent_tenths(goal.daily_limit_minutes, used) as u64,
        warning_triggered: warning_reached(goal, used),
        limit_exceeded: limit_reached(goal, used),
    }
}

/// A `u32` read as an `i32`, as Rust's `as` does.
pub open spec fn as_i32(x: u32) -> int {
    if x <= i32::MAX {
        x as int
    } else {
        x as int - 0x1_0000_0000
    }
}

/// Minutes left: the limit minus the minutes used, each read as an `i32`.
pub open spec fn remaining_of(p: GoalProgress) -> int {
    as_i32(p.goal.daily_limit_minutes) - as_i32(p.used_minutes)
}

/// What is shown of the time left.
pub open spec fn remaining_text(remaining: int) -> Seq<char> {
    if remaining <= 0 {
        "Over limit"@
    } else if remaining < 60 {
        int_text(remaining) + "m left"@
    } else {
        int_text(remaining / 60) + "h "@ + int_text(remaining % 60) + "m left"@
    }
}

/// The level a progress is at.
pub open spec fn level_of(p: GoalProgress) -> WarningLevel {
    if p.limit_exceeded {
        WarningLevel::Exceeded
    } else if p.warning_triggered {
        WarningLevel::Warning
    } else {
        WarningLevel::Normal
    }
}

impl GoalProgress {
    /// Progress for a goal with `used_minutes` used today.
    pub fn new(goal: TimeGoal, used_minutes: u32) -> (p: Self)
        ensures
            p == progress_of(goal, used_minutes),
            p.goal == goal,
            p.used_minutes == used_minutes,
            p.limit_exceeded == (goal.daily_limit_minutes > 0 && used_minutes >= goal.daily_limit_minutes),
            goal.daily_limit_minutes > 0 ==> (p.warning_triggered == (used_minutes as int * 100
                >= goal.warn_at_percent as int * goal.daily_limit_minutes as int)),
            goal.daily_limit_minutes == 0 ==> (p.warning_triggered == (goal.warn_at_percent == 0)),
    {
        let limit = goal.daily_limit_minutes;
        let percent_used_tenths: u64 = if limit > 0 {
            (used_minutes as u64 * 1000) / limit as u64
        } else {
            0
        };
        let warning_triggered = if limit > 0 {
            let w = goal.warn_at_percent as u64;
            let l = limit as u64;
            assert(w * l <= 255 * 0xffff_ffff) by (nonlinear_arith)
                requires
                    w <= 255,
                    l <= 0xffff_ffff,
            ;
            used_minutes as u64 * 100 >= w * l
        } else {
            goal.warn_at_percent == 0
        };
        let limit_exceeded = limit > 0 && used_minutes >= limit;
        GoalProgress { goal, used_minutes, percent_used_tenths, warning_triggered, limit_exceeded }
    }

    /// Minutes left before the limit (negative when over).
    pub fn remaining_minutes(&self) -> (r: i32)
        requires
            i32::MIN <= remaining_of(*self) <= i32::MAX,
        ensures
            r == remaining_of(*self),
    {
        let l = self.goal.daily_limit_minutes as i64;
        let u = self.used_minutes as i64;
        let l32: i64 = if l > 0x7fff_ffff {
            l - 0x1_0000_0000
        } else {
            l
        };
        let u32v: i64 = if u > 0x7fff_ffff {
            u - 0x1_0000_0000
        } else {
            u
        };
        (l32 - u32v) as i32
    }

    /// The time left as text: "Over limit", "{m}m left" or "{h}h {m}m left".
    pub fn remaining_display(&self) -> (s: String)
        requires
            i32::MIN <= remaining_of(*self) <= i32::MAX,
        ensures
            s@ == remaining_text(remaining_of(*self)),
    {
        let remaining = self.remaining_minutes();
        if remaining <= 0 {
            String::from_str("Over limit")
        } else if remaining < 60 {
            let mut s = u64_text(remaining as u64);
            s.append("m left");
            s
        } else {
            let mut s = u64_text((remaining / 60) as u64);
            s.append("h ");
            let m = u64_text((remaining % 60) as u64);
            s.append(m.as_str());
            s.append("m left");
            s
        }
    }

    /// The warning level.
    pub fn warning_level(&self) -> (l: WarningLevel)
        ensures
            l == level_of(*self),
    {
        if self.limit_exceeded {
            WarningLevel::Exceeded
        } else if self.warning_triggered {
            WarningLevel::Warning
        } else {
            WarningLevel::Normal
        }
    }
}

/// Minutes a goal's target used: its entry in the category or the app usage,
/// 0 when absent.
pub open spec fn usage_for(
    app_usage: Map<Seq<char>, u32>,
    category_usage: Map<Seq<char>, u32>,
    goal: TimeGoal,
) -> u32 {
    let m = if goal.is_category {
        category_usage
    } else {
        app_usage
    };
    if m.contains_key(goal.target@) {
        m[goal.target@]
    } else {
        0
    }
}

/// Progress of every goal, in order, from today's app and category usage.
pub fn check_goals(app_usage: &UsageMap, category_usage: &UsageMap, goals: &[TimeGoal]) -> (r: Vec<GoalProgress>)
    ensures
        r@.len() == goals@.len(),
        forall|i: int|
            0 <= i < goals@.len() ==> #[trigger] r@[i] == progress_of(
                goals@[i],
                usage_for(app_usage@, category_usage@, goals@[i]),
            ),
{
    let mut r: Vec<GoalProgress> = Vec::new();
    let n = goals.len();
    let mut i: usize = 0;
    while i < n
        invariant
            n == goals@.len(),
            i <= n,
            r@.len() == i,
            forall|j: int|
                0 <= j < i ==> #[trigger] r@[j] == progress_of(
                    goals@[j],
                    usage_for(app_usage@, category_usage@, goals@[j]),
                ),
        decreases n - i,
    {
        let goal = &goals[i];
        let source = if goal.is_category {
            category_usage
        } else {
            app_usage
        };
        let used: u32 = match source.get(goal.target.as_str()) {
            Some(m) => *m,
            None => 0,
        };
        r.push(GoalProgress::new(goal.duplicate(), used));
        i = i + 1;
    }
    r
}

/// The progresses of `s` whose warning threshold is reached, in order.
pub open spec fn warned(s: Seq<GoalProgress>) -> Seq<GoalProgress>
    decreases s.len(),
{
    if s.len() == 0 {
        s
    } else if s.last().warning_triggered {
        warned(s.drop_last()).push(s.last())
    } else {
        warned(s.drop_last())
    }
}

/// The progresses of `s` whose limit is reached, in order.
pub open spec fn exceeded(s: Seq<GoalProgress>) -> Seq<GoalProgress>
    decreases s.len(),
{
    if s.len() == 0 {
        s
    } else if s.last().limit_exceeded {
        exceeded(s.drop_last()).push(s.last())
    } else {
        exceeded(s.drop_last())
    }
}

/// The goals whose warning threshold is reached.
pub fn get_warnings(progress: &[GoalProgress]) -> (r: Vec<&GoalProgress>)
    ensures
        r@.map_values(|p: &GoalProgress| *p) == warned(progress@),
{
    let mut r: Vec<&GoalProgress> = Vec::new();
    let n = progress.len();
    let mut i: usize = 0;
    assert(progress@.take(0) =~= Seq::<GoalProgress>::empty());
    while i < n
        invariant
            n == progress@.len(),
            i <= n,
            r@.map_values(|p: &GoalProgress| *p) == warned(progress@.take(i as int)),
        decreases n - i,
    {
        assert(progress@.take(i + 1).drop_last() =~= progress@.take(i as int));
        if progress[i].warning_triggered {
            let ghost before = r@;
            r.push(&progress[i]);
            assert(r@.map_values(|p: &GoalProgress| *p) =~= before.map_values(|p: &GoalProgress| *p).push(
                progress@[i as int],
            ));
        }
        i = i + 1;
    }
    assert(progress@.take(n as int) =~= progress@);
    r
}

/// The goals whose limit is reached.
pub fn get_exceeded(progress: &[GoalProgress]) -> (r: Vec<&GoalProgress>)
    ensures
        r@.map_values(|p: &GoalProgress| *p) == exceeded(progress@),
{
    let mut r: Vec<&GoalProgress> = Vec::new();
    let n = progress.len();
    let mut i: usize = 0;
    assert(progress@.take(0) =~= Seq::<GoalProgress>::empty());
    while i < n
        invariant
            n == progress@.len(),
            i <= n,
            r@.map_values(|p: &GoalProgress| *p) == exceeded(progress@.take(i as int)),
        decreases n - i,
    {
        assert(progress@.take(i + 1).drop_last() =~= progress@.take(i as int));
        if progress[i].limit_exceeded {
            let ghost before = r@;
            r.push(&progress[i]);
            assert(r@.map_values(|p: &GoalProgress| *p) =~= before.map_values(|p: &GoalProgress| *p).push(
                progress@[i as int],
            ));
        }
        i = i + 1;
    }
    assert(progress@.take(n as int) =~= progress@);
    r
}

/// Sum of the minutes.
pub open spec fn minutes_sum(s: Seq<u32>) -> int
    decreases s.len(),
{
    if s.len() == 0 {
        0
    } else {
        minutes_sum(s.drop_last()) + s.last()
    }
}

/// Number of days over `limit`.
pub open spec fn days_over(s: Seq<u32>, limit: u32) -> int
    decreases s.len(),
{
    if s.len() == 0 {
        0
    } else {
        days_over(s.drop_last(), limit) + if s.last() > limit {
            1int
        } else {
            0
        }
    }
}

/// The days over the limit never outnumber the days, so adherence lies
/// between 0% and 100%.
pub proof fn law_days_over_bounded(s: Seq<u32>, limit: u32)
    ensures
        0 <= days_over(s, limit) <= s.len(),
        s.len() > 0 ==> 0 <= (s.len() - days_over(s, limit)) * 10000 / s.len() as int <= 10000,
    decreases s.len(),
{
    if s.len() > 0 {
        law_days_over_bounded(s.drop_last(), limit);
        let n = s.len() as int;
        let w = n - days_over(s, limit);
        assert(0 <= w * 10000 / n <= 10000) by (nonlinear_arith)
            requires
                0 <= w <= n,
                n > 0,
        ;
    }
}

proof fn lemma_days_over_le_sum(s: Seq<u32>, limit: u32)
    ensures
        days_over(s, limit) <= minutes_sum(s),
    decreases s.len(),
{
    if s.len() > 0 {
        lemma_days_over_le_sum(s.drop_last(), limit);
    }
}

proof fn lemma_sum_prefix(s: Seq<u32>, i: int)
    requires
        0 <= i <= s.len(),
    ensures
        0 <= minutes_sum(s.take(i)) <= minutes_sum(s),
    decreases s.len() - i,
{
    if i < s.len() {
        lemma_sum_prefix(s, i + 1);
        assert(s.take(i + 1).drop_last() =~= s.take(i));
    } else {
        assert(s.take(i) =~= s);
    }
    lemma_sum_nonneg(s.take(i));
}

proof fn lemma_sum_nonneg(s: Seq<u32>)
    ensures
        minutes_sum(s) >= 0,
    decreases s.len(),
{
    if s.len() > 0 {
        lemma_sum_nonneg(s.drop_last());
    }
}

/// A goal's usage over several days (a week, typically).
pub struct WeeklySummary {
    /// Goal target
    pub target: String,
    /// Whether the target is a category
    pub is_category: bool,
    /// Daily limit in minutes
    pub daily_limit: u32,
    /// Minutes used each day (index 0 = oldest)
    pub daily_usage: Vec<u32>,
    /// Total minutes over the days
    pub total_minutes: u32,
    /// Days over the limit
    pub days_exceeded: u32,
    /// Average daily usage in hundredths of a minute, rounded down (0 with no days)
    pub avg_daily_minutes_hundredths: u64,
}

impl WeeklySummary {
    /// The summary of `daily_usage` against `goal`.
    pub fn new(goal: &TimeGoal, daily_usage: Vec<u32>) -> (w: Self)
        requires
            minutes_sum(daily_usage@) <= u32::MAX,
        ensures
            w.target@ == goal.target@,
            w.is_category == goal.is_category,
            w.daily_limit == goal.daily_limit_minutes,
            w.daily_usage == daily_usage,
            w.total_minutes == minutes_sum(daily_usage@),
            w.days_exceeded == days_over(daily_usage@, goal.daily_limit_minutes),
            w.avg_daily_minutes_hundredths == if daily_usage@.len() == 0 {
                0
            } else {
                minutes_sum(daily_usage@) * 100 / daily_usage@.len() as int
            },
    {
        let n = daily_usage.len();
        let mut total: u32 = 0;
        let mut over: u32 = 0;
        let mut i: usize = 0;
        assert(daily_usage@.take(0) =~= Seq::<u32>::empty());
        while i < n
            invariant
                n == daily_usage@.len(),
                i <= n,
                minutes_sum(daily_usage@) <= u32::MAX,
                total == minutes_sum(daily_usage@.take(i as int)),
                over == days_over(daily_usage@.take(i as int), goal.daily_limit_minutes),
                over <= i,
            decreases n - i,
        {
            assert(daily_usage@.take(i + 1).drop_last() =~= daily_usage@.take(i as int));
            proof {
                lemma_sum_prefix(daily_usage@, i + 1);
            }
            proof {
                lemma_days_over_le_sum(daily_usage@.take(i + 1), goal.daily_limit_minutes);
            }
            total = total + daily_usage[i];
            if daily_usage[i] > goal.daily_limit_minutes {
                over = over + 1;
            }
            i = i + 1;
        }
        assert(daily_usage@.take(n as int) =~= daily_usage@);
        let avg: u64 = if n == 0 {
            0
        } else {
            (total as u64 * 100) / n as u64
        };
        WeeklySummary {
            target: goal.target.clone(),
            is_category: goal.is_category,
            daily_limit: goal.daily_limit_minutes,
            daily_usage,
            total_minutes: total,
            days_exceeded: over,
            avg_daily_minutes_hundredths: avg,
        }
    }

    /// Share of days within the limit, in hundredths of a percent rounded
    /// down; 100% with no days.
    pub fn adherence_percent_hundredths(&self) -> (p: u64)
        requires
            self.days_exceeded <= self.daily_usage@.len(),
        ensures
            p == if self.daily_usage@.len() == 0 {
                10000
            } else {
                (self.daily_usage@.len() - self.days_exceeded) * 10000 / self.daily_usage@.len() as int
            },
    {
        let n = self.daily_usage.len();
        if n == 0 {
            10000
        } else {
            let within = (n - self.days_exceeded as usize) as u128;
            let nn = n as u128;
            let q = within * 10000 / nn;
            proof {
                let w = within as int;
                let d = nn as int;
                assert(w * 10000 <= d * 10000) by (nonlinear_arith)
                    requires
                        w <= d,
                ;
                vstd::arithmetic::div_mod::lemma_div_is_ordered(w * 10000, d * 10000, d);
                vstd::arithmetic::div_mod::lemma_div_multiples_vanish(10000, d);
                assert(d * 10000 == 10000 * d);
            }
            q as u64
        }
    }
}

/// A goal whose limit is reached has also reached its warning threshold,
/// when that threshold is at most 100%.
pub proof fn law_exceeded_is_warned(goal: TimeGoal, used: u32)
    requires
        goal.warn_at_percent <= 100,
        limit_reached(goal, used),
    ensures
        warning_reached(goal, used),
        level_of(progress_of(goal, used)) == WarningLevel::Exceeded,
{
    let l = goal.daily_limit_minutes as int;
    let w = goal.warn_at_percent as int;
    let u = used as int;
    assert(u * 100 >= w * l) by (nonlinear_arith)
        requires
            0 <= w <= 100,
            0 < l <= u,
    ;
}

/// A goal is exceeded exactly when the minutes used reach 100% of a nonzero
/// limit, and warned exactly when they reach its warning percentage (with
/// no limit, only a 0% threshold warns). The level is Exceeded at the limit,
/// Warning at the threshold below it, Normal otherwise; the share used is
/// `used * 1000 / limit` tenths of a percent, rounded down.
pub proof fn law_goal_thresholds(goal: TimeGoal, used: u32)
    ensures
        progress_of(goal, used).limit_exceeded <==> (goal.daily_limit_minutes > 0 && used
            >= goal.daily_limit_minutes),
        goal.daily_limit_minutes > 0 ==> (progress_of(goal, used).warning_triggered <==> used as int
            * 100 >= goal.warn_at_percent as int * goal.daily_limit_minutes as int),
        goal.daily_limit_minutes == 0 ==> (progress_of(goal, used).warning_triggered <==> goal.warn_at_percent
            == 0),
        (level_of(progress_of(goal, used)) == WarningLevel::Exceeded) <==> (goal.daily_limit_minutes > 0
            && used >= goal.daily_limit_minutes),
        (level_of(progress_of(goal, used)) == WarningLevel::Warning) <==> (!(goal.daily_limit_minutes > 0
            && used >= goal.daily_limit_minutes) && progress_of(goal, used).warning_triggered),
        (level_of(progress_of(goal, used)) == WarningLevel::Normal) <==> (!(goal.daily_limit_minutes > 0
            && used >= goal.daily_limit_minutes) && !progress_of(goal, used).warning_triggered),
        goal.daily_limit_minutes > 0 ==> progress_of(goal, used).percent_used_tenths == used as int * 1000
            / goal.daily_limit_minutes as int,
{
    if goal.daily_limit_minutes > 0 {
        let q = used as int * 1000 / goal.daily_limit_minutes as int;
        assert(0 <= q <= 0xffff_ffff * 1000) by (nonlinear_arith)
            requires
                q == used as int * 1000 / goal.daily_limit_minutes as int,
                goal.daily_limit_minutes as int >= 1,
                0 <= used as int <= 0xffff_ffff,
        ;
    }
}

/// The days over a limit are counted one by one: they are exactly the days
/// whose usage exceeds the limit.
pub proof fn law_days_over_counts(s: Seq<u32>, limit: u32)
    ensures
        days_over(s, limit) == s.filter(|x: u32| x > limit).len(),
    decreases s.len(),
{
    reveal(Seq::filter);
    if s.len() > 0 {
        law_days_over_counts(s.drop_last(), limit);
    }
}

/// Day counts and sums add up over consecutive stretches of days, and a
/// single day counts as over the limit exactly when it exceeds it.
pub proof fn law_days_add_up(a: Seq<u32>, b: Seq<u32>, limit: u32, x: u32)
    ensures
        days_over(a + b, limit) == days_over(a, limit) + days_over(b, limit),
        minutes_sum(a + b) == minutes_sum(a) + minutes_sum(b),
        days_over(seq![x], limit) == if x > limit {
            1int
        } else {
            0
        },
        minutes_sum(seq![x]) == x,
    decreases b.len(),
{
    let one = seq![x];
    assert(one.drop_last() =~= Seq::<u32>::empty());
    assert(one.last() == x);
    assert(days_over(Seq::<u32>::empty(), limit) == 0);
    assert(minutes_sum(Seq::<u32>::empty()) == 0);
    assert(days_over(one, limit) == days_over(one.drop_last(), limit) + if x > limit {
        1int
    } else {
        0
    });
    assert(minutes_sum(one) == minutes_sum(one.drop_last()) + x);
    if b.len() == 0 {
        assert(a + b =~= a);
    } else {
        assert((a + b).drop_last() =~= a + b.drop_last());
        law_days_add_up(a, b.drop_last(), limit, x);
    }
}

} // verus!
