//! Focus analysis: app switches, sustained single-app "flow" runs and a
//! focus score, computed from one day's sessions.

use vstd::prelude::*;
use crate::text::{format_short_duration, short_duration_text, trunc_div};
use crate::time::{rfc3339_string, rfc3339_text, split_instant, valid_instant, whole_seconds, NANOS_PER_SEC};

verus! {

/// Minimum session duration to count as meaningful (seconds).
pub const MIN_SESSION_DURATION_SECS: i64 = 5;

/// Minimum run duration to count as flow (seconds): 30 minutes.
pub const FLOW_THRESHOLD_SECS: i64 = 1800;

/// A session together with its application, as read for analysis.
pub struct SessionWithApp {
    pub id: i64,
    pub application_id: i64,
    /// Start, in nanoseconds since the Unix epoch
    pub started_at: i128,
    /// End, in nanoseconds since the Unix epoch; `None` while still open
    pub ended_at: Option<i128>,
    pub ended_idle: bool,
    pub bundle_id: String,
    pub app_name: String,
}

/// A sustained run of one application.
pub struct FlowSession {
    /// Application name
    pub app_name: String,
    /// Bundle ID
    pub bundle_id: String,
    /// Duration in seconds
    pub duration_secs: i64,
    /// Start time (RFC 3339)
    pub started_at: String,
}

/// Focus analysis for a single day.
pub struct FocusAnalysis {
    /// The day analyzed (day number)
    pub date: i32,
    /// Number of app switches
    pub switch_count: usize,
    /// Flow runs (sustained single-app usage of 30 minutes or more)
    pub flow_sessions: Vec<FlowSession>,
    /// Total time in flow (seconds)
    pub total_flow_secs: i64,
    /// Total active time (seconds)
    pub total_active_secs: i64,
    /// Focus score (0-100)
    pub focus_score: u8,
}

/// When a session ends: its end, or `now` while it is open.
pub open spec fn end_of(s: SessionWithApp, now: i128) -> int {
    match s.ended_at {
        Some(e) => e as int,
        None => now as int,
    }
}

/// Both ends of the session are instants chrono represents.
pub open spec fn session_ok(s: SessionWithApp, now: i128) -> bool {
    valid_instant(s.started_at as int) && valid_instant(end_of(s, now))
}

/// Whole seconds of a session, never negative.
pub open spec fn duration_of(s: SessionWithApp, now: i128) -> int {
    let w = whole_seconds(s.started_at as int, end_of(s, now));
    if w < 0 {
        0
    } else {
        w
    }
}

/// Total duration of the sessions `a..b`.
pub open spec fn duration_sum(s: Seq<SessionWithApp>, now: i128, a: int, b: int) -> int
    decreases b - a,
{
    if b <= a {
        0
    } else {
        duration_sum(s, now, a, b - 1) + duration_of(s[b - 1], now)
    }
}

/// The sessions can be analysed: their instants are representable and
/// their total duration fits in an `i64`.
pub open spec fn sessions_ok(s: Seq<SessionWithApp>, now: i128) -> bool {
    &&& forall|k: int| 0 <= k < s.len() ==> session_ok(#[trigger] s[k], now)
    &&& duration_sum(s, now, 0, s.len() as int) <= i64::MAX
}

/// Durations are never negative, so partial sums stay below the total.
pub proof fn lemma_duration_sum_bounds(s: Seq<SessionWithApp>, now: i128, a: int, b: int, c: int)
    requires
        0 <= a <= b <= c,
    ensures
        0 <= duration_sum(s, now, a, b) <= duration_sum(s, now, a, c),
        duration_sum(s, now, a, c) == duration_sum(s, now, a, b) + duration_sum(s, now, b, c),
    decreases c - b,
{
    if b < c {
        lemma_duration_sum_bounds(s, now, a, b, c - 1);
    } else {
        lemma_duration_sum_nonneg(s, now, a, b);
    }
}

proof fn lemma_duration_sum_nonneg(s: Seq<SessionWithApp>, now: i128, a: int, b: int)
    ensures
        duration_sum(s, now, a, b) >= 0,
    decreases b - a,
{
    if b > a {
        lemma_duration_sum_nonneg(s, now, a, b - 1);
    }
}

/// Whole seconds of a session, never negative.
pub fn session_duration_secs(session: &SessionWithApp, now: i128) -> (d: i64)
    requires
        session_ok(*session, now),
        duration_of(*session, now) <= i64::MAX,
    ensures
        d == duration_of(*session, now),
{
    let end: i128 = match session.ended_at {
        Some(e) => e,
        None => now,
    };
    let diff: i128 = end - session.started_at;
    let secs: i128 = if diff >= 0 {
        diff / NANOS_PER_SEC
    } else {
        0 - (0 - diff) / NANOS_PER_SEC
    };
    if secs < 0 {
        0
    } else {
        secs as i64
    }
}

/// A session lasts long enough to count as a switch.
pub open spec fn meaningful(s: SessionWithApp, now: i128) -> bool {
    duration_of(s, now) >= MIN_SESSION_DURATION_SECS
}

/// The application a session at `i` is compared against: that of the latest
/// meaningful session after the first and before `i`, or that of the first.
pub open spec fn reference_app(s: Seq<SessionWithApp>, now: i128, i: int) -> i64
    decreases i,
{
    if i <= 1 {
        s[0].application_id
    } else if meaningful(s[i - 1], now) {
        s[i - 1].application_id
    } else {
        reference_app(s, now, i - 1)
    }
}

/// Switches among the sessions before `i`: meaningful sessions after the
/// first whose application differs from their reference application.
pub open spec fn switches_upto(s: Seq<SessionWithApp>, now: i128, i: int) -> int
    decreases i,
{
    if i <= 1 {
        0
    } else {
        switches_upto(s, now, i - 1) + if meaningful(s[i - 1], now) && s[i - 1].application_id
            != reference_app(s, now, i - 1) {
            1int
        } else {
            0
        }
    }
}

/// Number of app switches in a day's sessions.
pub fn count_app_switches(sessions: &[SessionWithApp], now: i128) -> (n: usize)
    requires
        sessions_ok(sessions@, now),
    ensures
        n == switches_upto(sessions@, now, sessions@.len() as int),
{
    let len = sessions.len();
    if len < 2 {
        return 0;
    }
    let mut switches: usize = 0;
    let mut prev = sessions[0].application_id;
    let mut i: usize = 1;
    while i < len
        invariant
            len == sessions@.len(),
            sessions_ok(sessions@, now),
            1 <= i <= len,
            switches == switches_upto(sessions@, now, i as int),
            switches < i,
            prev == reference_app(sessions@, now, i as int),
        decreases len - i,
    {
        let session = &sessions[i];
        proof {
            lemma_duration_sum_bounds(sessions@, now, 0, i as int, i + 1);
            lemma_duration_sum_bounds(sessions@, now, 0, i + 1, len as int);
        }
        let duration = session_duration_secs(session, now);
        if duration >= MIN_SESSION_DURATION_SECS && session.application_id != prev {
            switches = switches + 1;
            prev = session.application_id;
        } else if duration >= MIN_SESSION_DURATION_SECS {
            prev = session.application_id;
        }
        i = i + 1;
    }
    switches
}

/// Total active time: the sum of the sessions' durations.
pub fn calculate_total_active_time(sessions: &[SessionWithApp], now: i128) -> (t: i64)
    requires
        sessions_ok(sessions@, now),
    ensures
        t == duration_sum(sessions@, now, 0, sessions@.len() as int),
{
    let len = sessions.len();
    let mut total: i64 = 0;
    let mut i: usize = 0;
    while i < len
        invariant
            len == sessions@.len(),
            sessions_ok(sessions@, now),
            i <= len,
            total == duration_sum(sessions@, now, 0, i as int),
        decreases len - i,
    {
        proof {
            lemma_duration_sum_bounds(sessions@, now, 0, i as int, i + 1);
            lemma_duration_sum_bounds(sessions@, now, 0, i + 1, len as int);
        }
        total = total + session_duration_secs(&sessions[i], now);
        i = i + 1;
    }
    total
}

/// End of the run of sessions of one application that starts at `i`: the
/// first later index with another application, or the length.
pub open spec fn run_end(s: Seq<SessionWithApp>, i: int) -> int
    decreases s.len() - i,
{
    if i + 1 >= s.len() {
        s.len() as int
    } else if s[i + 1].application_id != s[i].application_id {
        i + 1
    } else {
        run_end(s, i + 1)
    }
}

pub proof fn lemma_run_end_after(s: Seq<SessionWithApp>, i: int)
    requires
        0 <= i < s.len(),
    ensures
        i < run_end(s, i) <= s.len(),
    decreases s.len() - i,
{
    if i + 1 < s.len() && s[i + 1].application_id == s[i].application_id {
        lemma_run_end_after(s, i + 1);
    }
}

/// A run of one application from `a` up to `b`, followed by another
/// application or the end, ends at `b`.
proof fn lemma_run_end_is(s: Seq<SessionWithApp>, a: int, b: int)
    requires
        0 <= a < b <= s.len(),
        forall|k: int| a <= k < b ==> s[k].application_id == s[a].application_id,
        b == s.len() || s[b].application_id != s[a].application_id,
    ensures
        run_end(s, a) == b,
    decreases b - a,
{
    if a + 1 < b {
        lemma_run_end_is(s, a + 1, b);
    }
}

/// What a flow session shows: application name, bundle ID, seconds and start text.
pub open spec fn flow_view(f: FlowSession) -> (Seq<char>, Seq<char>, int, Seq<char>) {
    (f.app_name@, f.bundle_id@, f.duration_secs as int, f.started_at@)
}

/// The RFC 3339 text of an instant, as chrono writes it.
pub open spec fn instant_text(t: i128) -> Seq<char> {
    rfc3339_text(split_instant(t as int).0 as i64, split_instant(t as int).1 as u32)
}

/// The flow sessions of the runs starting at `i` and after: each run of one
/// application lasting `FLOW_THRESHOLD_SECS` or more gives one, named after
/// its first session and starting when it starts.
pub open spec fn flows_from(s: Seq<SessionWithApp>, now: i128, i: int) -> Seq<(Seq<char>, Seq<char>, int, Seq<char>)>
    decreases s.len() - i,
{
    if i < 0 || i >= s.len() {
        Seq::empty()
    } else {
        let j = run_end(s, i);
        proof {
            lemma_run_end_after(s, i);
        }
        let d = duration_sum(s, now, i, j);
        let here = if d >= FLOW_THRESHOLD_SECS {
            seq![(s[i].app_name@, s[i].bundle_id@, d, instant_text(s[i].started_at))]
        } else {
            Seq::empty()
        };
        here + flows_from(s, now, j)
    }
}

/// The flow runs of a day's sessions.
pub fn detect_flow_sessions(sessions: &[SessionWithApp], now: i128) -> (flows: Vec<FlowSession>)
    requires
        sessions_ok(sessions@, now),
    ensures
        flows@.map_values(|f: FlowSession| flow_view(f)) == flows_from(sessions@, now, 0),
{
    let ghost s = sessions@;
    let mut flows: Vec<FlowSession> = Vec::new();
    let len = sessions.len();
    if len == 0 {
        assert(flows@.map_values(|f: FlowSession| flow_view(f)) =~= flows_from(s, now, 0));
        return flows;
    }
    let mut start: usize = 0;
    let mut current_app = sessions[0].application_id;
    let mut current_duration: i64 = 0;
    let mut i: usize = 0;
    while i < len
        invariant
            len == s.len(),
            s == sessions@,
            sessions_ok(s, now),
            0 <= start <= i <= len,
            start < len,
            current_app == s[start as int].application_id,
            forall|k: int| start <= k < i ==> s[k].application_id == current_app,
            start < i || (start == 0 && i == 0),
            current_duration == duration_sum(s, now, start as int, i as int),
            flows@.map_values(|f: FlowSession| flow_view(f)) + flows_from(s, now, start as int)
                == flows_from(s, now, 0),
        decreases len - i,
    {
        let session = &sessions[i];
        proof {
            lemma_duration_sum_bounds(s, now, 0, i as int, i + 1);
            lemma_duration_sum_bounds(s, now, 0, i + 1, len as int);
            lemma_duration_sum_bounds(s, now, 0, start as int, i as int);
            lemma_duration_sum_bounds(s, now, 0, start as int, i + 1);
        }
        let duration = session_duration_secs(session, now);
        if session.application_id == current_app {
            current_duration = current_duration + duration;
        } else {
            let ghost before = flows@.map_values(|f: FlowSession| flow_view(f));
            proof {
                lemma_run_end_is(s, start as int, i as int);
            }
            if current_duration >= FLOW_THRESHOLD_SECS {
                let first = &sessions[start];
                let started_at = rfc3339_string(first.started_at);
                flows.push(FlowSession {
                    app_name: first.app_name.clone(),
                    bundle_id: first.bundle_id.clone(),
                    duration_secs: current_duration,
                    started_at,
                });
                assert(flows@.map_values(|f: FlowSession| flow_view(f)) =~= before.push(
                    (s[start as int].app_name@, s[start as int].bundle_id@, current_duration as int, instant_text(s[start as int].started_at)),
                ));
            }
            proof {
                let here = if current_duration >= FLOW_THRESHOLD_SECS {
                    seq![(s[start as int].app_name@, s[start as int].bundle_id@, current_duration as int, instant_text(s[start as int].started_at))]
                } else {
                    Seq::empty()
                };
                assert(flows_from(s, now, start as int) == here + flows_from(s, now, i as int));
                assert(flows@.map_values(|f: FlowSession| flow_view(f)) =~= before + here);
                assert(before + (here + flows_from(s, now, i as int)) =~= (before + here) + flows_from(s, now, i as int));
            }
            start = i;
            current_app = session.application_id;
            current_duration = duration;
        }
        i = i + 1;
    }
    proof {
        lemma_run_end_is(s, start as int, len as int);
    }
    let ghost before = flows@.map_values(|f: FlowSession| flow_view(f));
    if current_duration >= FLOW_THRESHOLD_SECS {
        let first = &sessions[start];
        let started_at = rfc3339_string(first.started_at);
        flows.push(FlowSession {
            app_name: first.app_name.clone(),
            bundle_id: first.bundle_id.clone(),
            duration_secs: current_duration,
            started_at,
        });
        assert(flows@.map_values(|f: FlowSession| flow_view(f)) =~= before.push(
            (s[start as int].app_name@, s[start as int].bundle_id@, current_duration as int, instant_text(s[start as int].started_at)),
        ));
    }
    proof {
        let here = if current_duration >= FLOW_THRESHOLD_SECS {
            seq![(s[start as int].app_name@, s[start as int].bundle_id@, current_duration as int, instant_text(s[start as int].started_at))]
        } else {
            Seq::empty()
        };
        assert(flows_from(s, now, len as int) =~= Seq::empty());
        assert(flows_from(s, now, start as int) =~= here);
        assert(flows@.map_values(|f: FlowSession| flow_view(f)) =~= before + here);
        assert(before + here =~= flows_from(s, now, 0));
    }
    flows
}

/// Focus score (0-100): 60% from how rarely apps are switched (no switches
/// score 100, 60 or more per hour of activity score 0) and 40% from the
/// share of active time spent in flow, rounded to the nearest whole number,
/// halves away from zero, and capped to a byte.
pub open spec fn focus_score_of(switches: int, flow_secs: int, active_secs: int) -> int {
    if active_secs == 0 {
        0
    } else {
        let full = 100 * active_secs;
        let penalty = if 6000 * switches < full {
            6000 * switches
        } else {
            full
        };
        let num = 60 * (full - penalty) + 4000 * flow_secs;
        let den = full;
        let r = (2 * num + den) / (2 * den);
        if r > 255 {
            255
        } else {
            r
        }
    }
}

/// The focus score of a day with `switch_count` switches, `flow_secs` in
/// flow and `active_secs` active.
pub fn calculate_focus_score(switch_count: usize, flow_secs: i64, active_secs: i64) -> (score: u8)
    requires
        flow_secs >= 0,
        active_secs >= 0,
    ensures
        score == focus_score_of(switch_count as int, flow_secs as int, active_secs as int),
{
    if active_secs == 0 {
        return 0;
    }
    let full: i128 = 100 * active_secs as i128;
    let wanted: i128 = 6000 * switch_count as i128;
    let penalty: i128 = if wanted < full {
        wanted
    } else {
        full
    };
    let num: i128 = 60 * (full - penalty) + 4000 * flow_secs as i128;
    let den: i128 = full;
    let r: i128 = (2 * num + den) / (2 * den);
    if r > 255 {
        255
    } else {
        r as u8
    }
}

/// Total seconds of a list of flows.
pub open spec fn flows_total(f: Seq<(Seq<char>, Seq<char>, int, Seq<char>)>) -> int
    decreases f.len(),
{
    if f.len() == 0 {
        0
    } else {
        flows_total(f.drop_last()) + f.last().2
    }
}

proof fn lemma_flows_total_append(
    a: Seq<(Seq<char>, Seq<char>, int, Seq<char>)>,
    b: Seq<(Seq<char>, Seq<char>, int, Seq<char>)>,
)
    ensures
        flows_total(a + b) == flows_total(a) + flows_total(b),
    decreases b.len(),
{
    if b.len() > 0 {
        assert((a + b).drop_last() =~= a + b.drop_last());
        lemma_flows_total_append(a, b.drop_last());
    } else {
        assert(a + b =~= a);
    }
}

/// Flow time lies within active time.
proof fn lemma_flows_within(s: Seq<SessionWithApp>, now: i128, i: int)
    requires
        0 <= i <= s.len(),
    ensures
        0 <= flows_total(flows_from(s, now, i)) <= duration_sum(s, now, i, s.len() as int),
    decreases s.len() - i,
{
    if i < s.len() {
        let j = run_end(s, i);
        lemma_run_end_after(s, i);
        lemma_flows_within(s, now, j);
        lemma_duration_sum_bounds(s, now, i, j, s.len() as int);
        let d = duration_sum(s, now, i, j);
        let here = if d >= FLOW_THRESHOLD_SECS {
            seq![(s[i].app_name@, s[i].bundle_id@, d, instant_text(s[i].started_at))]
        } else {
            Seq::empty()
        };
        assert(flows_from(s, now, i) == here + flows_from(s, now, j));
        lemma_flows_total_append(here, flows_from(s, now, j));
        if d >= FLOW_THRESHOLD_SECS {
            assert(here.drop_last() =~= Seq::<(Seq<char>, Seq<char>, int, Seq<char>)>::empty());
            assert(flows_total(here.drop_last()) == 0);
            assert(flows_total(here) == d);
        } else {
            assert(flows_total(here) == 0);
        }
    } else {
        assert(flows_from(s, now, i) =~= Seq::empty());
    }
}

/// Every flow lasts at least the threshold.
proof fn lemma_flows_long(s: Seq<SessionWithApp>, now: i128, i: int)
    requires
        0 <= i <= s.len(),
    ensures
        forall|k: int|
            0 <= k < flows_from(s, now, i).len() ==> #[trigger] flows_from(s, now, i)[k].2
                >= FLOW_THRESHOLD_SECS,
    decreases s.len() - i,
{
    if i < s.len() {
        let j = run_end(s, i);
        lemma_run_end_after(s, i);
        lemma_flows_long(s, now, j);
        let d = duration_sum(s, now, i, j);
        let here = if d >= FLOW_THRESHOLD_SECS {
            seq![(s[i].app_name@, s[i].bundle_id@, d, instant_text(s[i].started_at))]
        } else {
            Seq::empty()
        };
        let f = flows_from(s, now, i);
        assert(f == here + flows_from(s, now, j));
        assert forall|k: int| 0 <= k < f.len() implies #[trigger] f[k].2 >= FLOW_THRESHOLD_SECS by {
            if k < here.len() {
            } else {
                assert(f[k] == flows_from(s, now, j)[k - here.len()]);
            }
        }
    } else {
        assert(flows_from(s, now, i) =~= Seq::empty());
    }
}

/// Analyzes a day's sessions, ordered by start; open sessions count up to `now`.
pub fn analyze_focus(date: i32, sessions: &[SessionWithApp], now: i128) -> (a: FocusAnalysis)
    requires
        sessions_ok(sessions@, now),
    ensures
        a.date == date,
        a.switch_count == switches_upto(sessions@, now, sessions@.len() as int),
        a.total_active_secs == duration_sum(sessions@, now, 0, sessions@.len() as int),
        a.flow_sessions@.map_values(|f: FlowSession| flow_view(f)) == flows_from(sessions@, now, 0),
        a.total_flow_secs == flows_total(flows_from(sessions@, now, 0)),
        a.focus_score == focus_score_of(
            a.switch_count as int,
            a.total_flow_secs as int,
            a.total_active_secs as int,
        ),
{
    let switch_count = count_app_switches(sessions, now);
    let total_active_secs = calculate_total_active_time(sessions, now);
    let flow_sessions = detect_flow_sessions(sessions, now);
    let ghost fv = flow_sessions@.map_values(|f: FlowSession| flow_view(f));
    proof {
        lemma_flows_within(sessions@, now, 0);
        lemma_flows_long(sessions@, now, 0);
        lemma_duration_sum_nonneg(sessions@, now, 0, sessions@.len() as int);
    }
    let mut total_flow_secs: i64 = 0;
    let n = flow_sessions.len();
    let mut i: usize = 0;
    assert(fv.take(0) =~= Seq::<(Seq<char>, Seq<char>, int, Seq<char>)>::empty());
    while i < n
        invariant
            n == flow_sessions@.len(),
            fv == flow_sessions@.map_values(|f: FlowSession| flow_view(f)),
            0 <= flows_total(fv) <= i64::MAX,
            forall|k: int| 0 <= k < fv.len() ==> fv[k].2 >= 0,
            i <= n,
            total_flow_secs == flows_total(fv.take(i as int)),
        decreases n - i,
    {
        proof {
            assert(fv.take(i + 1).drop_last() =~= fv.take(i as int));
            lemma_flows_total_append(fv.take(i + 1), fv.skip(i + 1));
            assert(fv.take(i + 1) + fv.skip(i + 1) =~= fv);
            lemma_flows_prefix_nonneg(fv, i + 1);
        }
        total_flow_secs = total_flow_secs + flow_sessions[i].duration_secs;
        i = i + 1;
    }
    assert(fv.take(n as int) =~= fv);
    let focus_score = calculate_focus_score(switch_count, total_flow_secs, total_active_secs);
    FocusAnalysis { date, switch_count, flow_sessions, total_flow_secs, total_active_secs, focus_score }
}

proof fn lemma_flows_prefix_nonneg(f: Seq<(Seq<char>, Seq<char>, int, Seq<char>)>, i: int)
    requires
        0 <= i <= f.len(),
        forall|k: int| 0 <= k < f.len() ==> f[k].2 >= 0,
    ensures
        flows_total(f.take(i)) >= 0,
        flows_total(f.skip(i)) >= 0,
    decreases i,
{
    lemma_flows_nonneg(f.take(i));
    lemma_flows_nonneg(f.skip(i));
}

proof fn lemma_flows_nonneg(f: Seq<(Seq<char>, Seq<char>, int, Seq<char>)>)
    requires
        forall|k: int| 0 <= k < f.len() ==> f[k].2 >= 0,
    ensures
        flows_total(f) >= 0,
    decreases f.len(),
{
    if f.len() > 0 {
        lemma_flows_nonneg(f.drop_last());
    }
}

impl FocusAnalysis {
    /// Flow time as `"{h}h {m}m"`, or `"{m}m"` under an hour.
    pub fn format_flow_time(&self) -> (s: String)
        ensures
            s@ == short_duration_text(self.total_flow_secs as int),
    {
        format_short_duration(self.total_flow_secs)
    }

    /// What the focus score means.
    pub fn score_interpretation(&self) -> (s: &'static str)
        ensures
            s@ == score_text(self.focus_score as int),
    {
        let score = self.focus_score;
        if 90 <= score && score <= 100 {
            "Excellent"
        } else if 70 <= score && score <= 89 {
            "Good"
        } else if 50 <= score && score <= 69 {
            "Fair"
        } else if 30 <= score && score <= 49 {
            "Poor"
        } else {
            "Very Distracted"
        }
    }
}

/// The words for a focus score.
pub open spec fn score_text(score: int) -> Seq<char> {
    if 90 <= score <= 100 {
        "Excellent"@
    } else if 70 <= score <= 89 {
        "Good"@
    } else if 50 <= score <= 69 {
        "Fair"@
    } else if 30 <= score <= 49 {
        "Poor"@
    } else {
        "Very Distracted"@
    }
}

/// Time in flow never exceeds active time.
pub proof fn law_flow_within_active(s: Seq<SessionWithApp>, now: i128)
    ensures
        0 <= flows_total(flows_from(s, now, 0)) <= duration_sum(s, now, 0, s.len() as int),
{
    lemma_flows_within(s, now, 0);
}

/// The focus score lies between 0 and 100 when flow time lies within
/// active time.
pub proof fn law_focus_score_range(switches: int, flow_secs: int, active_secs: int)
    requires
        switches >= 0,
        0 <= flow_secs <= active_secs,
    ensures
        0 <= focus_score_of(switches, flow_secs, active_secs) <= 100,
{
    if active_secs > 0 {
        let full = 100 * active_secs;
        let penalty = if 6000 * switches < full {
            6000 * switches
        } else {
            full
        };
        let num = 60 * (full - penalty) + 4000 * flow_secs;
        assert(0 <= num <= 100 * full) by (nonlinear_arith)
            requires
                full == 100 * active_secs,
                0 <= penalty <= full,
                num == 60 * (full - penalty) + 4000 * flow_secs,
                0 <= flow_secs <= active_secs,
        ;
        assert(0 <= (2 * num + full) / (2 * full) <= 100) by (nonlinear_arith)
            requires
                0 <= num <= 100 * full,
                full > 0,
        ;
    }
}

/// Every flow run lasts at least the flow threshold.
pub proof fn law_flows_are_long(s: Seq<SessionWithApp>, now: i128)
    ensures
        forall|k: int|
            0 <= k < flows_from(s, now, 0).len() ==> #[trigger] flows_from(s, now, 0)[k].2
                >= FLOW_THRESHOLD_SECS,
{
    lemma_flows_long(s, now, 0);
}

} // verus!
