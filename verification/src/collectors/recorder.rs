//! The polling tracker used on Linux and Windows: it keeps the foreground
//! application of the open session, the idle time seen during it, and
//! decides on each poll whether a finished session is to be recorded.
//!
//! The caller runs the loop: it asks the platform whether the user is idle
//! and which window is in front, hands both to [`SessionState::poll`] with
//! the current time, and stores whatever record comes back.

use vstd::prelude::*;
use crate::collectors::config::ScreenTimeConfig;
use crate::text::str_eq;
use crate::time::{instants_close, seconds_between, whole_seconds};

verus! {

/// A finished session, ready to be stored.
pub struct ScreenTimeRecord {
    /// Application identifier (window class or process name)
    pub app: String,
    /// Window title, when titles are tracked
    pub title: Option<String>,
    /// Seconds of the session not spent idle
    pub active_secs: u64,
    /// Seconds of the session spent idle
    pub idle_secs: u64,
}

/// The session being tracked.
pub struct SessionState {
    /// Current foreground app
    pub current_app: Option<String>,
    /// Current window title (if tracking)
    pub current_title: Option<String>,
    /// Start of the current session, in nanoseconds since the Unix epoch
    pub session_start: i128,
    /// Accumulated idle time this session
    pub idle_time_secs: u64,
}

/// The text of an optional string.
pub open spec fn opt_view(o: Option<String>) -> Option<Seq<char>> {
    match o {
        Some(s) => Some(s@),
        None => None,
    }
}

/// A signed count of seconds read as `u64`, as `as u64` does.
pub open spec fn wrapped_secs(s: int) -> int {
    if s >= 0 {
        s
    } else {
        s + 0x1_0000_0000_0000_0000
    }
}

/// Seconds from `start` to `now` as the tracker counts them.
pub open spec fn elapsed_secs(start: i128, now: i128) -> int {
    wrapped_secs(whole_seconds(start as int, now as int))
}

/// `a.saturating_sub(b)`.
pub open spec fn sat_sub(a: int, b: int) -> int {
    if a > b {
        a - b
    } else {
        0
    }
}

/// What closing the open session of `st` at `now` yields: nothing when no
/// session is open or no time was counted, else a record of the app, its
/// title, the active and the idle seconds.
pub open spec fn closes_with(st: SessionState, now: i128, r: Option<ScreenTimeRecord>) -> bool {
    match st.current_app {
        None => r is None,
        Some(app) => {
            let d = elapsed_secs(st.session_start, now);
            if d > 0 {
                &&& r is Some
                &&& r->0.app@ == app@
                &&& opt_view(r->0.title) == opt_view(st.current_title)
                &&& r->0.active_secs == sat_sub(d, st.idle_time_secs as int)
                &&& r->0.idle_secs == st.idle_time_secs
            } else {
                r is None
            }
        },
    }
}

/// The title the tracker keeps for a window named `name`.
pub open spec fn kept_title(config: ScreenTimeConfig, name: String) -> Option<String> {
    if config.track_window_titles {
        Some(name)
    } else {
        None
    }
}

/// Whether a window of `app` titled `title` starts a new session.
pub open spec fn starts_new(
    st: SessionState,
    config: ScreenTimeConfig,
    title: Option<String>,
    app: String,
) -> bool {
    ||| opt_view(st.current_app) != Some(app@)
    ||| (config.track_window_titles && opt_view(st.current_title) != opt_view(title))
}

/// Equality of two optional strings by their text.
fn opt_str_eq(a: &Option<String>, b: &Option<String>) -> (r: bool)
    ensures
        r == (opt_view(*a) == opt_view(*b)),
{
    match (a, b) {
        (Some(x), Some(y)) => str_eq(x.as_str(), y.as_str()),
        (None, None) => true,
        _ => false,
    }
}

/// Seconds from `start` to `now`, truncated toward zero and read as `u64`.
pub fn elapsed(start: i128, now: i128) -> (d: u64)
    requires
        instants_close(start, now),
    ensures
        d == elapsed_secs(start, now),
{
    let secs = seconds_between(start, now);
    if secs >= 0 {
        secs as u64
    } else {
        (secs as i128 + 0x1_0000_0000_0000_0000i128) as u64
    }
}

impl SessionState {
    /// A tracker with no open session, started at `now`.
    pub fn new(now: i128) -> (s: Self)
        ensures
            s.current_app is None,
            s.current_title is None,
            s.session_start == now,
            s.idle_time_secs == 0,
    {
        SessionState { current_app: None, current_title: None, session_start: now, idle_time_secs: 0 }
    }

    /// The record to store when the open session is closed at `now`.
    pub fn finish(&self, now: i128) -> (r: Option<ScreenTimeRecord>)
        requires
            instants_close(self.session_start, now),
        ensures
            closes_with(*self, now, r),
    {
        match &self.current_app {
            None => None,
            Some(app) => {
                let d = elapsed(self.session_start, now);
                if d > 0 {
                    let active: u64 = if d > self.idle_time_secs {
                        d - self.idle_time_secs
                    } else {
                        0
                    };
                    Some(
                        ScreenTimeRecord {
                            app: app.clone(),
                            title: self.current_title.clone(),
                            active_secs: active,
                            idle_secs: self.idle_time_secs,
                        },
                    )
                } else {
                    None
                }
            },
        }
    }

    /// One poll. While the user is idle the poll interval, in whole seconds,
    /// is added to the idle time. Otherwise, when a window is in front and
    /// its application (or, when titles are tracked, its title) differs from
    /// the session's, the session is closed, possibly yielding a record, and
    /// a new one starts at `now`.
    pub fn poll(
        &mut self,
        config: &ScreenTimeConfig,
        idle: bool,
        frontmost: Option<(String, String)>,
        now: i128,
    ) -> (r: Option<ScreenTimeRecord>)
        requires
            idle ==> old(self).idle_time_secs + config.poll_interval_ms / 1000 <= u64::MAX,
            instants_close(old(self).session_start, now),
        ensures
            idle ==> {
                &&& r is None
                &&& final(self).current_app == old(self).current_app
                &&& final(self).current_title == old(self).current_title
                &&& final(self).session_start == old(self).session_start
                &&& final(self).idle_time_secs == old(self).idle_time_secs
                    + config.poll_interval_ms / 1000
            },
            !idle && frontmost is None ==> r is None && *final(self) == *old(self),
            !idle && frontmost is Some ==> {
                let pair = frontmost->0;
                let name = pair.0;
                let app = pair.1;
                let title = kept_title(*config, name);
                if starts_new(*old(self), *config, title, app) {
                    &&& closes_with(*old(self), now, r)
                    &&& final(self).current_app == Some(app)
                    &&& final(self).current_title == title
                    &&& final(self).session_start == now
                    &&& final(self).idle_time_secs == 0
                } else {
                    r is None && *final(self) == *old(self)
                }
            },
    {
        if idle {
            self.idle_time_secs = self.idle_time_secs + config.poll_interval_ms / 1000;
            return None;
        }
        match frontmost {
            None => None,
            Some((name, app)) => {
                let title: Option<String> = if config.track_window_titles {
                    Some(name.clone())
                } else {
                    None
                };
                let same_app = match &self.current_app {
                    Some(cur) => str_eq(cur.as_str(), app.as_str()),
                    None => false,
                };
                let title_changed = config.track_window_titles && !opt_str_eq(
                    &self.current_title,
                    &title,
                );
                if !same_app || title_changed {
                    let rec = self.finish(now);
                    self.current_app = Some(app);
                    self.current_title = title;
                    self.session_start = now;
                    self.idle_time_secs = 0;
                    rec
                } else {
                    None
                }
            },
        }
    }
}

/// A record never counts more active time than the session lasted, and
/// when the idle time fits in the session, active and idle time add up to
/// its length.
pub proof fn law_record_splits_session(st: SessionState, now: i128, r: Option<ScreenTimeRecord>)
    requires
        closes_with(st, now, r),
        r is Some,
    ensures
        r->0.active_secs <= elapsed_secs(st.session_start, now),
        st.idle_time_secs <= elapsed_secs(st.session_start, now) ==> r->0.active_secs
            + r->0.idle_secs == elapsed_secs(st.session_start, now),
{
}

/// With titles not tracked, no title is kept, a change of title alone
/// never starts a new session, and a tracker that holds no title records
/// none.
pub proof fn law_titles_off(
    st: SessionState,
    config: ScreenTimeConfig,
    name: String,
    app: String,
    now: i128,
    r: Option<ScreenTimeRecord>,
)
    requires
        !config.track_window_titles,
    ensures
        kept_title(config, name) is None,
        opt_view(st.current_app) == Some(app@) ==> !starts_new(st, config, kept_title(config, name), app),
        st.current_title is None && closes_with(st, now, r) && r is Some ==> r->0.title is None,
{
}

} // verus!
