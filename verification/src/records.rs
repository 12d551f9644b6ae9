//! The records Shade stores: tracked applications and their usage
//! sessions, with instants as nanoseconds since the Unix epoch.

use vstd::prelude::*;
use crate::time::{instants_close, seconds_between, whole_seconds};

verus! {

/// An application being tracked
pub struct Application {
    /// Unique ID
    pub id: i64,
    /// Bundle ID (macOS) or executable path
    pub bundle_id: String,
    /// Display name
    pub name: String,
    /// Category (if classified)
    pub category: Option<String>,
    /// When first seen
    pub first_seen: i128,
}

/// A usage session for an application
pub struct Session {
    /// Unique ID
    pub id: i64,
    /// Application ID (foreign key)
    pub application_id: i64,
    /// When the session started
    pub started_at: i128,
    /// When the session ended (None if still active)
    pub ended_at: Option<i128>,
    /// Window title (if tracking enabled)
    pub window_title: Option<String>,
    /// Whether session ended due to idle
    pub ended_idle: bool,
}

/// When a session ends: its end, or `now` while it is still active.
pub open spec fn session_end(s: Session, now: i128) -> i128 {
    match s.ended_at {
        Some(e) => e,
        None => now,
    }
}

impl Session {
    /// Session duration in whole seconds, up to `now` while still active.
    pub fn duration_secs(&self, now: i128) -> (d: i64)
        requires
            instants_close(self.started_at, session_end(*self, now)),
        ensures
            d == whole_seconds(self.started_at as int, session_end(*self, now) as int),
    {
        let end = match self.ended_at {
            Some(e) => e,
            None => now,
        };
        seconds_between(self.started_at, end)
    }
}

} // verus!
