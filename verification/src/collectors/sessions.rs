//! The session tracker used on macOS: sessions are opened and closed in the
//! database as the foreground application changes and as the user goes
//! idle and comes back.
//!
//! The caller runs the loop: on each poll it hands the foreground window and
//! the idle flag to [`SessionTracker::step`], performs the action that comes
//! back, and reports a session it opened through [`SessionTracker::started`].

use vstd::prelude::*;
use crate::text::str_eq;

verus! {

/// The session being tracked.
pub struct TrackedSession {
    /// Current application bundle ID
    pub bundle_id: String,
    /// Current application name
    pub app_name: String,
    /// Session ID in database
    pub session_id: Option<i64>,
    /// Whether currently idle
    pub is_idle: bool,
}

/// What the caller does after a poll.
pub enum TrackerAction {
    /// Nothing.
    Stay,
    /// Open a session for this application (register it first), then report
    /// it through `started`.
    Open { name: String, bundle_id: String },
    /// Close session `end`, when there is one, as not idle; then open a
    /// session for this application and report it through `started`.
    Switch { end: Option<i64>, name: String, bundle_id: String },
    /// Close session `end`, when there is one, as idle.
    GoIdle { end: Option<i64> },
}

/// Tracker state: the session being tracked, if any.
pub struct SessionTracker {
    pub state: Option<TrackedSession>,
}

/// The window name of a foreground report.
pub open spec fn front_name(f: Option<(String, String)>) -> String {
    let pair = f->0;
    pair.0
}

/// The application of a foreground report.
pub open spec fn front_app(f: Option<(String, String)>) -> String {
    let pair = f->0;
    pair.1
}

/// The action a poll yields, and whether it marks the tracker idle: the
/// first arm that applies, in this order, decides.
/// - nothing tracked, a window in front, not idle: open;
/// - a window of another application in front, not idle: switch;
/// - idle, while not yet marked idle: go idle;
/// - marked idle, a window in front, not idle: open again;
/// - otherwise nothing.
pub open spec fn action_of(
    state: Option<TrackedSession>,
    frontmost: Option<(String, String)>,
    idle: bool,
) -> TrackerAction {
    match state {
        None => {
            if !idle && frontmost is Some {
                TrackerAction::Open { name: front_name(frontmost), bundle_id: front_app(frontmost) }
            } else {
                TrackerAction::Stay
            }
        },
        Some(s) => {
            if !idle && frontmost is Some && s.bundle_id@ != front_app(frontmost)@ {
                TrackerAction::Switch {
                    end: s.session_id,
                    name: front_name(frontmost),
                    bundle_id: front_app(frontmost),
                }
            } else if idle && !s.is_idle {
                TrackerAction::GoIdle { end: s.session_id }
            } else if !idle && frontmost is Some && s.is_idle {
                TrackerAction::Open { name: front_name(frontmost), bundle_id: front_app(frontmost) }
            } else {
                TrackerAction::Stay
            }
        },
    }
}

impl SessionTracker {
    /// A tracker with nothing tracked.
    pub fn new() -> (t: Self)
        ensures
            t.state is None,
    {
        SessionTracker { state: None }
    }

    /// One poll: the action to perform. Going idle forgets the session and
    /// marks the tracker idle at once; every other state change waits for
    /// `started`.
    pub fn step(&mut self, frontmost: Option<(String, String)>, idle: bool) -> (a: TrackerAction)
        ensures
            a == action_of(old(self).state, frontmost, idle),
            a is GoIdle ==> {
                &&& final(self).state is Some
                &&& final(self).state->0.bundle_id == old(self).state->0.bundle_id
                &&& final(self).state->0.app_name == old(self).state->0.app_name
                &&& final(self).state->0.session_id is None
                &&& final(self).state->0.is_idle
            },
            !(a is GoIdle) ==> final(self).state == old(self).state,
    {
        match &mut self.state {
            None => {
                match frontmost {
                    Some((name, bundle_id)) => {
                        if !idle {
                            TrackerAction::Open { name, bundle_id }
                        } else {
                            TrackerAction::Stay
                        }
                    },
                    None => TrackerAction::Stay,
                }
            },
            Some(s) => {
                let front_differs = match &frontmost {
                    Some((_, bundle_id)) => !str_eq(s.bundle_id.as_str(), bundle_id.as_str()),
                    None => false,
                };
                if !idle && front_differs {
                    match frontmost {
                        Some((name, bundle_id)) => TrackerAction::Switch {
                            end: s.session_id,
                            name,
                            bundle_id,
                        },
                        None => TrackerAction::Stay,
                    }
                } else if idle && !s.is_idle {
                    let end = s.session_id;
                    s.session_id = None;
                    s.is_idle = true;
                    TrackerAction::GoIdle { end }
                } else if !idle && s.is_idle {
                    match frontmost {
                        Some((name, bundle_id)) => TrackerAction::Open { name, bundle_id },
                        None => TrackerAction::Stay,
                    }
                } else {
                    TrackerAction::Stay
                }
            },
        }
    }

    /// Records that a session `session_id` was opened for an application.
    pub fn started(&mut self, name: String, bundle_id: String, session_id: i64)
        ensures
            final(self).state == Some(
                TrackedSession { bundle_id, app_name: name, session_id: Some(session_id), is_idle: false },
            ),
    {
        self.state = Some(
            TrackedSession { bundle_id, app_name: name, session_id: Some(session_id), is_idle: false },
        );
    }

    /// The session to close as not idle when tracking stops.
    pub fn finish(&self) -> (end: Option<i64>)
        ensures
            end == match self.state {
                Some(s) => s.session_id,
                None => None,
            },
    {
        match &self.state {
            Some(s) => s.session_id,
            None => None,
        }
    }
}

/// Going idle happens once: a tracker already marked idle does nothing on
/// further idle polls.
pub proof fn law_idle_once(s: TrackedSession, frontmost: Option<(String, String)>)
    requires
        s.is_idle,
    ensures
        action_of(Some(s), frontmost, true) is Stay,
{
}

/// The session the tracker holds open, if any.
pub open spec fn open_session(state: Option<TrackedSession>) -> Option<i64> {
    match state {
        Some(s) => s.session_id,
        None => None,
    }
}

/// A tracked application has an open session exactly while the tracker is
/// not idle. `new` starts so, and `step` and `started` keep it so.
pub open spec fn tracker_ok(state: Option<TrackedSession>) -> bool {
    state matches Some(s) ==> (s.is_idle <==> s.session_id is None)
}

/// The state after an idle poll marks the tracker idle.
pub open spec fn idled(state: Option<TrackedSession>) -> Option<TrackedSession> {
    match state {
        Some(s) => Some(TrackedSession { session_id: None, is_idle: true, ..s }),
        None => None,
    }
}

/// Sessions open and close in turn: a session is opened only while none is
/// open; a switch or an idle poll closes exactly the open session; after
/// going idle none is open; a session reported through `started` is the
/// open one; and each of these keeps the tracker consistent. When tracking
/// stops, `finish` gives the open session to close.
pub proof fn law_sessions_alternate(
    state: Option<TrackedSession>,
    frontmost: Option<(String, String)>,
    idle: bool,
    name: String,
    bundle_id: String,
    session_id: i64,
)
    requires
        tracker_ok(state),
    ensures
        action_of(state, frontmost, idle) is Open ==> open_session(state) is None,
        action_of(state, frontmost, idle) is Switch ==> action_of(state, frontmost, idle)->Switch_end
            == open_session(state),
        action_of(state, frontmost, idle) is GoIdle ==> {
            &&& action_of(state, frontmost, idle)->GoIdle_end == open_session(state)
            &&& open_session(state) is Some
            &&& open_session(idled(state)) is None
            &&& tracker_ok(idled(state))
        },
        ({
            let after = Some(
                TrackedSession { bundle_id, app_name: name, session_id: Some(session_id), is_idle: false },
            );
            tracker_ok(after) && open_session(after) == Some(session_id)
        }),
{
}

} // verus!
