use chrono::{TimeZone, Utc};
use shade::collectors::config::{windows_idle, x11_idle};
use shade::collectors::recorder::SessionState;
use shade::collectors::sessions::{SessionTracker, TrackerAction};
use shade::collectors::window::{exe_file_name, parse_frontmost_output, trim_text, window_class, window_name};
use shade::collectors::{ScreenTimeConfig, DEFAULT_IDLE_THRESHOLD_SECS};

const SEC: i128 = 1_000_000_000;

fn t0() -> i128 {
    Utc.with_ymd_and_hms(2026, 3, 11, 9, 0, 0).unwrap().timestamp_nanos_opt().unwrap() as i128
}

fn front(name: &str, app: &str) -> Option<(String, String)> {
    Some((name.to_string(), app.to_string()))
}

#[test]
fn test_default_threshold_constant() {
    assert_eq!(DEFAULT_IDLE_THRESHOLD_SECS, 300);
}

#[test]
fn screen_time_linux_test_screen_time_config_default() {
    let config = ScreenTimeConfig::default();
    assert_eq!(config.poll_interval_ms, 1000);
    assert_eq!(config.idle_threshold_secs, DEFAULT_IDLE_THRESHOLD_SECS);
    assert!(!config.track_window_titles);
}

#[test]
fn screen_time_macos_test_screen_time_config_default() {
    let config = ScreenTimeConfig::default();
    assert_eq!(config.poll_interval_ms, 1000);
    assert_eq!(config.idle_threshold_secs, 300);
    assert!(!config.track_window_titles);
}

#[test]
fn screen_time_windows_test_screen_time_config_default() {
    let config = ScreenTimeConfig::default();
    assert_eq!(config.poll_interval_ms, 1000);
    assert_eq!(config.idle_threshold_secs, DEFAULT_IDLE_THRESHOLD_SECS);
    assert!(!config.track_window_titles);
}

#[test]
fn screen_time_linux_test_session_state_new() {
    let state = SessionState::new(t0());
    assert!(state.current_app.is_none());
    assert!(state.current_title.is_none());
    assert_eq!(state.idle_time_secs, 0);
}

#[test]
fn screen_time_windows_test_session_state_new() {
    let state = SessionState::new(t0());
    assert!(state.current_app.is_none());
    assert!(state.current_title.is_none());
    assert_eq!(state.idle_time_secs, 0);
}

#[test]
fn first_window_starts_a_session_without_a_record() {
    let config = ScreenTimeConfig::default();
    let mut state = SessionState::new(t0());
    let rec = state.poll(&config, false, front("Editor", "code"), t0() + 5 * SEC);
    assert!(rec.is_none());
    assert_eq!(state.current_app.as_deref(), Some("code"));
    assert_eq!(state.session_start, t0() + 5 * SEC);
}

#[test]
fn switching_apps_records_the_previous_session() {
    let config = ScreenTimeConfig::default();
    let mut state = SessionState::new(t0());
    state.poll(&config, false, front("Editor", "code"), t0());
    assert!(state.poll(&config, false, front("Editor 2", "code"), t0() + 10 * SEC).is_none());
    state.poll(&config, true, None, t0() + 20 * SEC);
    state.poll(&config, true, None, t0() + 21 * SEC);
    assert_eq!(state.idle_time_secs, 2);
    let rec = state.poll(&config, false, front("Browser", "firefox"), t0() + 60 * SEC).unwrap();
    assert_eq!(rec.app, "code");
    assert_eq!(rec.title, None);
    assert_eq!(rec.active_secs, 58);
    assert_eq!(rec.idle_secs, 2);
    assert_eq!(state.idle_time_secs, 0);
    assert_eq!(state.current_app.as_deref(), Some("firefox"));
}

#[test]
fn tracked_titles_split_sessions() {
    let config = ScreenTimeConfig { poll_interval_ms: 1000, idle_threshold_secs: 300, track_window_titles: true };
    let mut state = SessionState::new(t0());
    state.poll(&config, false, front("a.rs", "code"), t0());
    let rec = state.poll(&config, false, front("b.rs", "code"), t0() + 30 * SEC).unwrap();
    assert_eq!(rec.title.as_deref(), Some("a.rs"));
    assert_eq!(rec.active_secs, 30);
    assert_eq!(state.current_title.as_deref(), Some("b.rs"));
}

#[test]
fn idle_longer_than_session_leaves_no_active_time() {
    let config = ScreenTimeConfig { poll_interval_ms: 5000, idle_threshold_secs: 300, track_window_titles: false };
    let mut state = SessionState::new(t0());
    state.poll(&config, false, front("x", "code"), t0());
    for _ in 0..4 {
        state.poll(&config, true, None, t0());
    }
    let rec = state.finish(t0() + 10 * SEC).unwrap();
    assert_eq!(rec.idle_secs, 20);
    assert_eq!(rec.active_secs, 0);
}

#[test]
fn finishing_without_elapsed_time_records_nothing() {
    let config = ScreenTimeConfig::default();
    let mut state = SessionState::new(t0());
    state.poll(&config, false, front("x", "code"), t0());
    assert!(state.finish(t0() + SEC / 2).is_none());
    assert!(SessionState::new(t0()).finish(t0() + 100 * SEC).is_none());
}

#[test]
fn no_window_changes_nothing() {
    let config = ScreenTimeConfig::default();
    let mut state = SessionState::new(t0());
    state.poll(&config, false, front("x", "code"), t0());
    assert!(state.poll(&config, false, None, t0() + 9 * SEC).is_none());
    assert_eq!(state.session_start, t0());
}

#[test]
fn tracker_opens_switches_and_goes_idle() {
    let mut tracker = SessionTracker::new();
    match tracker.step(front("Safari", "com.apple.Safari"), false) {
        TrackerAction::Open { name, bundle_id } => {
            assert_eq!(name, "Safari");
            tracker.started(name, bundle_id, 7);
        }
        _ => panic!("expected a session to open"),
    }
    assert!(matches!(tracker.step(front("Safari", "com.apple.Safari"), false), TrackerAction::Stay));
    match tracker.step(front("Mail", "com.apple.mail"), false) {
        TrackerAction::Switch { end, name, bundle_id } => {
            assert_eq!(end, Some(7));
            tracker.started(name, bundle_id, 8);
        }
        _ => panic!("expected a switch"),
    }
    match tracker.step(front("Mail", "com.apple.mail"), true) {
        TrackerAction::GoIdle { end } => assert_eq!(end, Some(8)),
        _ => panic!("expected idle"),
    }
    assert!(matches!(tracker.step(None, true), TrackerAction::Stay));
    assert_eq!(tracker.finish(), None);
    match tracker.step(front("Mail", "com.apple.mail"), false) {
        TrackerAction::Open { bundle_id, .. } => assert_eq!(bundle_id, "com.apple.mail"),
        _ => panic!("expected to resume"),
    }
}

#[test]
fn tracker_switch_after_idle_ends_nothing() {
    let mut tracker = SessionTracker::new();
    tracker.started("Mail".to_string(), "com.apple.mail".to_string(), 3);
    assert!(matches!(tracker.step(None, true), TrackerAction::GoIdle { end: Some(3) }));
    match tracker.step(front("Safari", "com.apple.Safari"), false) {
        TrackerAction::Switch { end, .. } => assert_eq!(end, None),
        _ => panic!("expected a switch"),
    }
    assert_eq!(tracker.finish(), None);
}

#[test]
fn tracker_finish_reports_open_session() {
    let mut tracker = SessionTracker::new();
    assert_eq!(tracker.finish(), None);
    tracker.started("Mail".to_string(), "com.apple.mail".to_string(), 11);
    assert_eq!(tracker.finish(), Some(11));
}

#[test]
fn applescript_output_is_split_at_the_bar() {
    let r = parse_frontmost_output(b"Safari|com.apple.Safari\n");
    assert_eq!(r, Some(("Safari".to_string(), "com.apple.Safari".to_string())));
    let r = parse_frontmost_output(b"  A|b|c  ");
    assert_eq!(r, Some(("A".to_string(), "b|c".to_string())));
    assert_eq!(parse_frontmost_output(b"no bar here\n"), None);
    assert_eq!(parse_frontmost_output(b""), None);
}

#[test]
fn trimming_removes_unicode_white_space() {
    assert_eq!(trim_text("\t hello world \u{3000}\n"), "hello world");
    assert_eq!(trim_text("   "), "");
    assert_eq!(trim_text("x"), "x");
}

#[test]
fn window_class_prefers_the_class_name() {
    assert_eq!(window_class(b"navigator\0Firefox\0"), Some("Firefox".to_string()));
    assert_eq!(window_class(b"xterm\0\0"), Some("xterm".to_string()));
    assert_eq!(window_class(b"solo"), Some("solo".to_string()));
    assert_eq!(window_class(b"\0\0"), None);
    assert_eq!(window_class(b""), None);
    assert_eq!(window_class(b"a\0b\xffc\0"), Some("b\u{fffd}c".to_string()));
}

#[test]
fn exe_file_name_takes_the_last_component() {
    assert_eq!(exe_file_name("C:\\Program Files\\App\\app.exe"), "app.exe");
    assert_eq!(exe_file_name("app.exe"), "app.exe");
    assert_eq!(exe_file_name("C:\\dir\\"), "");
}

#[test]
fn windows_idle_compares_milliseconds() {
    assert!(windows_idle(300_000, 300));
    assert!(!windows_idle(299_999, 300));
    assert!(windows_idle(0, 0));
}

#[test]
fn trimming_follows_the_white_space_table() {
    assert_eq!(trim_text("\u{85}\u{a0}x\u{2028}\u{202f}"), "x");
    assert_eq!(trim_text("\u{200b}x\u{200b}"), "\u{200b}x\u{200b}");
    assert_eq!(trim_text("\u{1680}\u{2000}\u{200a}\u{205f}y\u{2029}\r"), "y");
}

#[test]
fn window_name_prefers_the_utf8_property() {
    assert_eq!(window_name(b"Editor".to_vec(), b"legacy"), Some("Editor".to_string()));
    assert_eq!(window_name(b"bad\xff".to_vec(), b"legacy"), None);
    assert_eq!(window_name(Vec::new(), b"old\xffname"), Some("old\u{fffd}name".to_string()));
    assert_eq!(window_name(Vec::new(), b""), None);
}

#[test]
fn title_changes_alone_do_not_record_without_title_tracking() {
    let config = ScreenTimeConfig::default();
    let mut state = SessionState::new(t0());
    state.poll(&config, false, front("a.rs", "code"), t0());
    assert!(state.poll(&config, false, front("b.rs", "code"), t0() + 30 * SEC).is_none());
    let rec = state.poll(&config, false, front("x", "term"), t0() + 60 * SEC).unwrap();
    assert_eq!(rec.title, None);
    assert_eq!(rec.active_secs, 60);
}

#[test]
fn x11_idle_compares_milliseconds() {
    assert!(x11_idle(300_000, 300));
    assert!(!x11_idle(299_999, 300));
    assert!(!x11_idle(u32::MAX, 5_000_000));
    assert!(x11_idle(0, 0));
}
