//! Collector settings.

use vstd::prelude::*;

verus! {

/// Default idle threshold in seconds (5 minutes).
pub const DEFAULT_IDLE_THRESHOLD_SECS: u64 = 300;

/// Configuration for a screen time collector.
pub struct ScreenTimeConfig {
    /// Polling interval in milliseconds
    pub poll_interval_ms: u64,
    /// Idle threshold in seconds
    pub idle_threshold_secs: u64,
    /// Whether to track window titles (privacy-sensitive)
    pub track_window_titles: bool,
}

impl Default for ScreenTimeConfig {
    fn default() -> (c: Self)
        ensures
            c.poll_interval_ms == 1000,
            c.idle_threshold_secs == DEFAULT_IDLE_THRESHOLD_SECS,
            !c.track_window_titles,
    {
        ScreenTimeConfig {
            poll_interval_ms: 1000,
            idle_threshold_secs: DEFAULT_IDLE_THRESHOLD_SECS,
            track_window_titles: false,
        }
    }
}

impl Clone for ScreenTimeConfig {
    fn clone(&self) -> (c: Self)
        ensures
            c == *self,
    {
        ScreenTimeConfig {
            poll_interval_ms: self.poll_interval_ms,
            idle_threshold_secs: self.idle_threshold_secs,
            track_window_titles: self.track_window_titles,
        }
    }
}

/// Whether Windows reports the user idle: the milliseconds since the last
/// input reach the threshold, the threshold in milliseconds being truncated
/// to 32 bits as `as u32` does.
pub fn windows_idle(idle_ms: u32, threshold_secs: u64) -> (idle: bool)
    requires
        threshold_secs * 1000 <= u64::MAX,
    ensures
        idle == (idle_ms as int >= (threshold_secs as int * 1000) % 0x1_0000_0000),
{
    let ms: u64 = threshold_secs * 1000;
    let low: u64 = ms % 0x1_0000_0000;
    idle_ms as u64 >= low
}

/// Whether X11's screensaver extension reports the user idle: the
/// milliseconds since the last input reach the threshold.
pub fn x11_idle(ms_since_input: u32, threshold_secs: u64) -> (idle: bool)
    ensures
        idle == (ms_since_input as int >= threshold_secs as int * 1000),
{
    ms_since_input as u128 >= threshold_secs as u128 * 1000
}

} // verus!
