//! Screen-time collection: the idle threshold, collector settings, the
//! decisions the trackers make on each poll, and the parsing of what the
//! platform reports about the foreground window.

pub mod config;
pub mod recorder;
pub mod sessions;
pub mod window;

pub use config::{ScreenTimeConfig, DEFAULT_IDLE_THRESHOLD_SECS};
