//! Dashboard logic: its state, how key presses change it, and the text of
//! its list rows.

pub mod app;
pub mod rows;

pub use app::{App, Key, KeyOutcome, Tab};
