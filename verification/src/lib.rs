//! Shade: privacy-first personal analytics, with all data kept locally.
//!
//! This crate holds the verified core of Shade: category classification,
//! daily summaries, goal tracking, focus analysis, export formatting, the
//! decision logic of the screen-time trackers and the dashboard state.

pub mod analytics;
pub mod collectors;
pub mod commands;
pub mod config;
pub mod export;
pub mod maps;
pub mod records;
pub mod text;
pub mod time;
pub mod tui;
