//! Analytics: summaries, categories, goals and focus patterns computed
//! from collected usage.

pub mod categories;
pub mod daily;
pub mod focus;
pub mod goals;

pub use categories::{categorize_apps, default_categories, get_category_for_bundle_id, merge_categories};
pub use daily::{compute_category_breakdown, compute_daily_summary, AppTime, CategoryTime, DailySummary};
pub use focus::{analyze_focus, FlowSession, FocusAnalysis, SessionWithApp};
pub use goals::{check_goals, get_exceeded, get_warnings, GoalProgress, WarningLevel, WeeklySummary};
