use shade::analytics::goals::{check_goals, get_exceeded, get_warnings, GoalProgress, WarningLevel, WeeklySummary};
use shade::config::TimeGoal;
use shade::maps::UsageMap;

#[test]
fn test_goal_progress_under_limit() {
    let goal = TimeGoal::for_app("com.example.app", 120);
    let progress = GoalProgress::new(goal, 60);

    assert_eq!(progress.percent_used_tenths as f64 / 10.0, 50.0);
    assert!(!progress.warning_triggered);
    assert!(!progress.limit_exceeded);
    assert_eq!(progress.warning_level(), WarningLevel::Normal);
}

#[test]
fn test_goal_progress_at_warning() {
    let goal = TimeGoal::for_app("com.example.app", 100);
    let progress = GoalProgress::new(goal, 80);

    assert_eq!(progress.percent_used_tenths as f64 / 10.0, 80.0);
    assert!(progress.warning_triggered);
    assert!(!progress.limit_exceeded);
    assert_eq!(progress.warning_level(), WarningLevel::Warning);
}

#[test]
fn test_goal_progress_exceeded() {
    let goal = TimeGoal::for_app("com.example.app", 60);
    let progress = GoalProgress::new(goal, 90);

    assert_eq!(progress.percent_used_tenths as f64 / 10.0, 150.0);
    assert!(progress.warning_triggered);
    assert!(progress.limit_exceeded);
    assert_eq!(progress.warning_level(), WarningLevel::Exceeded);
}

#[test]
fn test_remaining_display() {
    let goal = TimeGoal::for_app("com.example.app", 120);
    let progress = GoalProgress::new(goal, 30);
    assert_eq!(progress.remaining_display(), "1h 30m left");

    let goal2 = TimeGoal::for_app("com.example.app", 60);
    let progress2 = GoalProgress::new(goal2, 45);
    assert_eq!(progress2.remaining_display(), "15m left");

    let goal3 = TimeGoal::for_app("com.example.app", 60);
    let progress3 = GoalProgress::new(goal3, 90);
    assert_eq!(progress3.remaining_display(), "Over limit");
}

#[test]
fn remaining_minutes_go_negative_over_the_limit() {
    let progress = GoalProgress::new(TimeGoal::for_app("a", 60), 90);
    assert_eq!(progress.remaining_minutes(), -30);
    let exact = GoalProgress::new(TimeGoal::for_app("a", 60), 60);
    assert_eq!(exact.remaining_display(), "Over limit");
}

#[test]
fn test_check_goals_app() {
    let mut app_usage = UsageMap::new();
    app_usage.insert("com.example.app".to_string(), 45);
    let category_usage = UsageMap::new();
    let goals = vec![TimeGoal::for_app("com.example.app", 60)];

    let progress = check_goals(&app_usage, &category_usage, &goals);
    assert_eq!(progress.len(), 1);
    assert_eq!(progress[0].used_minutes, 45);
}

#[test]
fn test_check_goals_category() {
    let app_usage = UsageMap::new();
    let mut category_usage = UsageMap::new();
    category_usage.insert("Social".to_string(), 90);
    let goals = vec![TimeGoal::for_category("Social", 60)];

    let progress = check_goals(&app_usage, &category_usage, &goals);
    assert_eq!(progress.len(), 1);
    assert_eq!(progress[0].used_minutes, 90);
    assert!(progress[0].limit_exceeded);
}

#[test]
fn check_goals_without_usage_counts_zero() {
    let goals = vec![TimeGoal::for_app("com.example.app", 60)];
    let progress = check_goals(&UsageMap::new(), &UsageMap::new(), &goals);
    assert_eq!(progress[0].used_minutes, 0);
    assert_eq!(progress[0].warning_level(), WarningLevel::Normal);
}

#[test]
fn test_get_warnings() {
    let mut app_usage = UsageMap::new();
    app_usage.insert("app1".to_string(), 50);
    app_usage.insert("app2".to_string(), 85);
    let category_usage = UsageMap::new();
    let goals = vec![TimeGoal::for_app("app1", 100), TimeGoal::for_app("app2", 100)];

    let progress = check_goals(&app_usage, &category_usage, &goals);
    let warnings = get_warnings(&progress);
    assert_eq!(warnings.len(), 1);
    assert_eq!(warnings[0].goal.target, "app2");
}

#[test]
fn exceeded_goals_are_also_warnings() {
    let mut app_usage = UsageMap::new();
    app_usage.insert("app1".to_string(), 150);
    app_usage.insert("app2".to_string(), 85);
    let goals = vec![TimeGoal::for_app("app1", 100), TimeGoal::for_app("app2", 100)];
    let progress = check_goals(&app_usage, &UsageMap::new(), &goals);
    let exceeded = get_exceeded(&progress);
    let warnings = get_warnings(&progress);
    assert_eq!(exceeded.len(), 1);
    assert_eq!(exceeded[0].goal.target, "app1");
    assert_eq!(warnings.len(), 2);
}

#[test]
fn zero_limit_goal_is_never_exceeded() {
    let progress = GoalProgress::new(TimeGoal::for_app("a", 0), 10);
    assert!(!progress.limit_exceeded);
    assert!(!progress.warning_triggered);
    assert_eq!(progress.percent_used_tenths, 0);
}

#[test]
fn test_weekly_summary() {
    let goal = TimeGoal::for_app("com.example.app", 60);
    let daily = vec![45, 70, 55, 80, 30, 65, 50];

    let summary = WeeklySummary::new(&goal, daily);
    assert_eq!(summary.total_minutes, 395);
    assert_eq!(summary.days_exceeded, 3);
    assert!((summary.avg_daily_minutes_hundredths as f64 / 100.0 - 56.43).abs() < 0.1);
    assert!((summary.adherence_percent_hundredths() as f64 / 100.0 - 57.14).abs() < 0.1);
}

#[test]
fn test_weekly_summary_empty() {
    let goal = TimeGoal::for_app("com.example.app", 60);
    let summary = WeeklySummary::new(&goal, vec![]);

    assert_eq!(summary.total_minutes, 0);
    assert_eq!(summary.days_exceeded, 0);
    assert_eq!(summary.adherence_percent_hundredths() as f64 / 100.0, 100.0);
}
