use shade::config::{config_path, shade_file_in, CategoryConfig, ShadeConfig, TimeGoal};

#[test]
fn test_category_map_empty() {
    let config = ShadeConfig::default();
    assert!(config.category_map().is_empty());
}

#[test]
fn test_category_map_with_categories() {
    let mut config = ShadeConfig::default();
    config.categories.push(CategoryConfig {
        name: "Work".to_string(),
        patterns: vec!["com.slack.Slack".to_string(), "com.microsoft.teams".to_string()],
    });

    let map = config.category_map();
    assert_eq!(map.get("com.slack.Slack"), Some(&"Work".to_string()));
    assert_eq!(map.get("com.microsoft.teams"), Some(&"Work".to_string()));
}

#[test]
fn category_map_prefers_the_last_listing() {
    let mut config = ShadeConfig::default();
    config.add_to_category("com.slack.Slack", "Work");
    config.add_to_category("com.slack.Slack", "Chat");
    let map = config.category_map();
    assert_eq!(map.get("com.slack.Slack"), Some(&"Chat".to_string()));
    assert_eq!(map.len(), 1);
}

#[test]
fn test_add_to_category_new() {
    let mut config = ShadeConfig::default();
    config.add_to_category("com.example.app", "Custom");

    assert_eq!(config.categories.len(), 1);
    assert_eq!(config.categories[0].name, "Custom");
    assert!(config.categories[0].patterns.contains(&"com.example.app".to_string()));
}

#[test]
fn test_add_to_category_existing() {
    let mut config = ShadeConfig::default();
    config.add_to_category("com.example.app1", "Custom");
    config.add_to_category("com.example.app2", "Custom");

    assert_eq!(config.categories.len(), 1);
    assert_eq!(config.categories[0].patterns.len(), 2);
}

#[test]
fn test_add_to_category_no_duplicate() {
    let mut config = ShadeConfig::default();
    config.add_to_category("com.example.app", "Custom");
    config.add_to_category("com.example.app", "Custom");

    assert_eq!(config.categories[0].patterns.len(), 1);
}

#[test]
fn test_remove_from_category() {
    let mut config = ShadeConfig::default();
    config.add_to_category("com.example.app", "Custom");

    let removed = config.remove_from_category("com.example.app", "Custom");
    assert!(removed);
    assert!(config.categories[0].patterns.is_empty());
}

#[test]
fn test_remove_from_category_not_found() {
    let mut config = ShadeConfig::default();
    config.add_to_category("com.example.app", "Custom");

    let removed = config.remove_from_category("com.other.app", "Custom");
    assert!(!removed);
}

#[test]
fn remove_from_missing_category_changes_nothing() {
    let mut config = ShadeConfig::default();
    config.add_to_category("com.example.app", "Custom");
    assert!(!config.remove_from_category("com.example.app", "Other"));
    assert_eq!(config.categories.len(), 1);
    assert_eq!(config.categories[0].patterns.len(), 1);
}

#[test]
fn test_list_categories() {
    let mut config = ShadeConfig::default();
    config.add_to_category("com.app1", "Work");
    config.add_to_category("com.app2", "Work");
    config.add_to_category("com.app3", "Fun");

    let list = config.list_categories();
    assert_eq!(list.len(), 2);
    assert!(list.iter().any(|(name, count)| *name == "Work" && *count == 2));
    assert!(list.iter().any(|(name, count)| *name == "Fun" && *count == 1));
}

#[test]
fn test_add_goal_app() {
    let mut config = ShadeConfig::default();
    let goal = TimeGoal::for_app("com.example.app", 120);
    assert!(config.add_goal(goal));
    assert_eq!(config.goals.len(), 1);
    assert_eq!(config.goals[0].target, "com.example.app");
    assert!(!config.goals[0].is_category);
}

#[test]
fn test_add_goal_category() {
    let mut config = ShadeConfig::default();
    let goal = TimeGoal::for_category("Social", 60);
    assert!(config.add_goal(goal));
    assert_eq!(config.goals.len(), 1);
    assert!(config.goals[0].is_category);
}

#[test]
fn test_add_goal_no_duplicate() {
    let mut config = ShadeConfig::default();
    config.add_goal(TimeGoal::for_app("com.example.app", 120));
    assert!(!config.add_goal(TimeGoal::for_app("com.example.app", 60)));
    assert_eq!(config.goals.len(), 1);
}

#[test]
fn app_and_category_goals_with_one_name_coexist() {
    let mut config = ShadeConfig::default();
    assert!(config.add_goal(TimeGoal::for_app("Social", 30)));
    assert!(config.add_goal(TimeGoal::for_category("Social", 60)));
    assert_eq!(config.get_goal("Social", true).unwrap().daily_limit_minutes, 60);
    assert_eq!(config.get_goal("Social", false).unwrap().daily_limit_minutes, 30);
}

#[test]
fn test_remove_goal() {
    let mut config = ShadeConfig::default();
    config.add_goal(TimeGoal::for_app("com.example.app", 120));
    assert!(config.remove_goal("com.example.app", false));
    assert!(config.goals.is_empty());
}

#[test]
fn test_remove_goal_not_found() {
    let mut config = ShadeConfig::default();
    config.add_goal(TimeGoal::for_app("com.example.app", 120));
    assert!(!config.remove_goal("com.other.app", false));
}

#[test]
fn test_get_goal() {
    let mut config = ShadeConfig::default();
    config.add_goal(TimeGoal::for_app("com.example.app", 120));

    let goal = config.get_goal("com.example.app", false);
    assert!(goal.is_some());
    assert_eq!(goal.unwrap().daily_limit_minutes, 120);
}

#[test]
fn test_update_goal_limit() {
    let mut config = ShadeConfig::default();
    config.add_goal(TimeGoal::for_app("com.example.app", 120));

    assert!(config.update_goal_limit("com.example.app", false, 90));
    assert_eq!(config.goals[0].daily_limit_minutes, 90);
}

#[test]
fn update_missing_goal_reports_false() {
    let mut config = ShadeConfig::default();
    assert!(!config.update_goal_limit("com.example.app", false, 90));
    assert!(config.list_goals().is_empty());
}

#[test]
fn test_time_goal_warn_percent_default() {
    let goal = TimeGoal::for_app("com.example.app", 120);
    assert_eq!(goal.warn_at_percent, 80);
}

#[test]
fn default_config_values() {
    let config = ShadeConfig::default();
    assert_eq!(config.idle_timeout_secs, 300);
    assert_eq!(config.collection_interval_secs, 1);
    assert!(!config.track_window_titles);
    assert_eq!(config.db_path.len(), 3);
    assert_eq!(config.db_path[1], ".shade");
    assert_eq!(config.db_path[2], "shade.db");
}

#[test]
fn shade_files_live_under_the_home_directory() {
    assert_eq!(shade_file_in(Some("/home/ada".to_string()), "shade.db"), vec!["/home/ada", ".shade", "shade.db"]);
    assert_eq!(shade_file_in(None, "config.yaml"), vec![".", ".shade", "config.yaml"]);
    let c = config_path();
    assert_eq!(c.len(), 3);
    assert_eq!(c[2], "config.yaml");
}

#[test]
fn updated_limit_is_what_get_goal_finds() {
    let mut config = ShadeConfig::default();
    config.add_goal(TimeGoal::for_category("Social", 60));
    config.add_goal(TimeGoal::for_app("com.example.app", 120));
    assert!(config.update_goal_limit("com.example.app", false, 45));
    assert_eq!(config.get_goal("com.example.app", false).unwrap().daily_limit_minutes, 45);
    assert_eq!(config.get_goal("Social", true).unwrap().daily_limit_minutes, 60);
}

#[test]
fn adding_an_app_twice_is_adding_it_once() {
    let mut once = ShadeConfig::default();
    once.add_to_category("com.example.app", "Custom");
    let mut twice = ShadeConfig::default();
    twice.add_to_category("com.example.app", "Custom");
    twice.add_to_category("com.example.app", "Custom");
    assert_eq!(once.categories.len(), twice.categories.len());
    assert_eq!(once.categories[0].name, twice.categories[0].name);
    assert_eq!(once.categories[0].patterns, twice.categories[0].patterns);
}
