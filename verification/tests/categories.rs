use shade::analytics::categories::{categorize_apps, default_categories, get_category_for_bundle_id, merge_categories};
use shade::analytics::daily::{compute_category_breakdown, AppTime};
use shade::maps::CategoryMap;

#[test]
fn test_default_categories_contains_browsers() {
    let cats = default_categories();
    assert_eq!(cats.get("com.apple.Safari"), Some(&"Browsers".to_string()));
    assert_eq!(cats.get("com.google.Chrome"), Some(&"Browsers".to_string()));
}

#[test]
fn test_default_categories_contains_development() {
    let cats = default_categories();
    assert_eq!(cats.get("com.microsoft.VSCode"), Some(&"Development".to_string()));
    assert_eq!(cats.get("com.apple.dt.Xcode"), Some(&"Development".to_string()));
}

#[test]
fn test_get_category_for_bundle_id_found() {
    let cats = default_categories();
    assert_eq!(get_category_for_bundle_id("com.apple.Safari", &cats), "Browsers");
}

#[test]
fn test_get_category_for_bundle_id_not_found() {
    let cats = default_categories();
    assert_eq!(get_category_for_bundle_id("com.unknown.app", &cats), "Uncategorized");
}

#[test]
fn test_categorize_apps() {
    let cats = default_categories();
    let apps = vec![
        "com.apple.Safari".to_string(),
        "com.microsoft.VSCode".to_string(),
        "com.unknown.app".to_string(),
    ];

    let result = categorize_apps(&apps, &cats);

    assert_eq!(result.get("com.apple.Safari"), Some(&"Browsers".to_string()));
    assert_eq!(result.get("com.microsoft.VSCode"), Some(&"Development".to_string()));
    assert_eq!(result.get("com.unknown.app"), Some(&"Uncategorized".to_string()));
}

#[test]
fn test_merge_categories_with_defaults() {
    let mut user = CategoryMap::new();
    user.insert("com.custom.app".to_string(), "Custom".to_string());
    user.insert("com.apple.Safari".to_string(), "Web".to_string());

    let merged = merge_categories(&user, true);

    assert_eq!(merged.get("com.custom.app"), Some(&"Custom".to_string()));
    assert_eq!(merged.get("com.apple.Safari"), Some(&"Web".to_string()));
    assert_eq!(merged.get("com.google.Chrome"), Some(&"Browsers".to_string()));
}

#[test]
fn test_merge_categories_without_defaults() {
    let mut user = CategoryMap::new();
    user.insert("com.custom.app".to_string(), "Custom".to_string());

    let merged = merge_categories(&user, false);

    assert_eq!(merged.len(), 1);
    assert_eq!(merged.get("com.custom.app"), Some(&"Custom".to_string()));
    assert!(merged.get("com.apple.Safari").is_none());
}

fn app(name: &str, bundle_id: &str, seconds: i64) -> AppTime {
    AppTime { name: name.to_string(), bundle_id: bundle_id.to_string(), seconds }
}

#[test]
fn test_compute_category_breakdown() {
    let apps = vec![
        app("Safari", "com.apple.Safari", 3600),
        app("Firefox", "org.mozilla.firefox", 1800),
        app("VS Code", "com.microsoft.VSCode", 7200),
        app("Unknown", "com.example.unknown", 600),
    ];

    let mut categories = CategoryMap::new();
    categories.insert("com.apple.Safari".to_string(), "Browsers".to_string());
    categories.insert("org.mozilla.firefox".to_string(), "Browsers".to_string());
    categories.insert("com.microsoft.VSCode".to_string(), "Development".to_string());

    let breakdown = compute_category_breakdown(&apps, &categories);

    assert_eq!(breakdown.len(), 3);
    assert_eq!(breakdown[0].category, "Development");
    assert_eq!(breakdown[0].seconds, 7200);
    assert_eq!(breakdown[1].category, "Browsers");
    assert_eq!(breakdown[1].seconds, 5400);
    assert_eq!(breakdown[2].category, "Uncategorized");
    assert_eq!(breakdown[2].seconds, 600);
}

#[test]
fn breakdown_keeps_the_total_time() {
    let apps = vec![
        app("Safari", "com.apple.Safari", 120),
        app("Terminal", "com.apple.Terminal", 45),
        app("Chrome", "com.google.Chrome", 30),
        app("Mystery", "org.example.mystery", 7),
    ];
    let breakdown = compute_category_breakdown(&apps, &default_categories());
    let total: i64 = breakdown.iter().map(|c| c.seconds).sum();
    assert_eq!(total, 202);
    assert_eq!(breakdown.len(), 3);
    assert_eq!(breakdown[0].category, "Browsers");
    assert_eq!(breakdown[0].seconds, 150);
}

#[test]
fn breakdown_of_no_apps_is_empty() {
    let breakdown = compute_category_breakdown(&[], &default_categories());
    assert!(breakdown.is_empty());
}

#[test]
fn user_entry_overrides_default_category() {
    let mut user = CategoryMap::new();
    user.insert("com.apple.Terminal".to_string(), "Work".to_string());
    let merged = merge_categories(&user, true);
    assert_eq!(get_category_for_bundle_id("com.apple.Terminal", &merged), "Work");
    assert_eq!(get_category_for_bundle_id("com.apple.Safari", &merged), "Browsers");
}

#[test]
fn categorize_apps_repeated_id_is_listed_once() {
    let apps = vec!["com.apple.Safari".to_string(), "com.apple.Safari".to_string()];
    let result = categorize_apps(&apps, &default_categories());
    assert_eq!(result.len(), 1);
}
