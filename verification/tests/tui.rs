use shade::analytics::daily::{AppTime, CategoryTime, DailySummary};
use shade::tui::rows::{app_row, category_row, tab_index};
use shade::tui::{App, Key, KeyOutcome, Tab};

fn summary() -> DailySummary {
    DailySummary {
        date: 739000,
        total_screen_time_secs: 5400,
        category_breakdown: vec![
            CategoryTime { category: "Development".to_string(), seconds: 3600 },
            CategoryTime { category: "Browsers".to_string(), seconds: 1800 },
        ],
        top_apps: vec![
            AppTime { name: "Code".to_string(), bundle_id: "code".to_string(), seconds: 3600 },
            AppTime { name: "Firefox".to_string(), bundle_id: "firefox".to_string(), seconds: 1200 },
            AppTime { name: "Safari".to_string(), bundle_id: "safari".to_string(), seconds: 600 },
        ],
    }
}

#[test]
fn test_app_new() {
    let app = App::new(":memory:");
    assert!(!app.should_quit);
    assert_eq!(app.current_tab, Tab::Today);
    assert_eq!(app.selected_index, 0);
}

#[test]
fn test_tab_navigation() {
    let mut app = App::new(":memory:");

    assert_eq!(app.current_tab, Tab::Today);

    app.next_tab();
    assert_eq!(app.current_tab, Tab::Apps);

    app.next_tab();
    assert_eq!(app.current_tab, Tab::Categories);

    app.next_tab();
    assert_eq!(app.current_tab, Tab::Today);

    app.prev_tab();
    assert_eq!(app.current_tab, Tab::Categories);
}

#[test]
fn test_quit() {
    let mut app = App::new(":memory:");
    assert!(!app.should_quit);
    app.quit();
    assert!(app.should_quit);
}

#[test]
fn test_selection() {
    let mut app = App::new(":memory:");

    assert_eq!(app.selected_index, 0);

    app.select_prev();
    assert_eq!(app.selected_index, 0);

    app.select_next();
    assert_eq!(app.selected_index, 0);
}

#[test]
fn test_total_time_str() {
    let app = App::new(":memory:");
    assert_eq!(app.total_time_str(), "0h 0m");
}

#[test]
fn tab_cycle_returns_home() {
    for t in [Tab::Today, Tab::Apps, Tab::Categories] {
        assert_eq!(t.next().prev(), t);
        assert_eq!(t.prev().next(), t);
        assert_eq!(t.next().next().next(), t);
    }
    assert_eq!(Tab::Apps.title(), "Top Apps");
    assert_eq!(tab_index(Tab::Categories), 2);
}

#[test]
fn selection_stops_at_the_last_row() {
    let mut app = App::new("db");
    app.load_summary(summary());
    assert_eq!(app.total_time_str(), "1h 30m");
    app.next_tab();
    for _ in 0..5 {
        app.select_next();
    }
    assert_eq!(app.selected_index, 2);
    app.select_prev();
    assert_eq!(app.selected_index, 1);
    app.next_tab();
    assert_eq!(app.selected_index, 0);
    app.select_next();
    app.select_next();
    assert_eq!(app.selected_index, 1);
}

#[test]
fn keys_drive_the_dashboard() {
    let mut app = App::new("db");
    app.load_summary(summary());
    assert_eq!(app.handle_key(Key::Tab), KeyOutcome::Done);
    assert_eq!(app.current_tab, Tab::Apps);
    app.handle_key(Key::Char('j'));
    app.handle_key(Key::Down);
    assert_eq!(app.selected_index, 2);
    app.handle_key(Key::Char('k'));
    assert_eq!(app.selected_index, 1);
    app.handle_key(Key::Char('h'));
    assert_eq!(app.current_tab, Tab::Today);
    assert_eq!(app.handle_key(Key::Char('r')), KeyOutcome::Refresh);
    assert_eq!(app.handle_key(Key::Char('x')), KeyOutcome::Done);
    assert!(!app.should_quit);
    app.handle_key(Key::Esc);
    assert!(app.should_quit);
    assert_eq!(app.db_path(), "db");
}

#[test]
fn rows_are_aligned() {
    let s = summary();
    assert_eq!(app_row(0, &s.top_apps[0]), format!(" 1. {:30}  1h  0m", "Code"));
    assert_eq!(app_row(9, &s.top_apps[2]), format!("10. {:30}  0h 10m", "Safari"));
    assert_eq!(category_row(&s.category_breakdown[1]), format!("{:20}  0h 30m", "Browsers"));
}
