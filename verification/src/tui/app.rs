//! Dashboard state: the open tab, the list selection, today's summary and
//! how key presses change them.

use vstd::prelude::*;
use crate::analytics::daily::DailySummary;
use crate::text::hm_text;

verus! {

/// Available tabs/views
#[derive(Debug, Clone, Copy, PartialEq, Eq, Structural)]
pub enum Tab {
    Today,
    Apps,
    Categories,
}

/// The tab after `t`, wrapping around.
pub open spec fn tab_after(t: Tab) -> Tab {
    match t {
        Tab::Today => Tab::Apps,
        Tab::Apps => Tab::Categories,
        Tab::Categories => Tab::Today,
    }
}

/// The tab before `t`, wrapping around.
pub open spec fn tab_before(t: Tab) -> Tab {
    match t {
        Tab::Today => Tab::Categories,
        Tab::Apps => Tab::Today,
        Tab::Categories => Tab::Apps,
    }
}

/// The title shown for a tab.
pub open spec fn tab_title(t: Tab) -> Seq<char> {
    match t {
        Tab::Today => "Today"@,
        Tab::Apps => "Top Apps"@,
        Tab::Categories => "Categories"@,
    }
}

impl Tab {
    pub fn next(&self) -> (t: Self)
        ensures
            t == tab_after(*self),
    {
        match self {
            Tab::Today => Tab::Apps,
            Tab::Apps => Tab::Categories,
            Tab::Categories => Tab::Today,
        }
    }

    pub fn prev(&self) -> (t: Self)
        ensures
            t == tab_before(*self),
    {
        match self {
            Tab::Today => Tab::Categories,
            Tab::Apps => Tab::Today,
            Tab::Categories => Tab::Apps,
        }
    }

    pub fn title(&self) -> (s: &'static str)
        ensures
            s@ == tab_title(*self),
    {
        match self {
            Tab::Today => "Today",
            Tab::Apps => "Top Apps",
            Tab::Categories => "Categories",
        }
    }
}

/// A key press, as far as the dashboard tells keys apart.
pub enum Key {
    Char(char),
    Esc,
    Tab,
    BackTab,
    Left,
    Right,
    Up,
    Down,
    Other,
}

/// What the caller does after a key press.
#[derive(Debug, Clone, Copy, PartialEq, Eq, Structural)]
pub enum KeyOutcome {
    /// Nothing more.
    Done,
    /// Reload today's data.
    Refresh,
}

/// Application state for the TUI
pub struct App {
    /// Whether the app should quit
    pub should_quit: bool,
    /// Current view tab
    pub current_tab: Tab,
    /// Today's summary (cached)
    pub today_summary: Option<DailySummary>,
    /// Selected item index in lists
    pub selected_index: usize,
    /// Error message to display
    pub error_message: Option<String>,
    /// Database path
    pub db_path: String,
}

/// The last index the selection can reach: one less than the number of
/// rows of the open list (0 for an empty list, for the Today tab and
/// without data).
pub open spec fn max_index(summary: Option<DailySummary>, tab: Tab) -> int {
    match summary {
        Some(s) => match tab {
            Tab::Today => 0,
            Tab::Apps => if s.top_apps@.len() > 0 {
                s.top_apps@.len() - 1
            } else {
                0
            },
            Tab::Categories => if s.category_breakdown@.len() > 0 {
                s.category_breakdown@.len() - 1
            } else {
                0
            },
        },
        None => 0,
    }
}

/// The selection after moving down: one further unless already at the last row.
pub open spec fn index_after(selected: int, max: int) -> int {
    if selected < max {
        selected + 1
    } else {
        selected
    }
}

/// The selection after moving up: one back unless already at the top.
pub open spec fn index_before(selected: int) -> int {
    if selected > 0 {
        selected - 1
    } else {
        selected
    }
}

impl App {
    /// Create a new app instance
    pub fn new(db_path: &str) -> (app: Self)
        ensures
            !app.should_quit,
            app.current_tab == Tab::Today,
            app.today_summary is None,
            app.selected_index == 0,
            app.error_message is None,
            app.db_path@ == db_path@,
    {
        App {
            should_quit: false,
            current_tab: Tab::Today,
            today_summary: None,
            selected_index: 0,
            error_message: None,
            db_path: db_path.to_owned(),
        }
    }

    /// The database path.
    pub fn db_path(&self) -> (p: &str)
        ensures
            p@ == self.db_path@,
    {
        self.db_path.as_str()
    }

    /// Installs freshly loaded data and clears the error message.
    pub fn load_summary(&mut self, summary: DailySummary)
        ensures
            final(self).today_summary == Some(summary),
            final(self).error_message is None,
            final(self).should_quit == old(self).should_quit,
            final(self).current_tab == old(self).current_tab,
            final(self).selected_index == old(self).selected_index,
            final(self).db_path == old(self).db_path,
    {
        self.today_summary = Some(summary);
        self.error_message = None;
    }

    /// Handle quit request
    pub fn quit(&mut self)
        ensures
            final(self).should_quit,
            final(self).current_tab == old(self).current_tab,
            final(self).today_summary == old(self).today_summary,
            final(self).selected_index == old(self).selected_index,
            final(self).error_message == old(self).error_message,
            final(self).db_path == old(self).db_path,
    {
        self.should_quit = true;
    }

    /// Switch to next tab
    pub fn next_tab(&mut self)
        ensures
            final(self).current_tab == tab_after(old(self).current_tab),
            final(self).selected_index == 0,
            final(self).should_quit == old(self).should_quit,
            final(self).today_summary == old(self).today_summary,
            final(self).error_message == old(self).error_message,
            final(self).db_path == old(self).db_path,
    {
        self.current_tab = self.current_tab.next();
        self.selected_index = 0;
    }

    /// Switch to previous tab
    pub fn prev_tab(&mut self)
        ensures
            final(self).current_tab == tab_before(old(self).current_tab),
            final(self).selected_index == 0,
            final(self).should_quit == old(self).should_quit,
            final(self).today_summary == old(self).today_summary,
            final(self).error_message == old(self).error_message,
            final(self).db_path == old(self).db_path,
    {
        self.current_tab = self.current_tab.prev();
        self.selected_index = 0;
    }

    /// Get max selection index based on current view
    pub fn max_selection_index(&self) -> (m: usize)
        ensures
            m == max_index(self.today_summary, self.current_tab),
    {
        match &self.today_summary {
            Some(summary) => match self.current_tab {
                Tab::Today => 0,
                Tab::Apps => if summary.top_apps.len() > 0 {
                    summary.top_apps.len() - 1
                } else {
                    0
                },
                Tab::Categories => if summary.category_breakdown.len() > 0 {
                    summary.category_breakdown.len() - 1
                } else {
                    0
                },
            },
            None => 0,
        }
    }

    /// Move selection down
    pub fn select_next(&mut self)
        ensures
            final(self).selected_index == index_after(
                old(self).selected_index as int,
                max_index(old(self).today_summary, old(self).current_tab),
            ),
            final(self).should_quit == old(self).should_quit,
            final(self).current_tab == old(self).current_tab,
            final(self).today_summary == old(self).today_summary,
            final(self).error_message == old(self).error_message,
            final(self).db_path == old(self).db_path,
    {
        let max = self.max_selection_index();
        if self.selected_index < max {
            self.selected_index = self.selected_index + 1;
        }
    }

    /// Move selection up
    pub fn select_prev(&mut self)
        ensures
            final(self).selected_index == index_before(old(self).selected_index as int),
            final(self).should_quit == old(self).should_quit,
            final(self).current_tab == old(self).current_tab,
            final(self).today_summary == old(self).today_summary,
            final(self).error_message == old(self).error_message,
            final(self).db_path == old(self).db_path,
    {
        if self.selected_index > 0 {
            self.selected_index = self.selected_index - 1;
        }
    }

    /// Get today's total screen time formatted
    pub fn total_time_str(&self) -> (s: String)
        ensures
            s@ == match self.today_summary {
                Some(summary) => hm_text(summary.total_screen_time_secs as int),
                None => "0h 0m"@,
            },
    {
        match &self.today_summary {
            Some(s) => s.format_total_time(),
            None => String::from_str("0h 0m"),
        }
    }

    /// Handles a key press: `q` and Esc quit; Tab, Right and `l` open the
    /// next tab; BackTab, Left and `h` the previous one; Down and `j` move
    /// the selection down; Up and `k` move it up; `r` asks for a refresh.
    pub fn handle_key(&mut self, key: Key) -> (o: KeyOutcome)
        ensures
            match key {
                Key::Char('q') | Key::Esc => *final(self) == (App { should_quit: true, ..*old(self) }),
                Key::Tab | Key::Right | Key::Char('l') => *final(self) == (App {
                    current_tab: tab_after(old(self).current_tab),
                    selected_index: 0,
                    ..*old(self)
                }),
                Key::BackTab | Key::Left | Key::Char('h') => *final(self) == (App {
                    current_tab: tab_before(old(self).current_tab),
                    selected_index: 0,
                    ..*old(self)
                }),
                Key::Down | Key::Char('j') => *final(self) == (App {
                    selected_index: index_after(
                        old(self).selected_index as int,
                        max_index(old(self).today_summary, old(self).current_tab),
                    ) as usize,
                    ..*old(self)
                }),
                Key::Up | Key::Char('k') => *final(self) == (App {
                    selected_index: index_before(old(self).selected_index as int) as usize,
                    ..*old(self)
                }),
                _ => *final(self) == *old(self),
            },
            o == (if key == Key::Char('r') {
                KeyOutcome::Refresh
            } else {
                KeyOutcome::Done
            }),
    {
        match key {
            Key::Char('q') | Key::Esc => {
                self.should_quit = true;
                KeyOutcome::Done
            },
            Key::Tab | Key::Right | Key::Char('l') => {
                self.next_tab();
                KeyOutcome::Done
            },
            Key::BackTab | Key::Left | Key::Char('h') => {
                self.prev_tab();
                KeyOutcome::Done
            },
            Key::Down | Key::Char('j') => {
                self.select_next();
                KeyOutcome::Done
            },
            Key::Up | Key::Char('k') => {
                self.select_prev();
                KeyOutcome::Done
            },
            Key::Char('r') => KeyOutcome::Refresh,
            _ => KeyOutcome::Done,
        }
    }
}

/// Moving to the next tab and back, or back and on again, returns to the
/// same tab, and three steps either way come full circle.
pub proof fn law_tab_cycle(t: Tab)
    ensures
        tab_before(tab_after(t)) == t,
        tab_after(tab_before(t)) == t,
        tab_after(tab_after(tab_after(t))) == t,
        tab_before(tab_before(tab_before(t))) == t,
{
}

/// A selection within the list stays within it when moved either way.
pub proof fn law_selection_bounded(selected: int, max: int)
    requires
        0 <= selected <= max,
    ensures
        0 <= index_after(selected, max) <= max,
        0 <= index_before(selected) <= max,
{
}

} // verus!
