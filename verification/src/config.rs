//! Application configuration: user categories and daily time goals.

use vstd::prelude::*;
use crate::analytics::categories::assign;
use crate::collectors::recorder::opt_view;
use crate::maps::{texts, CategoryMap, StrMap};
use crate::text::str_eq;

verus! {

/// The user's home directory as text, if the platform reports one.
///
/// Trusted: calls `dirs::home_dir` and takes the path's text with
/// `to_string_lossy`; the answer depends on the environment, so nothing is
/// stated of it.
#[verifier::external_body]
fn home_dir_text() -> Option<String> {
    match dirs::home_dir() {
        Some(p) => Some(p.to_string_lossy().into_owned()),
        None => None,
    }
}

/// The components of `~/.shade/<file>`, joined in order to make the path:
/// the home directory, or `.` when none is known, then `.shade`, then the file.
pub open spec fn shade_file_parts(home: Option<Seq<char>>, file: Seq<char>) -> Seq<Seq<char>> {
    seq![
        match home {
            Some(h) => h,
            None => "."@,
        },
        ".shade"@,
        file,
    ]
}

/// The components of `~/.shade/<file>` under the home directory `home`.
pub fn shade_file_in(home: Option<String>, file: &str) -> (parts: Vec<String>)
    ensures
        texts(parts@) == shade_file_parts(opt_view(home), file@),
{
    let ghost h = opt_view(home);
    let first = match home {
        Some(h) => h,
        None => String::from_str("."),
    };
    let mut parts: Vec<String> = Vec::new();
    parts.push(first);
    parts.push(String::from_str(".shade"));
    parts.push(String::from_str(file));
    assert(texts(parts@) =~= shade_file_parts(h, file@));
    parts
}

/// Whether `parts` are the components of `~/.shade/<file>` for some home
/// directory (or `.`): three components, the last two `.shade` and `file`.
pub open spec fn in_shade_dir(parts: Seq<String>, file: Seq<char>) -> bool {
    &&& parts.len() == 3
    &&& parts[1]@ == ".shade"@
    &&& parts[2]@ == file
}

/// The components of `~/.shade/<file>` under the user's home directory.
fn shade_file(file: &str) -> (parts: Vec<String>)
    ensures
        in_shade_dir(parts@, file@),
{
    let parts = shade_file_in(home_dir_text(), file);
    assert(parts@.len() == texts(parts@).len());
    assert(texts(parts@)[1] == parts@[1]@ && texts(parts@)[2] == parts@[2]@);
    parts
}

/// Default database location, as path components: `~/.shade/shade.db`.
pub fn default_db_path() -> (p: Vec<String>)
    ensures
        in_shade_dir(p@, "shade.db"@),
{
    shade_file("shade.db")
}

/// Location of the configuration file, as path components: `~/.shade/config.yaml`.
pub fn config_path() -> (p: Vec<String>)
    ensures
        in_shade_dir(p@, "config.yaml"@),
{
    shade_file("config.yaml")
}

/// Default idle timeout: five minutes.
pub fn default_idle_timeout() -> (t: u64)
    ensures
        t == 300,
{
    300
}

/// Default collection interval: one second.
pub fn default_collection_interval() -> (t: u64)
    ensures
        t == 1,
{
    1
}

/// Default warning threshold for goals, in percent of the limit.
pub fn default_warn_percent() -> (p: u8)
    ensures
        p == 80,
{
    80
}

/// A user-defined category: a name and the bundle IDs or app names it holds.
pub struct CategoryConfig {
    pub name: String,
    /// Bundle IDs or app names that belong to this category
    pub patterns: Vec<String>,
}

/// A daily limit on an app or a category.
pub struct TimeGoal {
    /// Target: an app bundle ID or a category name
    pub target: String,
    /// Whether the target is a category (true) or an app (false)
    pub is_category: bool,
    /// Daily limit in minutes
    pub daily_limit_minutes: u32,
    /// Warn at this percentage of the limit
    pub warn_at_percent: u8,
}

/// Main configuration for Shade.
pub struct ShadeConfig {
    /// Database path, as components joined in order
    pub db_path: Vec<String>,
    /// Idle timeout in seconds
    pub idle_timeout_secs: u64,
    /// Collection interval in seconds
    pub collection_interval_secs: u64,
    /// Whether to track window titles (privacy-sensitive)
    pub track_window_titles: bool,
    /// App categories for classification
    pub categories: Vec<CategoryConfig>,
    /// Time goals for apps or categories
    pub goals: Vec<TimeGoal>,
}

/// The patterns of a category, by view.
pub open spec fn patterns_of(c: CategoryConfig) -> Seq<Seq<char>> {
    c.patterns@.map_values(|p: String| p@)
}

/// `i` is the first category named `name`.
pub open spec fn first_named(cats: Seq<CategoryConfig>, name: Seq<char>, i: int) -> bool {
    &&& 0 <= i < cats.len()
    &&& cats[i].name@ == name
    &&& forall|j: int| 0 <= j < i ==> cats[j].name@ != name
}

/// No category is named `name`.
pub open spec fn none_named(cats: Seq<CategoryConfig>, name: Seq<char>) -> bool {
    forall|j: int| 0 <= j < cats.len() ==> cats[j].name@ != name
}

/// The map from pattern to category name that the categories denote, later
/// categories overriding earlier ones.
pub open spec fn config_category_map(cats: Seq<CategoryConfig>) -> Map<Seq<char>, Seq<char>>
    decreases cats.len(),
{
    if cats.len() == 0 {
        Map::empty()
    } else {
        assign(config_category_map(cats.drop_last()), patterns_of(cats.last()), cats.last().name@)
    }
}

/// `s` without any occurrence of `x`, order kept.
pub open spec fn without(s: Seq<Seq<char>>, x: Seq<char>) -> Seq<Seq<char>>
    decreases s.len(),
{
    if s.len() == 0 {
        s
    } else if s.last() == x {
        without(s.drop_last(), x)
    } else {
        without(s.drop_last(), x).push(s.last())
    }
}

/// The goal targets `target`, as a category goal when `is_category` holds.
pub open spec fn goal_matches(g: TimeGoal, target: Seq<char>, is_category: bool) -> bool {
    g.target@ == target && g.is_category == is_category
}

/// Some goal matches.
pub open spec fn has_goal(goals: Seq<TimeGoal>, target: Seq<char>, is_category: bool) -> bool {
    exists|i: int| 0 <= i < goals.len() && goal_matches(#[trigger] goals[i], target, is_category)
}

/// `i` is the first matching goal.
pub open spec fn first_goal(goals: Seq<TimeGoal>, target: Seq<char>, is_category: bool, i: int) -> bool {
    &&& 0 <= i < goals.len()
    &&& goal_matches(goals[i], target, is_category)
    &&& forall|j: int| 0 <= j < i ==> !goal_matches(#[trigger] goals[j], target, is_category)
}

/// `goals` without the goals that match.
pub open spec fn goals_without(goals: Seq<TimeGoal>, target: Seq<char>, is_category: bool) -> Seq<TimeGoal>
    decreases goals.len(),
{
    if goals.len() == 0 {
        goals
    } else if goal_matches(goals.last(), target, is_category) {
        goals_without(goals.drop_last(), target, is_category)
    } else {
        goals_without(goals.drop_last(), target, is_category).push(goals.last())
    }
}

impl TimeGoal {
    /// A goal for an app, warning at 80%.
    pub fn for_app(bundle_id: &str, daily_limit_minutes: u32) -> (g: Self)
        ensures
            g.target@ == bundle_id@,
            !g.is_category,
            g.daily_limit_minutes == daily_limit_minutes,
            g.warn_at_percent == 80,
    {
        TimeGoal {
            target: String::from_str(bundle_id),
            is_category: false,
            daily_limit_minutes,
            warn_at_percent: default_warn_percent(),
        }
    }

    /// A goal for a category, warning at 80%.
    pub fn for_category(category: &str, daily_limit_minutes: u32) -> (g: Self)
        ensures
            g.target@ == category@,
            g.is_category,
            g.daily_limit_minutes == daily_limit_minutes,
            g.warn_at_percent == 80,
    {
        TimeGoal {
            target: String::from_str(category),
            is_category: true,
            daily_limit_minutes,
            warn_at_percent: default_warn_percent(),
        }
    }

    /// A copy of this goal.
    pub fn duplicate(&self) -> (g: Self)
        ensures
            g == *self,
    {
        TimeGoal {
            target: self.target.clone(),
            is_category: self.is_category,
            daily_limit_minutes: self.daily_limit_minutes,
            warn_at_percent: self.warn_at_percent,
        }
    }
}

/// `after` is `before` after adding `bundle_id` to the first category named
/// `category`: listed there once (left alone when already listed), or, with
/// no such category, a new category holding just it appended.
pub open spec fn added_to_category(
    before: Seq<CategoryConfig>,
    after: Seq<CategoryConfig>,
    bundle_id: Seq<char>,
    category: Seq<char>,
) -> bool {
    &&& forall|i: int| #[trigger] first_named(before, category, i) ==> {
        &&& after.len() == before.len()
        &&& forall|j: int| 0 <= j < before.len() && j != i ==> after[j] == before[j]
        &&& after[i].name == before[i].name
        &&& patterns_of(after[i]) == if patterns_of(before[i]).contains(bundle_id) {
            patterns_of(before[i])
        } else {
            patterns_of(before[i]).push(bundle_id)
        }
    }
    &&& none_named(before, category) ==> {
        &&& after.len() == before.len() + 1
        &&& forall|j: int| 0 <= j < before.len() ==> after[j] == before[j]
        &&& after.last().name@ == category
        &&& patterns_of(after.last()) == seq![bundle_id]
    }
}

/// Fields of two configurations other than the categories agree.
pub open spec fn same_except_categories(a: ShadeConfig, b: ShadeConfig) -> bool {
    &&& a.db_path == b.db_path
    &&& a.idle_timeout_secs == b.idle_timeout_secs
    &&& a.collection_interval_secs == b.collection_interval_secs
    &&& a.track_window_titles == b.track_window_titles
    &&& a.goals == b.goals
}

/// Fields of two configurations other than the goals agree.
pub open spec fn same_except_goals(a: ShadeConfig, b: ShadeConfig) -> bool {
    &&& a.db_path == b.db_path
    &&& a.idle_timeout_secs == b.idle_timeout_secs
    &&& a.collection_interval_secs == b.collection_interval_secs
    &&& a.track_window_titles == b.track_window_titles
    &&& a.categories == b.categories
}

impl Default for ShadeConfig {
    fn default() -> (c: Self)
        ensures
            in_shade_dir(c.db_path@, "shade.db"@),
            c.idle_timeout_secs == 300,
            c.collection_interval_secs == 1,
            !c.track_window_titles,
            c.categories@.len() == 0,
            c.goals@.len() == 0,
    {
        ShadeConfig {
            db_path: default_db_path(),
            idle_timeout_secs: default_idle_timeout(),
            collection_interval_secs: default_collection_interval(),
            track_window_titles: false,
            categories: Vec::new(),
            goals: Vec::new(),
        }
    }
}

/// Whether `s` holds `x`.
fn contains_text(s: &Vec<String>, x: &str) -> (b: bool)
    ensures
        b == s@.map_values(|p: String| p@).contains(x@),
{
    let ghost v = s@.map_values(|p: String| p@);
    let n = s.len();
    let mut i: usize = 0;
    while i < n
        invariant
            n == s@.len(),
            v == s@.map_values(|p: String| p@),
            i <= n,
            forall|j: int| 0 <= j < i ==> v[j] != x@,
        decreases n - i,
    {
        if str_eq(s[i].as_str(), x) {
            assert(v[i as int] == x@);
            return true;
        }
        i = i + 1;
    }
    false
}

impl ShadeConfig {
    /// Position of the first category named `category`, if any.
    fn find_category(&self, category: &str) -> (r: Option<usize>)
        ensures
            r matches Some(i) ==> first_named(self.categories@, category@, i as int),
            r is None ==> none_named(self.categories@, category@),
    {
        let n = self.categories.len();
        let mut i: usize = 0;
        while i < n
            invariant
                n == self.categories@.len(),
                i <= n,
                forall|j: int| 0 <= j < i ==> self.categories@[j].name@ != category@,
            decreases n - i,
        {
            if str_eq(self.categories[i].name.as_str(), category) {
                return Some(i);
            }
            i = i + 1;
        }
        None
    }

    /// User-defined categories as a map from pattern to category name; a
    /// pattern listed under several categories maps to the last of them.
    pub fn category_map(&self) -> (m: CategoryMap)
        ensures
            m@ == config_category_map(self.categories@),
    {
        let mut m = StrMap::new();
        let n = self.categories.len();
        let mut i: usize = 0;
        assert(self.categories@.take(0) =~= Seq::<CategoryConfig>::empty());
        while i < n
            invariant
                n == self.categories@.len(),
                i <= n,
                m@ == config_category_map(self.categories@.take(i as int)),
            decreases n - i,
        {
            let cat = &self.categories[i];
            let ghost before = m@;
            let ghost pats = patterns_of(*cat);
            let k = cat.patterns.len();
            let mut j: usize = 0;
            assert(pats.take(0) =~= Seq::<Seq<char>>::empty());
            while j < k
                invariant
                    k == cat.patterns@.len(),
                    pats == patterns_of(*cat),
                    j <= k,
                    m@ == assign(before, pats.take(j as int), cat.name@),
                decreases k - j,
            {
                m.insert(cat.patterns[j].clone(), cat.name.clone());
                assert(pats.take(j + 1).drop_last() =~= pats.take(j as int));
                j = j + 1;
            }
            assert(pats.take(k as int) =~= pats);
            assert(self.categories@.take(i + 1).drop_last() =~= self.categories@.take(i as int));
            i = i + 1;
        }
        assert(self.categories@.take(n as int) =~= self.categories@);
        m
    }

    /// Adds an app to the first category of that name, creating the category
    /// when none exists; an app already listed is not listed twice.
    pub fn add_to_category(&mut self, bundle_id: &str, category: &str)
        ensures
            same_except_categories(*old(self), *final(self)),
            added_to_category(old(self).categories@, final(self).categories@, bundle_id@, category@),
    {
        match self.find_category(category) {
            Some(i) => {
                if !contains_text(&self.categories[i].patterns, bundle_id) {
                    let ghost old_pats = patterns_of(self.categories@[i as int]);
                    let mut cat = self.categories.remove(i);
                    cat.patterns.push(String::from_str(bundle_id));
                    assert(patterns_of(cat) =~= old_pats.push(bundle_id@));
                    self.categories.insert(i, cat);
                }
            },
            None => {
                let mut patterns = Vec::new();
                patterns.push(String::from_str(bundle_id));
                let cat = CategoryConfig { name: String::from_str(category), patterns };
                assert(patterns_of(cat) =~= seq![bundle_id@]);
                self.categories.push(cat);
            },
        }
    }

    /// Removes an app from the first category of that name; true when the
    /// app was listed there.
    pub fn remove_from_category(&mut self, bundle_id: &str, category: &str) -> (removed: bool)
        ensures
            same_except_categories(*old(self), *final(self)),
            forall|i: int| #[trigger] first_named(old(self).categories@, category@, i) ==> {
                &&& final(self).categories@.len() == old(self).categories@.len()
                &&& forall|j: int|
                    0 <= j < old(self).categories@.len() && j != i ==> final(self).categories@[j]
                        == old(self).categories@[j]
                &&& final(self).categories@[i].name == old(self).categories@[i].name
                &&& patterns_of(final(self).categories@[i]) == without(
                    patterns_of(old(self).categories@[i]),
                    bundle_id@,
                )
                &&& removed == patterns_of(old(self).categories@[i]).contains(bundle_id@)
            },
            none_named(old(self).categories@, category@) ==> {
                &&& final(self).categories == old(self).categories
                &&& !removed
            },
    {
        match self.find_category(category) {
            Some(i) => {
                let cat = self.categories.remove(i);
                let ghost pats = patterns_of(cat);
                let mut kept: Vec<String> = Vec::new();
                let mut removed = false;
                let n = cat.patterns.len();
                let mut j: usize = 0;
                assert(pats.take(0) =~= Seq::<Seq<char>>::empty());
                while j < n
                    invariant
                        n == cat.patterns@.len(),
                        pats == patterns_of(cat),
                        j <= n,
                        kept@.map_values(|p: String| p@) == without(pats.take(j as int), bundle_id@),
                        removed == pats.take(j as int).contains(bundle_id@),
                    decreases n - j,
                {
                    let ghost before = kept@;
                    assert(pats.take(j + 1).drop_last() =~= pats.take(j as int));
                    if str_eq(cat.patterns[j].as_str(), bundle_id) {
                        removed = true;
                        assert(pats.take(j + 1)[j as int] == bundle_id@);
                    } else {
                        kept.push(cat.patterns[j].clone());
                        assert(kept@.map_values(|p: String| p@) =~= before.map_values(
                            |p: String| p@,
                        ).push(pats[j as int]));
                        assert(pats.take(j + 1).contains(bundle_id@) ==> pats.take(j as int).contains(
                            bundle_id@,
                        )) by {
                            if pats.take(j + 1).contains(bundle_id@) {
                                let k = choose|k: int|
                                    0 <= k < j + 1 && #[trigger] pats.take(j + 1)[k] == bundle_id@;
                                assert(pats.take(j as int)[k] == bundle_id@);
                            }
                        }
                    }
                    assert(pats.take(j as int).contains(bundle_id@) ==> pats.take(j + 1).contains(
                        bundle_id@,
                    )) by {
                        if pats.take(j as int).contains(bundle_id@) {
                            let k = choose|k: int| 0 <= k < j && #[trigger] pats.take(j as int)[k] == bundle_id@;
                            assert(pats.take(j + 1)[k] == bundle_id@);
                        }
                    }
                    j = j + 1;
                }
                assert(pats.take(n as int) =~= pats);
                let new_cat = CategoryConfig { name: cat.name, patterns: kept };
                self.categories.insert(i, new_cat);
                removed
            },
            None => false,
        }
    }

    /// Every user-defined category with its number of patterns, in order.
    pub fn list_categories(&self) -> (list: Vec<(&str, usize)>)
        ensures
            list@.len() == self.categories@.len(),
            forall|i: int|
                0 <= i < list@.len() ==> (#[trigger] list@[i]).0@ == self.categories@[i].name@
                    && list@[i].1 == self.categories@[i].patterns@.len(),
    {
        let mut list: Vec<(&str, usize)> = Vec::new();
        let n = self.categories.len();
        let mut i: usize = 0;
        while i < n
            invariant
                n == self.categories@.len(),
                i <= n,
                list@.len() == i,
                forall|k: int|
                    0 <= k < i ==> (#[trigger] list@[k]).0@ == self.categories@[k].name@
                        && list@[k].1 == self.categories@[k].patterns@.len(),
            decreases n - i,
        {
            let c = &self.categories[i];
            list.push((c.name.as_str(), c.patterns.len()));
            i = i + 1;
        }
        list
    }

    /// Position of the first goal for `target` of that kind, if any.
    fn find_goal(&self, target: &str, is_category: bool) -> (r: Option<usize>)
        ensures
            r matches Some(i) ==> first_goal(self.goals@, target@, is_category, i as int),
            r is None ==> !has_goal(self.goals@, target@, is_category),
    {
        let n = self.goals.len();
        let mut i: usize = 0;
        while i < n
            invariant
                n == self.goals@.len(),
                i <= n,
                forall|j: int| 0 <= j < i ==> !goal_matches(#[trigger] self.goals@[j], target@, is_category),
            decreases n - i,
        {
            if str_eq(self.goals[i].target.as_str(), target) && self.goals[i].is_category == is_category {
                return Some(i);
            }
            i = i + 1;
        }
        None
    }

    /// Adds a goal unless one for the same target and kind exists; true when added.
    pub fn add_goal(&mut self, goal: TimeGoal) -> (added: bool)
        ensures
            same_except_goals(*old(self), *final(self)),
            added == !has_goal(old(self).goals@, goal.target@, goal.is_category),
            added ==> final(self).goals@ == old(self).goals@.push(goal),
            !added ==> final(self).goals == old(self).goals,
    {
        match self.find_goal(goal.target.as_str(), goal.is_category) {
            Some(_) => false,
            None => {
                self.goals.push(goal);
                true
            },
        }
    }

    /// Removes every goal for `target` of that kind; true when one was removed.
    pub fn remove_goal(&mut self, target: &str, is_category: bool) -> (removed: bool)
        ensures
            same_except_goals(*old(self), *final(self)),
            final(self).goals@ == goals_without(old(self).goals@, target@, is_category),
            removed == has_goal(old(self).goals@, target@, is_category),
    {
        let ghost g = self.goals@;
        let mut kept: Vec<TimeGoal> = Vec::new();
        let mut removed = false;
        let n = self.goals.len();
        let mut i: usize = 0;
        assert(g.take(0) =~= Seq::<TimeGoal>::empty());
        while i < n
            invariant
                n == self.goals@.len(),
                g == self.goals@,
                i <= n,
                kept@ == goals_without(g.take(i as int), target@, is_category),
                removed == has_goal(g.take(i as int), target@, is_category),
            decreases n - i,
        {
            assert(g.take(i + 1).drop_last() =~= g.take(i as int));
            assert(g.take(i + 1)[i as int] == g[i as int]);
            if str_eq(self.goals[i].target.as_str(), target) && self.goals[i].is_category == is_category {
                removed = true;
            } else {
                kept.push(self.goals[i].duplicate());
                assert(has_goal(g.take(i + 1), target@, is_category) ==> has_goal(
                    g.take(i as int),
                    target@,
                    is_category,
                )) by {
                    if has_goal(g.take(i + 1), target@, is_category) {
                        let k = choose|k: int|
                            0 <= k < i + 1 && goal_matches(#[trigger] g.take(i + 1)[k], target@, is_category);
                        assert(g.take(i as int)[k] == g.take(i + 1)[k]);
                    }
                }
            }
            assert(has_goal(g.take(i as int), target@, is_category) ==> has_goal(
                g.take(i + 1),
                target@,
                is_category,
            )) by {
                if has_goal(g.take(i as int), target@, is_category) {
                    let k = choose|k: int|
                        0 <= k < i && goal_matches(#[trigger] g.take(i as int)[k], target@, is_category);
                    assert(g.take(i + 1)[k] == g.take(i as int)[k]);
                }
            }
            i = i + 1;
        }
        assert(g.take(n as int) =~= g);
        self.goals = kept;
        removed
    }

    /// The first goal for `target` of that kind.
    pub fn get_goal(&self, target: &str, is_category: bool) -> (r: Option<&TimeGoal>)
        ensures
            r is Some == has_goal(self.goals@, target@, is_category),
            forall|i: int| #[trigger] first_goal(self.goals@, target@, is_category, i) ==> r == Some(
                &self.goals@[i],
            ),
    {
        match self.find_goal(target, is_category) {
            Some(i) => Some(&self.goals[i]),
            None => None,
        }
    }

    /// All goals, in the order they were added.
    pub fn list_goals(&self) -> (goals: &[TimeGoal])
        ensures
            goals@ == self.goals@,
    {
        self.goals.as_slice()
    }

    /// Sets the daily limit of the first goal for `target` of that kind; true when one exists.
    pub fn update_goal_limit(&mut self, target: &str, is_category: bool, new_limit: u32) -> (updated: bool)
        ensures
            same_except_goals(*old(self), *final(self)),
            updated == has_goal(old(self).goals@, target@, is_category),
            !updated ==> final(self).goals == old(self).goals,
            forall|i: int| #[trigger] first_goal(old(self).goals@, target@, is_category, i) ==> {
                &&& final(self).goals@.len() == old(self).goals@.len()
                &&& forall|j: int|
                    0 <= j < old(self).goals@.len() && j != i ==> final(self).goals@[j]
                        == old(self).goals@[j]
                &&& final(self).goals@[i] == (TimeGoal {
                    daily_limit_minutes: new_limit,
                    ..old(self).goals@[i]
                })
            },
    {
        match self.find_goal(target, is_category) {
            Some(i) => {
                let mut goal = self.goals.remove(i);
                goal.daily_limit_minutes = new_limit;
                self.goals.insert(i, goal);
                true
            },
            None => false,
        }
    }
}


/// No two goals share a target and kind.
pub open spec fn goals_unique(goals: Seq<TimeGoal>) -> bool {
    forall|i: int, j: int|
        0 <= i < j < goals.len() ==> !goal_matches(
            #[trigger] goals[j],
            (#[trigger] goals[i]).target@,
            goals[i].is_category,
        )
}

/// A goal added where none for its target and kind existed is the goal
/// found for that target and kind afterwards.
pub proof fn law_added_goal_found(goals: Seq<TimeGoal>, g: TimeGoal)
    requires
        !has_goal(goals, g.target@, g.is_category),
    ensures
        first_goal(goals.push(g), g.target@, g.is_category, goals.len() as int),
{
    assert forall|j: int| 0 <= j < goals.len() implies !goal_matches(
        #[trigger] goals.push(g)[j],
        g.target@,
        g.is_category,
    ) by {
        assert(goals.push(g)[j] == goals[j]);
    }
}

/// Adding goals never creates two goals for one target and kind.
pub proof fn law_add_goal_keeps_unique(goals: Seq<TimeGoal>, g: TimeGoal)
    requires
        goals_unique(goals),
    ensures
        goals_unique(
            if has_goal(goals, g.target@, g.is_category) {
                goals
            } else {
                goals.push(g)
            },
        ),
{
    if !has_goal(goals, g.target@, g.is_category) {
        let r = goals.push(g);
        assert forall|i: int, j: int| 0 <= i < j < r.len() implies !goal_matches(
            #[trigger] r[j],
            (#[trigger] r[i]).target@,
            r[i].is_category,
        ) by {
            if j == goals.len() {
                if goal_matches(r[j], r[i].target@, r[i].is_category) {
                    assert(goal_matches(goals[i], g.target@, g.is_category));
                }
            } else {
                assert(r[i] == goals[i] && r[j] == goals[j]);
            }
        }
    }
}

proof fn lemma_goals_without_members(goals: Seq<TimeGoal>, target: Seq<char>, is_category: bool)
    ensures
        forall|k: int|
            0 <= k < goals_without(goals, target, is_category).len() ==> !goal_matches(
                #[trigger] goals_without(goals, target, is_category)[k],
                target,
                is_category,
            ),
        forall|i: int|
            0 <= i < goals.len() && !goal_matches(goals[i], target, is_category)
                ==> goals_without(goals, target, is_category).contains(#[trigger] goals[i]),
    decreases goals.len(),
{
    if goals.len() > 0 {
        let rest = goals.drop_last();
        lemma_goals_without_members(rest, target, is_category);
        let w = goals_without(rest, target, is_category);
        if !goal_matches(goals.last(), target, is_category) {
            assert forall|i: int|
                0 <= i < goals.len() && !goal_matches(goals[i], target, is_category)
                    implies goals_without(goals, target, is_category).contains(#[trigger] goals[i]) by {
                if i < goals.len() - 1 {
                    assert(rest[i] == goals[i]);
                    let k = choose|k: int| 0 <= k < w.len() && w[k] == rest[i];
                    assert(w.push(goals.last())[k] == goals[i]);
                } else {
                    assert(w.push(goals.last())[w.len() as int] == goals[i]);
                }
            }
        } else {
            assert forall|i: int|
                0 <= i < goals.len() && !goal_matches(goals[i], target, is_category)
                    implies goals_without(goals, target, is_category).contains(#[trigger] goals[i]) by {
                assert(i < goals.len() - 1);
                assert(rest[i] == goals[i]);
            }
        }
    }
}

/// After removing the goals for a target and kind, none is left for it,
/// and every other goal is still there.
pub proof fn law_removed_goal_gone(goals: Seq<TimeGoal>, target: Seq<char>, is_category: bool)
    ensures
        !has_goal(goals_without(goals, target, is_category), target, is_category),
        forall|i: int|
            0 <= i < goals.len() && !goal_matches(goals[i], target, is_category)
                ==> goals_without(goals, target, is_category).contains(#[trigger] goals[i]),
{
    lemma_goals_without_members(goals, target, is_category);
}

/// After the daily limit of the goal found for a target is changed, the
/// goal found for that target is the same goal with the new limit.
pub proof fn law_updated_limit_found(
    goals: Seq<TimeGoal>,
    target: Seq<char>,
    is_category: bool,
    i: int,
    new_limit: u32,
)
    requires
        first_goal(goals, target, is_category, i),
    ensures
        first_goal(
            goals.update(i, TimeGoal { daily_limit_minutes: new_limit, ..goals[i] }),
            target,
            is_category,
            i,
        ),
        goals.update(i, TimeGoal { daily_limit_minutes: new_limit, ..goals[i] })[i].daily_limit_minutes
            == new_limit,
{
    let u = goals.update(i, TimeGoal { daily_limit_minutes: new_limit, ..goals[i] });
    assert forall|j: int| 0 <= j < i implies !goal_matches(#[trigger] u[j], target, is_category) by {
        assert(u[j] == goals[j]);
    }
}

/// A list without repeated entries.
pub open spec fn no_repeats(s: Seq<Seq<char>>) -> bool {
    forall|i: int, j: int| 0 <= i < j < s.len() ==> #[trigger] s[i] != #[trigger] s[j]
}

/// Adding an app to a category never lists it twice, and the app is listed
/// afterwards.
pub proof fn law_add_to_category_no_repeats(patterns: Seq<Seq<char>>, bundle_id: Seq<char>)
    requires
        no_repeats(patterns),
    ensures
        no_repeats(
            if patterns.contains(bundle_id) {
                patterns
            } else {
                patterns.push(bundle_id)
            },
        ),
        (if patterns.contains(bundle_id) {
            patterns
        } else {
            patterns.push(bundle_id)
        }).contains(bundle_id),
{
    if !patterns.contains(bundle_id) {
        let r = patterns.push(bundle_id);
        assert(r[patterns.len() as int] == bundle_id);
        assert forall|i: int, j: int| 0 <= i < j < r.len() implies #[trigger] r[i] != #[trigger] r[j] by {
            if j == patterns.len() {
                assert(r[i] == patterns[i]);
            } else {
                assert(r[i] == patterns[i] && r[j] == patterns[j]);
            }
        }
    }
}

proof fn lemma_without_absent(s: Seq<Seq<char>>, x: Seq<char>)
    ensures
        !without(s, x).contains(x),
        forall|y: Seq<char>| y != x && s.contains(y) ==> #[trigger] without(s, x).contains(y),
        forall|y: Seq<char>| #[trigger] without(s, x).contains(y) ==> s.contains(y),
    decreases s.len(),
{
    if s.len() > 0 {
        let rest = s.drop_last();
        let w = without(rest, x);
        lemma_without_absent(rest, x);
        assert forall|y: Seq<char>| #[trigger] without(s, x).contains(y) implies s.contains(y) by {
            let r = without(s, x);
            let k = choose|k: int| 0 <= k < r.len() && r[k] == y;
            if s.last() != x && k == w.len() {
                assert(s[s.len() - 1] == y);
            } else {
                assert(r[k] == w[k]);
                assert(w.contains(y));
                assert(rest.contains(y));
                let m = choose|m: int| 0 <= m < rest.len() && rest[m] == y;
                assert(s[m] == y);
            }
        }
        assert forall|y: Seq<char>| y != x && s.contains(y) implies #[trigger] without(s, x).contains(y) by {
            let k = choose|k: int| 0 <= k < s.len() && s[k] == y;
            if k < s.len() - 1 {
                assert(rest[k] == y);
                assert(rest.contains(y));
                assert(w.contains(y));
                if s.last() != x {
                    let m = choose|m: int| 0 <= m < w.len() && w[m] == y;
                    assert(w.push(s.last())[m] == y);
                }
            } else {
                assert(w.push(s.last())[w.len() as int] == y);
            }
        }
        if s.last() != x {
            assert forall|k: int| 0 <= k < w.len() + 1 implies w.push(s.last())[k] != x by {
                if k < w.len() {
                    assert(w.push(s.last())[k] == w[k]);
                }
            }
        }
    }
}

/// Removing an app from a category leaves it unlisted there and keeps every
/// other app; removing an app just added reports a removal.
pub proof fn law_remove_from_category(patterns: Seq<Seq<char>>, bundle_id: Seq<char>)
    ensures
        !without(patterns, bundle_id).contains(bundle_id),
        forall|y: Seq<char>|
            y != bundle_id ==> (without(patterns, bundle_id).contains(y) <==> patterns.contains(y)),
        (if patterns.contains(bundle_id) {
            patterns
        } else {
            patterns.push(bundle_id)
        }).contains(bundle_id),
{
    lemma_without_absent(patterns, bundle_id);
    if !patterns.contains(bundle_id) {
        assert(patterns.push(bundle_id)[patterns.len() as int] == bundle_id);
    }
}

proof fn lemma_assign(m: Map<Seq<char>, Seq<char>>, ids: Seq<Seq<char>>, c: Seq<char>, p: Seq<char>)
    ensures
        assign(m, ids, c).contains_key(p) <==> (m.contains_key(p) || ids.contains(p)),
        ids.contains(p) ==> assign(m, ids, c)[p] == c,
        !ids.contains(p) && m.contains_key(p) ==> assign(m, ids, c)[p] == m[p],
    decreases ids.len(),
{
    if ids.len() > 0 {
        let rest = ids.drop_last();
        lemma_assign(m, rest, c, p);
        if ids.contains(p) && ids.last() != p {
            let k = choose|k: int| 0 <= k < ids.len() && ids[k] == p;
            assert(rest[k] == p);
        }
        if rest.contains(p) {
            let k = choose|k: int| 0 <= k < rest.len() && rest[k] == p;
            assert(ids[k] == p);
        }
        if ids.last() == p {
            assert(ids[ids.len() - 1] == p);
        }
    }
}

/// Some category of `cats` lists pattern `p`.
pub open spec fn listed(cats: Seq<CategoryConfig>, p: Seq<char>) -> bool {
    exists|i: int| 0 <= i < cats.len() && patterns_of(#[trigger] cats[i]).contains(p)
}

proof fn lemma_map_domain(cats: Seq<CategoryConfig>, p: Seq<char>)
    ensures
        config_category_map(cats).contains_key(p) <==> listed(cats, p),
    decreases cats.len(),
{
    if cats.len() > 0 {
        let rest = cats.drop_last();
        lemma_map_domain(rest, p);
        lemma_assign(config_category_map(rest), patterns_of(cats.last()), cats.last().name@, p);
        if listed(cats, p) && !patterns_of(cats.last()).contains(p) {
            let i = choose|i: int| 0 <= i < cats.len() && patterns_of(#[trigger] cats[i]).contains(p);
            assert(rest[i] == cats[i]);
        }
        if listed(rest, p) {
            let i = choose|i: int| 0 <= i < rest.len() && patterns_of(#[trigger] rest[i]).contains(p);
            assert(cats[i] == rest[i]);
        }
        if patterns_of(cats.last()).contains(p) {
            assert(patterns_of(cats[cats.len() - 1]).contains(p));
        }
    }
}

proof fn lemma_map_value(cats: Seq<CategoryConfig>, p: Seq<char>, i: int)
    requires
        0 <= i < cats.len(),
        patterns_of(cats[i]).contains(p),
        forall|j: int| i < j < cats.len() ==> !patterns_of(#[trigger] cats[j]).contains(p),
    ensures
        config_category_map(cats)[p] == cats[i].name@,
    decreases cats.len(),
{
    let rest = cats.drop_last();
    lemma_assign(config_category_map(rest), patterns_of(cats.last()), cats.last().name@, p);
    if i < cats.len() - 1 {
        assert(!patterns_of(cats[cats.len() - 1]).contains(p));
        assert(rest[i] == cats[i]);
        assert forall|j: int| i < j < rest.len() implies !patterns_of(#[trigger] rest[j]).contains(p) by {
            assert(rest[j] == cats[j]);
        }
        lemma_map_value(rest, p, i);
        lemma_map_domain(rest, p);
        assert(listed(rest, p));
    }
}

/// The category map knows exactly the listed patterns, and maps each to the
/// name of the last category that lists it.
pub proof fn law_category_map_lookup(cats: Seq<CategoryConfig>, p: Seq<char>)
    ensures
        config_category_map(cats).contains_key(p) <==> listed(cats, p),
        forall|i: int|
            0 <= i < cats.len() && patterns_of(#[trigger] cats[i]).contains(p) && (forall|j: int|
                i < j < cats.len() ==> !patterns_of(#[trigger] cats[j]).contains(p))
                ==> config_category_map(cats)[p] == cats[i].name@,
{
    lemma_map_domain(cats, p);
    assert forall|i: int|
        0 <= i < cats.len() && patterns_of(#[trigger] cats[i]).contains(p) && (forall|j: int|
            i < j < cats.len() ==> !patterns_of(#[trigger] cats[j]).contains(p))
            implies config_category_map(cats)[p] == cats[i].name@ by {
        lemma_map_value(cats, p, i);
    }
}

/// Two lists of categories agree in every name and every list of patterns.
pub open spec fn same_categories(a: Seq<CategoryConfig>, b: Seq<CategoryConfig>) -> bool {
    &&& a.len() == b.len()
    &&& forall|i: int|
        0 <= i < a.len() ==> (#[trigger] a[i]).name@ == b[i].name@ && patterns_of(a[i]) == patterns_of(
            b[i],
        )
}

proof fn lemma_first_named_exists(cats: Seq<CategoryConfig>, name: Seq<char>) -> (i: int)
    requires
        !none_named(cats, name),
    ensures
        first_named(cats, name, i),
    decreases cats.len(),
{
    let rest = cats.drop_last();
    if none_named(rest, name) {
        assert forall|j: int| 0 <= j < cats.len() - 1 implies cats[j].name@ != name by {
            assert(rest[j] == cats[j]);
        }
        cats.len() - 1
    } else {
        let i = lemma_first_named_exists(rest, name);
        assert forall|j: int| 0 <= j < i implies cats[j].name@ != name by {
            assert(rest[j] == cats[j]);
        }
        assert(rest[i] == cats[i]);
        i
    }
}

/// After an app is added to a category, the category is found first at `k`
/// and lists the app.
proof fn lemma_added_lists(
    a: Seq<CategoryConfig>,
    b: Seq<CategoryConfig>,
    x: Seq<char>,
    cat: Seq<char>,
) -> (k: int)
    requires
        added_to_category(a, b, x, cat),
    ensures
        first_named(b, cat, k),
        patterns_of(b[k]).contains(x),
{
    if none_named(a, cat) {
        let k = a.len() as int;
        assert forall|j: int| 0 <= j < k implies b[j].name@ != cat by {
            assert(b[j] == a[j]);
        }
        assert(b[k] == b.last());
        assert(patterns_of(b[k])[0] == x);
        k
    } else {
        let i = lemma_first_named_exists(a, cat);
        assert forall|j: int| 0 <= j < i implies b[j].name@ != cat by {
            assert(b[j] == a[j]);
        }
        let p = patterns_of(a[i]);
        if !p.contains(x) {
            assert(p.push(x)[p.len() as int] == x);
        }
        i
    }
}

/// Adding an app to a category a second time changes nothing: two calls with
/// the same arguments leave the categories as one call does.
pub proof fn law_add_to_category_idempotent(
    a: Seq<CategoryConfig>,
    b: Seq<CategoryConfig>,
    c: Seq<CategoryConfig>,
    bundle_id: Seq<char>,
    category: Seq<char>,
)
    requires
        added_to_category(a, b, bundle_id, category),
        added_to_category(b, c, bundle_id, category),
    ensures
        same_categories(b, c),
{
    let k = lemma_added_lists(a, b, bundle_id, category);
    assert(!none_named(b, category));
    assert forall|i: int| 0 <= i < b.len() implies (#[trigger] b[i]).name@ == c[i].name@ && patterns_of(b[i])
        == patterns_of(c[i]) by {
        if i != k {
            assert(c[i] == b[i]);
        }
    }
}

} // verus!