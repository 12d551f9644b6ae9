//! Category classification for applications.

use vstd::prelude::*;
use crate::maps::{CategoryMap, StrMap};

verus! {

/// The category name given to applications that no map knows.
pub open spec fn uncategorized() -> Seq<char> {
    "Uncategorized"@
}

/// The category of `bundle_id` under `categories`: its mapped name, or
/// "Uncategorized" when the map does not know it.
pub open spec fn category_of(categories: Map<Seq<char>, Seq<char>>, bundle_id: Seq<char>) -> Seq<char> {
    if categories.contains_key(bundle_id) {
        categories[bundle_id]
    } else {
        uncategorized()
    }
}

/// `m` with every identifier of `ids` mapped to `category`.
pub open spec fn assign(m: Map<Seq<char>, Seq<char>>, ids: Seq<Seq<char>>, category: Seq<char>) -> Map<
    Seq<char>,
    Seq<char>,
>
    decreases ids.len(),
{
    if ids.len() == 0 {
        m
    } else {
        assign(m, ids.drop_last(), category).insert(ids.last(), category)
    }
}
/// Built-in members of the "Browsers" category.
pub open spec fn browsers_apps() -> Seq<Seq<char>> {
    seq![
        "com.apple.Safari"@,
        "org.mozilla.firefox"@,
        "com.google.Chrome"@,
        "com.brave.Browser"@,
        "com.microsoft.edgemac"@,
        "com.operasoftware.Opera"@,
        "org.chromium.Chromium"@,
    ]
}

/// Built-in members of the "Development" category.
pub open spec fn development_apps() -> Seq<Seq<char>> {
    seq![
        "com.microsoft.VSCode"@,
        "com.sublimetext.4"@,
        "com.jetbrains.intellij"@,
        "com.jetbrains.pycharm"@,
        "com.jetbrains.WebStorm"@,
        "com.apple.dt.Xcode"@,
        "com.googlecode.iterm2"@,
        "com.apple.Terminal"@,
        "io.alacritty"@,
        "com.github.wez.wezterm"@,
        "dev.zed.Zed"@,
        "com.todesktop.230313mzl4w4u92"@,
    ]
}

/// Built-in members of the "Communication" category.
pub open spec fn communication_apps() -> Seq<Seq<char>> {
    seq![
        "com.apple.MobileSMS"@,
        "com.apple.mail"@,
        "com.tinyspeck.slackmacgap"@,
        "com.hnc.Discord"@,
        "us.zoom.xos"@,
        "com.microsoft.teams2"@,
        "com.skype.skype"@,
        "com.telegram.desktop"@,
        "net.whatsapp.WhatsApp"@,
    ]
}

/// Built-in members of the "Productivity" category.
pub open spec fn productivity_apps() -> Seq<Seq<char>> {
    seq![
        "com.apple.Notes"@,
        "com.apple.reminders"@,
        "com.apple.iCal"@,
        "md.obsidian"@,
        "com.notion.id"@,
        "com.todoist.mac.Todoist"@,
        "com.microsoft.Word"@,
        "com.microsoft.Excel"@,
        "com.microsoft.Powerpoint"@,
        "com.apple.iWork.Pages"@,
        "com.apple.iWork.Numbers"@,
        "com.apple.iWork.Keynote"@,
    ]
}

/// Built-in members of the "Entertainment" category.
pub open spec fn entertainment_apps() -> Seq<Seq<char>> {
    seq![
        "com.spotify.client"@,
        "com.apple.Music"@,
        "com.apple.TV"@,
        "com.netflix.Netflix"@,
        "com.amazon.aiv.AIVApp"@,
        "tv.plex.player"@,
        "com.apple.podcasts"@,
    ]
}

/// Built-in members of the "Social" category.
pub open spec fn social_apps() -> Seq<Seq<char>> {
    seq![
        "com.twitter.twitter-mac"@,
        "com.facebook.Facebook"@,
        "com.burbn.instagram"@,
        "com.reddit.Reddit"@,
    ]
}

/// Built-in members of the "Design" category.
pub open spec fn design_apps() -> Seq<Seq<char>> {
    seq![
        "com.figma.Desktop"@,
        "com.bohemiancoding.sketch3"@,
        "com.adobe.Photoshop"@,
        "com.adobe.Illustrator"@,
        "com.adobe.InDesign"@,
    ]
}

/// Built-in members of the "System" category.
pub open spec fn system_apps() -> Seq<Seq<char>> {
    seq![
        "com.apple.finder"@,
        "com.apple.systempreferences"@,
        "com.apple.Preview"@,
        "com.apple.ActivityMonitor"@,
    ]
}

/// The built-in category table.
pub open spec fn default_category_map() -> Map<Seq<char>, Seq<char>> {
    assign(
        assign(
        assign(
        assign(
        assign(
        assign(
        assign(
        assign(
        Map::empty(),
        browsers_apps(),
        "Browsers"@,
    ),
        development_apps(),
        "Development"@,
    ),
        communication_apps(),
        "Communication"@,
    ),
        productivity_apps(),
        "Productivity"@,
    ),
        entertainment_apps(),
        "Entertainment"@,
    ),
        social_apps(),
        "Social"@,
    ),
        design_apps(),
        "Design"@,
    ),
        system_apps(),
        "System"@,
    )
}

/// Maps every identifier of `ids` to `category` in `m`.
fn assign_all(m: &mut CategoryMap, ids: &[&str], category: &str)
    ensures
        final(m)@ == assign(old(m)@, ids@.map_values(|s: &str| s@), category@),
{
    let ghost base = m@;
    let ghost views = ids@.map_values(|s: &str| s@);
    let n = ids.len();
    let mut i: usize = 0;
    assert(views.take(0) =~= Seq::<Seq<char>>::empty());
    while i < n
        invariant
            n == ids@.len(),
            views == ids@.map_values(|s: &str| s@),
            i <= n,
            m@ == assign(base, views.take(i as int), category@),
        decreases n - i,
    {
        let id = String::from_str(ids[i]);
        let c = String::from_str(category);
        m.insert(id, c);
        assert(views.take(i + 1).drop_last() =~= views.take(i as int));
        i = i + 1;
    }
    assert(views.take(n as int) =~= views);
}

/// The built-in categories for common applications.
pub fn default_categories() -> (m: CategoryMap)
    ensures
        m@ == default_category_map(),
{
    let mut m = StrMap::new();
    let ids: [&str; 7] = [
        "com.apple.Safari",
        "org.mozilla.firefox",
        "com.google.Chrome",
        "com.brave.Browser",
        "com.microsoft.edgemac",
        "com.operasoftware.Opera",
        "org.chromium.Chromium",
    ];
    let slice = vstd::array::array_as_slice(&ids);
    assert(slice@.map_values(|s: &str| s@) =~= browsers_apps());
    assign_all(&mut m, slice, "Browsers");
    let ids: [&str; 12] = [
        "com.microsoft.VSCode",
        "com.sublimetext.4",
        "com.jetbrains.intellij",
        "com.jetbrains.pycharm",
        "com.jetbrains.WebStorm",
        "com.apple.dt.Xcode",
        "com.googlecode.iterm2",
        "com.apple.Terminal",
        "io.alacritty",
        "com.github.wez.wezterm",
        "dev.zed.Zed",
        "com.todesktop.230313mzl4w4u92",
    ];
    let slice = vstd::array::array_as_slice(&ids);
    assert(slice@.map_values(|s: &str| s@) =~= development_apps());
    assign_all(&mut m, slice, "Development");
    let ids: [&str; 9] = [
        "com.apple.MobileSMS",
        "com.apple.mail",
        "com.tinyspeck.slackmacgap",
        "com.hnc.Discord",
        "us.zoom.xos",
        "com.microsoft.teams2",
        "com.skype.skype",
        "com.telegram.desktop",
        "net.whatsapp.WhatsApp",
    ];
    let slice = vstd::array::array_as_slice(&ids);
    assert(slice@.map_values(|s: &str| s@) =~= communication_apps());
    assign_all(&mut m, slice, "Communication");
    let ids: [&str; 12] = [
        "com.apple.Notes",
        "com.apple.reminders",
        "com.apple.iCal",
        "md.obsidian",
        "com.notion.id",
        "com.todoist.mac.Todoist",
        "com.microsoft.Word",
        "com.microsoft.Excel",
        "com.microsoft.Powerpoint",
        "com.apple.iWork.Pages",
        "com.apple.iWork.Numbers",
        "com.apple.iWork.Keynote",
    ];
    let slice = vstd::array::array_as_slice(&ids);
    assert(slice@.map_values(|s: &str| s@) =~= productivity_apps());
    assign_all(&mut m, slice, "Productivity");
    let ids: [&str; 7] = [
        "com.spotify.client",
        "com.apple.Music",
        "com.apple.TV",
        "com.netflix.Netflix",
        "com.amazon.aiv.AIVApp",
        "tv.plex.player",
        "com.apple.podcasts",
    ];
    let slice = vstd::array::array_as_slice(&ids);
    assert(slice@.map_values(|s: &str| s@) =~= entertainment_apps());
    assign_all(&mut m, slice, "Entertainment");
    let ids: [&str; 4] = [
        "com.twitter.twitter-mac",
        "com.facebook.Facebook",
        "com.burbn.instagram",
        "com.reddit.Reddit",
    ];
    let slice = vstd::array::array_as_slice(&ids);
    assert(slice@.map_values(|s: &str| s@) =~= social_apps());
    assign_all(&mut m, slice, "Social");
    let ids: [&str; 5] = [
        "com.figma.Desktop",
        "com.bohemiancoding.sketch3",
        "com.adobe.Photoshop",
        "com.adobe.Illustrator",
        "com.adobe.InDesign",
    ];
    let slice = vstd::array::array_as_slice(&ids);
    assert(slice@.map_values(|s: &str| s@) =~= design_apps());
    assign_all(&mut m, slice, "Design");
    let ids: [&str; 4] = [
        "com.apple.finder",
        "com.apple.systempreferences",
        "com.apple.Preview",
        "com.apple.ActivityMonitor",
    ];
    let slice = vstd::array::array_as_slice(&ids);
    assert(slice@.map_values(|s: &str| s@) =~= system_apps());
    assign_all(&mut m, slice, "System");
    m
}

/// The categories to classify with: the built-in table overridden by the
/// user's entries when `include_defaults` is set, else the user's entries alone.
pub fn merge_categories(user_categories: &CategoryMap, include_defaults: bool) -> (m: CategoryMap)
    ensures
        include_defaults ==> m@ == default_category_map().union_prefer_right(user_categories@),
        !include_defaults ==> m@ == user_categories@,
{
    if include_defaults {
        let mut merged = default_categories();
        merged.extend_from(user_categories);
        merged
    } else {
        user_categories.duplicate()
    }
}

/// The category of `bundle_id`, or "Uncategorized" when it is not mapped.
pub fn get_category_for_bundle_id(bundle_id: &str, categories: &CategoryMap) -> (c: String)
    ensures
        c@ == category_of(categories@, bundle_id@),
{
    match categories.get(bundle_id) {
        Some(c) => c.clone(),
        None => String::from_str("Uncategorized"),
    }
}

/// The category of each of `bundle_ids`, as a map from bundle ID to category.
pub fn categorize_apps(bundle_ids: &[String], categories: &CategoryMap) -> (m: CategoryMap)
    ensures
        forall|k: Seq<char>|
            m@.contains_key(k) <==> exists|i: int| 0 <= i < bundle_ids@.len() && bundle_ids@[i]@ == k,
        forall|k: Seq<char>| #[trigger] m@.contains_key(k) ==> m@[k] == category_of(categories@, k),
{
    let mut m = StrMap::new();
    let n = bundle_ids.len();
    let mut i: usize = 0;
    while i < n
        invariant
            n == bundle_ids@.len(),
            i <= n,
            forall|k: Seq<char>|
                m@.contains_key(k) <==> exists|j: int| 0 <= j < i && bundle_ids@[j]@ == k,
            forall|k: Seq<char>| #[trigger] m@.contains_key(k) ==> m@[k] == category_of(categories@, k),
        decreases n - i,
    {
        let id = bundle_ids[i].clone();
        let c = get_category_for_bundle_id(bundle_ids[i].as_str(), categories);
        m.insert(id, c);
        proof {
            assert forall|k: Seq<char>|
                m@.contains_key(k) implies exists|j: int| 0 <= j < i + 1 && bundle_ids@[j]@ == k by {
                if k == bundle_ids@[i as int]@ {
                } else {
                    assert(exists|j: int| 0 <= j < i && bundle_ids@[j]@ == k);
                }
            }
            assert forall|k: Seq<char>|
                (exists|j: int| 0 <= j < i + 1 && bundle_ids@[j]@ == k) implies m@.contains_key(k) by {
                let j = choose|j: int| 0 <= j < i + 1 && bundle_ids@[j]@ == k;
                if j < i {
                    assert(exists|j: int| 0 <= j < i && bundle_ids@[j]@ == k);
                }
            }
        }
        i = i + 1;
    }
    m
}

/// With the defaults included, a user's entry always wins, and an app the
/// user did not list keeps its built-in category.
pub proof fn law_user_categories_win(user: Map<Seq<char>, Seq<char>>, bundle_id: Seq<char>)
    ensures
        user.contains_key(bundle_id) ==> category_of(
            default_category_map().union_prefer_right(user),
            bundle_id,
        ) == user[bundle_id],
        !user.contains_key(bundle_id) ==> category_of(
            default_category_map().union_prefer_right(user),
            bundle_id,
        ) == category_of(default_category_map(), bundle_id),
{
}

proof fn lemma_assign_has(m: Map<Seq<char>, Seq<char>>, ids: Seq<Seq<char>>, c: Seq<char>, k: int)
    requires
        0 <= k < ids.len(),
    ensures
        assign(m, ids, c).contains_key(ids[k]),
        assign(m, ids, c)[ids[k]] == c,
    decreases ids.len(),
{
    if k < ids.len() - 1 {
        lemma_assign_has(m, ids.drop_last(), c, k);
        assert(ids.drop_last()[k] == ids[k]);
    }
}

/// No identifier of `ids` is `p`.
spec fn absent(ids: Seq<Seq<char>>, p: Seq<char>) -> bool
    decreases ids.len(),
{
    ids.len() == 0 || (ids.last() != p && absent(ids.drop_last(), p))
}

proof fn lemma_assign_keeps(m: Map<Seq<char>, Seq<char>>, ids: Seq<Seq<char>>, c: Seq<char>, p: Seq<char>)
    requires
        absent(ids, p),
    ensures
        assign(m, ids, c).contains_key(p) == m.contains_key(p),
        assign(m, ids, c)[p] == m[p],
    decreases ids.len(),
{
    if ids.len() > 0 {
        lemma_assign_keeps(m, ids.drop_last(), c, p);
    }
}

/// Lengths of the listed identifiers, and the characters that tell apart
/// those of equal length.
proof fn lemma_builtin_facts()
    ensures
        browsers_apps()[0].len() == 16,
        browsers_apps()[1].len() == 19,
        browsers_apps()[2].len() == 17,
        browsers_apps()[3].len() == 17,
        browsers_apps()[4].len() == 21,
        browsers_apps()[5].len() == 23,
        browsers_apps()[6].len() == 21,
        development_apps()[0].len() == 20,
        development_apps()[1].len() == 17,
        development_apps()[2].len() == 22,
        development_apps()[3].len() == 21,
        development_apps()[4].len() == 22,
        development_apps()[5].len() == 18,
        development_apps()[6].len() == 21,
        development_apps()[7].len() == 18,
        development_apps()[8].len() == 12,
        development_apps()[9].len() == 22,
        development_apps()[10].len() == 11,
        development_apps()[11].len() == 29,
        communication_apps()[0].len() == 19,
        communication_apps()[1].len() == 14,
        communication_apps()[2].len() == 25,
        communication_apps()[3].len() == 15,
        communication_apps()[4].len() == 11,
        communication_apps()[5].len() == 20,
        communication_apps()[6].len() == 15,
        communication_apps()[7].len() == 20,
        communication_apps()[8].len() == 21,
        productivity_apps()[0].len() == 15,
        productivity_apps()[1].len() == 19,
        productivity_apps()[2].len() == 14,
        productivity_apps()[3].len() == 11,
        productivity_apps()[4].len() == 13,
        productivity_apps()[5].len() == 23,
        productivity_apps()[6].len() == 18,
        productivity_apps()[7].len() == 19,
        productivity_apps()[8].len() == 24,
        productivity_apps()[9].len() == 21,
        productivity_apps()[10].len() == 23,
        productivity_apps()[11].len() == 23,
        entertainment_apps()[0].len() == 18,
        entertainment_apps()[1].len() == 15,
        entertainment_apps()[2].len() == 12,
        entertainment_apps()[3].len() == 19,
        entertainment_apps()[4].len() == 21,
        entertainment_apps()[5].len() == 14,
        entertainment_apps()[6].len() == 18,
        social_apps()[0].len() == 23,
        social_apps()[1].len() == 21,
        social_apps()[2].len() == 19,
        social_apps()[3].len() == 17,
        design_apps()[0].len() == 17,
        design_apps()[1].len() == 26,
        design_apps()[2].len() == 19,
        design_apps()[3].len() == 21,
        design_apps()[4].len() == 18,
        system_apps()[0].len() == 16,
        system_apps()[1].len() == 27,
        system_apps()[2].len() == 17,
        system_apps()[3].len() == 25,
        browsers_apps()[0][10] == 'S',
        browsers_apps()[1][0] == 'o',
        browsers_apps()[2][4] == 'g',
        browsers_apps()[3][4] == 'b',
        browsers_apps()[4][0] == 'c',
        browsers_apps()[4][4] == 'm',
        browsers_apps()[5][4] == 'o',
        browsers_apps()[6][0] == 'o',
        development_apps()[0][4] == 'm',
        development_apps()[0][14] == 'V',
        development_apps()[1][4] == 's',
        development_apps()[3][0] == 'c',
        development_apps()[3][4] == 'j',
        development_apps()[5][4] == 'a',
        development_apps()[5][5] == 'p',
        development_apps()[5][10] == 'd',
        development_apps()[6][0] == 'c',
        development_apps()[6][4] == 'g',
        development_apps()[7][4] == 'a',
        development_apps()[7][5] == 'p',
        development_apps()[7][10] == 'T',
        development_apps()[8][0] == 'i',
        development_apps()[10][0] == 'd',
        communication_apps()[0][0] == 'c',
        communication_apps()[0][4] == 'a',
        communication_apps()[0][5] == 'p',
        communication_apps()[0][10] == 'M',
        communication_apps()[1][0] == 'c',
        communication_apps()[1][10] == 'm',
        communication_apps()[2][4] == 't',
        communication_apps()[3][4] == 'h',
        communication_apps()[4][0] == 'u',
        communication_apps()[5][14] == 't',
        communication_apps()[6][4] == 's',
        communication_apps()[7][4] == 't',
        communication_apps()[8][0] == 'n',
        productivity_apps()[0][4] == 'a',
        productivity_apps()[0][10] == 'N',
        productivity_apps()[1][0] == 'c',
        productivity_apps()[1][4] == 'a',
        productivity_apps()[1][5] == 'p',
        productivity_apps()[1][10] == 'r',
        productivity_apps()[2][0] == 'c',
        productivity_apps()[2][10] == 'i',
        productivity_apps()[3][0] == 'm',
        productivity_apps()[5][4] == 't',
        productivity_apps()[5][5] == 'o',
        productivity_apps()[6][4] == 'm',
        productivity_apps()[7][0] == 'c',
        productivity_apps()[7][4] == 'm',
        productivity_apps()[9][0] == 'c',
        productivity_apps()[9][4] == 'a',
        productivity_apps()[9][5] == 'p',
        productivity_apps()[10][4] == 'a',
        productivity_apps()[11][4] == 'a',
        entertainment_apps()[0][4] == 's',
        entertainment_apps()[1][4] == 'a',
        entertainment_apps()[1][10] == 'M',
        entertainment_apps()[2][0] == 'c',
        entertainment_apps()[3][0] == 'c',
        entertainment_apps()[3][4] == 'n',
        entertainment_apps()[4][0] == 'c',
        entertainment_apps()[4][4] == 'a',
        entertainment_apps()[4][5] == 'm',
        entertainment_apps()[5][0] == 't',
        entertainment_apps()[6][4] == 'a',
        entertainment_apps()[6][5] == 'p',
        entertainment_apps()[6][10] == 'p',
        social_apps()[0][4] == 't',
        social_apps()[0][5] == 'w',
        social_apps()[1][0] == 'c',
        social_apps()[1][4] == 'f',
        social_apps()[2][0] == 'c',
        social_apps()[2][4] == 'b',
        social_apps()[3][4] == 'r',
        design_apps()[0][4] == 'f',
        design_apps()[2][0] == 'c',
        design_apps()[2][4] == 'a',
        design_apps()[2][5] == 'd',
        design_apps()[3][0] == 'c',
        design_apps()[3][4] == 'a',
        design_apps()[3][5] == 'd',
        design_apps()[4][4] == 'a',
        design_apps()[4][5] == 'd',
        system_apps()[0][10] == 'f',
        system_apps()[2][4] == 'a',
        system_apps()[3][4] == 'a',
{
    reveal_strlit("dev.zed.Zed");
    reveal_strlit("md.obsidian");
    reveal_strlit("us.zoom.xos");
    reveal_strlit("com.apple.TV");
    reveal_strlit("io.alacritty");
    reveal_strlit("com.notion.id");
    reveal_strlit("com.apple.iCal");
    reveal_strlit("com.apple.mail");
    reveal_strlit("tv.plex.player");
    reveal_strlit("com.apple.Music");
    reveal_strlit("com.hnc.Discord");
    reveal_strlit("com.skype.skype");
    reveal_strlit("com.apple.Notes");
    reveal_strlit("com.apple.Safari");
    reveal_strlit("com.apple.finder");
    reveal_strlit("com.sublimetext.4");
    reveal_strlit("com.google.Chrome");
    reveal_strlit("com.figma.Desktop");
    reveal_strlit("com.brave.Browser");
    reveal_strlit("com.reddit.Reddit");
    reveal_strlit("com.apple.Preview");
    reveal_strlit("com.microsoft.Word");
    reveal_strlit("com.apple.dt.Xcode");
    reveal_strlit("com.apple.Terminal");
    reveal_strlit("com.adobe.InDesign");
    reveal_strlit("com.apple.podcasts");
    reveal_strlit("com.spotify.client");
    reveal_strlit("com.apple.MobileSMS");
    reveal_strlit("com.microsoft.Excel");
    reveal_strlit("com.burbn.instagram");
    reveal_strlit("com.adobe.Photoshop");
    reveal_strlit("com.apple.reminders");
    reveal_strlit("com.netflix.Netflix");
    reveal_strlit("org.mozilla.firefox");
    reveal_strlit("com.microsoft.teams2");
    reveal_strlit("com.microsoft.VSCode");
    reveal_strlit("com.telegram.desktop");
    reveal_strlit("com.googlecode.iterm2");
    reveal_strlit("com.microsoft.edgemac");
    reveal_strlit("com.facebook.Facebook");
    reveal_strlit("com.jetbrains.pycharm");
    reveal_strlit("org.chromium.Chromium");
    reveal_strlit("com.amazon.aiv.AIVApp");
    reveal_strlit("net.whatsapp.WhatsApp");
    reveal_strlit("com.adobe.Illustrator");
    reveal_strlit("com.apple.iWork.Pages");
    reveal_strlit("com.jetbrains.intellij");
    reveal_strlit("com.github.wez.wezterm");
    reveal_strlit("com.jetbrains.WebStorm");
    reveal_strlit("com.operasoftware.Opera");
    reveal_strlit("com.twitter.twitter-mac");
    reveal_strlit("com.apple.iWork.Keynote");
    reveal_strlit("com.apple.iWork.Numbers");
    reveal_strlit("com.todoist.mac.Todoist");
    reveal_strlit("com.microsoft.Powerpoint");
    reveal_strlit("com.tinyspeck.slackmacgap");
    reveal_strlit("com.apple.ActivityMonitor");
    reveal_strlit("com.bohemiancoding.sketch3");
    reveal_strlit("com.apple.systempreferences");
    reveal_strlit("com.todesktop.230313mzl4w4u92");
}

/// The built-in table puts these applications in "Browsers".
pub proof fn law_builtin_browsers()
    ensures
        default_category_map().get("com.apple.Safari"@) == Some("Browsers"@),
        default_category_map().get("com.brave.Browser"@) == Some("Browsers"@),
        default_category_map().get("com.google.Chrome"@) == Some("Browsers"@),
        default_category_map().get("com.microsoft.edgemac"@) == Some("Browsers"@),
        default_category_map().get("com.operasoftware.Opera"@) == Some("Browsers"@),
        default_category_map().get("org.chromium.Chromium"@) == Some("Browsers"@),
        default_category_map().get("org.mozilla.firefox"@) == Some("Browsers"@),
{
    lemma_builtin_facts();
    let m0 = Map::<Seq<char>, Seq<char>>::empty();
    let m1 = assign(m0, browsers_apps(), "Browsers"@);
    let m2 = assign(m1, development_apps(), "Development"@);
    let m3 = assign(m2, communication_apps(), "Communication"@);
    let m4 = assign(m3, productivity_apps(), "Productivity"@);
    let m5 = assign(m4, entertainment_apps(), "Entertainment"@);
    let m6 = assign(m5, social_apps(), "Social"@);
    let m7 = assign(m6, design_apps(), "Design"@);
    let m8 = assign(m7, system_apps(), "System"@);
    assert(default_category_map() == m8);
    reveal_with_fuel(absent, 13);
    lemma_assign_has(m0, browsers_apps(), "Browsers"@, 0);
    lemma_assign_keeps(m1, development_apps(), "Development"@, browsers_apps()[0]);
    lemma_assign_keeps(m2, communication_apps(), "Communication"@, browsers_apps()[0]);
    lemma_assign_keeps(m3, productivity_apps(), "Productivity"@, browsers_apps()[0]);
    lemma_assign_keeps(m4, entertainment_apps(), "Entertainment"@, browsers_apps()[0]);
    lemma_assign_keeps(m5, social_apps(), "Social"@, browsers_apps()[0]);
    lemma_assign_keeps(m6, design_apps(), "Design"@, browsers_apps()[0]);
    lemma_assign_keeps(m7, system_apps(), "System"@, browsers_apps()[0]);
    lemma_assign_has(m0, browsers_apps(), "Browsers"@, 1);
    lemma_assign_keeps(m1, development_apps(), "Development"@, browsers_apps()[1]);
    lemma_assign_keeps(m2, communication_apps(), "Communication"@, browsers_apps()[1]);
    lemma_assign_keeps(m3, productivity_apps(), "Productivity"@, browsers_apps()[1]);
    lemma_assign_keeps(m4, entertainment_apps(), "Entertainment"@, browsers_apps()[1]);
    lemma_assign_keeps(m5, social_apps(), "Social"@, browsers_apps()[1]);
    lemma_assign_keeps(m6, design_apps(), "Design"@, browsers_apps()[1]);
    lemma_assign_keeps(m7, system_apps(), "System"@, browsers_apps()[1]);
    lemma_assign_has(m0, browsers_apps(), "Browsers"@, 2);
    lemma_assign_keeps(m1, development_apps(), "Development"@, browsers_apps()[2]);
    lemma_assign_keeps(m2, communication_apps(), "Communication"@, browsers_apps()[2]);
    lemma_assign_keeps(m3, productivity_apps(), "Productivity"@, browsers_apps()[2]);
    lemma_assign_keeps(m4, entertainment_apps(), "Entertainment"@, browsers_apps()[2]);
    lemma_assign_keeps(m5, social_apps(), "Social"@, browsers_apps()[2]);
    lemma_assign_keeps(m6, design_apps(), "Design"@, browsers_apps()[2]);
    lemma_assign_keeps(m7, system_apps(), "System"@, browsers_apps()[2]);
    lemma_assign_has(m0, browsers_apps(), "Browsers"@, 3);
    lemma_assign_keeps(m1, development_apps(), "Development"@, browsers_apps()[3]);
    lemma_assign_keeps(m2, communication_apps(), "Communication"@, browsers_apps()[3]);
    lemma_assign_keeps(m3, productivity_apps(), "Productivity"@, browsers_apps()[3]);
    lemma_assign_keeps(m4, entertainment_apps(), "Entertainment"@, browsers_apps()[3]);
    lemma_assign_keeps(m5, social_apps(), "Social"@, browsers_apps()[3]);
    lemma_assign_keeps(m6, design_apps(), "Design"@, browsers_apps()[3]);
    lemma_assign_keeps(m7, system_apps(), "System"@, browsers_apps()[3]);
    lemma_assign_has(m0, browsers_apps(), "Browsers"@, 4);
    lemma_assign_keeps(m1, development_apps(), "Development"@, browsers_apps()[4]);
    lemma_assign_keeps(m2, communication_apps(), "Communication"@, browsers_apps()[4]);
    lemma_assign_keeps(m3, productivity_apps(), "Productivity"@, browsers_apps()[4]);
    lemma_assign_keeps(m4, entertainment_apps(), "Entertainment"@, browsers_apps()[4]);
    lemma_assign_keeps(m5, social_apps(), "Social"@, browsers_apps()[4]);
    lemma_assign_keeps(m6, design_apps(), "Design"@, browsers_apps()[4]);
    lemma_assign_keeps(m7, system_apps(), "System"@, browsers_apps()[4]);
    lemma_assign_has(m0, browsers_apps(), "Browsers"@, 5);
    lemma_assign_keeps(m1, development_apps(), "Development"@, browsers_apps()[5]);
    lemma_assign_keeps(m2, communication_apps(), "Communication"@, browsers_apps()[5]);
    lemma_assign_keeps(m3, productivity_apps(), "Productivity"@, browsers_apps()[5]);
    lemma_assign_keeps(m4, entertainment_apps(), "Entertainment"@, browsers_apps()[5]);
    lemma_assign_keeps(m5, social_apps(), "Social"@, browsers_apps()[5]);
    lemma_assign_keeps(m6, design_apps(), "Design"@, browsers_apps()[5]);
    lemma_assign_keeps(m7, system_apps(), "System"@, browsers_apps()[5]);
    lemma_assign_has(m0, browsers_apps(), "Browsers"@, 6);
    lemma_assign_keeps(m1, development_apps(), "Development"@, browsers_apps()[6]);
    lemma_assign_keeps(m2, communication_apps(), "Communication"@, browsers_apps()[6]);
    lemma_assign_keeps(m3, productivity_apps(), "Productivity"@, browsers_apps()[6]);
    lemma_assign_keeps(m4, entertainment_apps(), "Entertainment"@, browsers_apps()[6]);
    lemma_assign_keeps(m5, social_apps(), "Social"@, browsers_apps()[6]);
    lemma_assign_keeps(m6, design_apps(), "Design"@, browsers_apps()[6]);
    lemma_assign_keeps(m7, system_apps(), "System"@, browsers_apps()[6]);
}

/// The built-in table puts these applications in "Development".
pub proof fn law_builtin_development()
    ensures
        default_category_map().get("com.apple.dt.Xcode"@) == Some("Development"@),
        default_category_map().get("com.apple.Terminal"@) == Some("Development"@),
        default_category_map().get("com.github.wez.wezterm"@) == Some("Development"@),
        default_category_map().get("com.googlecode.iterm2"@) == Some("Development"@),
        default_category_map().get("com.jetbrains.intellij"@) == Some("Development"@),
        default_category_map().get("com.jetbrains.pycharm"@) == Some("Development"@),
        default_category_map().get("com.jetbrains.WebStorm"@) == Some("Development"@),
        default_category_map().get("com.microsoft.VSCode"@) == Some("Development"@),
        default_category_map().get("com.sublimetext.4"@) == Some("Development"@),
        default_category_map().get("com.todesktop.230313mzl4w4u92"@) == Some("Development"@),
        default_category_map().get("dev.zed.Zed"@) == Some("Development"@),
        default_category_map().get("io.alacritty"@) == Some("Development"@),
{
    lemma_builtin_facts();
    let m0 = Map::<Seq<char>, Seq<char>>::empty();
    let m1 = assign(m0, browsers_apps(), "Browsers"@);
    let m2 = assign(m1, development_apps(), "Development"@);
    let m3 = assign(m2, communication_apps(), "Communication"@);
    let m4 = assign(m3, productivity_apps(), "Productivity"@);
    let m5 = assign(m4, entertainment_apps(), "Entertainment"@);
    let m6 = assign(m5, social_apps(), "Social"@);
    let m7 = assign(m6, design_apps(), "Design"@);
    let m8 = assign(m7, system_apps(), "System"@);
    assert(default_category_map() == m8);
    reveal_with_fuel(absent, 13);
    lemma_assign_has(m1, development_apps(), "Development"@, 0);
    lemma_assign_keeps(m2, communication_apps(), "Communication"@, development_apps()[0]);
    lemma_assign_keeps(m3, productivity_apps(), "Productivity"@, development_apps()[0]);
    lemma_assign_keeps(m4, entertainment_apps(), "Entertainment"@, development_apps()[0]);
    lemma_assign_keeps(m5, social_apps(), "Social"@, development_apps()[0]);
    lemma_assign_keeps(m6, design_apps(), "Design"@, development_apps()[0]);
    lemma_assign_keeps(m7, system_apps(), "System"@, development_apps()[0]);
    lemma_assign_has(m1, development_apps(), "Development"@, 1);
    lemma_assign_keeps(m2, communication_apps(), "Communication"@, development_apps()[1]);
    lemma_assign_keeps(m3, productivity_apps(), "Productivity"@, development_apps()[1]);
    lemma_assign_keeps(m4, entertainment_apps(), "Entertainment"@, development_apps()[1]);
    lemma_assign_keeps(m5, social_apps(), "Social"@, development_apps()[1]);
    lemma_assign_keeps(m6, design_apps(), "Design"@, development_apps()[1]);
    lemma_assign_keeps(m7, system_apps(), "System"@, development_apps()[1]);
    lemma_assign_has(m1, development_apps(), "Development"@, 2);
    lemma_assign_keeps(m2, communication_apps(), "Communication"@, development_apps()[2]);
    lemma_assign_keeps(m3, productivity_apps(), "Productivity"@, development_apps()[2]);
    lemma_assign_keeps(m4, entertainment_apps(), "Entertainment"@, development_apps()[2]);
    lemma_assign_keeps(m5, social_apps(), "Social"@, development_apps()[2]);
    lemma_assign_keeps(m6, design_apps(), "Design"@, development_apps()[2]);
    lemma_assign_keeps(m7, system_apps(), "System"@, development_apps()[2]);
    lemma_assign_has(m1, development_apps(), "Development"@, 3);
    lemma_assign_keeps(m2, communication_apps(), "Communication"@, development_apps()[3]);
    lemma_assign_keeps(m3, productivity_apps(), "Productivity"@, development_apps()[3]);
    lemma_assign_keeps(m4, entertainment_apps(), "Entertainment"@, development_apps()[3]);
    lemma_assign_keeps(m5, social_apps(), "Social"@, development_apps()[3]);
    lemma_assign_keeps(m6, design_apps(), "Design"@, development_apps()[3]);
    lemma_assign_keeps(m7, system_apps(), "System"@, development_apps()[3]);
    lemma_assign_has(m1, development_apps(), "Development"@, 4);
    lemma_assign_keeps(m2, communication_apps(), "Communication"@, development_apps()[4]);
    lemma_assign_keeps(m3, productivity_apps(), "Productivity"@, development_apps()[4]);
    lemma_assign_keeps(m4, entertainment_apps(), "Entertainment"@, development_apps()[4]);
    lemma_assign_keeps(m5, social_apps(), "Social"@, development_apps()[4]);
    lemma_assign_keeps(m6, design_apps(), "Design"@, development_apps()[4]);
    lemma_assign_keeps(m7, system_apps(), "System"@, development_apps()[4]);
    lemma_assign_has(m1, development_apps(), "Development"@, 5);
    lemma_assign_keeps(m2, communication_apps(), "Communication"@, development_apps()[5]);
    lemma_assign_keeps(m3, productivity_apps(), "Productivity"@, development_apps()[5]);
    lemma_assign_keeps(m4, entertainment_apps(), "Entertainment"@, development_apps()[5]);
    lemma_assign_keeps(m5, social_apps(), "Social"@, development_apps()[5]);
    lemma_assign_keeps(m6, design_apps(), "Design"@, development_apps()[5]);
    lemma_assign_keeps(m7, system_apps(), "System"@, development_apps()[5]);
    lemma_assign_has(m1, development_apps(), "Development"@, 6);
    lemma_assign_keeps(m2, communication_apps(), "Communication"@, development_apps()[6]);
    lemma_assign_keeps(m3, productivity_apps(), "Productivity"@, development_apps()[6]);
    lemma_assign_keeps(m4, entertainment_apps(), "Entertainment"@, development_apps()[6]);
    lemma_assign_keeps(m5, social_apps(), "Social"@, development_apps()[6]);
    lemma_assign_keeps(m6, design_apps(), "Design"@, development_apps()[6]);
    lemma_assign_keeps(m7, system_apps(), "System"@, development_apps()[6]);
    lemma_assign_has(m1, development_apps(), "Development"@, 7);
    lemma_assign_keeps(m2, communication_apps(), "Communication"@, development_apps()[7]);
    lemma_assign_keeps(m3, productivity_apps(), "Productivity"@, development_apps()[7]);
    lemma_assign_keeps(m4, entertainment_apps(), "Entertainment"@, development_apps()[7]);
    lemma_assign_keeps(m5, social_apps(), "Social"@, development_apps()[7]);
    lemma_assign_keeps(m6, design_apps(), "Design"@, development_apps()[7]);
    lemma_assign_keeps(m7, system_apps(), "System"@, development_apps()[7]);
    lemma_assign_has(m1, development_apps(), "Development"@, 8);
    lemma_assign_keeps(m2, communication_apps(), "Communication"@, development_apps()[8]);
    lemma_assign_keeps(m3, productivity_apps(), "Productivity"@, development_apps()[8]);
    lemma_assign_keeps(m4, entertainment_apps(), "Entertainment"@, development_apps()[8]);
    lemma_assign_keeps(m5, social_apps(), "Social"@, development_apps()[8]);
    lemma_assign_keeps(m6, design_apps(), "Design"@, development_apps()[8]);
    lemma_assign_keeps(m7, system_apps(), "System"@, development_apps()[8]);
    lemma_assign_has(m1, development_apps(), "Development"@, 9);
    lemma_assign_keeps(m2, communication_apps(), "Communication"@, development_apps()[9]);
    lemma_assign_keeps(m3, productivity_apps(), "Productivity"@, development_apps()[9]);
    lemma_assign_keeps(m4, entertainment_apps(), "Entertainment"@, development_apps()[9]);
    lemma_assign_keeps(m5, social_apps(), "Social"@, development_apps()[9]);
    lemma_assign_keeps(m6, design_apps(), "Design"@, development_apps()[9]);
    lemma_assign_keeps(m7, system_apps(), "System"@, development_apps()[9]);
    lemma_assign_has(m1, development_apps(), "Development"@, 10);
    lemma_assign_keeps(m2, communication_apps(), "Communication"@, development_apps()[10]);
    lemma_assign_keeps(m3, productivity_apps(), "Productivity"@, development_apps()[10]);
    lemma_assign_keeps(m4, entertainment_apps(), "Entertainment"@, development_apps()[10]);
    lemma_assign_keeps(m5, social_apps(), "Social"@, development_apps()[10]);
    lemma_assign_keeps(m6, design_apps(), "Design"@, development_apps()[10]);
    lemma_assign_keeps(m7, system_apps(), "System"@, development_apps()[10]);
    lemma_assign_has(m1, development_apps(), "Development"@, 11);
    lemma_assign_keeps(m2, communication_apps(), "Communication"@, development_apps()[11]);
    lemma_assign_keeps(m3, productivity_apps(), "Productivity"@, development_apps()[11]);
    lemma_assign_keeps(m4, entertainment_apps(), "Entertainment"@, development_apps()[11]);
    lemma_assign_keeps(m5, social_apps(), "Social"@, development_apps()[11]);
    lemma_assign_keeps(m6, design_apps(), "Design"@, development_apps()[11]);
    lemma_assign_keeps(m7, system_apps(), "System"@, development_apps()[11]);
}

/// The built-in table puts these applications in "Communication".
pub proof fn law_builtin_communication()
    ensures
        default_category_map().get("com.apple.mail"@) == Some("Communication"@),
        default_category_map().get("com.apple.MobileSMS"@) == Some("Communication"@),
        default_category_map().get("com.hnc.Discord"@) == Some("Communication"@),
        default_category_map().get("com.microsoft.teams2"@) == Some("Communication"@),
        default_category_map().get("com.skype.skype"@) == Some("Communication"@),
        default_category_map().get("com.telegram.desktop"@) == Some("Communication"@),
        default_category_map().get("com.tinyspeck.slackmacgap"@) == Some("Communication"@),
        default_category_map().get("net.whatsapp.WhatsApp"@) == Some("Communication"@),
        default_category_map().get("us.zoom.xos"@) == Some("Communication"@),
{
    lemma_builtin_facts();
    let m0 = Map::<Seq<char>, Seq<char>>::empty();
    let m1 = assign(m0, browsers_apps(), "Browsers"@);
    let m2 = assign(m1, development_apps(), "Development"@);
    let m3 = assign(m2, communication_apps(), "Communication"@);
    let m4 = assign(m3, productivity_apps(), "Productivity"@);
    let m5 = assign(m4, entertainment_apps(), "Entertainment"@);
    let m6 = assign(m5, social_apps(), "Social"@);
    let m7 = assign(m6, design_apps(), "Design"@);
    let m8 = assign(m7, system_apps(), "System"@);
    assert(default_category_map() == m8);
    reveal_with_fuel(absent, 13);
    lemma_assign_has(m2, communication_apps(), "Communication"@, 0);
    lemma_assign_keeps(m3, productivity_apps(), "Productivity"@, communication_apps()[0]);
    lemma_assign_keeps(m4, entertainment_apps(), "Entertainment"@, communication_apps()[0]);
    lemma_assign_keeps(m5, social_apps(), "Social"@, communication_apps()[0]);
    lemma_assign_keeps(m6, design_apps(), "Design"@, communication_apps()[0]);
    lemma_assign_keeps(m7, system_apps(), "System"@, communication_apps()[0]);
    lemma_assign_has(m2, communication_apps(), "Communication"@, 1);
    lemma_assign_keeps(m3, productivity_apps(), "Productivity"@, communication_apps()[1]);
    lemma_assign_keeps(m4, entertainment_apps(), "Entertainment"@, communication_apps()[1]);
    lemma_assign_keeps(m5, social_apps(), "Social"@, communication_apps()[1]);
    lemma_assign_keeps(m6, design_apps(), "Design"@, communication_apps()[1]);
    lemma_assign_keeps(m7, system_apps(), "System"@, communication_apps()[1]);
    lemma_assign_has(m2, communication_apps(), "Communication"@, 2);
    lemma_assign_keeps(m3, productivity_apps(), "Productivity"@, communication_apps()[2]);
    lemma_assign_keeps(m4, entertainment_apps(), "Entertainment"@, communication_apps()[2]);
    lemma_assign_keeps(m5, social_apps(), "Social"@, communication_apps()[2]);
    lemma_assign_keeps(m6, design_apps(), "Design"@, communication_apps()[2]);
    lemma_assign_keeps(m7, system_apps(), "System"@, communication_apps()[2]);
    lemma_assign_has(m2, communication_apps(), "Communication"@, 3);
    lemma_assign_keeps(m3, productivity_apps(), "Productivity"@, communication_apps()[3]);
    lemma_assign_keeps(m4, entertainment_apps(), "Entertainment"@, communication_apps()[3]);
    lemma_assign_keeps(m5, social_apps(), "Social"@, communication_apps()[3]);
    lemma_assign_keeps(m6, design_apps(), "Design"@, communication_apps()[3]);
    lemma_assign_keeps(m7, system_apps(), "System"@, communication_apps()[3]);
    lemma_assign_has(m2, communication_apps(), "Communication"@, 4);
    lemma_assign_keeps(m3, productivity_apps(), "Productivity"@, communication_apps()[4]);
    lemma_assign_keeps(m4, entertainment_apps(), "Entertainment"@, communication_apps()[4]);
    lemma_assign_keeps(m5, social_apps(), "Social"@, communication_apps()[4]);
    lemma_assign_keeps(m6, design_apps(), "Design"@, communication_apps()[4]);
    lemma_assign_keeps(m7, system_apps(), "System"@, communication_apps()[4]);
    lemma_assign_has(m2, communication_apps(), "Communication"@, 5);
    lemma_assign_keeps(m3, productivity_apps(), "Productivity"@, communication_apps()[5]);
    lemma_assign_keeps(m4, entertainment_apps(), "Entertainment"@, communication_apps()[5]);
    lemma_assign_keeps(m5, social_apps(), "Social"@, communication_apps()[5]);
    lemma_assign_keeps(m6, design_apps(), "Design"@, communication_apps()[5]);
    lemma_assign_keeps(m7, system_apps(), "System"@, communication_apps()[5]);
    lemma_assign_has(m2, communication_apps(), "Communication"@, 6);
    lemma_assign_keeps(m3, productivity_apps(), "Productivity"@, communication_apps()[6]);
    lemma_assign_keeps(m4, entertainment_apps(), "Entertainment"@, communication_apps()[6]);
    lemma_assign_keeps(m5, social_apps(), "Social"@, communication_apps()[6]);
    lemma_assign_keeps(m6, design_apps(), "Design"@, communication_apps()[6]);
    lemma_assign_keeps(m7, system_apps(), "System"@, communication_apps()[6]);
    lemma_assign_has(m2, communication_apps(), "Communication"@, 7);
    lemma_assign_keeps(m3, productivity_apps(), "Productivity"@, communication_apps()[7]);
    lemma_assign_keeps(m4, entertainment_apps(), "Entertainment"@, communication_apps()[7]);
    lemma_assign_keeps(m5, social_apps(), "Social"@, communication_apps()[7]);
    lemma_assign_keeps(m6, design_apps(), "Design"@, communication_apps()[7]);
    lemma_assign_keeps(m7, system_apps(), "System"@, communication_apps()[7]);
    lemma_assign_has(m2, communication_apps(), "Communication"@, 8);
    lemma_assign_keeps(m3, productivity_apps(), "Productivity"@, communication_apps()[8]);
    lemma_assign_keeps(m4, entertainment_apps(), "Entertainment"@, communication_apps()[8]);
    lemma_assign_keeps(m5, social_apps(), "Social"@, communication_apps()[8]);
    lemma_assign_keeps(m6, design_apps(), "Design"@, communication_apps()[8]);
    lemma_assign_keeps(m7, system_apps(), "System"@, communication_apps()[8]);
}

/// The built-in table puts these applications in "Productivity".
pub proof fn law_builtin_productivity()
    ensures
        default_category_map().get("com.apple.iCal"@) == Some("Productivity"@),
        default_category_map().get("com.apple.iWork.Keynote"@) == Some("Productivity"@),
        default_category_map().get("com.apple.iWork.Numbers"@) == Some("Productivity"@),
        default_category_map().get("com.apple.iWork.Pages"@) == Some("Productivity"@),
        default_category_map().get("com.apple.Notes"@) == Some("Productivity"@),
        default_category_map().get("com.apple.reminders"@) == Some("Productivity"@),
        default_category_map().get("com.microsoft.Excel"@) == Some("Productivity"@),
        default_category_map().get("com.microsoft.Powerpoint"@) == Some("Productivity"@),
        default_category_map().get("com.microsoft.Word"@) == Some("Productivity"@),
        default_category_map().get("com.notion.id"@) == Some("Productivity"@),
        default_category_map().get("com.todoist.mac.Todoist"@) == Some("Productivity"@),
        default_category_map().get("md.obsidian"@) == Some("Productivity"@),
{
    lemma_builtin_facts();
    let m0 = Map::<Seq<char>, Seq<char>>::empty();
    let m1 = assign(m0, browsers_apps(), "Browsers"@);
    let m2 = assign(m1, development_apps(), "Development"@);
    let m3 = assign(m2, communication_apps(), "Communication"@);
    let m4 = assign(m3, productivity_apps(), "Productivity"@);
    let m5 = assign(m4, entertainment_apps(), "Entertainment"@);
    let m6 = assign(m5, social_apps(), "Social"@);
    let m7 = assign(m6, design_apps(), "Design"@);
    let m8 = assign(m7, system_apps(), "System"@);
    assert(default_category_map() == m8);
    reveal_with_fuel(absent, 13);
    lemma_assign_has(m3, productivity_apps(), "Productivity"@, 0);
    lemma_assign_keeps(m4, entertainment_apps(), "Entertainment"@, productivity_apps()[0]);
    lemma_assign_keeps(m5, social_apps(), "Social"@, productivity_apps()[0]);
    lemma_assign_keeps(m6, design_apps(), "Design"@, productivity_apps()[0]);
    lemma_assign_keeps(m7, system_apps(), "System"@, productivity_apps()[0]);
    lemma_assign_has(m3, productivity_apps(), "Productivity"@, 1);
    lemma_assign_keeps(m4, entertainment_apps(), "Entertainment"@, productivity_apps()[1]);
    lemma_assign_keeps(m5, social_apps(), "Social"@, productivity_apps()[1]);
    lemma_assign_keeps(m6, design_apps(), "Design"@, productivity_apps()[1]);
    lemma_assign_keeps(m7, system_apps(), "System"@, productivity_apps()[1]);
    lemma_assign_has(m3, productivity_apps(), "Productivity"@, 2);
    lemma_assign_keeps(m4, entertainment_apps(), "Entertainment"@, productivity_apps()[2]);
    lemma_assign_keeps(m5, social_apps(), "Social"@, productivity_apps()[2]);
    lemma_assign_keeps(m6, design_apps(), "Design"@, productivity_apps()[2]);
    lemma_assign_keeps(m7, system_apps(), "System"@, productivity_apps()[2]);
    lemma_assign_has(m3, productivity_apps(), "Productivity"@, 3);
    lemma_assign_keeps(m4, entertainment_apps(), "Entertainment"@, productivity_apps()[3]);
    lemma_assign_keeps(m5, social_apps(), "Social"@, productivity_apps()[3]);
    lemma_assign_keeps(m6, design_apps(), "Design"@, productivity_apps()[3]);
    lemma_assign_keeps(m7, system_apps(), "System"@, productivity_apps()[3]);
    lemma_assign_has(m3, productivity_apps(), "Productivity"@, 4);
    lemma_assign_keeps(m4, entertainment_apps(), "Entertainment"@, productivity_apps()[4]);
    lemma_assign_keeps(m5, social_apps(), "Social"@, productivity_apps()[4]);
    lemma_assign_keeps(m6, design_apps(), "Design"@, productivity_apps()[4]);
    lemma_assign_keeps(m7, system_apps(), "System"@, productivity_apps()[4]);
    lemma_assign_has(m3, productivity_apps(), "Productivity"@, 5);
    lemma_assign_keeps(m4, entertainment_apps(), "Entertainment"@, productivity_apps()[5]);
    lemma_assign_keeps(m5, social_apps(), "Social"@, productivity_apps()[5]);
    lemma_assign_keeps(m6, design_apps(), "Design"@, productivity_apps()[5]);
    lemma_assign_keeps(m7, system_apps(), "System"@, productivity_apps()[5]);
    lemma_assign_has(m3, productivity_apps(), "Productivity"@, 6);
    lemma_assign_keeps(m4, entertainment_apps(), "Entertainment"@, productivity_apps()[6]);
    lemma_assign_keeps(m5, social_apps(), "Social"@, productivity_apps()[6]);
    lemma_assign_keeps(m6, design_apps(), "Design"@, productivity_apps()[6]);
    lemma_assign_keeps(m7, system_apps(), "System"@, productivity_apps()[6]);
    lemma_assign_has(m3, productivity_apps(), "Productivity"@, 7);
    lemma_assign_keeps(m4, entertainment_apps(), "Entertainment"@, productivity_apps()[7]);
    lemma_assign_keeps(m5, social_apps(), "Social"@, productivity_apps()[7]);
    lemma_assign_keeps(m6, design_apps(), "Design"@, productivity_apps()[7]);
    lemma_assign_keeps(m7, system_apps(), "System"@, productivity_apps()[7]);
    lemma_assign_has(m3, productivity_apps(), "Productivity"@, 8);
    lemma_assign_keeps(m4, entertainment_apps(), "Entertainment"@, productivity_apps()[8]);
    lemma_assign_keeps(m5, social_apps(), "Social"@, productivity_apps()[8]);
    lemma_assign_keeps(m6, design_apps(), "Design"@, productivity_apps()[8]);
    lemma_assign_keeps(m7, system_apps(), "System"@, productivity_apps()[8]);
    lemma_assign_has(m3, productivity_apps(), "Productivity"@, 9);
    lemma_assign_keeps(m4, entertainment_apps(), "Entertainment"@, productivity_apps()[9]);
    lemma_assign_keeps(m5, social_apps(), "Social"@, productivity_apps()[9]);
    lemma_assign_keeps(m6, design_apps(), "Design"@, productivity_apps()[9]);
    lemma_assign_keeps(m7, system_apps(), "System"@, productivity_apps()[9]);
    lemma_assign_has(m3, productivity_apps(), "Productivity"@, 10);
    lemma_assign_keeps(m4, entertainment_apps(), "Entertainment"@, productivity_apps()[10]);
    lemma_assign_keeps(m5, social_apps(), "Social"@, productivity_apps()[10]);
    lemma_assign_keeps(m6, design_apps(), "Design"@, productivity_apps()[10]);
    lemma_assign_keeps(m7, system_apps(), "System"@, productivity_apps()[10]);
    lemma_assign_has(m3, productivity_apps(), "Productivity"@, 11);
    lemma_assign_keeps(m4, entertainment_apps(), "Entertainment"@, productivity_apps()[11]);
    lemma_assign_keeps(m5, social_apps(), "Social"@, productivity_apps()[11]);
    lemma_assign_keeps(m6, design_apps(), "Design"@, productivity_apps()[11]);
    lemma_assign_keeps(m7, system_apps(), "System"@, productivity_apps()[11]);
}

/// The built-in table puts these applications in "Entertainment".
pub proof fn law_builtin_entertainment()
    ensures
        default_category_map().get("com.amazon.aiv.AIVApp"@) == Some("Entertainment"@),
        default_category_map().get("com.apple.Music"@) == Some("Entertainment"@),
        default_category_map().get("com.apple.podcasts"@) == Some("Entertainment"@),
        default_category_map().get("com.apple.TV"@) == Some("Entertainment"@),
        default_category_map().get("com.netflix.Netflix"@) == Some("Entertainment"@),
        default_category_map().get("com.spotify.client"@) == Some("Entertainment"@),
        default_category_map().get("tv.plex.player"@) == Some("Entertainment"@),
{
    lemma_builtin_facts();
    let m0 = Map::<Seq<char>, Seq<char>>::empty();
    let m1 = assign(m0, browsers_apps(), "Browsers"@);
    let m2 = assign(m1, development_apps(), "Development"@);
    let m3 = assign(m2, communication_apps(), "Communication"@);
    let m4 = assign(m3, productivity_apps(), "Productivity"@);
    let m5 = assign(m4, entertainment_apps(), "Entertainment"@);
    let m6 = assign(m5, social_apps(), "Social"@);
    let m7 = assign(m6, design_apps(), "Design"@);
    let m8 = assign(m7, system_apps(), "System"@);
    assert(default_category_map() == m8);
    reveal_with_fuel(absent, 13);
    lemma_assign_has(m4, entertainment_apps(), "Entertainment"@, 0);
    lemma_assign_keeps(m5, social_apps(), "Social"@, entertainment_apps()[0]);
    lemma_assign_keeps(m6, design_apps(), "Design"@, entertainment_apps()[0]);
    lemma_assign_keeps(m7, system_apps(), "System"@, entertainment_apps()[0]);
    lemma_assign_has(m4, entertainment_apps(), "Entertainment"@, 1);
    lemma_assign_keeps(m5, social_apps(), "Social"@, entertainment_apps()[1]);
    lemma_assign_keeps(m6, design_apps(), "Design"@, entertainment_apps()[1]);
    lemma_assign_keeps(m7, system_apps(), "System"@, entertainment_apps()[1]);
    lemma_assign_has(m4, entertainment_apps(), "Entertainment"@, 2);
    lemma_assign_keeps(m5, social_apps(), "Social"@, entertainment_apps()[2]);
    lemma_assign_keeps(m6, design_apps(), "Design"@, entertainment_apps()[2]);
    lemma_assign_keeps(m7, system_apps(), "System"@, entertainment_apps()[2]);
    lemma_assign_has(m4, entertainment_apps(), "Entertainment"@, 3);
    lemma_assign_keeps(m5, social_apps(), "Social"@, entertainment_apps()[3]);
    lemma_assign_keeps(m6, design_apps(), "Design"@, entertainment_apps()[3]);
    lemma_assign_keeps(m7, system_apps(), "System"@, entertainment_apps()[3]);
    lemma_assign_has(m4, entertainment_apps(), "Entertainment"@, 4);
    lemma_assign_keeps(m5, social_apps(), "Social"@, entertainment_apps()[4]);
    lemma_assign_keeps(m6, design_apps(), "Design"@, entertainment_apps()[4]);
    lemma_assign_keeps(m7, system_apps(), "System"@, entertainment_apps()[4]);
    lemma_assign_has(m4, entertainment_apps(), "Entertainment"@, 5);
    lemma_assign_keeps(m5, social_apps(), "Social"@, entertainment_apps()[5]);
    lemma_assign_keeps(m6, design_apps(), "Design"@, entertainment_apps()[5]);
    lemma_assign_keeps(m7, system_apps(), "System"@, entertainment_apps()[5]);
    lemma_assign_has(m4, entertainment_apps(), "Entertainment"@, 6);
    lemma_assign_keeps(m5, social_apps(), "Social"@, entertainment_apps()[6]);
    lemma_assign_keeps(m6, design_apps(), "Design"@, entertainment_apps()[6]);
    lemma_assign_keeps(m7, system_apps(), "System"@, entertainment_apps()[6]);
}

/// The built-in table puts these applications in "Social".
pub proof fn law_builtin_social()
    ensures
        default_category_map().get("com.burbn.instagram"@) == Some("Social"@),
        default_category_map().get("com.facebook.Facebook"@) == Some("Social"@),
        default_category_map().get("com.reddit.Reddit"@) == Some("Social"@),
        default_category_map().get("com.twitter.twitter-mac"@) == Some("Social"@),
{
    lemma_builtin_facts();
    let m0 = Map::<Seq<char>, Seq<char>>::empty();
    let m1 = assign(m0, browsers_apps(), "Browsers"@);
    let m2 = assign(m1, development_apps(), "Development"@);
    let m3 = assign(m2, communication_apps(), "Communication"@);
    let m4 = assign(m3, productivity_apps(), "Productivity"@);
    let m5 = assign(m4, entertainment_apps(), "Entertainment"@);
    let m6 = assign(m5, social_apps(), "Social"@);
    let m7 = assign(m6, design_apps(), "Design"@);
    let m8 = assign(m7, system_apps(), "System"@);
    assert(default_category_map() == m8);
    reveal_with_fuel(absent, 13);
    lemma_assign_has(m5, social_apps(), "Social"@, 0);
    lemma_assign_keeps(m6, design_apps(), "Design"@, social_apps()[0]);
    lemma_assign_keeps(m7, system_apps(), "System"@, social_apps()[0]);
    lemma_assign_has(m5, social_apps(), "Social"@, 1);
    lemma_assign_keeps(m6, design_apps(), "Design"@, social_apps()[1]);
    lemma_assign_keeps(m7, system_apps(), "System"@, social_apps()[1]);
    lemma_assign_has(m5, social_apps(), "Social"@, 2);
    lemma_assign_keeps(m6, design_apps(), "Design"@, social_apps()[2]);
    lemma_assign_keeps(m7, system_apps(), "System"@, social_apps()[2]);
    lemma_assign_has(m5, social_apps(), "Social"@, 3);
    lemma_assign_keeps(m6, design_apps(), "Design"@, social_apps()[3]);
    lemma_assign_keeps(m7, system_apps(), "System"@, social_apps()[3]);
}

/// The built-in table puts these applications in "Design".
pub proof fn law_builtin_design()
    ensures
        default_category_map().get("com.adobe.Illustrator"@) == Some("Design"@),
        default_category_map().get("com.adobe.InDesign"@) == Some("Design"@),
        default_category_map().get("com.adobe.Photoshop"@) == Some("Design"@),
        default_category_map().get("com.bohemiancoding.sketch3"@) == Some("Design"@),
        default_category_map().get("com.figma.Desktop"@) == Some("Design"@),
{
    lemma_builtin_facts();
    let m0 = Map::<Seq<char>, Seq<char>>::empty();
    let m1 = assign(m0, browsers_apps(), "Browsers"@);
    let m2 = assign(m1, development_apps(), "Development"@);
    let m3 = assign(m2, communication_apps(), "Communication"@);
    let m4 = assign(m3, productivity_apps(), "Productivity"@);
    let m5 = assign(m4, entertainment_apps(), "Entertainment"@);
    let m6 = assign(m5, social_apps(), "Social"@);
    let m7 = assign(m6, design_apps(), "Design"@);
    let m8 = assign(m7, system_apps(), "System"@);
    assert(default_category_map() == m8);
    reveal_with_fuel(absent, 13);
    lemma_assign_has(m6, design_apps(), "Design"@, 0);
    lemma_assign_keeps(m7, system_apps(), "System"@, design_apps()[0]);
    lemma_assign_has(m6, design_apps(), "Design"@, 1);
    lemma_assign_keeps(m7, system_apps(), "System"@, design_apps()[1]);
    lemma_assign_has(m6, design_apps(), "Design"@, 2);
    lemma_assign_keeps(m7, system_apps(), "System"@, design_apps()[2]);
    lemma_assign_has(m6, design_apps(), "Design"@, 3);
    lemma_assign_keeps(m7, system_apps(), "System"@, design_apps()[3]);
    lemma_assign_has(m6, design_apps(), "Design"@, 4);
    lemma_assign_keeps(m7, system_apps(), "System"@, design_apps()[4]);
}

/// The built-in table puts these applications in "System".
pub proof fn law_builtin_system()
    ensures
        default_category_map().get("com.apple.ActivityMonitor"@) == Some("System"@),
        default_category_map().get("com.apple.finder"@) == Some("System"@),
        default_category_map().get("com.apple.Preview"@) == Some("System"@),
        default_category_map().get("com.apple.systempreferences"@) == Some("System"@),
{
    lemma_builtin_facts();
    let m0 = Map::<Seq<char>, Seq<char>>::empty();
    let m1 = assign(m0, browsers_apps(), "Browsers"@);
    let m2 = assign(m1, development_apps(), "Development"@);
    let m3 = assign(m2, communication_apps(), "Communication"@);
    let m4 = assign(m3, productivity_apps(), "Productivity"@);
    let m5 = assign(m4, entertainment_apps(), "Entertainment"@);
    let m6 = assign(m5, social_apps(), "Social"@);
    let m7 = assign(m6, design_apps(), "Design"@);
    let m8 = assign(m7, system_apps(), "System"@);
    assert(default_category_map() == m8);
    reveal_with_fuel(absent, 13);
    lemma_assign_has(m7, system_apps(), "System"@, 0);
    lemma_assign_has(m7, system_apps(), "System"@, 1);
    lemma_assign_has(m7, system_apps(), "System"@, 2);
    lemma_assign_has(m7, system_apps(), "System"@, 3);
}

proof fn lemma_assign_dom(m: Map<Seq<char>, Seq<char>>, ids: Seq<Seq<char>>, c: Seq<char>, k: Seq<char>)
    requires
        assign(m, ids, c).contains_key(k),
    ensures
        m.contains_key(k) || !absent(ids, k),
    decreases ids.len(),
{
    if ids.len() > 0 && ids.last() != k {
        lemma_assign_dom(m, ids.drop_last(), c, k);
    }
}

/// The built-in table knows no application beyond those it lists.
pub proof fn law_builtin_only_listed(k: Seq<char>)
    ensures
        default_category_map().contains_key(k) ==> (
            k == "com.adobe.Illustrator"@ ||
            k == "com.adobe.InDesign"@ ||
            k == "com.adobe.Photoshop"@ ||
            k == "com.amazon.aiv.AIVApp"@ ||
            k == "com.apple.ActivityMonitor"@ ||
            k == "com.apple.dt.Xcode"@ ||
            k == "com.apple.finder"@ ||
            k == "com.apple.iCal"@ ||
            k == "com.apple.iWork.Keynote"@ ||
            k == "com.apple.iWork.Numbers"@ ||
            k == "com.apple.iWork.Pages"@ ||
            k == "com.apple.mail"@ ||
            k == "com.apple.MobileSMS"@ ||
            k == "com.apple.Music"@ ||
            k == "com.apple.Notes"@ ||
            k == "com.apple.podcasts"@ ||
            k == "com.apple.Preview"@ ||
            k == "com.apple.reminders"@ ||
            k == "com.apple.Safari"@ ||
            k == "com.apple.systempreferences"@ ||
            k == "com.apple.Terminal"@ ||
            k == "com.apple.TV"@ ||
            k == "com.bohemiancoding.sketch3"@ ||
            k == "com.brave.Browser"@ ||
            k == "com.burbn.instagram"@ ||
            k == "com.facebook.Facebook"@ ||
            k == "com.figma.Desktop"@ ||
            k == "com.github.wez.wezterm"@ ||
            k == "com.google.Chrome"@ ||
            k == "com.googlecode.iterm2"@ ||
            k == "com.hnc.Discord"@ ||
            k == "com.jetbrains.intellij"@ ||
            k == "com.jetbrains.pycharm"@ ||
            k == "com.jetbrains.WebStorm"@ ||
            k == "com.microsoft.edgemac"@ ||
            k == "com.microsoft.Excel"@ ||
            k == "com.microsoft.Powerpoint"@ ||
            k == "com.microsoft.teams2"@ ||
            k == "com.microsoft.VSCode"@ ||
            k == "com.microsoft.Word"@ ||
            k == "com.netflix.Netflix"@ ||
            k == "com.notion.id"@ ||
            k == "com.operasoftware.Opera"@ ||
            k == "com.reddit.Reddit"@ ||
            k == "com.skype.skype"@ ||
            k == "com.spotify.client"@ ||
            k == "com.sublimetext.4"@ ||
            k == "com.telegram.desktop"@ ||
            k == "com.tinyspeck.slackmacgap"@ ||
            k == "com.todesktop.230313mzl4w4u92"@ ||
            k == "com.todoist.mac.Todoist"@ ||
            k == "com.twitter.twitter-mac"@ ||
            k == "dev.zed.Zed"@ ||
            k == "io.alacritty"@ ||
            k == "md.obsidian"@ ||
            k == "net.whatsapp.WhatsApp"@ ||
            k == "org.chromium.Chromium"@ ||
            k == "org.mozilla.firefox"@ ||
            k == "tv.plex.player"@ ||
            k == "us.zoom.xos"@
        ),
{
    if default_category_map().contains_key(k) {
        let m0 = Map::<Seq<char>, Seq<char>>::empty();
        let m1 = assign(m0, browsers_apps(), "Browsers"@);
        let m2 = assign(m1, development_apps(), "Development"@);
        let m3 = assign(m2, communication_apps(), "Communication"@);
        let m4 = assign(m3, productivity_apps(), "Productivity"@);
        let m5 = assign(m4, entertainment_apps(), "Entertainment"@);
        let m6 = assign(m5, social_apps(), "Social"@);
        let m7 = assign(m6, design_apps(), "Design"@);
        let m8 = assign(m7, system_apps(), "System"@);
        assert(default_category_map() == m8);
        reveal_with_fuel(absent, 13);
        if m8.contains_key(k) {
            lemma_assign_dom(m7, system_apps(), "System"@, k);
        }
        if m7.contains_key(k) {
            lemma_assign_dom(m6, design_apps(), "Design"@, k);
        }
        if m6.contains_key(k) {
            lemma_assign_dom(m5, social_apps(), "Social"@, k);
        }
        if m5.contains_key(k) {
            lemma_assign_dom(m4, entertainment_apps(), "Entertainment"@, k);
        }
        if m4.contains_key(k) {
            lemma_assign_dom(m3, productivity_apps(), "Productivity"@, k);
        }
        if m3.contains_key(k) {
            lemma_assign_dom(m2, communication_apps(), "Communication"@, k);
        }
        if m2.contains_key(k) {
            lemma_assign_dom(m1, development_apps(), "Development"@, k);
        }
        if m1.contains_key(k) {
            lemma_assign_dom(m0, browsers_apps(), "Browsers"@, k);
        }
    }
}

} // verus!
