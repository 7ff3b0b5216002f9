//! The configuration the subsystem consumes: notification matching
//! flags, the identifier remapping table, per-application styling rules
//! selected by a pattern over the window title, display filtering and
//! button layout limits.

use vstd::prelude::*;

use crate::text::str_eq;

verus! {

/// One styling rule for an application: windows whose title the
/// pattern matches get the class.
pub struct AppRule {
    /// A regular-expression pattern over the window title.
    pub pattern: String,
    /// The style class applied while the pattern matches.
    pub class: String,
}

/// Configuration of the notification matcher.
pub struct NotificationConfig {
    /// Whether notifications are observed at all.
    pub enabled: bool,
    /// Explicit remapping of desktop-entry hints to application
    /// identifiers, applied before any identifier matching. Hints are
    /// expected to appear at most once; a duplicate's first entry wins.
    pub map_app_ids: Vec<(String, String)>,
    /// Whether desktop-entry matching (phase two) runs at all.
    pub use_desktop_entry: bool,
    /// Whether fuzzy identifier matching may run when no exact
    /// identifier match exists.
    pub use_fuzzy_matching: bool,
}

/// Main module configuration.
pub struct Settings {
    /// Styling rules per application identifier; each identifier is
    /// expected to appear at most once, its first entry winning.
    pub apps: Vec<(String, Vec<AppRule>)>,
    /// The notification matcher's configuration.
    pub notifications: NotificationConfig,
    /// Show windows of every display, not only of the bar's own.
    pub show_all_outputs: bool,
    /// Restrict the bar to the currently focused workspace.
    pub only_current_workspace: bool,
    /// Show window titles next to icons.
    pub show_window_titles: bool,
    /// Lower bound for one button's width.
    pub min_button_width: i32,
    /// Upper bound for one button's width.
    pub max_button_width: i32,
    /// Icon edge length.
    pub icon_size: i32,
    /// Gap between icon and title.
    pub icon_spacing: i32,
    /// Upper bound for the width of the whole button row.
    pub max_taskbar_width: i32,
    /// Whether a middle click closes the window.
    pub middle_click_close: bool,
    /// Whether clicking a focused window maximizes its column.
    pub click_focused_maximizes: bool,
    /// Application identifiers whose windows get no button.
    pub ignore_app_ids: Vec<String>,
}

pub fn default_true() -> (b: bool)
    ensures
        b,
{
    true
}

pub fn default_min_width() -> (w: i32)
    ensures
        w == 150,
{
    150
}

pub fn default_max_width() -> (w: i32)
    ensures
        w == 235,
{
    235
}

pub fn default_icon_size() -> (s: i32)
    ensures
        s == 24,
{
    24
}

pub fn default_spacing() -> (s: i32)
    ensures
        s == 6,
{
    6
}

pub fn default_max_taskbar() -> (w: i32)
    ensures
        w == 1200,
{
    1200
}

impl Default for NotificationConfig {
    /// Notifications and desktop-entry matching start enabled, fuzzy
    /// matching disabled, with an empty remapping table.
    fn default() -> (c: Self)
        ensures
            c.enabled,
            c.map_app_ids@.len() == 0,
            c.use_desktop_entry,
            !c.use_fuzzy_matching,
    {
        NotificationConfig {
            enabled: true,
            map_app_ids: Vec::new(),
            use_desktop_entry: true,
            use_fuzzy_matching: false,
        }
    }
}

impl Default for Settings {
    /// Empty rule tables, every flag off and every width zero, except
    /// the notification defaults.
    fn default() -> (s: Self)
        ensures
            s.apps@.len() == 0,
            s.notifications.enabled,
            s.notifications.map_app_ids@.len() == 0,
            s.notifications.use_desktop_entry,
            !s.notifications.use_fuzzy_matching,
            !s.show_all_outputs,
            !s.only_current_workspace,
            !s.show_window_titles,
            s.min_button_width == 0,
            s.max_button_width == 0,
            s.icon_size == 0,
            s.icon_spacing == 0,
            s.max_taskbar_width == 0,
            !s.middle_click_close,
            !s.click_focused_maximizes,
            s.ignore_app_ids@.len() == 0,
    {
        Settings {
            apps: Vec::new(),
            notifications: NotificationConfig::default(),
            show_all_outputs: false,
            only_current_workspace: false,
            show_window_titles: false,
            min_button_width: 0,
            max_button_width: 0,
            icon_size: 0,
            icon_spacing: 0,
            max_taskbar_width: 0,
            middle_click_close: false,
            click_focused_maximizes: false,
            ignore_app_ids: Vec::new(),
        }
    }
}

/// The value an association list maps `key` to: the first pair whose
/// key equals it. Tables are expected to carry distinct keys; with a
/// duplicate key, the earliest pair stands.
pub open spec fn spec_map_lookup(pairs: Seq<(String, String)>, key: Seq<char>) -> Option<
    Seq<char>,
>
    decreases pairs.len(),
{
    if pairs.len() == 0 {
        None
    } else if pairs[0].0@ == key {
        Some(pairs[0].1@)
    } else {
        spec_map_lookup(pairs.drop_first(), key)
    }
}

/// The desktop entry after remapping: the mapped identifier when the
/// table holds the entry, the entry itself otherwise.
pub open spec fn spec_remapped(pairs: Seq<(String, String)>, entry: Seq<char>) -> Seq<char> {
    match spec_map_lookup(pairs, entry) {
        Some(v) => v,
        None => entry,
    }
}

/// The rules configured for `app_id`: the first table entry whose key
/// equals it, or none. The table is expected to carry distinct keys;
/// with a duplicate key, the earliest entry stands.
pub open spec fn spec_rules_for(apps: Seq<(String, Vec<AppRule>)>, app_id: Seq<char>) -> Seq<
    AppRule,
>
    decreases apps.len(),
{
    if apps.len() == 0 {
        Seq::empty()
    } else if apps[0].0@ == app_id {
        apps[0].1@
    } else {
        spec_rules_for(apps.drop_first(), app_id)
    }
}

/// The classes of the rules that were picked, in rule order.
pub open spec fn spec_selected_classes(rules: Seq<AppRule>, picked: Seq<bool>) -> Seq<String>
    decreases rules.len(),
{
    if rules.len() == 0 || picked.len() != rules.len() {
        Seq::empty()
    } else {
        let prefix = spec_selected_classes(rules.drop_last(), picked.drop_last());
        if picked.last() {
            prefix.push(rules.last().class)
        } else {
            prefix
        }
    }
}

/// Whether some identifier in `ids` equals `s`.
pub open spec fn spec_contains_id(ids: Seq<String>, s: Seq<char>) -> bool {
    exists|i: int| 0 <= i < ids.len() && ids[i]@ == s
}

/// Whether the regular expression `pattern` matches `text`, as the
/// regex crate decides it; a pattern the crate rejects matches nothing.
pub uninterp spec fn regex_match(pattern: Seq<char>, text: Seq<char>) -> bool;

/// Relies on regex::Regex::new and regex::Regex::is_match: the pattern
/// is compiled fresh and searched in the text, so the outcome depends
/// on pattern and text alone; a rejected pattern matches nothing, and
/// neither call panics.
#[verifier::external_body]
fn pattern_matches(pattern: &str, text: &str) -> (r: bool)
    ensures
        r == regex_match(pattern@, text@),
{
    match regex::Regex::new(pattern) {
        Ok(re) => re.is_match(text),
        Err(_) => false,
    }
}

/// Keep the classes of exactly the rules marked in `picked`.
pub fn select_matching_classes(rules: &Vec<AppRule>, picked: &Vec<bool>) -> (r: Vec<String>)
    requires
        rules@.len() == picked@.len(),
    ensures
        r@ == spec_selected_classes(rules@, picked@),
{
    let n = rules.len();
    let mut r: Vec<String> = Vec::new();
    let mut i: usize = 0;
    while i < n
        invariant
            i <= n,
            n == rules@.len(),
            n == picked@.len(),
            r@ == spec_selected_classes(rules@.take(i as int), picked@.take(i as int)),
        decreases n - i,
    {
        if picked[i] {
            r.push(rules[i].class.clone());
        }
        proof {
            assert(rules@.take(i + 1 as int).drop_last() =~= rules@.take(i as int));
            assert(picked@.take(i + 1 as int).drop_last() =~= picked@.take(i as int));
            assert(rules@.take(i + 1 as int).last() == rules@[i as int]);
            assert(picked@.take(i + 1 as int).last() == picked@[i as int]);
        }
        i = i + 1;
    }
    proof {
        assert(rules@.take(n as int) =~= rules@);
        assert(picked@.take(n as int) =~= picked@);
    }
    r
}

impl NotificationConfig {
    /// The desktop entry after applying the remapping table: the mapped
    /// identifier when the table holds the entry, the entry unchanged
    /// otherwise.
    pub fn remap(&self, entry: &str) -> (r: String)
        ensures
            r@ == spec_remapped(self.map_app_ids@, entry@),
    {
        let pairs = &self.map_app_ids;
        let n = pairs.len();
        let mut i: usize = 0;
        proof {
            assert(pairs@.skip(0) =~= pairs@);
        }
        while i < n
            invariant
                i <= n,
                n == pairs@.len(),
                pairs@ == self.map_app_ids@,
                spec_map_lookup(pairs@, entry@) == spec_map_lookup(pairs@.skip(i as int), entry@),
            decreases n - i,
        {
            proof {
                assert(pairs@.skip(i as int)[0] == pairs@[i as int]);
                assert(pairs@.skip(i as int).drop_first() =~= pairs@.skip(i + 1 as int));
            }
            if str_eq(pairs[i].0.as_str(), entry) {
                let v = pairs[i].1.clone();
                proof {
                    assert(pairs@[i as int].0@ == entry@);
                    assert(spec_map_lookup(pairs@.skip(i as int), entry@) == Some(
                        pairs@[i as int].1@,
                    ));
                }
                return v;
            }
            i = i + 1;
        }
        proof {
            assert(pairs@.skip(n as int) =~= Seq::<(String, String)>::empty());
        }
        entry.to_owned()
    }
}

impl Settings {
    /// Every class configured for `app_id`, regardless of title.
    pub fn get_app_classes(&self, app_id: &str) -> (r: Vec<String>)
        ensures
            ({
                let rules = spec_rules_for(self.apps@, app_id@);
                &&& r@.len() == rules.len()
                &&& forall|i: int| 0 <= i < rules.len() ==> r@[i] == rules[i].class
            }),
    {
        let rules = self.rules_for(app_id);
        match rules {
            Some(rs) => {
                let n = rs.len();
                let mut r: Vec<String> = Vec::new();
                let mut i: usize = 0;
                while i < n
                    invariant
                        i <= n,
                        n == rs@.len(),
                        r@.len() == i,
                        forall|j: int| 0 <= j < i ==> r@[j] == rs@[j].class,
                    decreases n - i,
                {
                    r.push(rs[i].class.clone());
                    i = i + 1;
                }
                r
            },
            None => Vec::new(),
        }
    }

    /// The classes of exactly the rules for `app_id` whose pattern
    /// matches the window title, in rule order.
    pub fn match_app_rules(&self, app_id: &str, title: &str) -> (r: Vec<String>)
        ensures
            ({
                let rules = spec_rules_for(self.apps@, app_id@);
                r@ == spec_selected_classes(
                    rules,
                    Seq::new(rules.len(), |i: int| regex_match(rules[i].pattern@, title@)),
                )
            }),
    {
        let rules = self.rules_for(app_id);
        match rules {
            Some(rs) => {
                let n = rs.len();
                let mut picked: Vec<bool> = Vec::new();
                let mut i: usize = 0;
                while i < n
                    invariant
                        i <= n,
                        n == rs@.len(),
                        picked@.len() == i,
                        forall|j: int|
                            0 <= j < i ==> picked@[j] == regex_match(
                                (#[trigger] rs@[j]).pattern@,
                                title@,
                            ),
                    decreases n - i,
                {
                    picked.push(pattern_matches(rs[i].pattern.as_str(), title));
                    i = i + 1;
                }
                let r = select_matching_classes(rs, &picked);
                proof {
                    assert(picked@ =~= Seq::new(
                        rs@.len(),
                        |i: int| regex_match(rs@[i].pattern@, title@),
                    ));
                }
                r
            },
            None => {
                proof {
                    let rules = spec_rules_for(self.apps@, app_id@);
                    assert(Seq::<String>::empty() == spec_selected_classes(
                        rules,
                        Seq::new(rules.len(), |i: int| regex_match(rules[i].pattern@, title@)),
                    ));
                }
                Vec::new()
            },
        }
    }

    /// The rule list stored for `app_id`, if the table holds one.
    fn rules_for(&self, app_id: &str) -> (r: Option<&Vec<AppRule>>)
        ensures
            match r {
                Some(rs) => rs@ == spec_rules_for(self.apps@, app_id@) && spec_rules_for(
                    self.apps@,
                    app_id@,
                ).len() > 0,
                None => spec_rules_for(self.apps@, app_id@).len() == 0,
            },
    {
        let n = self.apps.len();
        let mut i: usize = 0;
        proof {
            assert(self.apps@.skip(0) =~= self.apps@);
        }
        while i < n
            invariant
                i <= n,
                n == self.apps@.len(),
                spec_rules_for(self.apps@, app_id@) == spec_rules_for(
                    self.apps@.skip(i as int),
                    app_id@,
                ),
            decreases n - i,
        {
            proof {
                assert(self.apps@.skip(i as int)[0] == self.apps@[i as int]);
                assert(self.apps@.skip(i as int).drop_first() =~= self.apps@.skip(i + 1 as int));
            }
            if str_eq(self.apps[i].0.as_str(), app_id) {
                let rs = &self.apps[i].1;
                if rs.len() > 0 {
                    return Some(rs);
                } else {
                    return None;
                }
            }
            i = i + 1;
        }
        proof {
            assert(self.apps@.skip(n as int) =~= Seq::<(String, Vec<AppRule>)>::empty());
        }
        None
    }

    pub fn notifications_enabled(&self) -> (r: bool)
        ensures
            r == self.notifications.enabled,
    {
        self.notifications.enabled
    }

    /// The identifier the remapping table maps `app_id` to, if any.
    pub fn notifications_app_map(&self, app_id: &str) -> (r: Option<String>)
        ensures
            match r {
                Some(v) => spec_map_lookup(self.notifications.map_app_ids@, app_id@) == Some(v@),
                None => spec_map_lookup(self.notifications.map_app_ids@, app_id@) is None,
            },
    {
        let pairs = &self.notifications.map_app_ids;
        let n = pairs.len();
        let mut i: usize = 0;
        proof {
            assert(pairs@.skip(0) =~= pairs@);
        }
        while i < n
            invariant
                i <= n,
                n == pairs@.len(),
                pairs@ == self.notifications.map_app_ids@,
                spec_map_lookup(pairs@, app_id@) == spec_map_lookup(
                    pairs@.skip(i as int),
                    app_id@,
                ),
            decreases n - i,
        {
            proof {
                assert(pairs@.skip(i as int)[0] == pairs@[i as int]);
                assert(pairs@.skip(i as int).drop_first() =~= pairs@.skip(i + 1 as int));
            }
            if str_eq(pairs[i].0.as_str(), app_id) {
                let v = pairs[i].1.clone();
                proof {
                    assert(spec_map_lookup(pairs@.skip(i as int), app_id@) == Some(
                        pairs@[i as int].1@,
                    ));
                }
                return Some(v);
            }
            i = i + 1;
        }
        proof {
            assert(pairs@.skip(n as int) =~= Seq::<(String, String)>::empty());
        }
        None
    }

    pub fn notifications_use_desktop_entry(&self) -> (r: bool)
        ensures
            r == self.notifications.use_desktop_entry,
    {
        self.notifications.use_desktop_entry
    }

    pub fn notifications_use_fuzzy_matching(&self) -> (r: bool)
        ensures
            r == self.notifications.use_fuzzy_matching,
    {
        self.notifications.use_fuzzy_matching
    }

    pub fn show_all_outputs(&self) -> (r: bool)
        ensures
            r == self.show_all_outputs,
    {
        self.show_all_outputs
    }

    pub fn only_current_workspace(&self) -> (r: bool)
        ensures
            r == self.only_current_workspace,
    {
        self.only_current_workspace
    }

    pub fn show_window_titles(&self) -> (r: bool)
        ensures
            r == self.show_window_titles,
    {
        self.show_window_titles
    }

    pub fn min_button_width(&self) -> (r: i32)
        ensures
            r == self.min_button_width,
    {
        self.min_button_width
    }

    pub fn max_button_width(&self) -> (r: i32)
        ensures
            r == self.max_button_width,
    {
        self.max_button_width
    }

    pub fn icon_size(&self) -> (r: i32)
        ensures
            r == self.icon_size,
    {
        self.icon_size
    }

    pub fn icon_spacing(&self) -> (r: i32)
        ensures
            r == self.icon_spacing,
    {
        self.icon_spacing
    }

    /// Whether windows of this application get no button at all.
    pub fn should_ignore(&self, app_id: &str) -> (r: bool)
        ensures
            r == spec_contains_id(self.ignore_app_ids@, app_id@),
    {
        let ids = &self.ignore_app_ids;
        let n = ids.len();
        let mut i: usize = 0;
        while i < n
            invariant
                i <= n,
                n == ids@.len(),
                ids@ == self.ignore_app_ids@,
                forall|j: int| 0 <= j < i ==> ids@[j]@ != app_id@,
            decreases n - i,
        {
            if str_eq(ids[i].as_str(), app_id) {
                proof {
                    assert(spec_contains_id(self.ignore_app_ids@, app_id@)) by {
                        assert((i as int) < ids@.len() && ids@[i as int]@ == app_id@);
                    }
                }
                return true;
            }
            i = i + 1;
        }
        false
    }

    pub fn max_taskbar_width(&self) -> (r: i32)
        ensures
            r == self.max_taskbar_width,
    {
        self.max_taskbar_width
    }

    pub fn middle_click_close(&self) -> (r: bool)
        ensures
            r == self.middle_click_close,
    {
        self.middle_click_close
    }

    pub fn click_focused_maximizes(&self) -> (r: bool)
        ensures
            r == self.click_focused_maximizes,
    {
        self.click_focused_maximizes
    }
}

} // verus!
