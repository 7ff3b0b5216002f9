//! The window-notification matcher. Phase one maps the notification's
//! resolved process id, and every ancestor of it in turn, onto the open
//! windows; phase two falls back to matching the notification's desktop
//! entry against window application identifiers, exactly first and
//! fuzzily only when no exact match exists.

use std::collections::HashMap;
use vstd::prelude::*;

use crate::settings::{spec_remapped, NotificationConfig};
use crate::text::{contains_char, dot_suffix, dot_suffix_of, has_dot, lower_of, lowercase, str_eq};
use crate::windows::WindowInfo;

verus! {

broadcast use vstd::std_specs::hash::group_hash_axioms;

/// The mapping that phase one works on: for each process id, the id of
/// the last non-focused window owning that process; focused windows are
/// left out because they already have the user's attention.
pub open spec fn spec_pid_map(windows: Seq<WindowInfo>) -> Map<i64, u64>
    decreases windows.len(),
{
    if windows.len() == 0 {
        Map::empty()
    } else {
        let prefix = spec_pid_map(windows.drop_last());
        let w = windows.last();
        if w.pid is Some && !w.is_focused {
            prefix.insert(w.pid->0, w.id)
        } else {
            prefix
        }
    }
}

/// A one-shot mapping from process id to the id of a non-focused window
/// that owns it, built over one window snapshot.
pub struct ProcessWindowMap {
    map: HashMap<i64, u64>,
}

impl View for ProcessWindowMap {
    type V = Map<i64, u64>;

    closed spec fn view(&self) -> Map<i64, u64> {
        self.map@
    }
}

impl ProcessWindowMap {
    /// Collect every non-focused window that has a process id; a later
    /// window with the same process id replaces an earlier one.
    pub fn build(windows: &Vec<WindowInfo>) -> (m: Self)
        ensures
            m@ == spec_pid_map(windows@),
    {
        let mut map: HashMap<i64, u64> = HashMap::new();
        let n = windows.len();
        let mut i: usize = 0;
        while i < n
            invariant
                i <= n,
                n == windows@.len(),
                map@ == spec_pid_map(windows@.take(i as int)),
            decreases n - i,
        {
            let w = &windows[i];
            if let Some(pid) = w.pid {
                if !w.is_focused {
                    map.insert(pid, w.id);
                }
            }
            proof {
                assert(windows@.take(i + 1 as int).drop_last() =~= windows@.take(i as int));
                assert(windows@.take(i + 1 as int).last() == windows@[i as int]);
            }
            i = i + 1;
        }
        proof {
            assert(windows@.take(n as int) =~= windows@);
        }
        ProcessWindowMap { map }
    }

    /// The id of the non-focused window owning `pid`, if the snapshot
    /// had one.
    pub fn lookup(&self, pid: i64) -> (r: Option<u64>)
        ensures
            r == (if self@.contains_key(pid) {
                Some(self@[pid])
            } else {
                None::<u64>
            }),
    {
        match self.map.get(&pid) {
            Some(id) => Some(*id),
            None => None,
        }
    }
}

/// The result of walking a process-ancestry chain through the pid map:
/// the window mapped by the first chain element that the map holds.
pub open spec fn spec_chain_match(m: Map<i64, u64>, chain: Seq<i64>) -> Option<u64>
    decreases chain.len(),
{
    if chain.len() == 0 {
        None
    } else if m.contains_key(chain[0]) {
        Some(m[chain[0]])
    } else {
        spec_chain_match(m, chain.drop_first())
    }
}

/// Phase one over an already-resolved ancestry chain (the notification's
/// own pid first, each parent after it): the first chain element owning
/// a non-focused window decides the match.
pub fn match_pid_chain(map: &ProcessWindowMap, chain: &Vec<i64>) -> (r: Option<u64>)
    ensures
        r == spec_chain_match(map@, chain@),
{
    let n = chain.len();
    let mut i: usize = 0;
    proof {
        assert(chain@.skip(0) =~= chain@);
    }
    while i < n
        invariant
            i <= n,
            n == chain@.len(),
            spec_chain_match(map@, chain@) == spec_chain_match(map@, chain@.skip(i as int)),
        decreases n - i,
    {
        let r = map.lookup(chain[i]);
        proof {
            assert(chain@.skip(i as int)[0] == chain@[i as int]);
            assert(chain@.skip(i as int).drop_first() =~= chain@.skip(i + 1 as int));
        }
        if let Some(id) = r {
            return Some(id);
        }
        i = i + 1;
    }
    proof {
        assert(chain@.skip(n as int) =~= Seq::<i64>::empty());
    }
    None
}

/// Whether a window's identifier equals the (remapped) desktop entry
/// exactly, case-sensitively.
pub open spec fn is_exact_match(w: WindowInfo, entry: Seq<char>) -> bool {
    w.app_id matches Some(a) && a@ == entry
}

/// Whether a window is a fuzzy candidate for the entry: not an exact
/// match, but equal after case folding, or agreeing on the final
/// dot-separated segment after case folding (the window identifier must
/// hold a dot for the segment rule to apply).
pub open spec fn is_fuzzy_match(w: WindowInfo, entry: Seq<char>) -> bool {
    w.app_id matches Some(a) && a@ != entry && (lower_of(a@) == lower_of(entry) || (
    contains_char(a@, '.') && lower_of(dot_suffix(a@)) == lower_of(dot_suffix(entry))))
}

/// The ids of the windows matching the entry exactly, in snapshot order.
pub open spec fn spec_exact_matches(windows: Seq<WindowInfo>, entry: Seq<char>) -> Seq<u64>
    decreases windows.len(),
{
    if windows.len() == 0 {
        Seq::empty()
    } else {
        let prefix = spec_exact_matches(windows.drop_last(), entry);
        if is_exact_match(windows.last(), entry) {
            prefix.push(windows.last().id)
        } else {
            prefix
        }
    }
}

/// The ids of the fuzzy candidates for the entry, in snapshot order.
pub open spec fn spec_fuzzy_matches(windows: Seq<WindowInfo>, entry: Seq<char>) -> Seq<u64>
    decreases windows.len(),
{
    if windows.len() == 0 {
        Seq::empty()
    } else {
        let prefix = spec_fuzzy_matches(windows.drop_last(), entry);
        if is_fuzzy_match(windows.last(), entry) {
            prefix.push(windows.last().id)
        } else {
            prefix
        }
    }
}

/// Phase two's result: all exact matches when any exists; otherwise the
/// fuzzy candidates when fuzzy matching is enabled; otherwise nothing.
pub open spec fn spec_app_id_matches(
    windows: Seq<WindowInfo>,
    entry: Seq<char>,
    fuzzy_enabled: bool,
) -> Seq<u64> {
    let exact = spec_exact_matches(windows, entry);
    if exact.len() > 0 {
        exact
    } else if fuzzy_enabled {
        spec_fuzzy_matches(windows, entry)
    } else {
        Seq::empty()
    }
}

/// Phase two: match the (already remapped) desktop entry against the
/// windows' application identifiers. Exact matches win; fuzzy
/// candidates count only when no exact match exists and fuzzy matching
/// is enabled.
pub fn match_by_app_id(
    windows: &Vec<WindowInfo>,
    entry: &str,
    fuzzy_enabled: bool,
) -> (r: Vec<u64>)
    ensures
        r@ == spec_app_id_matches(windows@, entry@, fuzzy_enabled),
{
    let entry_lower = lowercase(entry);
    let entry_suffix = dot_suffix_of(entry);
    let entry_suffix_lower = lowercase(entry_suffix.as_str());
    let mut exact: Vec<u64> = Vec::new();
    let mut fuzzy: Vec<u64> = Vec::new();
    let n = windows.len();
    let mut i: usize = 0;
    while i < n
        invariant
            i <= n,
            n == windows@.len(),
            entry_lower@ == lower_of(entry@),
            entry_suffix_lower@ == lower_of(dot_suffix(entry@)),
            exact@ == spec_exact_matches(windows@.take(i as int), entry@),
            fuzzy_enabled ==> fuzzy@ == spec_fuzzy_matches(windows@.take(i as int), entry@),
        decreases n - i,
    {
        let w = &windows[i];
        if let Some(a) = &w.app_id {
            if str_eq(a.as_str(), entry) {
                exact.push(w.id);
            } else if fuzzy_enabled {
                let a_lower = lowercase(a.as_str());
                if str_eq(a_lower.as_str(), entry_lower.as_str()) {
                    fuzzy.push(w.id);
                } else if has_dot(a.as_str()) {
                    let sfx = dot_suffix_of(a.as_str());
                    let sfx_lower = lowercase(sfx.as_str());
                    if str_eq(sfx_lower.as_str(), entry_suffix_lower.as_str()) {
                        fuzzy.push(w.id);
                    }
                }
            }
        }
        proof {
            assert(windows@.take(i + 1 as int).drop_last() =~= windows@.take(i as int));
            assert(windows@.take(i + 1 as int).last() == windows@[i as int]);
        }
        i = i + 1;
    }
    proof {
        assert(windows@.take(n as int) =~= windows@);
    }
    if exact.len() > 0 {
        exact
    } else if fuzzy_enabled {
        fuzzy
    } else {
        Vec::new()
    }
}


/// The view of an optional desktop-entry hint.
pub open spec fn spec_entry_view(e: Option<&String>) -> Option<Seq<char>> {
    match e {
        Some(s) => Some(s@),
        None => None,
    }
}

/// The whole matcher: the pid chain decides alone when it yields a
/// match; otherwise the (remapped) desktop entry is matched against the
/// application identifiers, when that phase is enabled and a hint is
/// present.
pub open spec fn spec_match_notification(
    windows: Seq<WindowInfo>,
    chain: Seq<i64>,
    entry: Option<Seq<char>>,
    use_desktop_entry: bool,
    fuzzy_enabled: bool,
    map: Seq<(String, String)>,
) -> Seq<u64> {
    match spec_chain_match(spec_pid_map(windows), chain) {
        Some(id) => seq![id],
        None => {
            if !use_desktop_entry {
                Seq::empty()
            } else {
                match entry {
                    Some(e) => spec_app_id_matches(windows, spec_remapped(map, e), fuzzy_enabled),
                    None => Seq::empty(),
                }
            }
        },
    }
}

/// Decide which windows a notification marks urgent. `chain` is the
/// notification's resolved ancestry chain, its own pid first; it is
/// empty when no pid could be resolved.
pub fn match_notification(
    windows: &Vec<WindowInfo>,
    chain: &Vec<i64>,
    desktop_entry: Option<&String>,
    cfg: &NotificationConfig,
) -> (r: Vec<u64>)
    ensures
        r@ == spec_match_notification(
            windows@,
            chain@,
            spec_entry_view(desktop_entry),
            cfg.use_desktop_entry,
            cfg.use_fuzzy_matching,
            cfg.map_app_ids@,
        ),
{
    let map = ProcessWindowMap::build(windows);
    if let Some(id) = match_pid_chain(&map, chain) {
        let mut r: Vec<u64> = Vec::new();
        r.push(id);
        proof {
            assert(r@ =~= seq![id]);
        }
        return r;
    }
    if !cfg.use_desktop_entry {
        return Vec::new();
    }
    match desktop_entry {
        Some(entry) => {
            let remapped = cfg.remap(entry.as_str());
            match_by_app_id(windows, remapped.as_str(), cfg.use_fuzzy_matching)
        },
        None => Vec::new(),
    }
}

// ---------------------------------------------------------------------
// Laws of the matcher.
// ---------------------------------------------------------------------

/// Whether the non-focused window `w` owns the process `p`.
pub open spec fn owns_pid(w: WindowInfo, p: i64) -> bool {
    w.pid == Some(p) && !w.is_focused
}

proof fn lemma_pid_map_absent(windows: Seq<WindowInfo>, p: i64)
    requires
        forall|j: int| 0 <= j < windows.len() ==> !owns_pid(#[trigger] windows[j], p),
    ensures
        !spec_pid_map(windows).contains_key(p),
    decreases windows.len(),
{
    if windows.len() > 0 {
        assert forall|j: int| 0 <= j < windows.drop_last().len() implies !owns_pid(
            #[trigger] windows.drop_last()[j],
            p,
        ) by {
            assert(windows.drop_last()[j] == windows[j]);
        }
        lemma_pid_map_absent(windows.drop_last(), p);
        assert(windows.last() == windows[windows.len() - 1]);
    }
}

proof fn lemma_pid_map_value(windows: Seq<WindowInfo>, p: i64, i: int)
    requires
        0 <= i < windows.len(),
        owns_pid(windows[i], p),
        forall|j: int|
            0 <= j < windows.len() && owns_pid(#[trigger] windows[j], p) ==> windows[j].id
                == windows[i].id,
    ensures
        spec_pid_map(windows).contains_key(p),
        spec_pid_map(windows)[p] == windows[i].id,
    decreases windows.len(),
{
    let last = windows.last();
    assert(last == windows[windows.len() - 1]);
    if owns_pid(last, p) {
        assert(windows[windows.len() - 1].id == windows[i].id);
    } else {
        assert(i < windows.len() - 1);
        assert(windows.drop_last()[i] == windows[i]);
        assert forall|j: int|
            0 <= j < windows.drop_last().len() && owns_pid(#[trigger] windows.drop_last()[j], p)
        implies windows.drop_last()[j].id == windows.drop_last()[i].id by {
            assert(windows.drop_last()[j] == windows[j]);
        }
        lemma_pid_map_value(windows.drop_last(), p, i);
    }
}

proof fn lemma_chain_hit_at(m: Map<i64, u64>, chain: Seq<i64>, k: int)
    requires
        0 <= k < chain.len(),
        forall|j: int| 0 <= j < k ==> !m.contains_key(#[trigger] chain[j]),
        m.contains_key(chain[k]),
    ensures
        spec_chain_match(m, chain) == Some(m[chain[k]]),
    decreases k,
{
    if k > 0 {
        assert(!m.contains_key(chain[0]));
        assert forall|j: int| 0 <= j < k - 1 implies !m.contains_key(
            #[trigger] chain.drop_first()[j],
        ) by {
            assert(chain.drop_first()[j] == chain[j + 1]);
        }
        assert(chain.drop_first()[k - 1] == chain[k]);
        lemma_chain_hit_at(m, chain.drop_first(), k - 1);
    }
}

proof fn lemma_exact_matches_member(windows: Seq<WindowInfo>, entry: Seq<char>, i: int)
    requires
        0 <= i < windows.len(),
        is_exact_match(windows[i], entry),
    ensures
        spec_exact_matches(windows, entry).contains(windows[i].id),
    decreases windows.len(),
{
    if i == windows.len() - 1 {
        assert(windows.last() == windows[i]);
        assert(spec_exact_matches(windows, entry).last() == windows[i].id);
    } else {
        assert(windows.drop_last()[i] == windows[i]);
        lemma_exact_matches_member(windows.drop_last(), entry, i);
        let prefix = spec_exact_matches(windows.drop_last(), entry);
        let j = choose|j: int| 0 <= j < prefix.len() && prefix[j] == windows[i].id;
        if is_exact_match(windows.last(), entry) {
            assert(prefix.push(windows.last().id)[j] == windows[i].id);
        }
    }
}

proof fn lemma_exact_matches_source(windows: Seq<WindowInfo>, entry: Seq<char>, x: u64)
    requires
        spec_exact_matches(windows, entry).contains(x),
    ensures
        exists|j: int|
            0 <= j < windows.len() && is_exact_match(#[trigger] windows[j], entry)
                && windows[j].id == x,
    decreases windows.len(),
{
    let s = spec_exact_matches(windows, entry);
    let prefix = spec_exact_matches(windows.drop_last(), entry);
    if is_exact_match(windows.last(), entry) && windows.last().id == x {
        assert(windows[windows.len() - 1] == windows.last());
        assert(
            0 <= windows.len() - 1 < windows.len() && is_exact_match(
                windows[windows.len() - 1],
                entry,
            ) && windows[windows.len() - 1].id == x
        );
    } else {
        let j = choose|j: int| 0 <= j < s.len() && s[j] == x;
        assert(prefix.contains(x)) by {
            if is_exact_match(windows.last(), entry) {
                assert(j < prefix.len());
                assert(prefix[j] == x);
            } else {
                assert(prefix[j] == x);
            }
        }
        lemma_exact_matches_source(windows.drop_last(), entry, x);
        let l = choose|l: int|
            0 <= l < windows.drop_last().len() && is_exact_match(
                #[trigger] windows.drop_last()[l],
                entry,
            ) && windows.drop_last()[l].id == x;
        assert(windows.drop_last()[l] == windows[l]);
        assert(
            0 <= l < windows.len() && is_exact_match(windows[l], entry) && windows[l].id == x
        );
    }
}

proof fn lemma_exact_matches_empty(windows: Seq<WindowInfo>, entry: Seq<char>)
    requires
        forall|j: int| 0 <= j < windows.len() ==> !is_exact_match(#[trigger] windows[j], entry),
    ensures
        spec_exact_matches(windows, entry).len() == 0,
    decreases windows.len(),
{
    if windows.len() > 0 {
        assert forall|j: int| 0 <= j < windows.drop_last().len() implies !is_exact_match(
            #[trigger] windows.drop_last()[j],
            entry,
        ) by {
            assert(windows.drop_last()[j] == windows[j]);
        }
        lemma_exact_matches_empty(windows.drop_last(), entry);
        assert(windows.last() == windows[windows.len() - 1]);
    }
}

/// Direct-match law: a notification whose resolved pid is owned by a
/// non-focused window marks that window and nothing else, whatever the
/// desktop entry and the identifier configuration say. The pid map
/// keeps one window per process id, so the law speaks of the window
/// that all non-focused owners of the pid share their id with.
pub proof fn lemma_direct_pid_match(
    windows: Seq<WindowInfo>,
    chain: Seq<i64>,
    i: int,
    entry: Option<Seq<char>>,
    use_desktop_entry: bool,
    fuzzy_enabled: bool,
    map: Seq<(String, String)>,
)
    requires
        chain.len() > 0,
        0 <= i < windows.len(),
        owns_pid(windows[i], chain[0]),
        forall|j: int|
            0 <= j < windows.len() && owns_pid(#[trigger] windows[j], chain[0]) ==> windows[j].id
                == windows[i].id,
    ensures
        spec_match_notification(windows, chain, entry, use_desktop_entry, fuzzy_enabled, map)
            == seq![windows[i].id],
{
    lemma_pid_map_value(windows, chain[0], i);
}

/// Chain-walk law: when no non-focused window owns any of the first k
/// chain entries and one owns entry k (a strict ancestor of the
/// notification's pid when k > 0), that ancestor-owning window is
/// marked and nothing else.
pub proof fn lemma_ancestor_pid_match(
    windows: Seq<WindowInfo>,
    chain: Seq<i64>,
    k: int,
    i: int,
    entry: Option<Seq<char>>,
    use_desktop_entry: bool,
    fuzzy_enabled: bool,
    map: Seq<(String, String)>,
)
    requires
        0 <= k < chain.len(),
        forall|j: int, l: int|
            0 <= j < k && 0 <= l < windows.len() ==> !owns_pid(#[trigger] windows[l], #[trigger] chain[j]),
        0 <= i < windows.len(),
        owns_pid(windows[i], chain[k]),
        forall|j: int|
            0 <= j < windows.len() && owns_pid(#[trigger] windows[j], chain[k]) ==> windows[j].id
                == windows[i].id,
    ensures
        spec_match_notification(windows, chain, entry, use_desktop_entry, fuzzy_enabled, map)
            == seq![windows[i].id],
{
    let m = spec_pid_map(windows);
    assert forall|j: int| 0 <= j < k implies !m.contains_key(#[trigger] chain[j]) by {
        lemma_pid_map_absent(windows, chain[j]);
    }
    lemma_pid_map_value(windows, chain[k], i);
    lemma_chain_hit_at(m, chain, k);
}

/// Short-circuit law: when the pid chain yields a match, the result is
/// that single window, and identifier matching contributes nothing: the
/// result does not depend on the desktop entry or on the identifier
/// configuration.
pub proof fn lemma_pid_short_circuit(
    windows: Seq<WindowInfo>,
    chain: Seq<i64>,
    id: u64,
    entry_a: Option<Seq<char>>,
    use_desktop_entry_a: bool,
    fuzzy_a: bool,
    map_a: Seq<(String, String)>,
    entry_b: Option<Seq<char>>,
    use_desktop_entry_b: bool,
    fuzzy_b: bool,
    map_b: Seq<(String, String)>,
)
    requires
        spec_chain_match(spec_pid_map(windows), chain) == Some(id),
    ensures
        spec_match_notification(windows, chain, entry_a, use_desktop_entry_a, fuzzy_a, map_a)
            == seq![id],
        spec_match_notification(windows, chain, entry_a, use_desktop_entry_a, fuzzy_a, map_a)
            == spec_match_notification(
            windows,
            chain,
            entry_b,
            use_desktop_entry_b,
            fuzzy_b,
            map_b,
        ),
{
}

/// Exact-over-fuzzy law: when the pid chain yields nothing and some
/// window's identifier equals the remapped desktop entry exactly, the
/// result is exactly the exact matches; a window that is not an exact
/// match is never marked, however fuzzy matching is configured.
pub proof fn lemma_exact_wins(
    windows: Seq<WindowInfo>,
    chain: Seq<i64>,
    e: Seq<char>,
    fuzzy_enabled: bool,
    map: Seq<(String, String)>,
    i: int,
)
    requires
        spec_chain_match(spec_pid_map(windows), chain) is None,
        0 <= i < windows.len(),
        is_exact_match(windows[i], spec_remapped(map, e)),
        forall|a: int, b: int|
            0 <= a < windows.len() && 0 <= b < windows.len() && a != b ==> (#[trigger] windows[a].id)
                != (#[trigger] windows[b].id),
    ensures
        spec_match_notification(windows, chain, Some(e), true, fuzzy_enabled, map)
            == spec_exact_matches(windows, spec_remapped(map, e)),
        forall|j: int|
            0 <= j < windows.len() && !is_exact_match(#[trigger] windows[j], spec_remapped(map, e))
                ==> !spec_match_notification(
                windows,
                chain,
                Some(e),
                true,
                fuzzy_enabled,
                map,
            ).contains(windows[j].id),
{
    let me = spec_remapped(map, e);
    lemma_exact_matches_member(windows, me, i);
    let r = spec_match_notification(windows, chain, Some(e), true, fuzzy_enabled, map);
    assert(r == spec_exact_matches(windows, me));
    assert forall|j: int|
        0 <= j < windows.len() && !is_exact_match(#[trigger] windows[j], me)
    implies !r.contains(windows[j].id) by {
        if r.contains(windows[j].id) {
            lemma_exact_matches_source(windows, me, windows[j].id);
            let l = choose|l: int|
                0 <= l < windows.len() && is_exact_match(#[trigger] windows[l], me)
                    && windows[l].id == windows[j].id;
            assert(l == j);
        }
    }
}

/// Fuzzy-gating law: fuzzy candidates are marked exactly when no exact
/// match exists and fuzzy matching is enabled; with fuzzy matching
/// disabled, a desktop entry without an exact match yields no marks at
/// all.
pub proof fn lemma_fuzzy_gating(
    windows: Seq<WindowInfo>,
    chain: Seq<i64>,
    e: Seq<char>,
    fuzzy_enabled: bool,
    map: Seq<(String, String)>,
)
    requires
        spec_chain_match(spec_pid_map(windows), chain) is None,
        forall|j: int|
            0 <= j < windows.len() ==> !is_exact_match(#[trigger] windows[j], spec_remapped(map, e)),
    ensures
        fuzzy_enabled ==> spec_match_notification(windows, chain, Some(e), true, true, map)
            == spec_fuzzy_matches(windows, spec_remapped(map, e)),
        !fuzzy_enabled ==> spec_match_notification(windows, chain, Some(e), true, false, map)
            == Seq::<u64>::empty(),
{
    lemma_exact_matches_empty(windows, spec_remapped(map, e));
}


} // verus!
