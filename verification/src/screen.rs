//! Display filtering: decide whether the bar shows windows of every
//! display or only of its own, and recognise which compositor output
//! the bar's monitor corresponds to, by geometry, model and
//! manufacturer.

use vstd::prelude::*;

use crate::text::str_eq;

verus! {

/// Which windows the bar displays.
pub enum DisplayFilter {
    /// Show windows of every display.
    ShowAll,
    /// Show only windows of the named display.
    Only(String),
}

/// Whether the filter lets a window on display `output` through.
pub open spec fn spec_should_display(f: &DisplayFilter, output: Seq<char>) -> bool {
    match f {
        DisplayFilter::ShowAll => true,
        DisplayFilter::Only(name) => name@ == output,
    }
}

impl DisplayFilter {
    /// Whether a window on display `output` is shown.
    pub fn should_display(&self, output: &str) -> (r: bool)
        ensures
            r == spec_should_display(self, output@),
    {
        match self {
            DisplayFilter::ShowAll => true,
            DisplayFilter::Only(name) => str_eq(name.as_str(), output),
        }
    }
}

/// One compositor output as far as monitor identification needs it;
/// the geometry comparison itself happens at the caller, which knows
/// the scale factors.
pub struct OutputInfo {
    /// The output's connector name.
    pub name: String,
    /// The display's model string; empty when the compositor has none.
    pub model: String,
    /// The display's manufacturer string; empty when the compositor
    /// has none.
    pub make: String,
    /// Whether the output has a logical (active) configuration; one
    /// without it matches nothing.
    pub has_logical: bool,
}

/// Which respects a monitor and a compositor output agree in.
#[derive(Debug, PartialEq, Eq, Structural, Clone, Copy)]
pub struct OutputMatcher {
    /// The scaled geometries agree.
    pub geometry: bool,
    /// The model strings agree.
    pub model: bool,
    /// The manufacturer strings agree.
    pub manufacturer: bool,
}

/// Whether an optional monitor property agrees with the compositor's
/// string for it: present strings must be equal, an absent one matches
/// only an empty string.
pub open spec fn spec_property_matches(monitor: &Option<String>, output: Seq<char>) -> bool {
    match monitor {
        Some(m) => m@ == output,
        None => output.len() == 0,
    }
}

/// The agreement between a monitor and an output: nothing for an
/// output without a logical configuration, otherwise the given
/// geometry verdict and the two string comparisons.
pub open spec fn spec_compare(
    monitor_model: &Option<String>,
    monitor_make: &Option<String>,
    output: &OutputInfo,
    geometry_matches: bool,
) -> OutputMatcher {
    if !output.has_logical {
        OutputMatcher::empty()
    } else {
        OutputMatcher {
            geometry: geometry_matches,
            model: spec_property_matches(monitor_model, output.model@),
            manufacturer: spec_property_matches(monitor_make, output.make@),
        }
    }
}

impl OutputMatcher {
    /// No agreement in any respect.
    pub open spec fn empty() -> OutputMatcher {
        OutputMatcher { geometry: false, model: false, manufacturer: false }
    }

    /// Agreement in every respect.
    pub open spec fn all() -> OutputMatcher {
        OutputMatcher { geometry: true, model: true, manufacturer: true }
    }

    /// No agreement in any respect, executably.
    pub fn none() -> (r: OutputMatcher)
        ensures
            r == OutputMatcher::empty(),
    {
        OutputMatcher { geometry: false, model: false, manufacturer: false }
    }

    /// Whether the monitor and the output agree in every respect.
    pub fn is_full(&self) -> (r: bool)
        ensures
            r == (*self == OutputMatcher::all()),
    {
        self.geometry && self.model && self.manufacturer
    }

    /// Compare a monitor with a compositor output. The geometry
    /// verdict is computed by the caller from the scaled pixel
    /// geometries; model and manufacturer are compared here, with an
    /// absent monitor string matching only an empty output string.
    pub fn compare(
        monitor_model: &Option<String>,
        monitor_make: &Option<String>,
        output: &OutputInfo,
        geometry_matches: bool,
    ) -> (r: OutputMatcher)
        ensures
            r == spec_compare(monitor_model, monitor_make, output, geometry_matches),
    {
        if !output.has_logical {
            return OutputMatcher::none();
        }
        let model = match monitor_model {
            Some(m) => str_eq(m.as_str(), output.model.as_str()),
            None => output.model.as_str().unicode_len() == 0,
        };
        let manufacturer = match monitor_make {
            Some(m) => str_eq(m.as_str(), output.make.as_str()),
            None => output.make.as_str().unicode_len() == 0,
        };
        OutputMatcher { geometry: geometry_matches, model, manufacturer }
    }
}

/// One output of the compositor together with how far it agrees with
/// the bar's monitor.
pub struct OutputCandidate {
    /// The output's connector name.
    pub name: String,
    /// The monitor agreement computed for this output.
    pub flags: OutputMatcher,
}

/// The name of the first candidate agreeing in every respect, if any.
pub open spec fn spec_first_full_match(candidates: Seq<OutputCandidate>) -> Option<Seq<char>>
    decreases candidates.len(),
{
    if candidates.len() == 0 {
        None
    } else if candidates[0].flags == OutputMatcher::all() {
        Some(candidates[0].name@)
    } else {
        spec_first_full_match(candidates.drop_first())
    }
}

/// The filter the bar should use, given the monitor comparisons.
pub open spec fn spec_select_display_filter(
    show_all: bool,
    candidates: Seq<OutputCandidate>,
) -> Option<Seq<char>> {
    if show_all || candidates.len() == 1 {
        None
    } else {
        spec_first_full_match(candidates)
    }
}

/// Decide the display filter: everything when configured so, when only
/// one output exists, or when no output fully agrees with the bar's
/// monitor; otherwise only the first fully agreeing output.
pub fn select_display_filter(show_all: bool, candidates: &Vec<OutputCandidate>) -> (r:
    DisplayFilter)
    ensures
        match r {
            DisplayFilter::ShowAll => spec_select_display_filter(show_all, candidates@) is None,
            DisplayFilter::Only(name) => spec_select_display_filter(show_all, candidates@)
                == Some(name@),
        },
{
    if show_all {
        return DisplayFilter::ShowAll;
    }
    if candidates.len() == 1 {
        return DisplayFilter::ShowAll;
    }
    let n = candidates.len();
    let mut i: usize = 0;
    proof {
        assert(candidates@.skip(0) =~= candidates@);
    }
    while i < n
        invariant
            i <= n,
            n == candidates@.len(),
            n != 1,
            !show_all,
            spec_first_full_match(candidates@) == spec_first_full_match(candidates@.skip(i as int)),
        decreases n - i,
    {
        proof {
            assert(candidates@.skip(i as int)[0] == candidates@[i as int]);
            assert(candidates@.skip(i as int).drop_first() =~= candidates@.skip(i + 1 as int));
        }
        if candidates[i].flags.is_full() {
            return DisplayFilter::Only(candidates[i].name.clone());
        }
        i = i + 1;
    }
    proof {
        assert(candidates@.skip(n as int) =~= Seq::<OutputCandidate>::empty());
    }
    DisplayFilter::ShowAll
}

} // verus!
