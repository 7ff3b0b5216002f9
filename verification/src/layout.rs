//! The taskbar-side decisions of a window update: which windows get a
//! button, which buttons disappear, and how wide the buttons become so
//! the row stays within its limit.

use vstd::prelude::*;

use crate::screen::{spec_should_display, DisplayFilter};
use crate::settings::{spec_contains_id, Settings};
use crate::windows::WindowInfo;

verus! {

/// Truncating division, as the machine computes it on signed values;
/// the divisor is positive.
pub open spec fn div_trunc(a: int, b: int) -> int {
    if a >= 0 {
        a / b
    } else {
        -((-a) / b)
    }
}

/// The width of one button: the configured maximum, shrunk when the
/// row of `count` buttons would pass the row limit, but never under
/// the configured minimum.
pub open spec fn spec_button_width(count: int, min: int, max: int, total: int) -> int {
    if max * count > total {
        let fit = div_trunc(total, count);
        if fit >= min {
            fit
        } else {
            min
        }
    } else {
        max
    }
}

/// Quotient of a possibly negative dividend and a positive divisor,
/// truncating toward zero.
fn div_trunc_exec(a: i64, b: u64) -> (r: i64)
    requires
        1 <= b,
        -0x8000_0000_0000_0000 < a,
        b <= 0x7fff_ffff_ffff_ffff,
    ensures
        r == div_trunc(a as int, b as int),
{
    if a >= 0 {
        ((a as u64) / b) as i64
    } else {
        let mag: u64 = (-a) as u64;
        -((mag / b) as i64)
    }
}

/// The width for one button so `button_count` of them respect the row
/// limit: the maximum where it fits, else the fair share of the limit,
/// floored at the minimum.
pub fn compute_button_width(
    button_count: usize,
    min_width: i32,
    max_width: i32,
    total_limit: i32,
) -> (w: i32)
    requires
        1 <= button_count <= 0x7fff_ffff,
    ensures
        w == spec_button_width(
            button_count as int,
            min_width as int,
            max_width as int,
            total_limit as int,
        ),
{
    let count: i64 = button_count as i64;
    proof {
        assert((max_width as int) * (count as int) <= 0x4000_0000_0000_0000) by (nonlinear_arith)
            requires
                max_width <= 0x7fff_ffff,
                1 <= count <= 0x7fff_ffff,
        ;
        assert((max_width as int) * (count as int) >= -0x4000_0000_0000_0000) by (nonlinear_arith)
            requires
                max_width >= -0x8000_0000,
                max_width <= 0x7fff_ffff,
                1 <= count <= 0x7fff_ffff,
        ;
    }
    if (max_width as i64) * count > (total_limit as i64) {
        let fit64 = div_trunc_exec(total_limit as i64, button_count as u64);
        let fit: i32 = fit64 as i32;
        proof {
            assert(div_trunc(total_limit as int, button_count as int) <= (if total_limit >= 0 {
                total_limit as int
            } else {
                0
            }));
            assert(div_trunc(total_limit as int, button_count as int) >= (if total_limit >= 0 {
                0
            } else {
                total_limit as int
            }));
        }
        if fit >= min_width {
            fit
        } else {
            min_width
        }
    } else {
        max_width
    }
}

/// How many characters the title label may hold: the button width less
/// the icon, its gap and the padding, at eight pixels a character.
pub fn title_max_chars(max_width: i32, icon_size: i32, icon_spacing: i32) -> (r: i32)
    ensures
        r == div_trunc(max_width - icon_size - icon_spacing - 16, 8),
{
    let diff: i64 = max_width as i64 - icon_size as i64 - icon_spacing as i64 - 16;
    div_trunc_exec(diff, 8) as i32
}

/// Whether the bar shows a button for this window: its display passes
/// the filter (an unnamed display counts as the empty name), and its
/// application identifier is not ignored.
pub open spec fn spec_shows_window(
    w: WindowInfo,
    filter: &DisplayFilter,
    ignore: Seq<String>,
) -> bool {
    &&& spec_should_display(
        filter,
        match w.output {
            Some(o) => o@,
            None => Seq::empty(),
        },
    )
    &&& !(w.app_id matches Some(a) && spec_contains_id(ignore, a@))
}

/// The ids of the snapshot's windows that get a button, in snapshot
/// order.
pub open spec fn spec_displayed(
    windows: Seq<WindowInfo>,
    filter: &DisplayFilter,
    ignore: Seq<String>,
) -> Seq<u64>
    decreases windows.len(),
{
    if windows.len() == 0 {
        Seq::empty()
    } else {
        let prefix = spec_displayed(windows.drop_last(), filter, ignore);
        if spec_shows_window(windows.last(), filter, ignore) {
            prefix.push(windows.last().id)
        } else {
            prefix
        }
    }
}

/// The existing button ids whose windows are gone from the new
/// snapshot, in their old order.
pub open spec fn spec_removed(existing: Seq<u64>, shown: Seq<u64>) -> Seq<u64>
    decreases existing.len(),
{
    if existing.len() == 0 {
        Seq::empty()
    } else {
        let prefix = spec_removed(existing.drop_last(), shown);
        if !shown.contains(existing.last()) {
            prefix.push(existing.last())
        } else {
            prefix
        }
    }
}

/// Whether `v` holds `x`.
fn contains_id(v: &Vec<u64>, x: u64) -> (r: bool)
    ensures
        r == v@.contains(x),
{
    let n = v.len();
    let mut i: usize = 0;
    while i < n
        invariant
            i <= n,
            n == v@.len(),
            forall|j: int| 0 <= j < i ==> v@[j] != x,
        decreases n - i,
    {
        if v[i] == x {
            return true;
        }
        i = i + 1;
    }
    false
}

/// Everything one window update changes on the bar.
pub struct UpdatePlan {
    /// The ids of the windows shown after the update, in snapshot
    /// order.
    pub displayed: Vec<u64>,
    /// The ids whose buttons are removed.
    pub removed: Vec<u64>,
    /// The width every remaining button is set to; nothing when no
    /// window is shown.
    pub width: Option<i32>,
}

/// Plan one window update: filter the snapshot by display and ignore
/// list, diff it against the existing buttons, and size the remaining
/// row.
pub fn plan_window_update(
    existing: &Vec<u64>,
    snapshot: &Vec<WindowInfo>,
    filter: &DisplayFilter,
    settings: &Settings,
) -> (p: UpdatePlan)
    requires
        snapshot@.len() <= 0x7fff_ffff,
    ensures
        p.displayed@ == spec_displayed(snapshot@, filter, settings.ignore_app_ids@),
        p.removed@ == spec_removed(
            existing@,
            spec_displayed(snapshot@, filter, settings.ignore_app_ids@),
        ),
        match p.width {
            Some(w) => p.displayed@.len() > 0 && w == spec_button_width(
                p.displayed@.len() as int,
                settings.min_button_width as int,
                settings.max_button_width as int,
                settings.max_taskbar_width as int,
            ),
            None => p.displayed@.len() == 0,
        },
{
    let n = snapshot.len();
    let mut displayed: Vec<u64> = Vec::new();
    let mut i: usize = 0;
    while i < n
        invariant
            i <= n,
            n == snapshot@.len(),
            displayed@ == spec_displayed(snapshot@.take(i as int), filter, settings.ignore_app_ids@),
            displayed@.len() <= i,
        decreases n - i,
    {
        let w = &snapshot[i];
        let shown_by_filter = match &w.output {
            Some(o) => filter.should_display(o.as_str()),
            None => {
                let r = filter.should_display("");
                proof {
                    reveal_strlit("");
                    assert(""@ =~= Seq::<char>::empty());
                }
                r
            },
        };
        let ignored = match &w.app_id {
            Some(a) => settings.should_ignore(a.as_str()),
            None => false,
        };
        if shown_by_filter && !ignored {
            displayed.push(w.id);
        }
        proof {
            assert(snapshot@.take(i + 1 as int).drop_last() =~= snapshot@.take(i as int));
            assert(snapshot@.take(i + 1 as int).last() == snapshot@[i as int]);
        }
        i = i + 1;
    }
    proof {
        assert(snapshot@.take(n as int) =~= snapshot@);
    }
    let m = existing.len();
    let mut removed: Vec<u64> = Vec::new();
    let mut k: usize = 0;
    while k < m
        invariant
            m == existing@.len(),
            k <= m,
            displayed@ == spec_displayed(snapshot@, filter, settings.ignore_app_ids@),
            removed@ == spec_removed(existing@.take(k as int), displayed@),
        decreases m - k,
    {
        if !contains_id(&displayed, existing[k]) {
            removed.push(existing[k]);
        }
        proof {
            assert(existing@.take(k + 1 as int).drop_last() =~= existing@.take(k as int));
            assert(existing@.take(k + 1 as int).last() == existing@[k as int]);
        }
        k = k + 1;
    }
    proof {
        assert(existing@.take(m as int) =~= existing@);
    }
    let width = if displayed.len() > 0 {
        Some(
            compute_button_width(
                displayed.len(),
                settings.min_button_width,
                settings.max_button_width,
                settings.max_taskbar_width,
            ),
        )
    } else {
        None
    };
    UpdatePlan { displayed, removed, width }
}

} // verus!
