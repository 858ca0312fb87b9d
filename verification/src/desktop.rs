//! The desktop as a whole.

use vstd::prelude::*;
use vstd::string::*;

use crate::error::HyprError;
use crate::monitors::{at_least_one, one_or_more, saturated, saturating_sum, Monitor};

verus! {

/// Where the desktop begins, how far it reaches in logical pixels, and the
/// bits of the scale at which it is captured.
#[derive(Clone, Copy, Debug, PartialEq, Eq, Structural)]
pub struct DesktopCaptureSpace {
    pub origin_x: i32,
    pub origin_y: i32,
    pub extent_x: i32,
    pub extent_y: i32,
    pub scale_bits: u64,
}

/// Whether `i` is an enabled monitor of `monitors`.
pub open spec fn is_enabled_at(monitors: Seq<Monitor>, i: int) -> bool {
    0 <= i < monitors.len() && !monitors[i].disabled
}

/// Whether `n` is the smallest `value` of an enabled monitor.
pub open spec fn is_least(monitors: Seq<Monitor>, value: spec_fn(Monitor) -> int, n: int) -> bool {
    &&& exists|i: int| #[trigger] is_enabled_at(monitors, i) && value(monitors[i]) == n
    &&& forall|i: int| #[trigger] is_enabled_at(monitors, i) ==> n <= value(monitors[i])
}

/// Whether `n` is the largest `value` of an enabled monitor.
pub open spec fn is_greatest(
    monitors: Seq<Monitor>,
    value: spec_fn(Monitor) -> int,
    n: int,
) -> bool {
    &&& exists|i: int| #[trigger] is_enabled_at(monitors, i) && value(monitors[i]) == n
    &&& forall|i: int| #[trigger] is_enabled_at(monitors, i) ==> n >= value(monitors[i])
}

pub open spec fn left_of() -> spec_fn(Monitor) -> int {
    |monitor: Monitor| monitor.x as int
}

pub open spec fn top_of() -> spec_fn(Monitor) -> int {
    |monitor: Monitor| monitor.y as int
}

pub open spec fn right_of() -> spec_fn(Monitor) -> int {
    |monitor: Monitor| monitor.right() as int
}

pub open spec fn bottom_of() -> spec_fn(Monitor) -> int {
    |monitor: Monitor| monitor.bottom() as int
}

pub open spec fn scale_of() -> spec_fn(Monitor) -> int {
    |monitor: Monitor| monitor.scale_bits as int
}

/// Whether the enabled monitors lie close enough together for the desktop to
/// have a size of 32 bits.
pub open spec fn span_fits(monitors: Seq<Monitor>) -> bool {
    forall|i: int, j: int|
        #![trigger is_enabled_at(monitors, i), is_enabled_at(monitors, j)]
        is_enabled_at(monitors, i) && is_enabled_at(monitors, j) ==> monitors[j].right()
            - monitors[i].x <= i32::MAX && monitors[j].bottom() - monitors[i].y <= i32::MAX
}

/// The smallest rectangle that holds the enabled monitors, and their largest
/// scale.
#[derive(Clone, Copy)]
struct Bounds {
    left: i32,
    top: i32,
    right: i32,
    bottom: i32,
    scale_bits: u64,
}

spec fn bounds_first(monitors: Seq<Monitor>, n: int, bounds: Bounds) -> bool {
    let first = monitors.take(n);
    &&& is_least(first, left_of(), bounds.left as int)
    &&& is_least(first, top_of(), bounds.top as int)
    &&& is_greatest(first, right_of(), bounds.right as int)
    &&& is_greatest(first, bottom_of(), bounds.bottom as int)
    &&& is_greatest(first, scale_of(), bounds.scale_bits as int)
}

fn smaller(a: i32, b: i32) -> (r: i32)
    ensures
        r == (if b < a {
            b
        } else {
            a
        }),
{
    if b < a {
        b
    } else {
        a
    }
}

fn larger(a: i32, b: i32) -> (r: i32)
    ensures
        r == (if b > a {
            b
        } else {
            a
        }),
{
    if b > a {
        b
    } else {
        a
    }
}

proof fn lemma_least_push(
    monitors: Seq<Monitor>,
    n: int,
    value: spec_fn(Monitor) -> int,
    least: Option<int>,
)
    requires
        0 <= n < monitors.len(),
        !monitors[n].disabled,
        match least {
            Some(least) => is_least(monitors.take(n), value, least),
            None => forall|i: int| !#[trigger] is_enabled_at(monitors.take(n), i),
        },
    ensures
        is_least(
            monitors.take(n + 1),
            value,
            match least {
                Some(least) if least <= value(monitors[n]) => least,
                _ => value(monitors[n]),
            },
        ),
{
    let before = monitors.take(n);
    let after = monitors.take(n + 1);
    assert(is_enabled_at(after, n) && after[n] == monitors[n]);
    assert forall|i: int| #[trigger] is_enabled_at(after, i) implies i == n || (is_enabled_at(
        before,
        i,
    ) && after[i] == before[i]) by {}
    if let Some(least) = least {
        let k = choose|i: int| #[trigger] is_enabled_at(before, i) && value(before[i]) == least;
        assert(is_enabled_at(after, k) && after[k] == before[k]);
    }
}

proof fn lemma_greatest_push(
    monitors: Seq<Monitor>,
    n: int,
    value: spec_fn(Monitor) -> int,
    greatest: Option<int>,
)
    requires
        0 <= n < monitors.len(),
        !monitors[n].disabled,
        match greatest {
            Some(greatest) => is_greatest(monitors.take(n), value, greatest),
            None => forall|i: int| !#[trigger] is_enabled_at(monitors.take(n), i),
        },
    ensures
        is_greatest(
            monitors.take(n + 1),
            value,
            match greatest {
                Some(greatest) if greatest >= value(monitors[n]) => greatest,
                _ => value(monitors[n]),
            },
        ),
{
    let before = monitors.take(n);
    let after = monitors.take(n + 1);
    assert(is_enabled_at(after, n) && after[n] == monitors[n]);
    assert forall|i: int| #[trigger] is_enabled_at(after, i) implies i == n || (is_enabled_at(
        before,
        i,
    ) && after[i] == before[i]) by {}
    if let Some(greatest) = greatest {
        let k = choose|i: int| #[trigger] is_enabled_at(before, i) && value(before[i]) == greatest;
        assert(is_enabled_at(after, k) && after[k] == before[k]);
    }
}

proof fn lemma_bounds_skip(monitors: Seq<Monitor>, n: int, bounds: Bounds)
    requires
        0 <= n < monitors.len(),
        monitors[n].disabled,
        bounds_first(monitors, n, bounds),
    ensures
        bounds_first(monitors, n + 1, bounds),
{
    let before = monitors.take(n);
    let after = monitors.take(n + 1);
    assert forall|i: int| #[trigger] is_enabled_at(after, i) implies is_enabled_at(before, i)
        && after[i] == before[i] by {}
    assert forall|i: int| #[trigger] is_enabled_at(before, i) implies is_enabled_at(after, i)
        && after[i] == before[i] by {}
}

fn bounds_of(monitors: &[Monitor]) -> (r: Option<Bounds>)
    ensures
        match r {
            Some(bounds) => bounds_first(monitors@, monitors@.len() as int, bounds),
            None => forall|i: int| !#[trigger] is_enabled_at(monitors@, i),
        },
{
    let mut bounds: Option<Bounds> = None;
    let mut i: usize = 0;
    while i < monitors.len()
        invariant
            i <= monitors.len(),
            match bounds {
                Some(bounds) => bounds_first(monitors@, i as int, bounds),
                None => forall|k: int| !#[trigger] is_enabled_at(monitors@.take(i as int), k),
            },
        decreases monitors.len() - i,
    {
        let monitor = &monitors[i];
        let ghost n = i as int;
        if monitor.disabled {
            proof {
                match bounds {
                    Some(bounds) => {
                        lemma_bounds_skip(monitors@, n, bounds);
                    },
                    None => {
                        assert forall|k: int| !#[trigger] is_enabled_at(
                            monitors@.take(n + 1),
                            k,
                        ) by {
                            assert(!is_enabled_at(monitors@.take(n), k));
                        }
                    },
                }
            }
        } else {
            let right = monitor.right_edge();
            let bottom = monitor.bottom_edge();
            bounds =
            match bounds {
                Some(b) => {
                    proof {
                        lemma_least_push(monitors@, n, left_of(), Some(b.left as int));
                        lemma_least_push(monitors@, n, top_of(), Some(b.top as int));
                        lemma_greatest_push(monitors@, n, right_of(), Some(b.right as int));
                        lemma_greatest_push(monitors@, n, bottom_of(), Some(b.bottom as int));
                        lemma_greatest_push(monitors@, n, scale_of(), Some(b.scale_bits as int));
                    }
                    Some(
                        Bounds {
                            left: smaller(b.left, monitor.x),
                            top: smaller(b.top, monitor.y),
                            right: larger(b.right, right),
                            bottom: larger(b.bottom, bottom),
                            scale_bits: if monitor.scale_bits > b.scale_bits {
                                monitor.scale_bits
                            } else {
                                b.scale_bits
                            },
                        },
                    )
                },
                None => {
                    proof {
                        lemma_least_push(monitors@, n, left_of(), None);
                        lemma_least_push(monitors@, n, top_of(), None);
                        lemma_greatest_push(monitors@, n, right_of(), None);
                        lemma_greatest_push(monitors@, n, bottom_of(), None);
                        lemma_greatest_push(monitors@, n, scale_of(), None);
                    }
                    Some(
                        Bounds {
                            left: monitor.x,
                            top: monitor.y,
                            right,
                            bottom,
                            scale_bits: monitor.scale_bits,
                        },
                    )
                },
            };
        }
        i = i + 1;
    }
    assert(monitors@.take(monitors@.len() as int) =~= monitors@);
    bounds
}

/// Whether `desktop_capture_space_for` has an answer for these monitors.
pub fn desktop_span_fits(monitors: &[Monitor]) -> (r: bool)
    ensures
        r == span_fits(monitors@),
{
    assert(monitors@.take(monitors@.len() as int) =~= monitors@);
    match bounds_of(monitors) {
        Some(bounds) => {
            let r = bounds.right as i64 - bounds.left as i64 <= i32::MAX as i64
                && bounds.bottom as i64 - bounds.top as i64 <= i32::MAX as i64;
            proof {
                let all = monitors@;
                let l = choose|i: int| #[trigger]
                    is_enabled_at(all, i) && left_of()(all[i]) == bounds.left;
                let t = choose|i: int| #[trigger]
                    is_enabled_at(all, i) && top_of()(all[i]) == bounds.top;
                let g = choose|i: int| #[trigger]
                    is_enabled_at(all, i) && right_of()(all[i]) == bounds.right;
                let b = choose|i: int| #[trigger]
                    is_enabled_at(all, i) && bottom_of()(all[i]) == bounds.bottom;
                if span_fits(all) {
                    assert(all[g].right() - all[l].x <= i32::MAX);
                    assert(all[b].bottom() - all[t].y <= i32::MAX);
                }
                assert forall|i: int| #[trigger] is_enabled_at(all, i) implies bounds.left
                    <= all[i].x && bounds.top <= all[i].y && bounds.right >= all[i].right()
                    && bounds.bottom >= all[i].bottom() by {
                    assert(left_of()(all[i]) == all[i].x);
                    assert(top_of()(all[i]) == all[i].y);
                    assert(right_of()(all[i]) == all[i].right());
                    assert(bottom_of()(all[i]) == all[i].bottom());
                }
            }
            r
        },
        None => true,
    }
}

/// Whether `space` is the space of the capture of all enabled monitors: it
/// begins where the first of them does, reaches to where the last one ends,
/// at least one pixel on, and has their largest scale.
pub open spec fn is_capture_space(monitors: Seq<Monitor>, space: DesktopCaptureSpace) -> bool {
    &&& is_least(monitors, left_of(), space.origin_x as int)
    &&& is_least(monitors, top_of(), space.origin_y as int)
    &&& exists|right: int| #[trigger]
        is_greatest(monitors, right_of(), right) && space.extent_x == at_least_one(
            (right - space.origin_x) as i32,
        )
    &&& exists|bottom: int| #[trigger]
        is_greatest(monitors, bottom_of(), bottom) && space.extent_y == at_least_one(
            (bottom - space.origin_y) as i32,
        )
    &&& is_greatest(monitors, scale_of(), space.scale_bits as int)
}

/// The space of the capture of all enabled monitors.
pub fn desktop_capture_space_for(monitors: &[Monitor]) -> (r: Result<
    DesktopCaptureSpace,
    HyprError,
>)
    requires
        span_fits(monitors@),
    ensures
        match r {
            Ok(space) => is_capture_space(monitors@, space),
            Err(error) => error == HyprError::NoEnabledMonitors && forall|i: int|
                !#[trigger] is_enabled_at(monitors@, i),
        },
{
    assert(monitors@.take(monitors@.len() as int) =~= monitors@);
    let bounds = match bounds_of(monitors) {
        Some(bounds) => bounds,
        None => {
            return Err(HyprError::NoEnabledMonitors);
        },
    };
    proof {
        let all = monitors@;
        let l = choose|i: int| #[trigger]
            is_enabled_at(all, i) && left_of()(all[i]) == bounds.left;
        let t = choose|i: int| #[trigger] is_enabled_at(all, i) && top_of()(all[i]) == bounds.top;
        let g = choose|i: int| #[trigger]
            is_enabled_at(all, i) && right_of()(all[i]) == bounds.right;
        let b = choose|i: int| #[trigger]
            is_enabled_at(all, i) && bottom_of()(all[i]) == bounds.bottom;
        assert(all[g].right() - all[l].x <= i32::MAX);
        assert(all[b].bottom() - all[t].y <= i32::MAX);
        assert(right_of()(all[l]) == all[l].right());
        assert(bottom_of()(all[t]) == all[t].bottom());
    }
    Ok(
        DesktopCaptureSpace {
            origin_x: bounds.left,
            origin_y: bounds.top,
            extent_x: one_or_more(bounds.right - bounds.left),
            extent_y: one_or_more(bounds.bottom - bounds.top),
            scale_bits: bounds.scale_bits,
        },
    )
}

/// The place of the desktop that lies `offset` from where it begins.
pub fn desktop_capture_to_screen_for(space: &DesktopCaptureSpace, offset: (i32, i32)) -> (r: (
    i32,
    i32,
))
    ensures
        r == (saturated(space.origin_x + offset.0), saturated(space.origin_y + offset.1)),
{
    (saturating_sum(space.origin_x, offset.0), saturating_sum(space.origin_y, offset.1))
}

/// The place of the desktop that a point of its capture shows. `unscale`
/// gives the place, from where the desktop begins, that a point of its capture
/// at a scale shows.
pub fn desktop_capture_to_screen<U>(
    monitors: &[Monitor],
    unscale: U,
    capture_x: i32,
    capture_y: i32,
) -> (r: Result<(i32, i32), HyprError>) where U: FnOnce((i32, i32), u64) -> (i32, i32)
    requires
        span_fits(monitors@),
        forall|p: (i32, i32), scale: u64| #[trigger] call_requires(unscale, (p, scale)),
    ensures
        match r {
            Ok(place) => exists|space: DesktopCaptureSpace, offset: (i32, i32)|
                #![trigger is_capture_space(monitors@, space), call_ensures(unscale, ((capture_x, capture_y), space.scale_bits), offset)]
                is_capture_space(monitors@, space) && call_ensures(
                    unscale,
                    ((capture_x, capture_y), space.scale_bits),
                    offset,
                ) && place == (
                    saturated(space.origin_x + offset.0),
                    saturated(space.origin_y + offset.1),
                ),
            Err(error) => error == HyprError::NoEnabledMonitors && forall|i: int|
                !#[trigger] is_enabled_at(monitors@, i),
        },
{
    match desktop_capture_space_for(monitors) {
        Ok(space) => {
            let offset = unscale((capture_x, capture_y), space.scale_bits);
            Ok(desktop_capture_to_screen_for(&space, offset))
        },
        Err(error) => Err(error),
    }
}

/// Whether `i` is the monitor whose size stands for the screen: the first
/// enabled one with the focus, or the first enabled one where none has it.
pub open spec fn is_screen(monitors: Seq<Monitor>, i: int) -> bool {
    &&& is_enabled_at(monitors, i)
    &&& if monitors[i].focused {
        forall|j: int| 0 <= j < i && #[trigger] is_enabled_at(monitors, j) ==> !monitors[j].focused
    } else {
        &&& forall|j: int| #[trigger] is_enabled_at(monitors, j) ==> !monitors[j].focused
        &&& forall|j: int| #[trigger] is_enabled_at(monitors, j) ==> i <= j
    }
}

/// The logical size, the bits of the scale, the place and the name of the
/// monitor that stands for the screen.
pub fn screen_size(monitors: &[Monitor]) -> (r: Result<
    (u32, u32, u64, i32, i32, String),
    HyprError,
>)
    ensures
        match r {
            Ok(size) => exists|i: int| #[trigger]
                is_screen(monitors@, i) && size == (
                    monitors@[i].logical_width,
                    monitors@[i].logical_height,
                    monitors@[i].scale_bits,
                    monitors@[i].x,
                    monitors@[i].y,
                    monitors@[i].name,
                ),
            Err(error) => error == HyprError::NoEnabledMonitors && forall|i: int|
                !#[trigger] is_enabled_at(monitors@, i),
        },
{
    let mut first: Option<usize> = None;
    let mut i: usize = 0;
    while i < monitors.len()
        invariant
            i <= monitors.len(),
            match first {
                Some(k) => {
                    &&& k < i
                    &&& is_enabled_at(monitors@, k as int)
                    &&& forall|j: int|
                        0 <= j < i && #[trigger] is_enabled_at(monitors@, j) ==> k <= j
                },
                None => forall|j: int| 0 <= j < i ==> !#[trigger] is_enabled_at(monitors@, j),
            },
            forall|j: int|
                0 <= j < i && #[trigger] is_enabled_at(monitors@, j) ==> !monitors@[j].focused,
        decreases monitors.len() - i,
    {
        let monitor = &monitors[i];
        if !monitor.disabled {
            assert(is_enabled_at(monitors@, i as int));
            if monitor.focused {
                assert(is_screen(monitors@, i as int));
                return Ok(size_of_monitor(monitor));
            }
            if first.is_none() {
                first = Some(i);
            }
        }
        i = i + 1;
    }
    match first {
        Some(k) => {
            assert(is_screen(monitors@, k as int));
            Ok(size_of_monitor(&monitors[k]))
        },
        None => Err(HyprError::NoEnabledMonitors),
    }
}

fn size_of_monitor(monitor: &Monitor) -> (r: (u32, u32, u64, i32, i32, String))
    ensures
        r == (
            monitor.logical_width,
            monitor.logical_height,
            monitor.scale_bits,
            monitor.x,
            monitor.y,
            monitor.name,
        ),
{
    (
        monitor.logical_width,
        monitor.logical_height,
        monitor.scale_bits,
        monitor.x,
        monitor.y,
        monitor.name.clone(),
    )
}

} // verus!
