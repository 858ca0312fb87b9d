//! What holds of monitors, points and captures, said of their coordinates.

use vstd::prelude::*;

use crate::capture::{
    is_captured_at, is_drag_between, is_inside, is_shown_at, is_targeted_at, middle, moved, sides,
    ScreenTarget,
};
use crate::desktop::{
    bottom_of, is_capture_space, is_enabled_at, is_greatest, is_screen, left_of, right_of,
    scale_of, span_fits, top_of, DesktopCaptureSpace,
};
use crate::error::HyprError;
use crate::identity::Client;
use crate::monitors::{
    at_least_one, capture_scale, has_largest_scale, is_first_at, is_place_on, monitor_at, pixel_near, saturated,
    Monitor, PointerTarget, UNIT_SCALE_BITS,
};
use crate::window_laws::law_the_desktop_holds_its_monitors;

verus! {

/// Whether a pixel of the desktop lies in the rectangle of a monitor.
pub open spec fn in_monitor(monitor: Monitor, x: int, y: int) -> bool {
    &&& monitor.x <= x < monitor.x + monitor.logical_width
    &&& monitor.y <= y < monitor.y + monitor.logical_height
}

/// Whether a pixel of the desktop lies in the rectangle of a window, whose
/// sides count as one pixel at least.
pub open spec fn in_window(client: Client, x: int, y: int) -> bool {
    &&& client.at[0] <= x
    &&& x < client.at[0] + client.size[0] || x == client.at[0]
    &&& client.at[1] <= y
    &&& y < client.at[1] + client.size[1] || y == client.at[1]
}

/// Whether the rectangle of a monitor has pixels, and ends within 32 bits.
pub open spec fn monitor_fits(monitor: Monitor) -> bool {
    &&& 1 <= monitor.logical_width
    &&& 1 <= monitor.logical_height
    &&& monitor.logical_width <= i32::MAX
    &&& monitor.logical_height <= i32::MAX
    &&& monitor.x + monitor.logical_width <= i32::MAX
    &&& monitor.y + monitor.logical_height <= i32::MAX
}

/// Whether all monitors have rectangles that fit.
pub open spec fn monitors_fit(monitors: Seq<Monitor>) -> bool {
    forall|i: int| 0 <= i < monitors.len() ==> monitor_fits(#[trigger] monitors[i])
}

/// Whether the rectangle of a window ends within 32 bits.
pub open spec fn window_fits(client: Client) -> bool {
    &&& client.at[0] + client.size[0] <= i32::MAX
    &&& client.at[1] + client.size[1] <= i32::MAX
    &&& client.at[0] < i32::MAX
    &&& client.at[1] < i32::MAX
}

proof fn lemma_first_at_exists(monitors: Seq<Monitor>, x: int, y: int, n: int)
    requires
        0 <= n < monitors.len(),
        monitors[n].shows_pixel(x, y),
    ensures
        exists|i: int| is_first_at(monitors, x, y, i),
    decreases n,
{
    if exists|j: int| 0 <= j < n && (#[trigger] monitors[j]).shows_pixel(x, y) {
        let j = choose|j: int| 0 <= j < n && (#[trigger] monitors[j]).shows_pixel(x, y);
        lemma_first_at_exists(monitors, x, y, j);
    } else {
        assert(is_first_at(monitors, x, y, n));
    }
}

/// A point is found on a monitor exactly where an enabled monitor has it in
/// its rectangle, and then on the first such monitor. A point with a
/// coordinate that is no number is found on none.
pub proof fn law_a_point_is_found_in_the_rectangle_of_its_monitor(
    monitors: Seq<Monitor>,
    x: i64,
    y: i64,
)
    requires
        monitors_fit(monitors),
    ensures
        match monitor_at(monitors, Some(x), Some(y)) {
            Some(i) => {
                &&& 0 <= i < monitors.len()
                &&& !monitors[i].disabled
                &&& monitors[i].x <= x < monitors[i].x + monitors[i].logical_width
                &&& monitors[i].y <= y < monitors[i].y + monitors[i].logical_height
                &&& forall|j: int|
                    0 <= j < i && !(#[trigger] monitors[j]).disabled ==> !in_monitor(
                        monitors[j],
                        x as int,
                        y as int,
                    )
            },
            None => forall|j: int|
                0 <= j < monitors.len() && !(#[trigger] monitors[j]).disabled ==> !in_monitor(
                    monitors[j],
                    x as int,
                    y as int,
                ),
        },
        monitor_at(monitors, None, Some(y)) is None,
        monitor_at(monitors, Some(x), None) is None,
        monitor_at(monitors, None, None) is None,
{
    assert forall|j: int| 0 <= j < monitors.len() implies (#[trigger] monitors[j]).shows_pixel(
        x as int,
        y as int,
    ) == (!monitors[j].disabled && in_monitor(monitors[j], x as int, y as int)) by {
        assert(monitor_fits(monitors[j]));
    }
    match monitor_at(monitors, Some(x), Some(y)) {
        Some(i) => {
            assert(is_first_at(monitors, x as int, y as int, i));
        },
        None => {
            assert forall|j: int|
                0 <= j < monitors.len() && !(#[trigger] monitors[j]).disabled implies !in_monitor(
                monitors[j],
                x as int,
                y as int,
            ) by {
                if in_monitor(monitors[j], x as int, y as int) {
                    lemma_first_at_exists(monitors, x as int, y as int, j);
                }
            }
        },
    }
}

/// A monitor beyond the reach of 32 bits ends at their largest number, and one
/// that is disabled shows nothing.
pub proof fn law_far_monitors_end_with_the_numbers(monitor: Monitor, x: int, y: int)
    requires
        monitor.logical_width <= i32::MAX,
        monitor.logical_height <= i32::MAX,
    ensures
        monitor.x + monitor.logical_width > i32::MAX ==> monitor.right() == i32::MAX,
        monitor.y + monitor.logical_height > i32::MAX ==> monitor.bottom() == i32::MAX,
        monitor.x + monitor.logical_width <= i32::MAX ==> monitor.right() == monitor.x
            + monitor.logical_width,
        monitor.y + monitor.logical_height <= i32::MAX ==> monitor.bottom() == monitor.y
            + monitor.logical_height,
        monitor.disabled ==> !monitor.shows_pixel(x, y),
{
}

proof fn lemma_shows_part_of(client: Client, monitor: Monitor)
    requires
        monitor_fits(monitor),
        window_fits(client),
    ensures
        monitor.shows_part_of(client) <==> !monitor.disabled && exists|x: int, y: int|
            #![trigger in_window(client, x, y)]
            #![trigger in_monitor(monitor, x, y)]
            in_window(client, x, y) && in_monitor(monitor, x, y),
{
    let px: int = if client.at[0] < monitor.x {
        monitor.x as int
    } else {
        client.at[0] as int
    };
    let py: int = if client.at[1] < monitor.y {
        monitor.y as int
    } else {
        client.at[1] as int
    };
    if monitor.shows_part_of(client) {
        assert(in_window(client, px, py) && in_monitor(monitor, px, py));
    }
}

proof fn lemma_largest_scale_upto(client: Client, monitors: Seq<Monitor>, n: int) -> (k: int)
    requires
        0 <= n <= monitors.len(),
        exists|i: int| 0 <= i < n && (#[trigger] monitors[i]).shows_part_of(client),
    ensures
        0 <= k < n,
        monitors[k].shows_part_of(client),
        forall|j: int|
            0 <= j < n && (#[trigger] monitors[j]).shows_part_of(client) ==> monitors[j].scale_bits
                <= monitors[k].scale_bits,
    decreases n,
{
    let last = n - 1;
    if exists|i: int| 0 <= i < last && (#[trigger] monitors[i]).shows_part_of(client) {
        let k = lemma_largest_scale_upto(client, monitors, last);
        if monitors[last].shows_part_of(client) && monitors[last].scale_bits
            > monitors[k].scale_bits {
            last
        } else {
            k
        }
    } else {
        last
    }
}

/// A window is captured at a scale of one where no enabled monitor shares a
/// pixel with it; else at the scale of an enabled monitor that shares a pixel
/// with it, and at none smaller than that of any other such monitor.
pub proof fn law_the_capture_scale_is_of_monitors_that_share_a_pixel(
    client: Client,
    monitors: Seq<Monitor>,
)
    requires
        monitors_fit(monitors),
        window_fits(client),
    ensures
        forall|i: int, x: int, y: int|
            0 <= i < monitors.len() && !monitors[i].disabled && in_window(client, x, y)
                && #[trigger] in_monitor(monitors[i], x, y) ==> monitors[i].scale_bits
                <= capture_scale(client, monitors),
        (exists|i: int, x: int, y: int|
            0 <= i < monitors.len() && !monitors[i].disabled && in_window(client, x, y)
                && #[trigger] in_monitor(monitors[i], x, y) && monitors[i].scale_bits
                == capture_scale(client, monitors)) || (capture_scale(client, monitors)
            == UNIT_SCALE_BITS && forall|i: int, x: int, y: int|
            0 <= i < monitors.len() && !monitors[i].disabled && #[trigger] in_monitor(
                monitors[i],
                x,
                y,
            ) ==> !in_window(client, x, y)),
        UNIT_SCALE_BITS == 0x3ff0_0000_0000_0000,
{
    assert forall|i: int| 0 <= i < monitors.len() implies (#[trigger] monitors[i]).shows_part_of(
        client,
    ) == (!monitors[i].disabled && exists|x: int, y: int|
        #![trigger in_window(client, x, y)]
        #![trigger in_monitor(monitors[i], x, y)]
        in_window(client, x, y) && in_monitor(monitors[i], x, y)) by {
        assert(monitor_fits(monitors[i]));
        lemma_shows_part_of(client, monitors[i]);
    }
    if exists|i: int| 0 <= i < monitors.len() && (#[trigger] monitors[i]).shows_part_of(client) {
        let k = lemma_largest_scale_upto(client, monitors, monitors.len() as int);
        assert(has_largest_scale(client, monitors, k));
        let c = choose|i: int| has_largest_scale(client, monitors, i);
        assert(has_largest_scale(client, monitors, c));
        assert(capture_scale(client, monitors) == monitors[c].scale_bits);
        let (x, y) = choose|x: int, y: int| #[trigger]
            in_window(client, x, y) && in_monitor(monitors[c], x, y);
        assert(in_monitor(monitors[c], x, y));
        assert forall|i: int, x: int, y: int|
            0 <= i < monitors.len() && !monitors[i].disabled && in_window(client, x, y)
                && #[trigger] in_monitor(monitors[i], x, y) implies monitors[i].scale_bits
            <= capture_scale(client, monitors) by {
            assert(monitors[i].shows_part_of(client));
        }
    } else {
        assert forall|i: int, x: int, y: int|
            0 <= i < monitors.len() && !monitors[i].disabled && #[trigger] in_monitor(
                monitors[i],
                x,
                y,
            ) implies !in_window(client, x, y) by {
            assert(!monitors[i].shows_part_of(client));
        }
    }
}

/// A quarter turn swaps the sides of a monitor's image, a half turn does not,
/// and an unturned monitor has the sides of its mode.
pub proof fn law_a_quarter_turn_swaps_the_sides(first: Monitor, second: Monitor)
    requires
        first.width == second.width,
        first.height == second.height,
    ensures
        first.transform == 0 ==> first.physical_size() == (first.width, first.height),
        first.transform + 1 == second.transform ==> second.physical_size() == (
            first.physical_size().1,
            first.physical_size().0,
        ),
        first.transform + 2 == second.transform ==> second.physical_size()
            == first.physical_size(),
{
}

/// The pixel that is taken for a place is one of the side, and no other pixel
/// of the side is nearer.
pub proof fn law_no_other_pixel_is_nearer(n: int, length: u32, other: u32)
    requires
        other < length,
    ensures
        pixel_near(n, length) < length,
        n <= other ==> n <= pixel_near(n, length) <= other || (n < 0 && pixel_near(n, length) == 0),
        other <= n ==> other <= pixel_near(n, length) <= n,
        pixel_near(n, 0) == 0,
{
}

/// A pointer goes to the output of its monitor, within the sides of the image
/// that it shows, at the pixel nearest to the place that was computed.
pub proof fn law_a_target_is_the_nearest_pixel_of_its_monitor(
    target: PointerTarget,
    monitor: Monitor,
    scaled: (i64, i64),
    turned: bool,
)
    requires
        is_place_on(target, monitor, scaled),
        turned == (monitor.transform as int % 2 == 1),
        monitor.width > 0,
        monitor.height > 0,
    ensures
        target.output_name@ == monitor.name@,
        target.output_width == (if turned {
            monitor.height
        } else {
            monitor.width
        }),
        target.output_height == (if turned {
            monitor.width
        } else {
            monitor.height
        }),
        0 <= scaled.0 < target.output_width ==> target.output_x == scaled.0,
        0 <= scaled.1 < target.output_height ==> target.output_y == scaled.1,
        scaled.0 < 0 ==> target.output_x == 0,
        scaled.1 < 0 ==> target.output_y == 0,
        scaled.0 >= target.output_width ==> target.output_x == target.output_width - 1,
        scaled.1 >= target.output_height ==> target.output_y == target.output_height - 1,
{
}

/// A point of a window's capture is accepted exactly where it lies inside the
/// size of the capture, right and bottom edge not counted; it then leads to
/// the window's corner and the offset on from there. Else it is refused, with
/// the point and the size.
pub proof fn law_a_capture_point_lies_in_its_bounds<E, U>(
    client: Client,
    monitors: Seq<Monitor>,
    extent: &E,
    unscale: &U,
    point: (i32, i32),
    r: Result<(i32, i32), HyprError>,
) where E: Fn((i32, i32), u64) -> (u32, u32), U: Fn((i32, i32), u64) -> (i32, i32)
    requires
        is_captured_at(client, monitors, extent, unscale, point, r),
        client.size[0] >= 1,
        client.size[1] >= 1,
    ensures
        ({
            let size_of_window = (client.size[0], client.size[1]);
            let bits = capture_scale(client, monitors);
            exists|size: (u32, u32)| #[trigger]
                call_ensures(extent, (size_of_window, bits), size) && match r {
                    Ok(place) => {
                        &&& 0 <= point.0 < size.0
                        &&& 0 <= point.1 < size.1
                        &&& exists|offset: (i32, i32)| #[trigger]
                            call_ensures(unscale, (point, bits), offset) && (i32::MIN
                                <= client.at[0] + offset.0 <= i32::MAX ==> place.0 == client.at[0]
                                + offset.0) && (i32::MIN <= client.at[1] + offset.1 <= i32::MAX
                                ==> place.1 == client.at[1] + offset.1)
                    },
                    Err(error) => {
                        &&& !(0 <= point.0 < size.0) || !(0 <= point.1 < size.1)
                        &&& error == (HyprError::CapturePointOutside {
                            x: point.0,
                            y: point.1,
                            width: size.0,
                            height: size.1,
                        })
                    },
                }
        }),
{
    let bits = capture_scale(client, monitors);
    let size = choose|size: (u32, u32)| #[trigger]
        call_ensures(extent, (sides(client), bits), size) && (
        if is_inside(point, size) {
            r matches Ok(place) && exists|offset: (i32, i32)| #[trigger]
                call_ensures(unscale, (point, bits), offset) && place == moved(
                    client,
                    offset,
                )
        } else {
            r == Err::<(i32, i32), HyprError>(
                HyprError::CapturePointOutside {
                    x: point.0,
                    y: point.1,
                    width: size.0,
                    height: size.1,
                },
            )
        });
    assert(call_ensures(extent, ((client.size[0], client.size[1]), bits), size));
}

/// A window without an extent on an axis is captured as one with a side of one
/// pixel there.
pub proof fn law_an_empty_window_is_captured_as_one_pixel<E, U>(
    client: Client,
    monitors: Seq<Monitor>,
    extent: &E,
    unscale: &U,
    point: (i32, i32),
    r: Result<(i32, i32), HyprError>,
) where E: Fn((i32, i32), u64) -> (u32, u32), U: Fn((i32, i32), u64) -> (i32, i32)
    requires
        is_captured_at(client, monitors, extent, unscale, point, r),
        client.size[0] < 1,
        client.size[1] < 1,
    ensures
        exists|size: (u32, u32)| #[trigger]
            call_ensures(extent, ((1i32, 1i32), capture_scale(client, monitors)), size),
{
    let size = choose|size: (u32, u32)| #[trigger]
        call_ensures(
            extent,
            (sides(client), capture_scale(client, monitors)),
            size,
        );
    assert(call_ensures(extent, ((1i32, 1i32), capture_scale(client, monitors)), size));
}

/// Each end of a drag is found as it would be found alone, and a drag that is
/// refused is refused as one of its ends would be.
pub proof fn law_a_drag_is_two_points<E, U, S>(
    client: Client,
    monitors: Seq<Monitor>,
    extent: &E,
    unscale: &U,
    scale: &S,
    from: (i32, i32),
    to: (i32, i32),
    r: Result<(ScreenTarget, ScreenTarget), HyprError>,
) where
    E: Fn((i32, i32), u64) -> (u32, u32),
    U: Fn((i32, i32), u64) -> (i32, i32),
    S: Fn(&Monitor, (i32, i32)) -> (i64, i64),

    requires
        is_drag_between(client, monitors, extent, unscale, scale, from, to, r),
    ensures
        match r {
            Ok(targets) => {
                &&& is_targeted_at(client, monitors, extent, unscale, scale, from, Ok(targets.0))
                &&& is_targeted_at(client, monitors, extent, unscale, scale, to, Ok(targets.1))
            },
            Err(error) => {
                ||| is_targeted_at(client, monitors, extent, unscale, scale, from, Err(error))
                ||| is_targeted_at(client, monitors, extent, unscale, scale, to, Err(error))
            },
        },
{
}

/// A point that was accepted gets the pixel of the first enabled monitor whose
/// rectangle has its place of the desktop, which is named with the pixel; and
/// is refused where no enabled monitor has it.
pub proof fn law_a_place_is_shown_by_the_monitor_that_has_it<S>(
    monitors: Seq<Monitor>,
    scale: &S,
    place: (i32, i32),
    r: Result<ScreenTarget, HyprError>,
) where S: Fn(&Monitor, (i32, i32)) -> (i64, i64)
    requires
        is_shown_at(monitors, scale, place, r),
        monitors_fit(monitors),
    ensures
        match r {
            Ok(shown) => shown.screen_x == place.0 && shown.screen_y == place.1 && exists|i: int|
                0 <= i < monitors.len() && !(#[trigger] monitors[i]).disabled && in_monitor(
                    monitors[i],
                    place.0 as int,
                    place.1 as int,
                ) && shown.target.output_name@ == monitors[i].name@ && forall|j: int|
                    0 <= j < i && !(#[trigger] monitors[j]).disabled ==> !in_monitor(
                        monitors[j],
                        place.0 as int,
                        place.1 as int,
                    ),
            Err(error) => error is OutsideEveryOutput && forall|j: int|
                0 <= j < monitors.len() && !(#[trigger] monitors[j]).disabled ==> !in_monitor(
                    monitors[j],
                    place.0 as int,
                    place.1 as int,
                ),
        },
{
    law_a_point_is_found_in_the_rectangle_of_its_monitor(
        monitors,
        place.0 as i64,
        place.1 as i64,
    );
    if let Ok(shown) = r {
        let i = monitor_at(monitors, Some(place.0 as i64), Some(place.1 as i64))->0;
        assert(monitors[i].name@ == shown.target.output_name@);
    }
}

/// The middle of a window lies as far from its beginning as from its end, but
/// for the half pixel that rounding down takes off.
pub proof fn law_the_middle_is_in_the_middle(at: i32, size: i32)
    ensures
        size >= 1 ==> 2 * (middle(at, size) - at) <= size <= 2 * (middle(at, size) - at) + 1,
        size < 1 ==> middle(at, size) == at,
{
}

/// A sum that fits into 32 bits stands for itself; one that does not is the
/// end of the numbers on its side.
pub proof fn law_sums_end_with_the_numbers(n: int)
    ensures
        -0x8000_0000 <= n <= 0x7fff_ffff ==> saturated(n) == n,
        n < -0x8000_0000 ==> saturated(n) == -0x8000_0000,
        n > 0x7fff_ffff ==> saturated(n) == 0x7fff_ffff,
{
}

/// The desktop begins where no enabled monitor begins further left or further
/// up, and one begins just there; it ends where no enabled monitor ends further
/// on, and one ends just there; and it has the largest scale of any.
pub proof fn law_the_desktop_is_the_hull_of_its_monitors(
    monitors: Seq<Monitor>,
    space: DesktopCaptureSpace,
)
    requires
        monitors_fit(monitors),
        span_fits(monitors),
        is_capture_space(monitors, space),
    ensures
        forall|i: int|
            0 <= i < monitors.len() && !(#[trigger] monitors[i]).disabled ==> space.origin_x
                <= monitors[i].x && space.origin_y <= monitors[i].y && monitors[i].x
                + monitors[i].logical_width <= space.origin_x + space.extent_x && monitors[i].y
                + monitors[i].logical_height <= space.origin_y + space.extent_y
                && monitors[i].scale_bits <= space.scale_bits,
        exists|i: int|
            0 <= i < monitors.len() && !(#[trigger] monitors[i]).disabled && monitors[i].x
                == space.origin_x,
        exists|i: int|
            0 <= i < monitors.len() && !(#[trigger] monitors[i]).disabled && monitors[i].y
                == space.origin_y,
        exists|i: int|
            0 <= i < monitors.len() && !(#[trigger] monitors[i]).disabled && monitors[i].x
                + monitors[i].logical_width == space.origin_x + space.extent_x,
        exists|i: int|
            0 <= i < monitors.len() && !(#[trigger] monitors[i]).disabled && monitors[i].y
                + monitors[i].logical_height == space.origin_y + space.extent_y,
        exists|i: int|
            0 <= i < monitors.len() && !(#[trigger] monitors[i]).disabled
                && monitors[i].scale_bits == space.scale_bits,
{
    assert forall|i: int| 0 <= i < monitors.len() && !(#[trigger] monitors[i]).disabled implies
        space.origin_x <= monitors[i].x && space.origin_y <= monitors[i].y && monitors[i].x
        + monitors[i].logical_width <= space.origin_x + space.extent_x && monitors[i].y
        + monitors[i].logical_height <= space.origin_y + space.extent_y && monitors[i].scale_bits
        <= space.scale_bits by {
        assert(monitor_fits(monitors[i]));
        law_the_desktop_holds_its_monitors(monitors, space, space, i);
    }
    let l = choose|i: int| #[trigger]
        is_enabled_at(monitors, i) && left_of()(monitors[i]) == space.origin_x;
    let t = choose|i: int| #[trigger]
        is_enabled_at(monitors, i) && top_of()(monitors[i]) == space.origin_y;
    let s = choose|i: int| #[trigger]
        is_enabled_at(monitors, i) && scale_of()(monitors[i]) == space.scale_bits;
    assert(monitors[l].x == space.origin_x && monitors[t].y == space.origin_y);
    assert(monitors[s].scale_bits == space.scale_bits);
    let right = choose|right: int| #[trigger]
        is_greatest(monitors, right_of(), right) && space.extent_x == at_least_one(
            (right - space.origin_x) as i32,
        );
    let bottom = choose|bottom: int| #[trigger]
        is_greatest(monitors, bottom_of(), bottom) && space.extent_y == at_least_one(
            (bottom - space.origin_y) as i32,
        );
    let r = choose|i: int| #[trigger]
        is_enabled_at(monitors, i) && right_of()(monitors[i]) == right;
    let b = choose|i: int| #[trigger]
        is_enabled_at(monitors, i) && bottom_of()(monitors[i]) == bottom;
    assert(monitor_fits(monitors[r]) && monitor_fits(monitors[b]));
    assert(monitors[r].right() - monitors[l].x <= i32::MAX);
    assert(monitors[b].bottom() - monitors[t].y <= i32::MAX);
    assert(monitors[r].x + monitors[r].logical_width == space.origin_x + space.extent_x);
    assert(monitors[b].y + monitors[b].logical_height == space.origin_y + space.extent_y);
}

/// The screen is an enabled monitor: the first that has the focus where an
/// enabled one has it, else the first that is enabled.
pub proof fn law_the_screen_has_the_focus_or_is_the_first(monitors: Seq<Monitor>, i: int, j: int)
    requires
        is_screen(monitors, i),
        0 <= j < monitors.len(),
        !monitors[j].disabled,
    ensures
        0 <= i < monitors.len(),
        !monitors[i].disabled,
        monitors[j].focused ==> monitors[i].focused && i <= j,
        !monitors[i].focused ==> i <= j,
{
    assert(is_enabled_at(monitors, j));
}

/// A point of a capture gets no target only for one of two reasons: it lies
/// outside the capture, and is named with it, or its place lies on no output.
pub proof fn law_a_target_is_refused_for_a_reason<E, U, S>(
    client: Client,
    monitors: Seq<Monitor>,
    extent: &E,
    unscale: &U,
    scale: &S,
    point: (i32, i32),
    error: HyprError,
) where
    E: Fn((i32, i32), u64) -> (u32, u32),
    U: Fn((i32, i32), u64) -> (i32, i32),
    S: Fn(&Monitor, (i32, i32)) -> (i64, i64),

    requires
        is_targeted_at(client, monitors, extent, unscale, scale, point, Err(error)),
    ensures
        match error {
            HyprError::CapturePointOutside { x, y, width, height } => {
                &&& x == point.0 && y == point.1
                &&& x < 0 || y < 0 || x >= width || y >= height
            },
            HyprError::OutsideEveryOutput { point: said } => exists|place: (i32, i32)|
                monitor_at(monitors, Some(place.0 as i64), Some(place.1 as i64)) is None
                    && #[trigger] is_captured_at(
                    client,
                    monitors,
                    extent,
                    unscale,
                    point,
                    Ok(place),
                ),
            _ => false,
        },
{
    let place = choose|place: Result<(i32, i32), HyprError>| #[trigger]
        is_captured_at(client, monitors, extent, unscale, point, place) && match place {
            Ok(place) => is_shown_at(monitors, scale, place, Err(error)),
            Err(refusal) => Err::<ScreenTarget, HyprError>(error) == Err::<
                ScreenTarget,
                HyprError,
            >(refusal),
        };
    if let Ok(at) = place {
        assert(is_captured_at(client, monitors, extent, unscale, point, Ok(at)));
    }
}

/// The desktop has a size of 32 bits exactly where no enabled monitor ends
/// further from where another one begins than 32 bits can say.
pub proof fn law_a_desktop_spans_what_its_monitors_do(monitors: Seq<Monitor>)
    requires
        monitors_fit(monitors),
    ensures
        span_fits(monitors) <==> forall|i: int, j: int|
            #![trigger monitors[i], monitors[j]]
            0 <= i < monitors.len() && 0 <= j < monitors.len() && !monitors[i].disabled
                && !monitors[j].disabled ==> monitors[j].x + monitors[j].logical_width
                - monitors[i].x <= 0x7fff_ffff && monitors[j].y + monitors[j].logical_height
                - monitors[i].y <= 0x7fff_ffff,
{
    assert forall|i: int, j: int|
        #![trigger monitors[i], monitors[j]]
        span_fits(monitors) && 0 <= i < monitors.len() && 0 <= j < monitors.len()
            && !monitors[i].disabled && !monitors[j].disabled implies monitors[j].x
        + monitors[j].logical_width - monitors[i].x <= 0x7fff_ffff && monitors[j].y
        + monitors[j].logical_height - monitors[i].y <= 0x7fff_ffff by {
        assert(monitor_fits(monitors[i]) && monitor_fits(monitors[j]));
        assert(is_enabled_at(monitors, i) && is_enabled_at(monitors, j));
    }
    assert forall|i: int| 0 <= i < monitors.len() implies monitor_fits(#[trigger] monitors[i]) by {}
}

/// A logical length that 32 bits with a sign cannot hold is taken as the number
/// with the same bits, which is negative.
pub proof fn law_lengths_beyond_the_numbers_wrap(monitor: Monitor)
    ensures
        monitor.logical_width > 0x7fff_ffff && monitor.x + monitor.logical_width - 0x1_0000_0000
            >= -0x8000_0000 ==> monitor.right() == monitor.x + monitor.logical_width
            - 0x1_0000_0000,
        monitor.logical_height > 0x7fff_ffff && monitor.y + monitor.logical_height - 0x1_0000_0000
            >= -0x8000_0000 ==> monitor.bottom() == monitor.y + monitor.logical_height
            - 0x1_0000_0000,
{
}

} // verus!
