//! Points of a window's or the desktop's capture as places of the desktop.
//!
//! A capture is an image in the pixels of an output, the desktop is laid out
//! in logical pixels, and a scale leads from one to the other. The scale is a
//! floating-point number, so callers hand in the arithmetic on it; which scale
//! it is applied to, and what becomes of the result, is decided here.

use vstd::prelude::*;
use vstd::string::*;

use crate::error::HyprError;
use crate::identity::Client;
use crate::lookup::{visible_client_behind, visible_client_for_window};
use crate::monitors::{
    at_least_one, capture_scale, capture_scale_for_client, is_place_on, monitor_at, one_or_more,
    pointer_target_for, saturated, saturating_sum, Monitor, PointerTarget,
};
use crate::registry::{can_sync, is_sound, synced, IdRegistry};
use crate::text::{point_reading, point_text};
use crate::windows::Snapshot;

verus! {

/// The sides of a window, each at least one.
pub open spec fn sides(client: Client) -> (i32, i32) {
    (at_least_one(client.size[0]), at_least_one(client.size[1]))
}

fn sides_of(client: &Client) -> (r: (i32, i32))
    ensures
        r == sides(*client),
{
    (one_or_more(client.size[0]), one_or_more(client.size[1]))
}

/// Whether a point lies in an image of this size.
pub open spec fn is_inside(point: (i32, i32), size: (u32, u32)) -> bool {
    0 <= point.0 < size.0 && 0 <= point.1 < size.1
}

/// The size of the capture of a window. `extent` gives the size of the capture
/// of a window with these sides at a scale.
pub fn window_capture_extent_for<E>(client: &Client, monitors: &[Monitor], extent: &E) -> (r: (
    u32,
    u32,
)) where E: Fn((i32, i32), u64) -> (u32, u32)
    requires
        call_requires(extent, (sides(*client), capture_scale(*client, monitors@))),
    ensures
        call_ensures(extent, (sides(*client), capture_scale(*client, monitors@)), r),
{
    let scale = capture_scale_for_client(client, monitors);
    extent(sides_of(client), scale)
}

/// Refuses a point that lies outside the capture of its window.
pub fn validate_window_capture_point_for<E>(
    client: &Client,
    monitors: &[Monitor],
    extent: &E,
    capture_x: i32,
    capture_y: i32,
) -> (r: Result<(), HyprError>) where E: Fn((i32, i32), u64) -> (u32, u32)
    requires
        call_requires(extent, (sides(*client), capture_scale(*client, monitors@))),
    ensures
        exists|size: (u32, u32)| #[trigger]
            call_ensures(extent, (sides(*client), capture_scale(*client, monitors@)), size) && r
                == (if is_inside((capture_x, capture_y), size) {
                Ok::<(), HyprError>(())
            } else {
                Err(
                    HyprError::CapturePointOutside {
                        x: capture_x,
                        y: capture_y,
                        width: size.0,
                        height: size.1,
                    },
                )
            }),
{
    let (width, height) = window_capture_extent_for(client, monitors, extent);
    if capture_x >= 0 && capture_y >= 0 && (capture_x as u32) < width && (capture_y as u32)
        < height {
        Ok(())
    } else {
        Err(HyprError::CapturePointOutside { x: capture_x, y: capture_y, width, height })
    }
}

/// The place `offset` of a window, as a place of the desktop.
pub open spec fn moved(client: Client, offset: (i32, i32)) -> (i32, i32) {
    (saturated(client.at[0] + offset.0), saturated(client.at[1] + offset.1))
}

/// The place of the desktop that a point of a window's capture shows.
/// `unscale` gives the place in the window that a point of its capture at a
/// scale shows.
pub fn window_capture_to_screen_for<U>(
    client: &Client,
    monitors: &[Monitor],
    unscale: &U,
    capture_x: i32,
    capture_y: i32,
) -> (r: (i32, i32)) where U: Fn((i32, i32), u64) -> (i32, i32)
    requires
        call_requires(unscale, ((capture_x, capture_y), capture_scale(*client, monitors@))),
    ensures
        exists|offset: (i32, i32)| #[trigger]
            call_ensures(
                unscale,
                ((capture_x, capture_y), capture_scale(*client, monitors@)),
                offset,
            ) && r == moved(*client, offset),
{
    let scale = capture_scale_for_client(client, monitors);
    let offset = unscale((capture_x, capture_y), scale);
    (saturating_sum(client.at[0], offset.0), saturating_sum(client.at[1], offset.1))
}

/// Whether `r` answers where the point of a window's capture lies on the
/// desktop, or that it lies outside the capture.
pub open spec fn is_captured_at<E, U>(
    client: Client,
    monitors: Seq<Monitor>,
    extent: &E,
    unscale: &U,
    point: (i32, i32),
    r: Result<(i32, i32), HyprError>,
) -> bool where E: Fn((i32, i32), u64) -> (u32, u32), U: Fn((i32, i32), u64) -> (i32, i32) {
    exists|size: (u32, u32)| #[trigger]
        call_ensures(extent, (sides(client), capture_scale(client, monitors)), size) && (
        if is_inside(point, size) {
            r matches Ok(place) && exists|offset: (i32, i32)| #[trigger]
                call_ensures(unscale, (point, capture_scale(client, monitors)), offset) && place
                    == moved(client, offset)
        } else {
            r == Err::<(i32, i32), HyprError>(
                HyprError::CapturePointOutside {
                    x: point.0,
                    y: point.1,
                    width: size.0,
                    height: size.1,
                },
            )
        })
}

fn capture_to_screen<E, U>(
    client: &Client,
    monitors: &[Monitor],
    extent: &E,
    unscale: &U,
    point: (i32, i32),
) -> (r: Result<(i32, i32), HyprError>) where
    E: Fn((i32, i32), u64) -> (u32, u32),
    U: Fn((i32, i32), u64) -> (i32, i32),

    requires
        call_requires(extent, (sides(*client), capture_scale(*client, monitors@))),
        call_requires(unscale, (point, capture_scale(*client, monitors@))),
    ensures
        is_captured_at(*client, monitors@, extent, unscale, point, r),
{
    match validate_window_capture_point_for(client, monitors, extent, point.0, point.1) {
        Ok(()) => Ok(window_capture_to_screen_for(client, monitors, unscale, point.0, point.1)),
        Err(error) => Err(error),
    }
}

/// The place of the desktop that a point of the capture of the window shows
/// that `window_id` stands for.
pub fn window_capture_to_screen<E, U>(
    registry: &mut IdRegistry,
    snapshot: &Snapshot,
    window_id: u64,
    extent: &E,
    unscale: &U,
    capture_x: i32,
    capture_y: i32,
) -> (r: Result<(i32, i32), HyprError>) where
    E: Fn((i32, i32), u64) -> (u32, u32),
    U: Fn((i32, i32), u64) -> (i32, i32),

    requires
        is_sound(old(registry)@),
        can_sync(old(registry)@, snapshot.clients@),
        forall|s: (i32, i32), scale: u64| #[trigger] call_requires(extent, (s, scale)),
        forall|p: (i32, i32), scale: u64| #[trigger] call_requires(unscale, (p, scale)),
    ensures
        is_sound(final(registry)@),
        final(registry)@ == synced(old(registry)@, snapshot.clients@),
        match visible_client_behind(final(registry)@, *snapshot, window_id) {
            Ok(client) => is_captured_at(
                client,
                snapshot.monitors@,
                extent,
                unscale,
                (capture_x, capture_y),
                r,
            ),
            Err(error) => r == Err::<(i32, i32), HyprError>(error),
        },
{
    match visible_client_for_window(registry, snapshot, window_id) {
        Ok(client) => capture_to_screen(
            client,
            snapshot.monitors.as_slice(),
            extent,
            unscale,
            (capture_x, capture_y),
        ),
        Err(error) => Err(error),
    }
}

/// A place on one output, and the place of the desktop that it shows.
#[derive(Debug, PartialEq, Eq)]
pub struct ScreenTarget {
    pub target: PointerTarget,
    pub screen_x: i32,
    pub screen_y: i32,
}

/// A place on one output, and the point of the desktop that it shows. The
/// coordinates of the point are doubled, for it may lie between two pixels.
#[derive(Debug, PartialEq, Eq)]
pub struct CenterTarget {
    pub target: PointerTarget,
    pub doubled_x: i64,
    pub doubled_y: i64,
}

/// Whether `r` answers which place of an output shows the place `point` of
/// the desktop, or that none does.
pub open spec fn is_shown_at<S>(
    monitors: Seq<Monitor>,
    scale: &S,
    point: (i32, i32),
    r: Result<ScreenTarget, HyprError>,
) -> bool where S: Fn(&Monitor, (i32, i32)) -> (i64, i64) {
    match monitor_at(monitors, Some(point.0 as i64), Some(point.1 as i64)) {
        Some(i) => 0 <= i < monitors.len() && (r matches Ok(shown) && (
            shown.screen_x,
            shown.screen_y,
        ) == point && exists|scaled: (i64, i64)| #[trigger]
            call_ensures(scale, (&monitors[i], point), scaled) && is_place_on(
                shown.target,
                monitors[i],
                scaled,
            )),
        None => r matches Err(HyprError::OutsideEveryOutput { point: said }) && said@
            == point_reading((2 * point.0, 2 * point.1)),
    }
}

fn target_at<S>(monitors: &[Monitor], scale: &S, point: (i32, i32)) -> (r: Result<
    ScreenTarget,
    HyprError,
>) where S: Fn(&Monitor, (i32, i32)) -> (i64, i64)
    requires
        forall|m: &Monitor, p: (i32, i32)| #[trigger] call_requires(scale, (m, p)),
    ensures
        is_shown_at(monitors@, scale, point, r),
{
    let on_monitor = |monitor: &Monitor| -> (scaled: (i64, i64))
        ensures
            call_ensures(scale, (monitor, point), scaled),
        { scale(monitor, point) };
    let said = point_text((2 * point.0 as i64, 2 * point.1 as i64));
    match pointer_target_for(
        monitors,
        Some(point.0 as i64),
        Some(point.1 as i64),
        said,
        on_monitor,
    ) {
        Ok(target) => Ok(ScreenTarget { target, screen_x: point.0, screen_y: point.1 }),
        Err(error) => Err(error),
    }
}

/// Whether `r` answers which place of an output shows a point of a window's
/// capture: the point lies in the capture, and its place of the desktop on an
/// output.
pub open spec fn is_targeted_at<E, U, S>(
    client: Client,
    monitors: Seq<Monitor>,
    extent: &E,
    unscale: &U,
    scale: &S,
    point: (i32, i32),
    r: Result<ScreenTarget, HyprError>,
) -> bool where
    E: Fn((i32, i32), u64) -> (u32, u32),
    U: Fn((i32, i32), u64) -> (i32, i32),
    S: Fn(&Monitor, (i32, i32)) -> (i64, i64),
 {
    exists|place: Result<(i32, i32), HyprError>| #[trigger]
        is_captured_at(client, monitors, extent, unscale, point, place) && match place {
            Ok(place) => is_shown_at(monitors, scale, place, r),
            Err(error) => r == Err::<ScreenTarget, HyprError>(error),
        }
}

/// The place of an output that shows a point of the capture of the window
/// that `window_id` stands for. What window it is, whether it shows, where it
/// lies, what its capture holds and which output shows the point is all taken
/// from one snapshot, so that a window that moves or shrinks in between cannot
/// turn the request into one on a neighbour.
pub fn window_capture_pointer_target<E, U, S>(
    registry: &mut IdRegistry,
    snapshot: &Snapshot,
    window_id: u64,
    extent: &E,
    unscale: &U,
    scale: &S,
    capture_x: i32,
    capture_y: i32,
) -> (r: Result<ScreenTarget, HyprError>) where
    E: Fn((i32, i32), u64) -> (u32, u32),
    U: Fn((i32, i32), u64) -> (i32, i32),
    S: Fn(&Monitor, (i32, i32)) -> (i64, i64),

    requires
        is_sound(old(registry)@),
        can_sync(old(registry)@, snapshot.clients@),
        forall|s: (i32, i32), scale: u64| #[trigger] call_requires(extent, (s, scale)),
        forall|p: (i32, i32), scale: u64| #[trigger] call_requires(unscale, (p, scale)),
        forall|m: &Monitor, p: (i32, i32)| #[trigger] call_requires(scale, (m, p)),
    ensures
        is_sound(final(registry)@),
        final(registry)@ == synced(old(registry)@, snapshot.clients@),
        match visible_client_behind(final(registry)@, *snapshot, window_id) {
            Ok(client) => is_targeted_at(
                client,
                snapshot.monitors@,
                extent,
                unscale,
                scale,
                (capture_x, capture_y),
                r,
            ),
            Err(error) => r == Err::<ScreenTarget, HyprError>(error),
        },
{
    let monitors = snapshot.monitors.as_slice();
    match visible_client_for_window(registry, snapshot, window_id) {
        Ok(client) => {
            let place = capture_to_screen(
                client,
                monitors,
                extent,
                unscale,
                (capture_x, capture_y),
            );
            match place {
                Ok(point) => target_at(monitors, scale, point),
                Err(error) => Err(error),
            }
        },
        Err(error) => Err(error),
    }
}

/// Whether `r` answers the two ends of a drag over a window's capture. Points
/// outside the capture are refused before any place is looked up.
pub open spec fn is_drag_between<E, U, S>(
    client: Client,
    monitors: Seq<Monitor>,
    extent: &E,
    unscale: &U,
    scale: &S,
    from: (i32, i32),
    to: (i32, i32),
    r: Result<(ScreenTarget, ScreenTarget), HyprError>,
) -> bool where
    E: Fn((i32, i32), u64) -> (u32, u32),
    U: Fn((i32, i32), u64) -> (i32, i32),
    S: Fn(&Monitor, (i32, i32)) -> (i64, i64),
 {
    exists|first: Result<(i32, i32), HyprError>, second: Result<(i32, i32), HyprError>|
        #![trigger is_captured_at(client, monitors, extent, unscale, from, first), is_captured_at(client, monitors, extent, unscale, to, second)]
        is_captured_at(client, monitors, extent, unscale, from, first) && is_captured_at(
            client,
            monitors,
            extent,
            unscale,
            to,
            second,
        ) && match (first, second) {
            (Err(error), _) => r == Err::<(ScreenTarget, ScreenTarget), HyprError>(error),
            (_, Err(error)) => r == Err::<(ScreenTarget, ScreenTarget), HyprError>(error),
            (Ok(first), Ok(second)) => match r {
                Ok(targets) => is_shown_at(monitors, scale, first, Ok(targets.0))
                    && is_shown_at(monitors, scale, second, Ok(targets.1)),
                Err(error) => if monitor_at(
                    monitors,
                    Some(first.0 as i64),
                    Some(first.1 as i64),
                ) is None {
                    is_shown_at(monitors, scale, first, Err(error))
                } else {
                    is_shown_at(monitors, scale, second, Err(error))
                },
            },
        }
}

/// The places of outputs that show both ends of a drag over the capture of
/// the window that `window_id` stands for, taken from one snapshot, so that
/// one gesture cannot join two layouts.
pub fn window_capture_drag_targets<E, U, S>(
    registry: &mut IdRegistry,
    snapshot: &Snapshot,
    window_id: u64,
    extent: &E,
    unscale: &U,
    scale: &S,
    from: (i32, i32),
    to: (i32, i32),
) -> (r: Result<(ScreenTarget, ScreenTarget), HyprError>) where
    E: Fn((i32, i32), u64) -> (u32, u32),
    U: Fn((i32, i32), u64) -> (i32, i32),
    S: Fn(&Monitor, (i32, i32)) -> (i64, i64),

    requires
        is_sound(old(registry)@),
        can_sync(old(registry)@, snapshot.clients@),
        forall|s: (i32, i32), scale: u64| #[trigger] call_requires(extent, (s, scale)),
        forall|p: (i32, i32), scale: u64| #[trigger] call_requires(unscale, (p, scale)),
        forall|m: &Monitor, p: (i32, i32)| #[trigger] call_requires(scale, (m, p)),
    ensures
        is_sound(final(registry)@),
        final(registry)@ == synced(old(registry)@, snapshot.clients@),
        match visible_client_behind(final(registry)@, *snapshot, window_id) {
            Ok(client) => is_drag_between(
                client,
                snapshot.monitors@,
                extent,
                unscale,
                scale,
                from,
                to,
                r,
            ),
            Err(error) => r == Err::<(ScreenTarget, ScreenTarget), HyprError>(error),
        },
{
    let monitors = snapshot.monitors.as_slice();
    let client = match visible_client_for_window(registry, snapshot, window_id) {
        Ok(client) => client,
        Err(error) => {
            return Err(error);
        },
    };
    let first = capture_to_screen(client, monitors, extent, unscale, from);
    let second = capture_to_screen(client, monitors, extent, unscale, to);
    match (first, second) {
        (Err(error), _) => Err(error),
        (_, Err(error)) => Err(error),
        (Ok(first), Ok(second)) => match (
            target_at(monitors, scale, first),
            target_at(monitors, scale, second),
        ) {
            (Ok(first), Ok(second)) => Ok((first, second)),
            (Err(error), _) => Err(error),
            (_, Err(error)) => Err(error),
        },
    }
}

/// The middle of a window on one axis, rounded down.
pub open spec fn middle(at: i32, size: i32) -> int {
    at + at_least_one(size) as int / 2
}

/// The place of an output that shows the middle of the window that
/// `window_id` stands for. `scale` tells where on its monitor a point lies
/// whose coordinates are given doubled.
pub fn window_center_pointer_target<S>(
    registry: &mut IdRegistry,
    snapshot: &Snapshot,
    window_id: u64,
    scale: S,
) -> (r: Result<CenterTarget, HyprError>) where S: FnOnce(&Monitor, (i64, i64)) -> (i64, i64)
    requires
        is_sound(old(registry)@),
        can_sync(old(registry)@, snapshot.clients@),
        forall|m: &Monitor, p: (i64, i64)| #[trigger] call_requires(scale, (m, p)),
    ensures
        is_sound(final(registry)@),
        final(registry)@ == synced(old(registry)@, snapshot.clients@),
        match visible_client_behind(final(registry)@, *snapshot, window_id) {
            Ok(client) => {
                let x = middle(client.at[0], client.size[0]) as i64;
                let y = middle(client.at[1], client.size[1]) as i64;
                let doubled = (
                    (2 * client.at[0] + sides(client).0) as i64,
                    (2 * client.at[1] + sides(client).1) as i64,
                );
                match monitor_at(snapshot.monitors@, Some(x), Some(y)) {
                    Some(i) => 0 <= i < snapshot.monitors@.len() && (r matches Ok(shown) && (
                        shown.doubled_x,
                        shown.doubled_y,
                    ) == doubled && exists|scaled: (i64, i64)| #[trigger]
                        call_ensures(scale, (&snapshot.monitors@[i], doubled), scaled)
                            && is_place_on(shown.target, snapshot.monitors@[i], scaled)),
                    None => r matches Err(HyprError::OutsideEveryOutput { point }) && point@
                        == point_reading((doubled.0 as int, doubled.1 as int)),
                }
            },
            Err(error) => r == Err::<CenterTarget, HyprError>(error),
        },
{
    let client = match visible_client_for_window(registry, snapshot, window_id) {
        Ok(client) => client,
        Err(error) => {
            return Err(error);
        },
    };
    let (width, height) = sides_of(client);
    let x: i64 = client.at[0] as i64 + (width as u32 / 2) as i64;
    let y: i64 = client.at[1] as i64 + (height as u32 / 2) as i64;
    let doubled: (i64, i64) = (
        2 * client.at[0] as i64 + width as i64,
        2 * client.at[1] as i64 + height as i64,
    );
    let on_monitor = |monitor: &Monitor| -> (scaled: (i64, i64))
        ensures
            call_ensures(scale, (monitor, doubled), scaled),
        { scale(monitor, doubled) };
    let said = point_text(doubled);
    match pointer_target_for(
        snapshot.monitors.as_slice(),
        Some(x),
        Some(y),
        said,
        on_monitor,
    ) {
        Ok(target) => Ok(CenterTarget { target, doubled_x: doubled.0, doubled_y: doubled.1 }),
        Err(error) => Err(error),
    }
}

/// What `to_capture` makes of the place and the capture scale of the window
/// that `window_id` stands for.
pub fn screen_to_window_capture<T, C>(
    registry: &mut IdRegistry,
    snapshot: &Snapshot,
    window_id: u64,
    to_capture: C,
) -> (r: Result<T, HyprError>) where C: FnOnce((i32, i32), u64) -> T
    requires
        is_sound(old(registry)@),
        can_sync(old(registry)@, snapshot.clients@),
        forall|at: (i32, i32), scale: u64| #[trigger] call_requires(to_capture, (at, scale)),
    ensures
        is_sound(final(registry)@),
        final(registry)@ == synced(old(registry)@, snapshot.clients@),
        match visible_client_behind(final(registry)@, *snapshot, window_id) {
            Ok(client) => r matches Ok(point) && call_ensures(
                to_capture,
                ((client.at[0], client.at[1]), capture_scale(client, snapshot.monitors@)),
                point,
            ),
            Err(error) => r == Err::<T, HyprError>(error),
        },
{
    match visible_client_for_window(registry, snapshot, window_id) {
        Ok(client) => {
            let scale = capture_scale_for_client(client, snapshot.monitors.as_slice());
            Ok(to_capture((client.at[0], client.at[1]), scale))
        },
        Err(error) => Err(error),
    }
}

} // verus!
