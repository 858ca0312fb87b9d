//! The monitors of the desktop: where they lie and what they show.

use vstd::prelude::*;
use vstd::string::*;

use crate::error::HyprError;
use crate::identity::{Client, Workspace};

verus! {

/// One output of the desktop.
///
/// The scale of an output is a floating-point number. What is decided here
/// needs of it the size of the output in logical pixels and an integer that
/// orders scales: `scale_bits` holds the bits of the scale, which is positive,
/// and positive numbers are ordered as their bits are.
#[derive(Debug)]
pub struct Monitor {
    pub name: String,
    pub width: u32,
    pub height: u32,
    pub x: i32,
    pub y: i32,
    pub scale_bits: u64,
    pub logical_width: u32,
    pub logical_height: u32,
    pub transform: i32,
    pub focused: bool,
    pub disabled: bool,
    pub active_workspace: Option<Workspace>,
    pub special_workspace: Option<Workspace>,
}

/// The bits of a scale of one.
pub const UNIT_SCALE_BITS: u64 = 0x3ff0_0000_0000_0000;

/// Whether a monitor of `monitors` is enabled.
pub(crate) fn any_enabled(monitors: &[Monitor]) -> (r: bool)
    ensures
        r == exists|i: int| 0 <= i < monitors@.len() && !(#[trigger] monitors@[i]).disabled,
{
    let mut i: usize = 0;
    while i < monitors.len()
        invariant
            i <= monitors.len(),
            forall|j: int| 0 <= j < i ==> (#[trigger] monitors@[j]).disabled,
        decreases monitors.len() - i,
    {
        if !monitors[i].disabled {
            return true;
        }
        i = i + 1;
    }
    false
}

/// `n`, or the nearest number of 32 bits where it is none.
pub open spec fn saturated(n: int) -> i32 {
    if n > i32::MAX {
        i32::MAX
    } else if n < i32::MIN {
        i32::MIN
    } else {
        n as i32
    }
}

/// `a + b`, or the nearest number of 32 bits.
pub(crate) fn saturating_sum(a: i32, b: i32) -> (r: i32)
    ensures
        r == saturated(a + b),
{
    let sum: i64 = a as i64 + b as i64;
    if sum > i32::MAX as i64 {
        i32::MAX
    } else if sum < i32::MIN as i64 {
        i32::MIN
    } else {
        sum as i32
    }
}

/// A length as a signed number: one that does not fit comes out negative.
pub open spec fn signed(length: u32) -> i32 {
    if length <= i32::MAX {
        length as i32
    } else {
        (length - 0x1_0000_0000) as i32
    }
}

fn signed_length(length: u32) -> (r: i32)
    ensures
        r == signed(length),
{
    if length <= i32::MAX as u32 {
        length as i32
    } else {
        (length as i64 - 0x1_0000_0000) as i32
    }
}

/// A length, but at least one.
pub open spec fn at_least_one(length: i32) -> i32 {
    if length < 1 {
        1
    } else {
        length
    }
}

pub(crate) fn one_or_more(length: i32) -> (r: i32)
    ensures
        r == at_least_one(length),
{
    if length < 1 {
        1
    } else {
        length
    }
}

impl Monitor {
    /// Where the monitor ends to the right.
    pub open spec fn right(self) -> i32 {
        saturated(self.x + signed(self.logical_width))
    }

    /// Where the monitor ends below.
    pub open spec fn bottom(self) -> i32 {
        saturated(self.y + signed(self.logical_height))
    }

    /// Whether the pixel of the desktop that begins at `(x, y)` lies on the
    /// monitor, which is enabled.
    pub open spec fn shows_pixel(self, x: int, y: int) -> bool {
        &&& !self.disabled
        &&& self.x <= x < self.right()
        &&& self.y <= y < self.bottom()
    }

    /// Whether an enabled monitor shows a part of the window.
    pub open spec fn shows_part_of(self, client: Client) -> bool {
        &&& !self.disabled
        &&& client.at[0] < self.right()
        &&& saturated(client.at[0] + at_least_one(client.size[0])) > self.x
        &&& client.at[1] < self.bottom()
        &&& saturated(client.at[1] + at_least_one(client.size[1])) > self.y
    }

    /// The size of the image that the monitor shows, in its own pixels: a
    /// quarter turn swaps the sides.
    pub open spec fn physical_size(self) -> (u32, u32) {
        if self.transform as int % 2 == 1 {
            (self.height, self.width)
        } else {
            (self.width, self.height)
        }
    }

    pub(crate) fn right_edge(&self) -> (r: i32)
        ensures
            r == self.right(),
    {
        saturating_sum(self.x, signed_length(self.logical_width))
    }

    pub(crate) fn bottom_edge(&self) -> (r: i32)
        ensures
            r == self.bottom(),
    {
        saturating_sum(self.y, signed_length(self.logical_height))
    }
}

/// The size of the image that the monitor shows, in its own pixels.
pub fn monitor_physical_size(monitor: &Monitor) -> (r: (u32, u32))
    ensures
        r == monitor.physical_size(),
{
    let turned = match monitor.transform.checked_rem_euclid(2) {
        Some(rest) => rest == 1,
        None => false,
    };
    if turned {
        (monitor.height, monitor.width)
    } else {
        (monitor.width, monitor.height)
    }
}

/// Whether `i` is the first monitor that shows the pixel at `(x, y)`.
pub open spec fn is_first_at(monitors: Seq<Monitor>, x: int, y: int, i: int) -> bool {
    &&& 0 <= i < monitors.len()
    &&& monitors[i].shows_pixel(x, y)
    &&& forall|j: int| 0 <= j < i ==> !(#[trigger] monitors[j]).shows_pixel(x, y)
}

/// The first monitor that shows the pixel at `(x, y)`, if one does.
pub open spec fn first_at(monitors: Seq<Monitor>, x: int, y: int) -> Option<int> {
    if exists|i: int| is_first_at(monitors, x, y, i) {
        Some(choose|i: int| is_first_at(monitors, x, y, i))
    } else {
        None
    }
}

/// The first monitor that shows the point, if one does. A coordinate is given
/// rounded down; nothing stands for one that is no number.
pub open spec fn monitor_at(monitors: Seq<Monitor>, x: Option<i64>, y: Option<i64>) -> Option<
    int,
> {
    match (x, y) {
        (Some(x), Some(y)) => first_at(monitors, x as int, y as int),
        _ => None,
    }
}

/// The first enabled monitor that shows the point `(x, y)`. A coordinate is
/// given rounded down; nothing stands for one that is no number.
pub fn monitor_for_point(monitors: &[Monitor], x: Option<i64>, y: Option<i64>) -> (r: Option<
    &Monitor,
>)
    ensures
        match monitor_at(monitors@, x, y) {
            Some(i) => 0 <= i < monitors@.len() && r == Some(&monitors@[i]),
            None => r is None,
        },
{
    let (left, top) = match (x, y) {
        (Some(left), Some(top)) => (left, top),
        _ => {
            return None;
        },
    };
    let mut i: usize = 0;
    while i < monitors.len()
        invariant
            i <= monitors.len(),
            x == Some(left),
            y == Some(top),
            forall|j: int|
                0 <= j < i ==> !(#[trigger] monitors@[j]).shows_pixel(left as int, top as int),
        decreases monitors.len() - i,
    {
        let monitor = &monitors[i];
        if !monitor.disabled && left >= monitor.x as i64 && top >= monitor.y as i64 && left
            < monitor.right_edge() as i64 && top < monitor.bottom_edge() as i64 {
            proof {
                assert(is_first_at(monitors@, left as int, top as int, i as int));
                let chosen = choose|k: int| is_first_at(monitors@, left as int, top as int, k);
                assert(chosen == i) by {
                    if chosen < i {
                        assert(!monitors@[chosen].shows_pixel(left as int, top as int));
                    }
                    if chosen > i {
                        assert(!monitors@[i as int].shows_pixel(left as int, top as int));
                    }
                }
            }
            return Some(monitor);
        }
        i = i + 1;
    }
    None
}

/// A place on one output.
#[derive(Debug, PartialEq, Eq)]
pub struct PointerTarget {
    pub output_name: String,
    pub output_width: u32,
    pub output_height: u32,
    pub output_x: u32,
    pub output_y: u32,
}

/// The pixel nearest to `n` of a side of `length` pixels; a side without any
/// has the pixel zero.
pub open spec fn pixel_near(n: int, length: u32) -> u32 {
    if n <= 0 || length == 0 {
        0
    } else if n >= length {
        (length - 1) as u32
    } else {
        n as u32
    }
}

pub(crate) fn nearest_pixel(n: i64, length: u32) -> (r: u32)
    ensures
        r == pixel_near(n as int, length),
{
    if n <= 0 || length == 0 {
        0
    } else if n >= length as i64 {
        length - 1
    } else {
        n as u32
    }
}

/// Whether `target` is the place `scaled` of the monitor, in its own pixels,
/// moved onto the image that it shows.
pub open spec fn is_place_on(target: PointerTarget, monitor: Monitor, scaled: (i64, i64)) -> bool {
    let (width, height) = monitor.physical_size();
    &&& target.output_name@ == monitor.name@
    &&& target.output_width == (if width == 0 {
        1
    } else {
        width
    })
    &&& target.output_height == (if height == 0 {
        1
    } else {
        height
    })
    &&& target.output_x == pixel_near(scaled.0 as int, width)
    &&& target.output_y == pixel_near(scaled.1 as int, height)
}

/// The place on an output that shows the point `(x, y)`, whose coordinates
/// are given rounded down, and which reads as `point` does. `scale` tells
/// where on its monitor the point lies, in the monitor's own pixels.
pub fn pointer_target_for<F>(
    monitors: &[Monitor],
    x: Option<i64>,
    y: Option<i64>,
    point: String,
    scale: F,
) -> (r: Result<PointerTarget, HyprError>) where F: FnOnce(&Monitor) -> (i64, i64)
    requires
        forall|monitor: &Monitor| #[trigger] call_requires(scale, (monitor,)),
    ensures
        match monitor_at(monitors@, x, y) {
            Some(i) => 0 <= i < monitors@.len() && (r matches Ok(target) && exists|scaled: (
                i64,
                i64,
            )| #[trigger]
                call_ensures(scale, (&monitors@[i],), scaled) && is_place_on(
                    target,
                    monitors@[i],
                    scaled,
                )),
            None => r == Err::<PointerTarget, HyprError>(HyprError::OutsideEveryOutput { point }),
        },
{
    let monitor = match monitor_for_point(monitors, x, y) {
        Some(monitor) => monitor,
        None => {
            return Err(HyprError::OutsideEveryOutput { point });
        },
    };
    let (width, height) = monitor_physical_size(monitor);
    let scaled = scale(monitor);
    Ok(
        PointerTarget {
            output_name: monitor.name.clone(),
            output_width: if width == 0 {
                1
            } else {
                width
            },
            output_height: if height == 0 {
                1
            } else {
                height
            },
            output_x: nearest_pixel(scaled.0, width),
            output_y: nearest_pixel(scaled.1, height),
        },
    )
}

/// Whether `i` is a monitor that shows a part of the window, and no other one
/// that does has a larger scale.
pub open spec fn has_largest_scale(client: Client, monitors: Seq<Monitor>, i: int) -> bool {
    &&& 0 <= i < monitors.len()
    &&& monitors[i].shows_part_of(client)
    &&& forall|j: int|
        0 <= j < monitors.len() && (#[trigger] monitors[j]).shows_part_of(client)
            ==> monitors[j].scale_bits <= monitors[i].scale_bits
}

/// The scale at which a window is captured: the largest of the monitors that
/// show a part of it, or one where none does.
pub open spec fn capture_scale(client: Client, monitors: Seq<Monitor>) -> u64 {
    if exists|i: int| has_largest_scale(client, monitors, i) {
        monitors[choose|i: int| has_largest_scale(client, monitors, i)].scale_bits
    } else {
        UNIT_SCALE_BITS
    }
}

/// The scale at which a window is captured.
pub fn capture_scale_for_client(client: &Client, monitors: &[Monitor]) -> (r: u64)
    ensures
        r == capture_scale(*client, monitors@),
{
    let right = saturating_sum(client.at[0], one_or_more(client.size[0]));
    let bottom = saturating_sum(client.at[1], one_or_more(client.size[1]));
    let mut best: Option<u64> = None;
    let ghost mut place: int = 0;
    let mut i: usize = 0;
    while i < monitors.len()
        invariant
            i <= monitors.len(),
            right == saturated(client.at[0] + at_least_one(client.size[0])),
            bottom == saturated(client.at[1] + at_least_one(client.size[1])),
            match best {
                Some(bits) => {
                    &&& 0 <= place < i
                    &&& monitors@[place].shows_part_of(*client)
                    &&& monitors@[place].scale_bits == bits
                    &&& forall|j: int|
                        0 <= j < i && (#[trigger] monitors@[j]).shows_part_of(*client)
                            ==> monitors@[j].scale_bits <= bits
                },
                None => forall|j: int|
                    0 <= j < i ==> !(#[trigger] monitors@[j]).shows_part_of(*client),
            },
        decreases monitors.len() - i,
    {
        let monitor = &monitors[i];
        if !monitor.disabled && client.at[0] < monitor.right_edge() && right > monitor.x
            && client.at[1] < monitor.bottom_edge() && bottom > monitor.y {
            let larger = match best {
                Some(bits) => monitor.scale_bits > bits,
                None => true,
            };
            if larger {
                best = Some(monitor.scale_bits);
                proof {
                    place = i as int;
                }
            }
        }
        i = i + 1;
    }
    match best {
        Some(bits) => {
            proof {
                assert(has_largest_scale(*client, monitors@, place));
                let chosen = choose|i: int| has_largest_scale(*client, monitors@, i);
                assert(monitors@[chosen].scale_bits == bits);
            }
            bits
        },
        None => UNIT_SCALE_BITS,
    }
}

} // verus!
