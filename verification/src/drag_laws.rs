//! What holds of presses, moves and releases, said of their coordinates and
//! of what is asked of the compositor.

use vstd::prelude::*;

use crate::pointer::{
    ascending, command_action, committed_action, committed_table, destroy_action, ending_reply,
    give_up_action, lemma_ascending, lists_ascending, located_action, move_fits, opened_action,
    output_point, press_fits, ActionView, Cmd, Committing, ConnectionUse, Coordinate,
    Ending, Locating, Opening, PointerError, PointerRequest, PointerView, SessionTarget,
};

verus! {

/// Whether a number that was rounded down lies on a side of `length` pixels. A
/// number that is none is not known to lie off it.
pub open spec fn lies_on(floor: Option<i64>, length: u32) -> bool {
    floor is Some ==> 0 <= floor->0 < length
}

/// Whether `pixel` is the pixel of a side of `length` pixels that is nearest
/// to `n`.
pub open spec fn is_nearest(pixel: u32, n: int, length: u32) -> bool {
    &&& n < 0 ==> pixel == 0
    &&& 0 <= n < length ==> pixel == n
    &&& n >= length ==> pixel == length - 1
}

/// A point lies on an output exactly where it lies on both of its sides, the
/// first coordinate on its width and the second on its height; it then stands
/// for the pixel nearest to it.
pub proof fn law_a_point_lies_on_both_sides_of_its_output(
    x: Coordinate,
    y: Coordinate,
    width: u32,
    height: u32,
)
    requires
        width > 0,
        height > 0,
    ensures
        output_point(x, y, width, height) is Some <==> lies_on(x.floor, width) && lies_on(
            y.floor,
            height,
        ),
        output_point(x, y, width, height) matches Some(place) ==> is_nearest(
            place.0,
            x.nearest as int,
            width,
        ) && is_nearest(place.1, y.nearest as int, height),
{
}

/// A point whose second coordinate lies above or below an output is not on it,
/// and neither is one whose first coordinate lies left or right of it.
pub proof fn law_a_point_beyond_an_edge_is_off(
    x: Coordinate,
    y: Coordinate,
    width: u32,
    height: u32,
    n: i64,
)
    ensures
        y.floor == Some(n) && (n < 0 || n >= height) ==> output_point(x, y, width, height) is None,
        x.floor == Some(n) && (n < 0 || n >= width) ==> output_point(x, y, width, height) is None,
{
}

/// A held pointer whose move lies beyond an edge of its output is given up for
/// the output that it left; one whose move lies on the output is moved to the
/// nearest pixel, with the sides of that output, and nothing else is asked.
pub proof fn law_a_held_pointer_stays_on_its_output_or_is_given_up(
    t: Map<Seq<char>, PointerView>,
    locating: Locating,
    x: Coordinate,
    y: Coordinate,
)
    requires
        t.contains_key(locating.cursor_id@),
        t[locating.cursor_id@].out_w > 0,
        t[locating.cursor_id@].out_h > 0,
    ensures
        ({
            let pointer = t[locating.cursor_id@];
            match located_action(t, locating, x, y) {
                ActionView::Commit { requests, committing } => if lies_on(
                    x.floor,
                    pointer.out_w,
                ) && lies_on(y.floor, pointer.out_h) {
                    &&& committing == (Committing::Moving { cursor_id: locating.cursor_id })
                    &&& requests.len() == 2
                    &&& requests[1] == PointerRequest::Frame
                    &&& requests[0] matches PointerRequest::Motion { x: px, y: py, width, height }
                        && width == pointer.out_w && height == pointer.out_h && is_nearest(
                        px,
                        x.nearest as int,
                        pointer.out_w,
                    ) && is_nearest(py, y.nearest as int, pointer.out_h)
                } else {
                    committing == (Committing::ReleasingAll {
                        cursor_id: locating.cursor_id,
                        left: Some(locating.output_name),
                    })
                },
                _ => false,
            }
        }),
{
}

/// A held pointer that is bound to no output is moved to the pixel of its
/// output that is nearest to the point.
pub proof fn law_an_unbound_move_goes_to_the_nearest_pixel(
    t: Map<Seq<char>, PointerView>,
    cursor_id: String,
    x: i32,
    y: i32,
)
    requires
        t.contains_key(cursor_id@),
        t[cursor_id@].output_name is None,
        t[cursor_id@].out_w > 0,
        t[cursor_id@].out_h > 0,
    ensures
        ({
            let pointer = t[cursor_id@];
            command_action(t, Cmd::MoveTo { cursor_id, x, y }) matches ActionView::Commit {
                requests,
                committing,
            } && committing == (Committing::Moving { cursor_id }) && requests.len() == 2
                && requests[1] == PointerRequest::Frame && (
            requests[0] matches PointerRequest::Motion { x: px, y: py, width, height } && width
                == pointer.out_w && height == pointer.out_h && is_nearest(
                px,
                x as int,
                pointer.out_w,
            ) && is_nearest(py, y as int, pointer.out_h))
        }),
{
}

/// Whether `place` is where a press goes: the place that the session tells, or
/// the nearest pixel of its output to the point.
pub open spec fn is_press_place(
    place: (u32, u32),
    session: SessionTarget,
    x: i32,
    y: i32,
) -> bool {
    &&& session.target_x is Some ==> place.0 == session.target_x->0
    &&& session.target_y is Some ==> place.1 == session.target_y->0
    &&& session.target_x is None && session.output_w > 0 ==> is_nearest(
        place.0,
        x as int,
        session.output_w,
    )
    &&& session.target_y is None && session.output_h > 0 ==> is_nearest(
        place.1,
        y as int,
        session.output_h,
    )
}

/// A press first moves the pointer to its place, then presses its button, each
/// in a frame of its own. Where no session was opened, the caller hears why.
pub proof fn law_a_press_goes_down_at_its_place(
    opening: Opening,
    session: SessionTarget,
    detail: String,
)
    ensures
        opened_action(opening, Ok(session)) matches ActionView::Commit { requests, committing }
            && requests.len() == 4 && (requests[0] matches PointerRequest::Motion {
            x: px,
            y: py,
            width,
            height,
        } && width == session.output_w && height == session.output_h && is_press_place(
            (px, py),
            session,
            opening.x,
            opening.y,
        )) && requests[1] == PointerRequest::Frame && requests[2] == (PointerRequest::Button {
            button: opening.button,
            pressed: true,
        }) && requests[3] == PointerRequest::Frame && committing == (Committing::Pressing {
            cursor_id: opening.cursor_id,
            session,
            x: opening.x,
            y: opening.y,
            button: opening.button,
        }),
        opened_action(opening, Err(detail)) == (ActionView::Finish {
            cursor_id: opening.cursor_id,
            connection: ConnectionUse::Drop,
            reply: Err(PointerError::ConnectionFailed { detail }),
        }),
{
}

/// A press that goes through leaves a pointer with just its button, and with
/// the sides and the output of its session; a later move on that output is
/// located by where the press was, in the capture and on the output, and by
/// the scale of the session.
pub proof fn law_a_move_is_located_by_its_press(
    t: Map<Seq<char>, PointerView>,
    cursor_id: String,
    session: SessionTarget,
    output_name: String,
    x: i32,
    y: i32,
    button: u32,
    to_x: i32,
    to_y: i32,
)
    requires
        session.output_name == Some(output_name),
    ensures
        ({
            let pressing = Committing::Pressing { cursor_id, session, x, y, button };
            let after = committed_table(t, pressing, Ok(()));
            &&& committed_action(t, pressing, Ok(())) == (ActionView::Finish {
                cursor_id,
                connection: ConnectionUse::Adopt,
                reply: Ok(()),
            })
            &&& after.contains_key(cursor_id@)
            &&& after[cursor_id@].held == Set::<u32>::empty().insert(button)
            &&& after[cursor_id@].out_w == session.output_w
            &&& after[cursor_id@].out_h == session.output_h
            &&& command_action(after, Cmd::MoveTo { cursor_id, x: to_x, y: to_y })
                matches ActionView::Locate { mapping, x: asked_x, y: asked_y, locating }
                && asked_x == to_x && asked_y == to_y && locating == (Locating {
                cursor_id,
                output_name,
            }) && mapping.capture_x_bits == session.capture_x_bits && mapping.capture_y_bits
                == session.capture_y_bits && mapping.scale_bits == session.scale_bits
                && mapping.pressed == (x, y) && is_press_place(mapping.output, session, x, y)
        }),
{
    let pressing = Committing::Pressing { cursor_id, session, x, y, button };
    assert(committed_table(t, pressing, Ok(()))[cursor_id@].held =~= Set::<u32>::empty().insert(
        button,
    ));
}

/// A press on a free cursor opens a session on its window, for its point and
/// its button.
pub proof fn law_a_press_opens_its_window(
    t: Map<Seq<char>, PointerView>,
    cursor_id: String,
    window_id: u64,
    x: i32,
    y: i32,
    button: u32,
)
    requires
        !t.contains_key(cursor_id@),
    ensures
        command_action(t, Cmd::Press { cursor_id, window_id, x, y, button }) == (ActionView::Open {
            window_id,
            opening: Opening { cursor_id, x, y, button },
        }),
{
}

/// A cursor without a pointer can neither be moved nor released, and the
/// compositor is asked nothing.
pub proof fn law_a_cursor_without_a_pointer_is_refused(
    t: Map<Seq<char>, PointerView>,
    cursor_id: String,
    x: i32,
    y: i32,
    button: u32,
)
    requires
        !t.contains_key(cursor_id@),
    ensures
        command_action(t, Cmd::MoveTo { cursor_id, x, y }) == (ActionView::Finish {
            cursor_id,
            connection: ConnectionUse::Keep,
            reply: Err(PointerError::NothingToMove { cursor_id }),
        }),
        command_action(t, Cmd::Release { cursor_id, button }) == (ActionView::Finish {
            cursor_id,
            connection: ConnectionUse::Keep,
            reply: Err(PointerError::NothingToRelease { cursor_id }),
        }),
{
}

/// A release asks for just its button, in a frame, and a pointer is destroyed
/// by a request of its own.
pub proof fn law_a_release_lifts_just_its_button(
    t: Map<Seq<char>, PointerView>,
    cursor_id: String,
    button: u32,
    ending: Ending,
)
    requires
        t.contains_key(cursor_id@),
    ensures
        command_action(t, Cmd::Release { cursor_id, button }) matches ActionView::Commit {
            requests,
            committing,
        } && requests.len() == 2 && requests[0] == (PointerRequest::Button {
            button,
            pressed: false,
        }) && requests[1] == PointerRequest::Frame && committing == (Committing::Releasing {
            cursor_id,
            button,
        }),
        destroy_action(cursor_id, ending) matches ActionView::Commit { requests, committing }
            && requests.len() == 1 && requests[0] == PointerRequest::Destroy && committing == (
        Committing::Destroying { cursor_id, ending }),
{
}

/// To give a pointer up is to release each button that it holds, one request
/// for one button, and to close the frame.
pub proof fn law_every_held_button_is_lifted_once(
    t: Map<Seq<char>, PointerView>,
    cursor_id: String,
    left: Option<String>,
    button: u32,
)
    requires
        t.contains_key(cursor_id@),
        t[cursor_id@].held.finite(),
    ensures
        give_up_action(t, cursor_id, left) matches ActionView::Commit { requests, committing }
            && committing == (Committing::ReleasingAll { cursor_id, left }) && requests.len() > 0
            && requests[requests.len() - 1] == PointerRequest::Frame && (forall|i: int|
            0 <= i < requests.len() - 1 ==> (#[trigger] requests[i] matches PointerRequest::Button {
                button: b,
                pressed,
            } && !pressed && t[cursor_id@].held.contains(b))) && (forall|i: int, j: int|
            0 <= i < j < requests.len() - 1 ==> #[trigger] requests[i] != #[trigger] requests[j])
            && (t[cursor_id@].held.contains(button) ==> requests.contains(
            PointerRequest::Button { button, pressed: false },
        )),
{
    let held = t[cursor_id@].held;
    lemma_ascending(held);
    let codes = ascending(held);
    let requests = give_up_action(t, cursor_id, left)->requests;
    assert forall|i: int| 0 <= i < codes.len() implies (#[trigger] requests[i]) == (
    PointerRequest::Button { button: codes[i], pressed: false }) && held.contains(codes[i]) by {
        assert(codes.to_set().contains(codes[i]));
    }
    if held.contains(button) {
        assert(codes.to_set().contains(button));
        let i = choose|i: int| 0 <= i < codes.len() && codes[i] == button;
        assert(requests[i] == (PointerRequest::Button { button, pressed: false }));
    }
}

/// Buttons are released from the smallest code to the largest, each that is
/// held and no other.
pub proof fn law_buttons_are_released_in_order(codes: Seq<u32>, held: Set<u32>, button: u32)
    requires
        lists_ascending(codes, held),
    ensures
        forall|i: int, j: int| 0 <= i < j < codes.len() ==> codes[i] < codes[j],
        held.contains(button) <==> exists|i: int| 0 <= i < codes.len() && codes[i] == button,
{
    assert(codes.to_set().contains(button) == held.contains(button));
}

/// A cleanup is reported as failed exactly where one of its two roundtrips
/// failed, with the reason of the first that did.
pub proof fn law_the_first_failure_of_a_cleanup_is_told(
    output_name: String,
    released: Result<(), String>,
    destroyed: Result<(), String>,
    reply: Result<(), PointerError>,
)
    ensures
        ending_reply(Ending::Answer(reply), destroyed) == reply,
        released is Ok && destroyed is Ok ==> ending_reply(
            Ending::Forgotten { released },
            destroyed,
        ) is Ok,
        released matches Err(detail) ==> ending_reply(Ending::Forgotten { released }, destroyed)
            == Err::<(), PointerError>(PointerError::ConnectionFailed { detail }),
        released is Ok ==> (destroyed matches Err(detail) ==> ending_reply(
            Ending::Forgotten { released },
            destroyed,
        ) == Err::<(), PointerError>(PointerError::ConnectionFailed { detail })),
        released is Ok && destroyed is Ok ==> ending_reply(
            Ending::Left { output_name, released },
            destroyed,
        ) == Err::<(), PointerError>(PointerError::LeftOutput { output_name, cleanup: None }),
        released matches Err(detail) ==> ending_reply(
            Ending::Left { output_name, released },
            destroyed,
        ) == Err::<(), PointerError>(
            PointerError::LeftOutput { output_name, cleanup: Some(detail) },
        ),
        released is Ok ==> (destroyed matches Err(detail) ==> ending_reply(
            Ending::Left { output_name, released },
            destroyed,
        ) == Err::<(), PointerError>(
            PointerError::LeftOutput { output_name, cleanup: Some(detail) },
        )),
{
}

/// A session is accepted exactly where each side on which it does not tell the
/// place of the press has pixels, and a number of 32 bits counts them; a move
/// needs both sides of a pointer that is bound to no output.
pub proof fn law_sides_are_needed_where_no_place_is_told(
    session: SessionTarget,
    pointer: PointerView,
)
    ensures
        press_fits(session) <==> (session.target_x is Some || 0 < session.output_w <= 0x7fff_ffff)
            && (session.target_y is Some || 0 < session.output_h <= 0x7fff_ffff),
        move_fits(pointer) <==> pointer.output_name is Some || (0 < pointer.out_w <= 0x7fff_ffff
            && 0 < pointer.out_h <= 0x7fff_ffff),
{
}

/// A release of one of several buttons takes just that button from the
/// pointer, and leaves all else of it as it was.
pub proof fn law_a_release_takes_just_its_button(
    t: Map<Seq<char>, PointerView>,
    cursor_id: String,
    button: u32,
    other: u32,
    third: u32,
)
    requires
        t.contains_key(cursor_id@),
        t[cursor_id@].held.contains(other),
        other != button,
    ensures
        ({
            let before = t[cursor_id@];
            let after = committed_table(t, Committing::Releasing { cursor_id, button }, Ok(()));
            &&& after.contains_key(cursor_id@)
            &&& !after[cursor_id@].held.contains(button)
            &&& third != button ==> after[cursor_id@].held.contains(third) == before.held.contains(
                third,
            )
            &&& after[cursor_id@].out_w == before.out_w
            &&& after[cursor_id@].out_h == before.out_h
            &&& after[cursor_id@].output_name == before.output_name
            &&& after[cursor_id@].mapping == before.mapping
        }),
{
    assert(t[cursor_id@].held.remove(button).contains(other));
}

} // verus!
