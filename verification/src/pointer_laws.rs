//! What holds of pointers across the steps of their commands.

use vstd::prelude::*;

use crate::pointer::{
    all_hold, ascending, both, command_action, committed_action, committed_table, destroy_action,
    give_up_action, lemma_ascending, located_action, motion_action, opened_action, output_point,
    press_action, release_all_requests, releases, ActionView, Cmd, Committing,
    ConnectionUse, Coordinate, Ending, Locating, Opening, PointerError, PointerRequest,
    PointerView, SessionTarget,
};

verus! {

/// The cursor that a command is on.
pub open spec fn cursor_of(cmd: Cmd) -> String {
    match cmd {
        Cmd::Press { cursor_id, .. } => cursor_id,
        Cmd::MoveTo { cursor_id, .. } => cursor_id,
        Cmd::Release { cursor_id, .. } => cursor_id,
        Cmd::Forget { cursor_id } => cursor_id,
    }
}

/// The cursor that a roundtrip is made for.
pub open spec fn committing_cursor(committing: Committing) -> String {
    match committing {
        Committing::Pressing { cursor_id, .. } => cursor_id,
        Committing::Moving { cursor_id } => cursor_id,
        Committing::Releasing { cursor_id, .. } => cursor_id,
        Committing::ReleasingAll { cursor_id, .. } => cursor_id,
        Committing::Destroying { cursor_id, .. } => cursor_id,
    }
}

/// The cursor that an action is on.
pub open spec fn action_cursor(action: ActionView) -> String {
    match action {
        ActionView::Open { opening, .. } => opening.cursor_id,
        ActionView::Locate { locating, .. } => locating.cursor_id,
        ActionView::Commit { committing, .. } => committing_cursor(committing),
        ActionView::Finish { cursor_id, .. } => cursor_id,
    }
}

/// How many steps there are at most between an action and the answer.
pub open spec fn steps_left(action: ActionView) -> nat {
    match action {
        ActionView::Open { .. } => 3,
        ActionView::Locate { .. } => 3,
        ActionView::Commit { committing: Committing::Destroying { .. }, .. } => 1,
        ActionView::Commit { .. } => 2,
        ActionView::Finish { .. } => 0,
    }
}

/// A pointer lives only while it holds a button.
pub proof fn law_pointers_hold_buttons(
    t: Map<Seq<char>, PointerView>,
    committing: Committing,
    result: Result<(), String>,
)
    requires
        all_hold(t),
    ensures
        all_hold(committed_table(t, committing, result)),
{
    let after = committed_table(t, committing, result);
    assert forall|cursor: Seq<char>| #[trigger] after.contains_key(cursor) implies
        after[cursor].held.finite() && !after[cursor].held.is_empty() by {
        if committing is Pressing && cursor == committing_cursor(committing)@ && result is Ok {
            assert(after[cursor].held.contains(committing->Pressing_button));
        } else {
            assert(t.contains_key(cursor));
        }
    }
}

/// Every command stays with its cursor, and what becomes of one pointer leaves
/// the pointers of all other cursors as they are.
pub proof fn law_other_cursors_are_untouched(
    t: Map<Seq<char>, PointerView>,
    committing: Committing,
    result: Result<(), String>,
    other: Seq<char>,
)
    requires
        other != committing_cursor(committing)@,
    ensures
        committed_table(t, committing, result).contains_key(other) == t.contains_key(other),
        t.contains_key(other) ==> committed_table(t, committing, result)[other] == t[other],
        action_cursor(committed_action(t, committing, result)) == committing_cursor(committing),
{
}

/// A command's first action, and what follows when a session was opened or a
/// move located, are on the command's cursor.
pub proof fn law_actions_stay_with_their_cursor(
    t: Map<Seq<char>, PointerView>,
    cmd: Cmd,
    opening: Opening,
    opened: Result<SessionTarget, String>,
    locating: Locating,
    x: Coordinate,
    y: Coordinate,
)
    ensures
        action_cursor(command_action(t, cmd)) == cursor_of(cmd),
        action_cursor(opened_action(opening, opened)) == opening.cursor_id,
        action_cursor(located_action(t, locating, x, y)) == locating.cursor_id,
{
}

/// A press on a cursor that holds a button is refused, and opens nothing; one
/// on any other cursor opens a session.
pub proof fn law_a_held_cursor_refuses_a_press(
    t: Map<Seq<char>, PointerView>,
    cursor_id: String,
    window_id: u64,
    x: i32,
    y: i32,
    button: u32,
)
    ensures
        command_action(t, Cmd::Press { cursor_id, window_id, x, y, button }) is Open
            <==> !t.contains_key(cursor_id@),
        t.contains_key(cursor_id@) ==> command_action(
            t,
            Cmd::Press { cursor_id, window_id, x, y, button },
        ) == (ActionView::Finish {
            cursor_id,
            connection: ConnectionUse::Keep,
            reply: Err(PointerError::AlreadyHeld { cursor_id }),
        }),
{
}

/// Only a press opens a session, which would activate its window: no move, no
/// release and no cleanup does.
pub proof fn law_only_a_press_opens(
    t: Map<Seq<char>, PointerView>,
    cmd: Cmd,
    opening: Opening,
    opened: Result<SessionTarget, String>,
    locating: Locating,
    x: Coordinate,
    y: Coordinate,
    committing: Committing,
    result: Result<(), String>,
)
    ensures
        command_action(t, cmd) is Open ==> cmd is Press,
        !(opened_action(opening, opened) is Open),
        !(located_action(t, locating, x, y) is Open),
        !(committed_action(t, committing, result) is Open),
{
}

/// Every command is answered after at most three steps: each step leaves fewer
/// of them.
pub proof fn law_commands_end(
    t: Map<Seq<char>, PointerView>,
    cmd: Cmd,
    opening: Opening,
    opened: Result<SessionTarget, String>,
    locating: Locating,
    x: Coordinate,
    y: Coordinate,
    requests: Seq<PointerRequest>,
    committing: Committing,
    result: Result<(), String>,
)
    ensures
        steps_left(command_action(t, cmd)) <= 3,
        steps_left(opened_action(opening, opened)) < 3,
        steps_left(located_action(t, locating, x, y)) < 3,
        steps_left(committed_action(t, committing, result)) < steps_left(
            ActionView::Commit { requests, committing },
        ),
{
}

/// A press that goes through leaves a pointer that holds just its button, and
/// the release of that button takes the pointer away again and closes its
/// connection, whatever became of destroying it.
pub proof fn law_a_release_undoes_its_press(
    t: Map<Seq<char>, PointerView>,
    cursor_id: String,
    session: SessionTarget,
    x: i32,
    y: i32,
    button: u32,
    destroyed: Result<(), String>,
)
    requires
        !t.contains_key(cursor_id@),
    ensures
        ({
            let pressing = Committing::Pressing { cursor_id, session, x, y, button };
            let releasing = Committing::Releasing { cursor_id, button };
            let destroying = Committing::Destroying { cursor_id, ending: Ending::Answer(Ok(())) };
            let pressed = committed_table(t, pressing, Ok(()));
            &&& pressed.contains_key(cursor_id@)
            &&& pressed[cursor_id@].held == set![button]
            &&& command_action(pressed, Cmd::Release { cursor_id, button })
                matches ActionView::Commit { committing, .. } && committing == releasing
            &&& committed_table(pressed, releasing, Ok(())) == t
            &&& committed_action(pressed, releasing, Ok(())) == destroy_action(
                cursor_id,
                Ending::Answer(Ok(())),
            )
            &&& committed_table(t, destroying, destroyed) == t
            &&& committed_action(t, destroying, destroyed) == (ActionView::Finish {
                cursor_id,
                connection: ConnectionUse::Close,
                reply: Ok(()),
            })
        }),
{
    let pressing = Committing::Pressing { cursor_id, session, x, y, button };
    let releasing = Committing::Releasing { cursor_id, button };
    let pressed = committed_table(t, pressing, Ok(()));
    assert(pressed[cursor_id@].held.remove(button) =~= Set::empty());
    assert(committed_table(pressed, releasing, Ok(())) =~= t);
}

/// A release of a button leaves the pointer alive where it holds others.
pub proof fn law_a_release_keeps_the_other_buttons(
    t: Map<Seq<char>, PointerView>,
    cursor_id: String,
    button: u32,
    other: u32,
)
    requires
        t.contains_key(cursor_id@),
        t[cursor_id@].held.contains(other),
        other != button,
    ensures
        ({
            let releasing = Committing::Releasing { cursor_id, button };
            let after = committed_table(t, releasing, Ok(()));
            &&& after.contains_key(cursor_id@)
            &&& after[cursor_id@].held == t[cursor_id@].held.remove(button)
            &&& committed_action(t, releasing, Ok(())) == (ActionView::Finish {
                cursor_id,
                connection: ConnectionUse::Keep,
                reply: Ok(()),
            })
        }),
{
    assert(t[cursor_id@].held.remove(button).contains(other));
}

/// Giving a pointer up releases each button that it holds, once, from the
/// smallest code to the largest, and nothing else before it closes the frame.
pub proof fn law_giving_up_releases_every_button(
    t: Map<Seq<char>, PointerView>,
    cursor_id: String,
    left: Option<String>,
)
    requires
        all_hold(t),
        t.contains_key(cursor_id@),
    ensures
        ({
            let held = t[cursor_id@].held;
            let codes = ascending(held);
            &&& codes.to_set() == held
            &&& forall|i: int, j: int| 0 <= i < j < codes.len() ==> codes[i] < codes[j]
            &&& give_up_action(t, cursor_id, left) matches ActionView::Commit { requests, .. }
                && requests == releases(codes).push(PointerRequest::Frame)
        }),
{
    lemma_ascending(t[cursor_id@].held);
}

/// Forgetting a pointer takes it away and closes its connection, whatever the
/// compositor answers; the caller hears of the first failure.
pub proof fn law_forgetting_always_ends_the_pointer(
    t: Map<Seq<char>, PointerView>,
    cursor_id: String,
    released: Result<(), String>,
    destroyed: Result<(), String>,
)
    requires
        t.contains_key(cursor_id@),
    ensures
        ({
            let releasing = Committing::ReleasingAll { cursor_id, left: None };
            let ending = Ending::Forgotten { released };
            let destroying = Committing::Destroying { cursor_id, ending };
            let after = t.remove(cursor_id@);
            &&& command_action(t, Cmd::Forget { cursor_id }) matches ActionView::Commit {
                committing,
                ..
            } && committing == releasing
            &&& committed_table(t, releasing, released) == after
            &&& committed_action(t, releasing, released) == destroy_action(cursor_id, ending)
            &&& committed_table(after, destroying, destroyed) == after
            &&& committed_action(after, destroying, destroyed) == (ActionView::Finish {
                cursor_id,
                connection: ConnectionUse::Close,
                reply: match both(released, destroyed) {
                    Ok(()) => Ok(()),
                    Err(detail) => Err(PointerError::ConnectionFailed { detail }),
                },
            })
        }),
{
}

/// To forget a cursor without a pointer is safe: it succeeds and asks nothing
/// of the compositor.
pub proof fn law_forgetting_nothing_is_safe(t: Map<Seq<char>, PointerView>, cursor_id: String)
    requires
        !t.contains_key(cursor_id@),
    ensures
        command_action(t, Cmd::Forget { cursor_id }) == (ActionView::Finish {
            cursor_id,
            connection: ConnectionUse::Close,
            reply: Ok(()),
        }),
{
}

/// A move within the output changes no pointer.
pub proof fn law_a_move_keeps_the_pointers(t: Map<Seq<char>, PointerView>, cursor_id: String)
    ensures
        committed_table(t, Committing::Moving { cursor_id }, Ok(())) == t,
        committed_action(t, Committing::Moving { cursor_id }, Ok(())) == (ActionView::Finish {
            cursor_id,
            connection: ConnectionUse::Keep,
            reply: Ok(()),
        }),
{
}

/// A pointer is only ever moved to a pixel of its output.
pub proof fn law_moves_stay_on_the_output(
    t: Map<Seq<char>, PointerView>,
    locating: Locating,
    x: Coordinate,
    y: Coordinate,
)
    requires
        t.contains_key(locating.cursor_id@),
        output_point(
            x,
            y,
            t[locating.cursor_id@].out_w,
            t[locating.cursor_id@].out_h,
        ) is Some,
        t[locating.cursor_id@].out_w > 0,
        t[locating.cursor_id@].out_h > 0,
    ensures
        ({
            let pointer = t[locating.cursor_id@];
            exists|place: (u32, u32)|
                place.0 < pointer.out_w && place.1 < pointer.out_h && located_action(
                    t,
                    locating,
                    x,
                    y,
                ) == #[trigger] motion_action(pointer, locating.cursor_id, place)
        }),
{
    let pointer = t[locating.cursor_id@];
    let place = output_point(x, y, pointer.out_w, pointer.out_h)->0;
    assert(located_action(t, locating, x, y) == motion_action(pointer, locating.cursor_id, place));
}

/// A move that leaves the output of its pointer is answered with an error that
/// names the output, and ends the pointer as forgetting it does, whatever the
/// compositor answers.
pub proof fn law_leaving_the_output_ends_the_pointer(
    t: Map<Seq<char>, PointerView>,
    locating: Locating,
    x: Coordinate,
    y: Coordinate,
    released: Result<(), String>,
    destroyed: Result<(), String>,
)
    requires
        t.contains_key(locating.cursor_id@),
        output_point(
            x,
            y,
            t[locating.cursor_id@].out_w,
            t[locating.cursor_id@].out_h,
        ) is None,
    ensures
        ({
            let cursor_id = locating.cursor_id;
            let output_name = locating.output_name;
            let releasing = Committing::ReleasingAll { cursor_id, left: Some(output_name) };
            let ending = Ending::Left { output_name, released };
            let destroying = Committing::Destroying { cursor_id, ending };
            let after = t.remove(cursor_id@);
            &&& located_action(t, locating, x, y) == (ActionView::Commit {
                requests: release_all_requests(t[cursor_id@].held),
                committing: releasing,
            })
            &&& committed_table(t, releasing, released) == after
            &&& committed_action(t, releasing, released) == destroy_action(cursor_id, ending)
            &&& committed_table(after, destroying, destroyed) == after
            &&& committed_action(after, destroying, destroyed) == (ActionView::Finish {
                cursor_id,
                connection: ConnectionUse::Close,
                reply: Err(
                    PointerError::LeftOutput {
                        output_name,
                        cleanup: match both(released, destroyed) {
                            Ok(()) => None,
                            Err(detail) => Some(detail),
                        },
                    },
                ),
            })
        }),
{
}

/// Where the roundtrip of a press, a move or a release fails, the caller is
/// told why, the cursor's connection does not outlive the command, and the
/// cursor can press again on a fresh one.
pub proof fn law_a_failed_roundtrip_starts_afresh(
    t: Map<Seq<char>, PointerView>,
    committing: Committing,
    detail: String,
    destroyed: Result<(), String>,
    window_id: u64,
    opening: Opening,
)
    requires
        committing matches Committing::Pressing { cursor_id, .. } ==> !t.contains_key(cursor_id@),
        committing is Pressing || committing is Moving || committing is Releasing,
        opening.cursor_id == committing_cursor(committing),
    ensures
        ({
            let cursor_id = committing_cursor(committing);
            let after = committed_table(t, committing, Err(detail));
            let reply: Result<(), PointerError> = Err(PointerError::ConnectionFailed { detail });
            let destroying = Committing::Destroying { cursor_id, ending: Ending::Answer(reply) };
            &&& after == t.remove(cursor_id@)
            &&& press_action(after, window_id, opening) is Open
            &&& if committing is Pressing {
                committed_action(t, committing, Err(detail)) == (ActionView::Finish {
                    cursor_id,
                    connection: ConnectionUse::Drop,
                    reply,
                })
            } else {
                &&& committed_action(t, committing, Err(detail)) == destroy_action(
                    cursor_id,
                    Ending::Answer(reply),
                )
                &&& committed_action(after, destroying, destroyed) == (ActionView::Finish {
                    cursor_id,
                    connection: ConnectionUse::Close,
                    reply,
                })
            }
        }),
{
    assert(committed_table(t, committing, Err(detail)) =~= t.remove(
        committing_cursor(committing)@,
    ));
}

} // verus!
