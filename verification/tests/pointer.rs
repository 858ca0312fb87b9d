use std::collections::HashSet;

use platform_linux::pointer::{
    cached_output_point, forget, held_buttons_for_release, move_to, opened, press, release,
    session_fits, Action, Cmd, ConnectionUse, Coordinate, PointerError, PointerRequest,
    PointerTable, SessionTarget,
};

fn coordinate(n: f64) -> Coordinate {
    Coordinate {
        floor: if n.is_nan() { None } else { Some(n.floor() as i64) },
        nearest: n.round() as i64,
    }
}

fn mapped(
    capture: (f64, f64),
    output: (f64, f64),
    scale: f64,
    size: (u32, u32),
    x: i32,
    y: i32,
) -> Option<(u32, u32)> {
    cached_output_point(
        coordinate(output.0 + (f64::from(x) - capture.0) * scale),
        coordinate(output.1 + (f64::from(y) - capture.1) * scale),
        size.0,
        size.1,
    )
}

#[test]
fn cached_drag_mapping_scales_without_requerying_compositor() {
    assert_eq!(
        mapped((100.0, 50.0), (400.0, 200.0), 1.25, (1920, 1080), 180, 90),
        Some((500, 250))
    );
    assert_eq!(mapped((100.0, 50.0), (10.0, 10.0), 1.0, (1920, 1080), 0, 0), None);
}

#[test]
fn cleanup_releases_every_held_button_in_stable_order() {
    let held = HashSet::from([0x112, 0x110, 0x111]);
    assert_eq!(held_buttons_for_release(&held), vec![0x110, 0x111, 0x112]);
}

const LEFT: u32 = 0x110;
const RIGHT: u32 = 0x111;

fn session(output_name: Option<&str>) -> SessionTarget {
    SessionTarget {
        output_w: 1920,
        output_h: 1080,
        target_x: Some(400),
        target_y: Some(200),
        output_name: output_name.map(|name| name.to_owned()),
        capture_x_bits: Some(100.0f64.to_bits()),
        capture_y_bits: Some(50.0f64.to_bits()),
        scale_bits: Some(1.25f64.to_bits()),
    }
}

fn bare_session() -> SessionTarget {
    SessionTarget {
        output_w: 800,
        output_h: 600,
        target_x: None,
        target_y: None,
        output_name: None,
        capture_x_bits: None,
        capture_y_bits: None,
        scale_bits: None,
    }
}

/// What was asked of the compositor, and how the command ended.
struct Ended {
    opened: usize,
    requests: Vec<Vec<PointerRequest>>,
    connection: ConnectionUse,
    reply: Result<(), PointerError>,
}

/// Runs a command against a compositor that answers its roundtrips in turn,
/// and well once the answers have run out.
fn run(
    table: &mut PointerTable,
    cmd: Cmd,
    found: Result<SessionTarget, String>,
    answers: Vec<Result<(), String>>,
) -> Ended {
    let mut answers = answers.into_iter();
    let mut found = Some(found);
    let mut opens = 0;
    let mut requested = Vec::new();
    let mut action = table.handle(cmd);
    loop {
        action = match action {
            Action::Open { opening, .. } => {
                opens += 1;
                opened(opening, found.take().unwrap())
            }
            Action::Locate { mapping, x, y, locating } => {
                let number = |bits: Option<u64>, otherwise: f64| {
                    bits.map(f64::from_bits).unwrap_or(otherwise)
                };
                let scale = number(mapping.scale_bits, 1.0);
                let capture_x = number(mapping.capture_x_bits, f64::from(mapping.pressed.0));
                let capture_y = number(mapping.capture_y_bits, f64::from(mapping.pressed.1));
                let raw_x = f64::from(mapping.output.0) + (f64::from(x) - capture_x) * scale;
                let raw_y = f64::from(mapping.output.1) + (f64::from(y) - capture_y) * scale;
                table.located(locating, coordinate(raw_x), coordinate(raw_y))
            }
            Action::Commit { requests, committing } => {
                requested.push(requests);
                table.committed(committing, answers.next().unwrap_or(Ok(())))
            }
            Action::Finish { connection, reply, .. } => {
                return Ended { opened: opens, requests: requested, connection, reply };
            }
        };
    }
}

fn held(output_name: Option<&str>) -> PointerTable {
    let mut table = PointerTable::new();
    let ended =
        run(&mut table, press("main", 7, 100, 50, LEFT), Ok(session(output_name)), vec![]);
    assert_eq!(ended.reply, Ok(()));
    table
}

#[test]
fn a_press_moves_presses_and_adopts_its_connection() {
    let mut table = PointerTable::new();
    let ended =
        run(&mut table, press("main", 7, 100, 50, LEFT), Ok(session(Some("DP-1"))), vec![]);
    assert_eq!(
        ended.requests,
        vec![vec![
            PointerRequest::Motion { x: 400, y: 200, width: 1920, height: 1080 },
            PointerRequest::Frame,
            PointerRequest::Button { button: LEFT, pressed: true },
            PointerRequest::Frame,
        ]]
    );
    assert_eq!(ended.opened, 1);
    assert_eq!(ended.connection, ConnectionUse::Adopt);
    assert_eq!(ended.reply, Ok(()));
}

#[test]
fn a_press_without_a_target_is_moved_onto_the_output() {
    for (x, y, expected) in [(-5, 9999, (0, 599)), (799, 0, (799, 0)), (800, 12, (799, 12))] {
        let mut table = PointerTable::new();
        let ended = run(&mut table, press("main", 7, x, y, LEFT), Ok(bare_session()), vec![]);
        assert_eq!(
            ended.requests[0][0],
            PointerRequest::Motion { x: expected.0, y: expected.1, width: 800, height: 600 }
        );
    }
}

#[test]
fn a_second_press_is_refused_and_opens_nothing() {
    let mut table = held(None);
    let ended = run(&mut table, press("main", 7, 1, 1, RIGHT), Ok(session(None)), vec![]);
    assert_eq!(ended.opened, 0);
    assert!(ended.requests.is_empty());
    assert_eq!(ended.connection, ConnectionUse::Keep);
    assert_eq!(ended.reply, Err(PointerError::AlreadyHeld { cursor_id: "main".to_owned() }));
    let other = run(&mut table, press("other", 7, 1, 1, RIGHT), Ok(session(None)), vec![]);
    assert_eq!(other.reply, Ok(()));
}

#[test]
fn a_failed_opening_is_reported_and_leaves_nothing() {
    let mut table = PointerTable::new();
    let ended =
        run(&mut table, press("main", 7, 1, 1, LEFT), Err("no compositor".to_owned()), vec![]);
    assert_eq!(
        ended.reply,
        Err(PointerError::ConnectionFailed { detail: "no compositor".to_owned() })
    );
    assert_eq!(ended.connection, ConnectionUse::Drop);
    let moved = run(&mut table, move_to("main", 1, 1), Ok(session(None)), vec![]);
    assert_eq!(moved.reply, Err(PointerError::NothingToMove { cursor_id: "main".to_owned() }));
}

#[test]
fn a_failed_press_is_dropped() {
    let mut table = PointerTable::new();
    let ended = run(
        &mut table,
        press("main", 7, 1, 1, LEFT),
        Ok(session(None)),
        vec![Err("gone".to_owned())],
    );
    assert_eq!(ended.connection, ConnectionUse::Drop);
    assert_eq!(ended.reply, Err(PointerError::ConnectionFailed { detail: "gone".to_owned() }));
    let again = run(&mut table, press("main", 7, 1, 1, LEFT), Ok(session(None)), vec![]);
    assert_eq!(again.reply, Ok(()));
}

#[test]
fn a_bound_move_follows_the_drag_mapping() {
    let mut table = held(Some("DP-1"));
    let ended = run(&mut table, move_to("main", 180, 90), Ok(session(None)), vec![]);
    assert_eq!(
        ended.requests,
        vec![vec![
            PointerRequest::Motion { x: 500, y: 250, width: 1920, height: 1080 },
            PointerRequest::Frame,
        ]]
    );
    assert_eq!(ended.opened, 0);
    assert_eq!(ended.connection, ConnectionUse::Keep);
    assert_eq!(ended.reply, Ok(()));
}

#[test]
fn an_unbound_move_stays_within_the_output() {
    let mut table = held(None);
    for (x, y, expected) in [(-1, 5000, (0, 1079)), (30, 40, (30, 40)), (1920, -7, (1919, 0))] {
        let ended = run(&mut table, move_to("main", x, y), Ok(session(None)), vec![]);
        assert_eq!(
            ended.requests[0][0],
            PointerRequest::Motion { x: expected.0, y: expected.1, width: 1920, height: 1080 }
        );
        assert_eq!(ended.reply, Ok(()));
    }
}

#[test]
fn a_move_off_the_output_releases_and_ends_the_pointer() {
    let mut table = held(Some("DP-1"));
    let ended = run(&mut table, move_to("main", -900, 90), Ok(session(None)), vec![]);
    assert_eq!(
        ended.requests,
        vec![
            vec![
                PointerRequest::Button { button: LEFT, pressed: false },
                PointerRequest::Frame
            ],
            vec![PointerRequest::Destroy],
        ]
    );
    assert_eq!(ended.connection, ConnectionUse::Close);
    let error = ended.reply.unwrap_err();
    assert_eq!(
        error,
        PointerError::LeftOutput { output_name: "DP-1".to_owned(), cleanup: None }
    );
    assert_eq!(
        error.message(),
        "Hyprland held-pointer move leaves bound output DP-1; the held gesture was canceled and its buttons released"
    );
    let released = run(&mut table, release("main", LEFT), Ok(session(None)), vec![]);
    assert_eq!(
        released.reply,
        Err(PointerError::NothingToRelease { cursor_id: "main".to_owned() })
    );
}

#[test]
fn a_move_off_the_output_reports_a_failed_cleanup() {
    let mut table = held(Some("DP-1"));
    let answers = vec![Ok(()), Err("destroy failed".to_owned())];
    let ended = run(&mut table, move_to("main", -900, 90), Ok(session(None)), answers);
    assert_eq!(
        ended.reply.unwrap_err().message(),
        "Hyprland held-pointer move leaves bound output DP-1; the held gesture was canceled and its buttons released, but compositor cleanup failed: destroy failed"
    );
}

#[test]
fn a_failed_move_gives_the_pointer_up() {
    let mut table = held(Some("DP-1"));
    let ended = run(
        &mut table,
        move_to("main", 180, 90),
        Ok(session(None)),
        vec![Err("lost".to_owned()), Err("still lost".to_owned())],
    );
    assert_eq!(ended.requests.last().unwrap(), &vec![PointerRequest::Destroy]);
    assert_eq!(ended.connection, ConnectionUse::Close);
    assert_eq!(ended.reply, Err(PointerError::ConnectionFailed { detail: "lost".to_owned() }));
    let again = run(&mut table, press("main", 7, 1, 1, LEFT), Ok(session(None)), vec![]);
    assert_eq!((again.opened, again.reply), (1, Ok(())));
}

#[test]
fn a_release_of_the_last_button_ends_the_pointer() {
    let mut table = held(None);
    let ended = run(
        &mut table,
        release("main", LEFT),
        Ok(session(None)),
        vec![Ok(()), Err("destroy failed".to_owned())],
    );
    assert_eq!(
        ended.requests,
        vec![
            vec![
                PointerRequest::Button { button: LEFT, pressed: false },
                PointerRequest::Frame
            ],
            vec![PointerRequest::Destroy],
        ]
    );
    assert_eq!(ended.connection, ConnectionUse::Close);
    assert_eq!(ended.reply, Ok(()));
    let again = run(&mut table, release("main", LEFT), Ok(session(None)), vec![]);
    assert_eq!(again.reply, Err(PointerError::NothingToRelease { cursor_id: "main".to_owned() }));
}

#[test]
fn a_release_of_another_button_keeps_the_pointer() {
    let mut table = held(None);
    let ended = run(&mut table, release("main", RIGHT), Ok(session(None)), vec![]);
    assert_eq!(ended.requests.len(), 1);
    assert_eq!(ended.connection, ConnectionUse::Keep);
    assert_eq!(ended.reply, Ok(()));
    let moved = run(&mut table, move_to("main", 1, 1), Ok(session(None)), vec![]);
    assert_eq!(moved.reply, Ok(()));
}

#[test]
fn a_failed_release_gives_the_pointer_up() {
    let mut table = held(None);
    let ended = run(
        &mut table,
        release("main", RIGHT),
        Ok(session(None)),
        vec![Err("lost".to_owned())],
    );
    assert_eq!(ended.connection, ConnectionUse::Close);
    assert_eq!(ended.reply, Err(PointerError::ConnectionFailed { detail: "lost".to_owned() }));
    let moved = run(&mut table, move_to("main", 1, 1), Ok(session(None)), vec![]);
    assert_eq!(moved.reply, Err(PointerError::NothingToMove { cursor_id: "main".to_owned() }));
}

#[test]
fn forgetting_ends_the_pointer_whatever_the_compositor_answers() {
    let failed = |detail: &str| Err::<(), String>(detail.to_owned());
    let error = |detail: &str| {
        Err::<(), PointerError>(PointerError::ConnectionFailed { detail: detail.to_owned() })
    };
    let cases = [
        (vec![Ok(()), Ok(())], Ok(())),
        (vec![failed("first"), Ok(())], error("first")),
        (vec![Ok(()), failed("second")], error("second")),
        (vec![failed("first"), failed("second")], error("first")),
    ];
    for (answers, expected) in cases {
        let mut table = held(None);
        let ended = run(&mut table, forget("main"), Ok(session(None)), answers);
        assert_eq!(ended.requests.len(), 2);
        assert_eq!(ended.connection, ConnectionUse::Close);
        assert_eq!(ended.reply, expected);
        let again = run(&mut table, press("main", 7, 1, 1, LEFT), Ok(session(None)), vec![]);
        assert_eq!(again.reply, Ok(()));
    }
}

#[test]
fn forgetting_nothing_succeeds_without_a_request() {
    let mut table = held(None);
    let ended = run(&mut table, forget("other"), Ok(session(None)), vec![]);
    assert!(ended.requests.is_empty());
    assert_eq!(ended.connection, ConnectionUse::Close);
    assert_eq!(ended.reply, Ok(()));
}

#[test]
fn cursors_do_not_touch_each_other() {
    let mut table = held(None);
    let other = run(&mut table, press("other", 7, 1, 1, RIGHT), Ok(session(None)), vec![]);
    assert_eq!(other.reply, Ok(()));
    assert_eq!(run(&mut table, forget("other"), Ok(session(None)), vec![]).reply, Ok(()));
    let ended = run(&mut table, release("main", LEFT), Ok(session(None)), vec![]);
    assert_eq!(ended.connection, ConnectionUse::Close);
    assert_eq!(ended.reply, Ok(()));
}

#[test]
fn points_on_the_edges_of_an_output() {
    assert_eq!(
        cached_output_point(coordinate(1919.4), coordinate(0.0), 1920, 1080),
        Some((1919, 0))
    );
    assert_eq!(
        cached_output_point(coordinate(1919.6), coordinate(1079.9), 1920, 1080),
        Some((1919, 1079))
    );
    assert_eq!(cached_output_point(coordinate(1920.0), coordinate(0.0), 1920, 1080), None);
    assert_eq!(cached_output_point(coordinate(0.0), coordinate(-0.1), 1920, 1080), None);
    assert_eq!(cached_output_point(coordinate(f64::INFINITY), coordinate(0.0), 9, 9), None);
    assert_eq!(cached_output_point(coordinate(f64::NAN), coordinate(3.0), 9, 9), Some((0, 3)));
}

#[test]
fn only_sides_that_can_be_counted_are_accepted() {
    assert!(session_fits(&bare_session()));
    assert!(!session_fits(&SessionTarget { output_w: 0, ..bare_session() }));
    assert!(!session_fits(&SessionTarget { output_h: 0x8000_0000, ..bare_session() }));
    assert!(session_fits(&SessionTarget {
        output_w: 0,
        output_h: 0,
        target_x: Some(1),
        target_y: Some(2),
        ..bare_session()
    }));
    let table = held(None);
    assert!(table.can_move("main"));
    assert!(table.can_move("other"));
}

#[test]
fn pointer_errors_read_as_callers_expect() {
    let cursor_id = "main".to_owned();
    assert_eq!(
        PointerError::AlreadyHeld { cursor_id: cursor_id.clone() }.message(),
        "cursor 'main' already has a held mouse button"
    );
    assert_eq!(
        PointerError::NothingToMove { cursor_id: cursor_id.clone() }.message(),
        "no held mouse button for cursor 'main'; call mouse_button_down first"
    );
    assert_eq!(
        PointerError::NothingToRelease { cursor_id }.message(),
        "no held mouse button for cursor 'main'"
    );
    assert_eq!(PointerError::ConnectionFailed { detail: "x".to_owned() }.message(), "x");
}
