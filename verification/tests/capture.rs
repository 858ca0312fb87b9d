use platform_linux::capture::{
    screen_to_window_capture, validate_window_capture_point_for, window_capture_drag_targets,
    window_capture_pointer_target, window_capture_to_screen, window_capture_to_screen_for,
    window_center_pointer_target,
};
use platform_linux::commands::{
    capture_desktop, capture_window, command_error, hyprctl_json, run_grim, CommandOutput,
};
use platform_linux::desktop::{
    desktop_capture_space_for, desktop_capture_to_screen, desktop_span_fits, screen_size,
};
use platform_linux::error::HyprError;
use platform_linux::identity::{Client, Workspace};
use platform_linux::monitors::{
    capture_scale_for_client, monitor_for_point, monitor_physical_size, pointer_target_for,
    Monitor,
};
use platform_linux::registry::IdRegistry;
use platform_linux::windows::{id_for_client, Snapshot};

const OWN_PID: u32 = 4242;

fn monitor(name: &str, size: (u32, u32), at: (i32, i32), scale: f64) -> Monitor {
    Monitor {
        name: name.to_owned(),
        width: size.0,
        height: size.1,
        x: at.0,
        y: at.1,
        scale_bits: scale.to_bits(),
        logical_width: (f64::from(size.0) / scale).round().max(1.0) as u32,
        logical_height: (f64::from(size.1) / scale).round().max(1.0) as u32,
        transform: 0,
        focused: false,
        disabled: false,
        active_workspace: Some(Workspace { id: 1 }),
        special_workspace: None,
    }
}

fn client(at: [i32; 2], size: [i32; 2]) -> Client {
    Client {
        address: "0xa".to_owned(),
        mapped: true,
        hidden: false,
        at,
        size,
        class: "app".to_owned(),
        initial_class: "app".to_owned(),
        title: "title".to_owned(),
        initial_title: "title".to_owned(),
        stable_id: "stable".to_owned(),
        pid: Some(10),
        workspace: Some(Workspace { id: 1 }),
        pinned: false,
    }
}

fn extent(size: (i32, i32), scale_bits: u64) -> (u32, u32) {
    let scale = f64::from_bits(scale_bits);
    (
        (f64::from(size.0) * scale).floor().max(1.0) as u32,
        (f64::from(size.1) * scale).floor().max(1.0) as u32,
    )
}

fn unscale(point: (i32, i32), scale_bits: u64) -> (i32, i32) {
    let scale = f64::from_bits(scale_bits);
    (
        (f64::from(point.0) / scale).round() as i32,
        (f64::from(point.1) / scale).round() as i32,
    )
}

fn place(monitor: &Monitor, x: f64, y: f64) -> (i64, i64) {
    let scale = f64::from_bits(monitor.scale_bits);
    (
        ((x - f64::from(monitor.x)) * scale).round() as i64,
        ((y - f64::from(monitor.y)) * scale).round() as i64,
    )
}

fn scale(monitor: &Monitor, point: (i32, i32)) -> (i64, i64) {
    place(monitor, f64::from(point.0), f64::from(point.1))
}

fn known(client: Client, monitors: Vec<Monitor>) -> (IdRegistry, Snapshot, u64) {
    let mut registry = IdRegistry::default();
    let id = u64::from(id_for_client(&mut registry, &client));
    (registry, Snapshot { clients: vec![client], monitors, own_pid: OWN_PID }, id)
}

fn strings(args: &[&str]) -> Vec<String> {
    args.iter().map(|arg| (*arg).to_owned()).collect()
}

fn output(success: bool, stdout: &[u8], stderr: &[u8]) -> CommandOutput {
    CommandOutput {
        success,
        status: "exit status: 1".to_owned(),
        stdout: stdout.to_vec(),
        stderr: stderr.to_vec(),
    }
}

#[test]
fn odd_transforms_turn_a_monitor() {
    let mut screen = monitor("DP-1", (1920, 1080), (0, 0), 1.0);
    for (transform, expected) in [
        (0, (1920, 1080)),
        (1, (1080, 1920)),
        (2, (1920, 1080)),
        (-1, (1080, 1920)),
        (i32::MIN, (1920, 1080)),
        (i32::MAX, (1080, 1920)),
    ] {
        screen.transform = transform;
        assert_eq!(monitor_physical_size(&screen), expected);
    }
}

#[test]
fn a_point_belongs_to_the_first_enabled_monitor_that_shows_it() {
    let mut off = monitor("off", (100, 100), (0, 0), 1.0);
    off.disabled = true;
    let monitors = [
        off,
        monitor("left", (100, 100), (0, 0), 1.0),
        monitor("also", (200, 100), (0, 0), 1.0),
    ];
    let name = |x: Option<i64>, y: Option<i64>| {
        monitor_for_point(&monitors, x, y).map(|monitor| monitor.name.clone())
    };
    assert_eq!(name(Some(0), Some(0)), Some("left".to_owned()));
    assert_eq!(name(Some(99), Some(99)), Some("left".to_owned()));
    assert_eq!(name(Some(100), Some(99)), Some("also".to_owned()));
    assert_eq!(name(Some(200), Some(0)), None);
    assert_eq!(name(Some(-1), Some(0)), None);
    assert_eq!(name(None, Some(0)), None);
    assert_eq!(name(Some(0), None), None);
}

#[test]
fn a_point_outside_every_output_is_refused() {
    let monitors = [monitor("DP-1", (100, 100), (0, 0), 1.0)];
    let error = pointer_target_for(
        &monitors,
        Some(-1),
        Some(100),
        format!("({:.1}, {:.1})", -0.25, 100.0),
        |monitor| place(monitor, -0.25, 100.0),
    )
    .unwrap_err();
    assert_eq!(
        error.message(),
        "screen point (-0.2, 100.0) is outside every enabled Hyprland output"
    );
}

#[test]
fn a_target_stays_on_its_output() {
    let mut empty = monitor("DP-1", (0, 0), (0, 0), 1.0);
    empty.logical_width = 1;
    empty.logical_height = 1;
    let target =
        pointer_target_for(&[empty], Some(0), Some(0), String::new(), |_| (5, -5)).unwrap();
    assert_eq!((target.output_width, target.output_height), (1, 1));
    assert_eq!((target.output_x, target.output_y), (0, 0));
    let screen = monitor("DP-1", (100, 50), (0, 0), 1.0);
    let target =
        pointer_target_for(&[screen], Some(0), Some(0), String::new(), |_| (100, -5)).unwrap();
    assert_eq!((target.output_x, target.output_y), (99, 0));
}

#[test]
fn a_window_is_captured_at_the_largest_scale_that_shows_it() {
    let monitors = [
        monitor("a", (100, 100), (0, 0), 1.0),
        monitor("b", (200, 200), (100, 0), 2.0),
        monitor("c", (300, 300), (200, 0), 3.0),
    ];
    let at = |x: i32, width: i32| {
        f64::from_bits(capture_scale_for_client(&client([x, 0], [width, 10]), &monitors))
    };
    assert_eq!(at(0, 100), 1.0);
    assert_eq!(at(0, 101), 2.0);
    assert_eq!(at(0, 201), 3.0);
    assert_eq!(at(99, 0), 1.0);
    assert_eq!(at(500, 10), 1.0);
    assert_eq!(at(250, -7), 3.0);
}

#[test]
fn a_point_outside_the_capture_is_named_with_its_bounds() {
    let monitors = [monitor("DP-1", (1920, 1080), (0, 0), 1.5)];
    let window = client([0, 0], [10, 10]);
    let error =
        validate_window_capture_point_for(&window, &monitors, &extent, -4, 15).unwrap_err();
    assert_eq!(
        error.message(),
        "window capture point (-4, 15) is outside the target screenshot's exclusive bounds 0..15 x 0..15"
    );
    let tiny = client([0, 0], [-10, 0]);
    assert!(validate_window_capture_point_for(&tiny, &monitors, &extent, 0, 0).is_ok());
    assert!(validate_window_capture_point_for(&tiny, &monitors, &extent, 1, 0).is_err());
}

#[test]
fn far_places_saturate() {
    let window = client([i32::MAX - 5, i32::MIN], [10, 10]);
    assert_eq!(
        window_capture_to_screen_for(&window, &[], &unscale, 100, -100),
        (i32::MAX, i32::MIN)
    );
}

#[test]
fn a_capture_point_leads_to_the_screen() {
    let monitors = vec![monitor("DP-1", (1920, 1080), (0, 0), 1.5)];
    let (mut registry, snapshot, id) = known(client([100, 100], [800, 600]), monitors);
    let at = |registry: &mut IdRegistry, id: u64, x: i32, y: i32| {
        window_capture_to_screen(registry, &snapshot, id, &extent, &unscale, x, y)
    };
    assert_eq!(at(&mut registry, id, 150, 75), Ok((200, 150)));
    assert_eq!(
        at(&mut registry, id, 1200, 0),
        Err(HyprError::CapturePointOutside { x: 1200, y: 0, width: 1200, height: 900 })
    );
    assert_eq!(at(&mut registry, 3, 0, 0), Err(HyprError::UnknownWindow { window_id: 3 }));
}

#[test]
fn a_capture_point_leads_to_an_output() {
    let monitors = vec![monitor("DP-1", (300, 300), (0, 0), 1.5)];
    let (mut registry, snapshot, id) = known(client([100, 100], [800, 600]), monitors);
    let at = |registry: &mut IdRegistry, x: i32, y: i32| {
        window_capture_pointer_target(registry, &snapshot, id, &extent, &unscale, &scale, x, y)
    };
    let shown = at(&mut registry, 60, 75).unwrap();
    assert_eq!((shown.target.output_x, shown.target.output_y), (210, 225));
    assert_eq!((shown.screen_x, shown.screen_y), (140, 150));
    assert_eq!(
        at(&mut registry, 150, 75).unwrap_err().message(),
        "screen point (200.0, 150.0) is outside every enabled Hyprland output"
    );
    assert!(matches!(
        at(&mut registry, -1, 0),
        Err(HyprError::CapturePointOutside { x: -1, y: 0, width: 1200, height: 900 })
    ));
}

#[test]
fn a_drag_needs_both_ends() {
    let monitors = vec![monitor("DP-1", (300, 300), (0, 0), 1.5)];
    let (mut registry, snapshot, id) = known(client([100, 100], [800, 600]), monitors);
    let between = |registry: &mut IdRegistry, from: (i32, i32), to: (i32, i32)| {
        window_capture_drag_targets(
            registry, &snapshot, id, &extent, &unscale, &scale, from, to,
        )
    };
    let (from, to) = between(&mut registry, (0, 0), (60, 75)).unwrap();
    assert_eq!((from.target.output_x, from.target.output_y), (150, 150));
    assert_eq!((from.screen_x, from.screen_y), (100, 100));
    assert_eq!((to.target.output_x, to.target.output_y), (210, 225));
    assert_eq!((to.screen_x, to.screen_y), (140, 150));
    assert!(matches!(
        between(&mut registry, (600, 0), (-1, 0)),
        Err(HyprError::CapturePointOutside { x: -1, .. })
    ));
    assert_eq!(
        between(&mut registry, (600, 0), (900, 0)).unwrap_err().message(),
        "screen point (500.0, 100.0) is outside every enabled Hyprland output"
    );
    assert_eq!(
        between(&mut registry, (0, 0), (900, 0)).unwrap_err().message(),
        "screen point (700.0, 100.0) is outside every enabled Hyprland output"
    );
}

#[test]
fn the_middle_of_a_window_may_lie_between_pixels() {
    let halved = |monitor: &Monitor, point: (i64, i64)| {
        place(monitor, point.0 as f64 / 2.0, point.1 as f64 / 2.0)
    };
    let monitors = vec![monitor("DP-1", (200, 200), (0, 0), 2.0)];
    let (mut registry, snapshot, id) = known(client([10, 20], [5, 0]), monitors);
    let shown = window_center_pointer_target(&mut registry, &snapshot, id, halved).unwrap();
    assert_eq!((shown.target.output_x, shown.target.output_y), (25, 41));
    assert_eq!((shown.doubled_x, shown.doubled_y), (25, 41));
    let monitors = vec![monitor("DP-1", (200, 200), (50, 0), 2.0)];
    let (mut registry, snapshot, id) = known(client([-4, 20], [5, 2]), monitors);
    assert_eq!(
        window_center_pointer_target(&mut registry, &snapshot, id, halved)
            .unwrap_err()
            .message(),
        "screen point (-1.5, 21.0) is outside every enabled Hyprland output"
    );
}

#[test]
fn screen_points_are_handed_over_with_place_and_scale() {
    let monitors = vec![monitor("DP-1", (1920, 1080), (0, 0), 1.5)];
    let (mut registry, snapshot, id) = known(client([100, 40], [800, 600]), monitors);
    let to_capture = |at: (i32, i32), scale_bits: u64| {
        let scale = f64::from_bits(scale_bits);
        ((110.0 - f64::from(at.0)) * scale, (50.0 - f64::from(at.1)) * scale)
    };
    assert_eq!(
        screen_to_window_capture(&mut registry, &snapshot, id, to_capture),
        Ok((15.0, 15.0))
    );
}

#[test]
fn the_desktop_spans_its_enabled_monitors() {
    let mut off = monitor("off", (9000, 9000), (-9000, -9000), 4.0);
    off.disabled = true;
    let monitors = [
        off,
        monitor("a", (300, 200), (-100, 50), 2.0),
        monitor("b", (100, 400), (60, -10), 1.0),
    ];
    assert!(desktop_span_fits(&monitors));
    let space = desktop_capture_space_for(&monitors).unwrap();
    assert_eq!((space.origin_x, space.origin_y), (-100, -10));
    assert_eq!((space.extent_x, space.extent_y), (260, 400));
    assert_eq!(f64::from_bits(space.scale_bits), 2.0);
    assert_eq!(desktop_capture_to_screen(&monitors, unscale, 100, 31), Ok((-50, 6)));
    assert_eq!(desktop_capture_space_for(&monitors[..1]), Err(HyprError::NoEnabledMonitors));
    let far = [
        monitor("a", (100, 100), (i32::MIN, 0), 1.0),
        monitor("b", (100, 100), (0, 0), 1.0),
    ];
    assert!(!desktop_span_fits(&far));
}

#[test]
fn the_screen_is_the_focused_or_first_enabled_monitor() {
    let mut off = monitor("off", (9, 9), (0, 0), 1.0);
    off.disabled = true;
    off.focused = true;
    let first = monitor("first", (300, 200), (1, 2), 2.0);
    let mut focused = monitor("focused", (100, 50), (3, 4), 1.0);
    focused.focused = true;
    let unit = 1.0f64.to_bits();
    let mut monitors = vec![off, first, focused];
    assert_eq!(screen_size(&monitors), Ok((100, 50, unit, 3, 4, "focused".to_owned())));
    monitors.pop();
    assert_eq!(
        screen_size(&monitors),
        Ok((150, 100, 2.0f64.to_bits(), 1, 2, "first".to_owned()))
    );
    monitors.pop();
    let error = screen_size(&monitors).unwrap_err();
    assert_eq!(error.message(), "hyprctl monitors returned no enabled monitors");
}

#[test]
fn captures_name_their_region() {
    let monitors = vec![monitor("DP-1", (1920, 1080), (0, 0), 1.0)];
    let (mut registry, snapshot, id) = known(client([-12, 340], [0, 600]), monitors);
    assert_eq!(
        capture_window(&mut registry, &snapshot, id),
        Ok(strings(&["-g", "-12,340 1x600", "-t", "png", "-"]))
    );
    assert_eq!(
        capture_window(&mut registry, &snapshot, 1),
        Err(HyprError::UnknownWindow { window_id: 1 })
    );
    assert_eq!(capture_desktop(), strings(&["-t", "png", "-"]));
}

#[test]
fn an_image_needs_a_command_that_worked_and_wrote() {
    let args = capture_desktop();
    assert_eq!(run_grim(&args, output(true, b"image", b"noise")), Ok(b"image".to_vec()));
    assert_eq!(
        run_grim(&args, output(false, b"image", b" no display\n")).unwrap_err().message(),
        "grim -t png - failed: no display"
    );
    assert_eq!(
        run_grim(&args, output(true, b"", b"")).unwrap_err().message(),
        "grim -t png - produced no output"
    );
}

#[test]
fn an_answer_is_parsed_or_its_failure_named() {
    let args = strings(&["clients"]);
    let parse = |answer: &[u8]| {
        if answer == b"7" { Ok(7) } else { Err("expected value".to_owned()) }
    };
    assert_eq!(hyprctl_json(&args, output(true, b"7", b""), parse), Ok(7));
    assert_eq!(
        hyprctl_json(&args, output(true, b"x", b""), parse).unwrap_err().message(),
        "invalid hyprctl -j clients response: expected value"
    );
    assert_eq!(
        hyprctl_json(&args, output(false, b"7", b"\tno ipc \xff\n"), parse)
            .unwrap_err()
            .message(),
        "hyprctl -j clients failed: no ipc \u{fffd}"
    );
}

#[test]
fn a_failed_command_is_told_by_what_it_wrote() {
    assert_eq!(command_error(&output(false, b"out", b" err\n")), "err");
    assert_eq!(command_error(&output(false, b" out\n", b" \n")), "out");
    assert_eq!(command_error(&output(false, b"\xc2\xa0", b"")), "exit status exit status: 1");
    assert_eq!(command_error(&output(false, b"", b"a\xf0b")), "a\u{fffd}b");
}
