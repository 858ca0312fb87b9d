use std::cell::Cell;
use std::collections::HashSet;

use platform_linux::capture::{
    validate_window_capture_point_for, window_capture_extent_for, window_capture_to_screen_for,
};
use platform_linux::desktop::{
    desktop_capture_space_for, desktop_capture_to_screen_for, DesktopCaptureSpace,
};
use platform_linux::error::Failure;
use platform_linux::focus::{
    focus_restore_decision, focus_with_rollback, FocusLease, FocusRestoreDecision,
    FocusRestoreOutcome,
};
use platform_linux::identity::{Client, WindowIdentity, Workspace};
use platform_linux::monitors::{pointer_target_for, Monitor, PointerTarget};
use platform_linux::registry::{is_surrogate_window_id, IdRegistry};
use platform_linux::session::{desktop_mentions_hyprland, session_markers_indicate_hyprland};
use platform_linux::visibility::{client_is_enumerable, client_is_visible};

const OWN_PID: u32 = 4242;

fn logical(length: u32, scale: f64) -> u32 {
    (f64::from(length) / scale).round().max(1.0) as u32
}

fn turned(name: &str, size: (u32, u32), at: (i32, i32), scale: f64, transform: i32) -> Monitor {
    let physical = if transform.rem_euclid(2) == 1 { (size.1, size.0) } else { size };
    Monitor {
        name: name.to_owned(),
        width: size.0,
        height: size.1,
        x: at.0,
        y: at.1,
        scale_bits: scale.to_bits(),
        logical_width: logical(physical.0, scale),
        logical_height: logical(physical.1, scale),
        transform,
        focused: false,
        disabled: false,
        active_workspace: Some(Workspace { id: 1 }),
        special_workspace: None,
    }
}

fn monitor(name: &str, width: u32, height: u32, x: i32, y: i32, scale: f64) -> Monitor {
    turned(name, (width, height), (x, y), scale, 0)
}

fn client(address: &str, pid: u32, workspace: i32) -> Client {
    Client {
        address: address.to_owned(),
        mapped: true,
        hidden: false,
        at: [100, 200],
        size: [800, 600],
        class: "test-app".to_owned(),
        initial_class: "test-app".to_owned(),
        title: "Test".to_owned(),
        initial_title: "Test".to_owned(),
        stable_id: format!("stable-{address}"),
        pid: Some(pid),
        workspace: Some(Workspace { id: workspace }),
        pinned: false,
    }
}

fn identity(address: &str, stable_id: &str) -> WindowIdentity {
    WindowIdentity {
        address: address.to_owned(),
        stable_id: stable_id.to_owned(),
        pid: Some(10),
        initial_class: "app".to_owned(),
        initial_title: "title".to_owned(),
    }
}

fn target_at(monitors: &[Monitor], x: f64, y: f64) -> PointerTarget {
    pointer_target_for(
        monitors,
        Some(x.floor() as i64),
        Some(y.floor() as i64),
        format!("({x:.1}, {y:.1})"),
        |monitor| {
            let scale = f64::from_bits(monitor.scale_bits);
            (
                ((x - f64::from(monitor.x)) * scale).round() as i64,
                ((y - f64::from(monitor.y)) * scale).round() as i64,
            )
        },
    )
    .unwrap()
}

fn extent(size: (i32, i32), scale_bits: u64) -> (u32, u32) {
    let scale = f64::from_bits(scale_bits);
    (
        (f64::from(size.0) * scale).floor().max(1.0) as u32,
        (f64::from(size.1) * scale).floor().max(1.0) as u32,
    )
}

fn unscale(point: (i32, i32), scale_bits: u64) -> (i32, i32) {
    let scale = f64::from_bits(scale_bits);
    (
        (f64::from(point.0) / scale).round() as i32,
        (f64::from(point.1) / scale).round() as i32,
    )
}

#[test]
fn desktop_detection_handles_composite_values_and_nested_sessions() {
    assert!(desktop_mentions_hyprland("X-Cinnamon:Hyprland"));
    assert!(!desktop_mentions_hyprland("GNOME"));
    assert!(session_markers_indicate_hyprland(true, Some("GNOME"), false));
    assert!(!session_markers_indicate_hyprland(true, Some("Hyprland"), true));
}

#[test]
fn surrogate_ids_are_stable_and_collision_safe() {
    let identity = WindowIdentity {
        address: "0x123456789".to_owned(),
        stable_id: "stable".to_owned(),
        pid: Some(10),
        initial_class: "app".to_owned(),
        initial_title: "title".to_owned(),
    };
    let mut registry = IdRegistry::default();
    let first = registry.register_with_candidate(identity.clone(), 7);
    assert_eq!(registry.register_with_candidate(identity.clone(), 7), first);
    let second = registry.register_with_candidate(
        WindowIdentity { address: "0x987654321".to_owned(), ..identity },
        7,
    );
    assert_ne!(first, second);
    assert!(is_surrogate_window_id(u64::from(first)));
}

#[test]
fn visibility_filters_hidden_inactive_and_internal_clients() {
    let visible = client("0x1", 10, 2);
    let mut hidden = client("0x2", 10, 2);
    hidden.hidden = true;
    let inactive = client("0x3", 10, 3);
    let mut pinned = client("0x4", 10, 3);
    pinned.pinned = true;
    let mut internal = client("0x5", OWN_PID, 2);
    internal.class = "Cua.AgentCursorOverlay.default".to_owned();
    let workspaces = HashSet::from([2]);
    assert!(client_is_visible(&visible, &workspaces, OWN_PID));
    assert!(!client_is_visible(&hidden, &workspaces, OWN_PID));
    assert!(client_is_enumerable(&hidden, OWN_PID));
    assert!(!client_is_visible(&inactive, &workspaces, OWN_PID));
    assert!(client_is_enumerable(&inactive, OWN_PID));
    assert!(client_is_visible(&pinned, &workspaces, OWN_PID));
    assert!(!client_is_visible(&internal, &workspaces, OWN_PID));
}

#[test]
fn mixed_scale_layout_maps_global_points_to_named_outputs() {
    let monitors = [
        monitor("DP-1", 3840, 2160, 0, 0, 1.6),
        monitor("eDP-1", 2880, 1800, 300, 1350, 1.6),
    ];
    let target = target_at(&monitors, 500.0, 1000.0);
    assert_eq!(target.output_name, "DP-1");
    assert_eq!((target.output_x, target.output_y), (800, 1600));
    let space = desktop_capture_space_for(&monitors).unwrap();
    assert_eq!((space.origin_x, space.origin_y), (0, 0));
    assert_eq!(f64::from_bits(space.scale_bits), 1.6);
}

#[test]
fn rotated_output_swaps_pointer_extents() {
    let portrait = turned("DP-1", (1920, 1080), (0, 0), 1.0, 1);
    let target = target_at(&[portrait], 270.0, 1440.0);
    assert_eq!((target.output_width, target.output_height), (1080, 1920));
    assert_eq!((target.output_x, target.output_y), (270, 1440));
}

#[test]
fn window_capture_pixels_round_trip_to_output_bound_coordinates() {
    let monitor = monitor("DP-2", 1920, 1080, -1280, 0, 1.5);
    let mut window = client("0x123", 10, 1);
    window.at = [-1000, 100];
    window.size = [800, 600];
    let (screen_x, screen_y) = window_capture_to_screen_for(
        &window,
        std::slice::from_ref(&monitor),
        &unscale,
        150,
        75,
    );
    assert_eq!((screen_x, screen_y), (-900, 150));
    let target = target_at(std::slice::from_ref(&monitor), -900.0, 150.0);
    assert_eq!(target.output_name, "DP-2");
    assert_eq!((target.output_x, target.output_y), (570, 225));
}

#[test]
fn window_capture_bounds_reject_adjacent_surface_escape() {
    let monitor = monitor("DP-2", 1920, 1080, 0, 0, 1.5);
    let mut window = client("0x123", 10, 1);
    window.at = [100, 100];
    window.size = [800, 600];
    let monitors = [monitor];
    assert_eq!(window_capture_extent_for(&window, &monitors, &extent), (1200, 900));
    for (x, y) in [(-1, 10), (10, -1), (1200, 10), (10, 900)] {
        assert!(validate_window_capture_point_for(&window, &monitors, &extent, x, y).is_err());
    }
    assert!(validate_window_capture_point_for(&window, &monitors, &extent, 1199, 899).is_ok());
}

#[test]
fn desktop_capture_pixels_convert_to_global_logical_coordinates() {
    let space = DesktopCaptureSpace {
        origin_x: -1200,
        origin_y: 300,
        extent_x: 2000,
        extent_y: 1200,
        scale_bits: 1.5f64.to_bits(),
    };
    let offset = unscale((450, 300), space.scale_bits);
    assert_eq!(desktop_capture_to_screen_for(&space, offset), (-900, 500));
}

#[test]
fn temporary_focus_restore_skips_user_focus_takeover() {
    let target = identity("0xabc", "target");
    let prior = identity("0xdef", "prior");
    let user_target = identity("0x987", "user");
    let lease = FocusLease { target, prior: Some(prior.clone()) };
    assert_eq!(
        focus_restore_decision(&lease, Some(&user_target), &[prior.clone(), user_target.clone()]),
        FocusRestoreDecision::ActiveFocusChanged
    );
}

#[test]
fn temporary_focus_restore_skips_reused_prior_address() {
    let target = identity("0xabc", "target");
    let prior = identity("0xdef", "prior");
    let reused = identity("0xdef", "replacement");
    let lease = FocusLease { target: target.clone(), prior: Some(prior) };
    assert_eq!(
        focus_restore_decision(&lease, Some(&target), &[target.clone(), reused]),
        FocusRestoreDecision::PriorWindowUnavailable
    );
    assert_eq!(
        focus_restore_decision(&lease, Some(&target), &[target.clone()]),
        FocusRestoreDecision::PriorWindowUnavailable
    );
}

#[test]
fn temporary_focus_restore_requires_exact_live_prior_identity() {
    let target = identity("0xabc", "target");
    let prior = identity("0xdef", "prior");
    let lease = FocusLease { target: target.clone(), prior: Some(prior.clone()) };
    assert_eq!(
        focus_restore_decision(&lease, Some(&target), &[target.clone(), prior.clone()]),
        FocusRestoreDecision::Restore(prior)
    );
}

#[test]
fn failed_focus_confirmation_runs_guarded_rollback() {
    let target = identity("0xabc", "target");
    let prior = identity("0xdef", "prior");
    let lease = FocusLease { target, prior: Some(prior) };
    let rolled_back = Cell::new(false);
    let error = focus_with_rollback(
        lease,
        |_: &WindowIdentity| Err(Failure::new("confirmation timed out".to_owned())),
        |_| {
            rolled_back.set(true);
            Ok(FocusRestoreOutcome::Restored)
        },
    )
    .unwrap_err();
    assert!(rolled_back.get());
    assert!(error.message().contains("guarded rollback"));
}
