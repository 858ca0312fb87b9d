use std::collections::HashSet;

use platform_linux::error::HyprError;
use platform_linux::identity::{ActiveWindow, Client, Workspace};
use platform_linux::lookup::{
    app_class, client_for_window, window, window_origin, window_origin_for_pid,
};
use platform_linux::monitors::{Monitor, UNIT_SCALE_BITS};
use platform_linux::registry::IdRegistry;
use platform_linux::visibility::{
    active_workspace_ids, client_is_enumerable, client_is_internal, client_is_visible,
    ensure_visible,
};
use platform_linux::windows::{has_room_to_list, id_for_client, list_windows, Snapshot};

const OWN_PID: u32 = 4242;

fn monitor(active: Option<i32>, special: Option<i32>, disabled: bool) -> Monitor {
    Monitor {
        name: "DP-1".to_owned(),
        width: 1920,
        height: 1080,
        x: 0,
        y: 0,
        scale_bits: UNIT_SCALE_BITS,
        logical_width: 1920,
        logical_height: 1080,
        transform: 0,
        focused: true,
        disabled,
        active_workspace: active.map(|id| Workspace { id }),
        special_workspace: special.map(|id| Workspace { id }),
    }
}

fn client(address: &str, pid: u32, workspace: i32) -> Client {
    Client {
        address: address.to_owned(),
        mapped: true,
        hidden: false,
        at: [100, 200],
        size: [800, 600],
        class: "test-app".to_owned(),
        initial_class: "test-app".to_owned(),
        title: "Test".to_owned(),
        initial_title: "Test".to_owned(),
        stable_id: format!("stable-{address}"),
        pid: Some(pid),
        workspace: Some(Workspace { id: workspace }),
        pinned: false,
    }
}

fn snapshot(clients: Vec<Client>) -> Snapshot {
    Snapshot { clients, monitors: vec![monitor(Some(1), None, false)], own_pid: OWN_PID }
}

fn active(address: &str) -> ActiveWindow {
    ActiveWindow {
        address: address.to_owned(),
        stable_id: String::new(),
        pid: None,
        class: String::new(),
        initial_class: String::new(),
        initial_title: String::new(),
    }
}

#[test]
fn shown_workspaces_are_those_of_enabled_monitors() {
    let ids = active_workspace_ids(&[
        monitor(Some(3), Some(-98), false),
        monitor(Some(4), Some(0), false),
        monitor(Some(5), Some(6), true),
        monitor(None, None, false),
    ]);
    assert_eq!(ids, HashSet::from([3, -98, 4]));
}

#[test]
fn without_known_workspaces_every_workspace_shows() {
    let mut window = client("0x1", 10, 9);
    assert!(client_is_visible(&window, &HashSet::new(), OWN_PID));
    window.workspace = None;
    window.pinned = true;
    assert!(!client_is_visible(&window, &HashSet::new(), OWN_PID));
    window.mapped = false;
    assert!(!client_is_enumerable(&window, OWN_PID));
}

#[test]
fn the_drivers_own_windows_are_internal() {
    assert!(client_is_internal(&client("0x1", OWN_PID, 1), OWN_PID));
    assert!(!client_is_internal(&client("0x1", 10, 1), OWN_PID));
    let prefix = "Cua.AgentCursorOverlay.";
    let named = |set: fn(&mut Client, String), name: &str| {
        let mut window = client("0x1", 10, 1);
        set(&mut window, name.to_owned());
        client_is_internal(&window, OWN_PID)
    };
    assert!(named(|window, name| window.class = name, prefix));
    assert!(named(|window, name| window.initial_class = name, prefix));
    assert!(named(|window, name| window.title = name, "Cua.AgentCursorOverlay.x"));
    assert!(named(|window, name| window.initial_title = name, prefix));
    assert!(!named(|window, name| window.title = name, "Cua.AgentCursorOverlay"));
    assert!(!named(|window, name| window.title = name, "xCua.AgentCursorOverlay."));
}

#[test]
fn a_window_off_the_shown_workspaces_is_refused() {
    let monitors = [monitor(Some(1), None, false)];
    assert_eq!(ensure_visible(&client("0x1", 10, 1), &monitors, OWN_PID), Ok(()));
    let error = ensure_visible(&client("0x1", 10, 2), &monitors, OWN_PID).unwrap_err();
    assert_eq!(error, HyprError::NotVisible);
    assert_eq!(
        error.message(),
        "Hyprland window is not visible on an active workspace; refusing a stale/off-workspace target"
    );
}

#[test]
fn windows_are_listed_in_order_with_their_titles() {
    let mut titles = client("0xa", 20, 1);
    titles.title = "Zed".to_owned();
    let mut no_class = client("0xb", 20, 1);
    no_class.class = " ".to_owned();
    no_class.title = "Alone".to_owned();
    let mut no_title = client("0xc", 20, 1);
    no_title.title = "\t".to_owned();
    let mut nothing = client("0xd", 20, 1);
    nothing.title = String::new();
    nothing.class = String::new();
    let mut above = client("0xe", 20, 1);
    above.at = [100, -5];
    let mut left = client("0xf", 20, 1);
    left.at = [-100, 200];
    let off_screen = client("0x10", 20, 2);
    let mut without_pid = client("0x11", 20, 1);
    without_pid.pid = None;
    let lower_pid = client("0x12", 5, 1);
    let mut unmapped = client("0x13", 5, 1);
    unmapped.mapped = false;
    let mut registry = IdRegistry::default();
    let windows = list_windows(
        &mut registry,
        &snapshot(vec![
            off_screen,
            titles,
            no_class,
            no_title,
            nothing,
            above,
            left,
            without_pid,
            lower_pid,
            unmapped,
            client("0x14", OWN_PID, 1),
        ]),
        None,
    );
    let titles: Vec<&str> = windows.iter().map(|window| window.title.as_str()).collect();
    assert_eq!(
        titles,
        vec![
            "Test [test-app]",
            "Test [test-app]",
            "Test [test-app]",
            "Test [test-app]",
            "0xd",
            "Alone",
            "Zed [test-app]",
            "[test-app]",
            "Test [test-app]",
        ]
    );
    let places: Vec<(Option<u32>, bool, i32, i32)> =
        windows.iter().map(|w| (w.pid, w.is_on_screen, w.y, w.x)).collect();
    assert_eq!(places[0], (None, true, 200, 100));
    assert_eq!(places[1], (Some(5), true, 200, 100));
    assert_eq!(places[2], (Some(20), true, -5, 100));
    assert_eq!(places[3], (Some(20), true, 200, -100));
    assert_eq!(places[8], (Some(20), false, 200, 100));
}

#[test]
fn a_listing_can_be_limited_to_one_process() {
    let mut registry = IdRegistry::default();
    let clients = vec![client("0x1", 10, 1), client("0x2", 20, 1), client("0x3", 10, 2)];
    let windows = list_windows(&mut registry, &snapshot(clients), Some(10));
    assert_eq!(windows.len(), 2);
    assert!(windows.iter().all(|window| window.pid == Some(10)));
    assert!(windows[0].is_on_screen && !windows[1].is_on_screen);
}

#[test]
fn windows_of_one_rank_keep_their_order() {
    let mut registry = IdRegistry::default();
    let windows = list_windows(
        &mut registry,
        &snapshot(vec![client("0x2", 10, 1), client("0x1", 10, 1)]),
        None,
    );
    assert_eq!(windows[0].xid, u64::from(id_for_client(&mut registry, &client("0x2", 10, 1))));
    assert_eq!(windows[1].xid, u64::from(id_for_client(&mut registry, &client("0x1", 10, 1))));
}

#[test]
fn negative_sizes_count_as_none() {
    let mut registry = IdRegistry::default();
    let mut odd = client("0x1", 10, 1);
    odd.size = [-3, 7];
    let windows = list_windows(&mut registry, &snapshot(vec![odd]), None);
    assert_eq!((windows[0].width, windows[0].height), (0, 7));
    assert_eq!((windows[0].x, windows[0].y), (100, 200));
    assert_eq!(windows[0].z_index, None);
    assert_eq!(windows[0].app_name, "test-app");
}

#[test]
fn a_listed_id_finds_its_window_and_no_other() {
    let mut registry = IdRegistry::default();
    let windows = list_windows(&mut registry, &snapshot(vec![client("0x1", 10, 1)]), None);
    let id = windows[0].xid;
    let mut moved = client("0x1", 10, 1);
    moved.at = [7, 8];
    moved.title = "Changed".to_owned();
    let found = window(&mut registry, &snapshot(vec![client("0x2", 10, 1), moved]), id).unwrap();
    assert_eq!((found.xid, found.x, found.y), (id, 7, 8));
    assert_eq!(found.title, "Changed");
    assert!(found.is_on_screen);
    let mut reused = client("0x1", 10, 1);
    reused.stable_id = "another".to_owned();
    let error = window(&mut registry, &snapshot(vec![reused]), id).unwrap_err();
    assert_eq!(error, HyprError::StaleWindow { window_id: id });
    assert_eq!(
        error.message(),
        format!("stale Hyprland window_id {id}; its original window no longer exists")
    );
}

#[test]
fn an_unknown_id_is_told_apart_from_a_stale_one() {
    let mut registry = IdRegistry::default();
    let clients = [client("0x1", 10, 1)];
    let error = client_for_window(&mut registry, &clients, 12).unwrap_err();
    assert_eq!(error, HyprError::UnknownWindow { window_id: 12 });
    assert_eq!(
        error.message(),
        "unknown Hyprland window_id 12; call list_windows to refresh it"
    );
    let huge = client_for_window(&mut registry, &clients, u64::MAX).unwrap_err();
    assert_eq!(
        huge.message(),
        "unknown Hyprland window_id 18446744073709551615; call list_windows to refresh it"
    );
}

#[test]
fn a_window_that_does_not_show_has_no_origin_but_a_class() {
    let mut registry = IdRegistry::default();
    let clients = vec![client("0x1", 10, 1), client("0x2", 10, 2)];
    let shown = u64::from(id_for_client(&mut registry, &clients[0]));
    let off = u64::from(id_for_client(&mut registry, &clients[1]));
    assert_eq!(app_class(&mut registry, &clients, off), Ok("test-app".to_owned()));
    let snapshot = snapshot(clients);
    assert_eq!(window_origin(&mut registry, &snapshot, shown), Ok((100, 200)));
    assert_eq!(window_origin(&mut registry, &snapshot, off), Err(HyprError::NotVisible));
}

#[test]
fn the_origin_of_a_process_is_that_of_its_active_or_only_window() {
    let mut registry = IdRegistry::default();
    let mut second = client("0xB", 10, 1);
    second.at = [1, 2];
    let two = snapshot(vec![client("0xa", 10, 1), second, client("0xc", 20, 1)]);
    assert_eq!(window_origin_for_pid(&mut registry, &two, None, 10), None);
    let focused = active("0xb");
    assert_eq!(window_origin_for_pid(&mut registry, &two, Some(&focused), 10), Some((1, 2)));
    let elsewhere = active("0xc");
    assert_eq!(window_origin_for_pid(&mut registry, &two, Some(&elsewhere), 10), None);
    assert_eq!(window_origin_for_pid(&mut registry, &two, None, 20), Some((100, 200)));
    assert_eq!(window_origin_for_pid(&mut registry, &two, None, 30), None);
}

#[test]
fn a_fresh_registry_has_room_for_a_desktop() {
    let registry = IdRegistry::default();
    assert!(has_room_to_list(&registry, &[client("0x1", 10, 1), client("0x2", 10, 1)]));
}
