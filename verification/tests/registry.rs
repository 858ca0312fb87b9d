use platform_linux::identity::{live_identities, ActiveWindow, Client, WindowIdentity, Workspace};
use platform_linux::lookup::clients;
use platform_linux::registry::{
    is_surrogate_window_id, surrogate_seed, IdRegistry, SURROGATE_ID_MIN,
};

fn client(address: &str, stable_id: &str) -> Client {
    Client {
        address: address.to_owned(),
        mapped: true,
        hidden: false,
        at: [0, 0],
        size: [10, 10],
        class: "app".to_owned(),
        initial_class: "app".to_owned(),
        title: "title".to_owned(),
        initial_title: "title".to_owned(),
        stable_id: stable_id.to_owned(),
        pid: Some(10),
        workspace: Some(Workspace { id: 1 }),
        pinned: false,
    }
}

fn identity(address: &str, stable_id: &str) -> WindowIdentity {
    WindowIdentity::from(&client(address, stable_id))
}

#[test]
fn seeds_follow_the_bytes_of_the_address() {
    assert_eq!(surrogate_seed(""), 0x811c_9dc5);
    assert_eq!(surrogate_seed("a"), 0xe40c_292c);
    assert_eq!(surrogate_seed("foobar"), 0xbf9c_f968);
}

#[test]
fn surrogate_ids_are_the_upper_half_of_the_range() {
    assert_eq!(SURROGATE_ID_MIN, 0x8000_0000);
    assert!(!is_surrogate_window_id(0));
    assert!(!is_surrogate_window_id(0x7fff_ffff));
    assert!(is_surrogate_window_id(0x8000_0000));
    assert!(is_surrogate_window_id(0xffff_ffff));
    assert!(!is_surrogate_window_id(0x1_0000_0000));
}

#[test]
fn probing_goes_up_and_round() {
    let mut registry = IdRegistry::default();
    assert_eq!(registry.register_with_candidate(identity("0x1", "a"), 7), 0x8000_0007);
    assert_eq!(registry.register_with_candidate(identity("0x2", "b"), 0x8000_0007), 0x8000_0008);
    assert_eq!(registry.register_with_candidate(identity("0x3", "c"), 0xffff_ffff), 0xffff_ffff);
    assert_eq!(registry.register_with_candidate(identity("0x4", "d"), 0x7fff_ffff), 0x8000_0000);
}

#[test]
fn registering_starts_from_the_seed_of_the_address() {
    let mut registry = IdRegistry::default();
    assert_eq!(registry.register(identity("foobar", "a")), 0xbf9c_f968);
    assert_eq!(registry.register(identity("foobar", "a")), 0xbf9c_f968);
}

#[test]
fn a_reused_address_gets_another_id() {
    let mut registry = IdRegistry::default();
    let first = registry.register(identity("foobar", "a"));
    let second = registry.register(identity("foobar", "b"));
    assert_ne!(first, second);
    assert_eq!(registry.identity(u64::from(first)), Some(&identity("foobar", "a")));
    assert_eq!(registry.identity(u64::from(second)), Some(&identity("foobar", "b")));
    let third = registry.register(identity("foobar", "a"));
    assert_ne!(third, first);
    assert_ne!(third, second);
}

#[test]
fn ids_that_were_never_given_out_are_unknown() {
    let mut registry = IdRegistry::default();
    let id = u64::from(registry.register(identity("foobar", "a")));
    assert!(registry.identity(id + 1).is_none());
    assert!(registry.identity(id + 0x1_0000_0000).is_none());
    assert!(registry.identity(u64::MAX).is_none());
}

#[test]
fn a_sync_keeps_the_ids_of_live_windows() {
    let mut registry = IdRegistry::default();
    registry.sync(&[client("foobar", "a"), client("a", "b")]);
    assert_eq!(registry.identity(0xbf9c_f968), Some(&identity("foobar", "a")));
    assert_eq!(registry.identity(0xe40c_292c), Some(&identity("a", "b")));
    registry.sync(&[client("foobar", "a")]);
    assert_eq!(registry.register(identity("foobar", "a")), 0xbf9c_f968);
    assert_eq!(registry.identity(0xe40c_292c), Some(&identity("a", "b")));
}

#[test]
fn a_window_that_comes_back_gets_a_new_id() {
    let mut registry = IdRegistry::default();
    registry.sync(&[client("foobar", "a")]);
    registry.sync(&[]);
    registry.sync(&[client("foobar", "a")]);
    assert_eq!(registry.register(identity("foobar", "a")), 0xbf9c_f969);
}

#[test]
fn a_sync_goes_by_address_and_takes_the_last_of_two() {
    let mut registry = IdRegistry::default();
    registry.sync(&[client("foobar", "old"), client("a", "x"), client("foobar", "new")]);
    assert_eq!(registry.identity(0xbf9c_f968), Some(&identity("foobar", "new")));
    assert!(registry.identity(0xbf9c_f969).is_none());
}

#[test]
fn syncing_again_changes_nothing() {
    let windows = vec![client("foobar", "a"), client("a", "b")];
    let mut registry = IdRegistry::default();
    let windows = clients(&mut registry, windows);
    let windows = clients(&mut registry, windows);
    assert_eq!(windows.len(), 2);
    assert_eq!(registry.register(identity("foobar", "a")), 0xbf9c_f968);
    assert_eq!(registry.register(identity("a", "b")), 0xe40c_292c);
    assert!(registry.identity(0xbf9c_f969).is_none());
}

#[test]
fn room_is_left_until_the_ids_run_out() {
    let mut registry = IdRegistry::default();
    assert!(registry.has_room_for(0x8000_0000));
    assert!(!registry.has_room_for(0x8000_0001));
    registry.register(identity("foobar", "a"));
    assert!(registry.has_room_for(0x7fff_ffff));
    assert!(!registry.has_room_for(0x8000_0000));
}

#[test]
fn identities_fall_back_to_the_present_class() {
    let mut window = client("0x1", "s");
    window.initial_class = String::new();
    window.class = "present".to_owned();
    assert_eq!(WindowIdentity::from(&window).initial_class, "present");
    let identities = live_identities(&[client("0x1", "s"), client("0x2", "t")]);
    assert_eq!(identities, vec![identity("0x1", "s"), identity("0x2", "t")]);
}

#[test]
fn a_blank_address_is_no_active_window() {
    let mut active = ActiveWindow {
        address: " \u{3000}\t".to_owned(),
        stable_id: "s".to_owned(),
        pid: Some(10),
        class: "present".to_owned(),
        initial_class: String::new(),
        initial_title: "title".to_owned(),
    };
    assert_eq!(active.identity(), None);
    active.address = "0x1".to_owned();
    let mut expected = identity("0x1", "s");
    expected.initial_class = "present".to_owned();
    assert_eq!(active.identity(), Some(expected));
}
