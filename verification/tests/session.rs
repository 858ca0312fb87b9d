use platform_linux::identity::Workspace;
use platform_linux::monitors::{Monitor, UNIT_SCALE_BITS};
use platform_linux::session::{
    desktop_mentions_hyprland, is_session, session_markers_indicate_hyprland,
};

fn monitor(disabled: bool) -> Monitor {
    Monitor {
        name: "DP-1".to_owned(),
        width: 1920,
        height: 1080,
        x: 0,
        y: 0,
        scale_bits: UNIT_SCALE_BITS,
        logical_width: 1920,
        logical_height: 1080,
        transform: 0,
        focused: true,
        disabled,
        active_workspace: Some(Workspace { id: 1 }),
        special_workspace: None,
    }
}

#[test]
fn desktop_names_are_trimmed_and_compared_without_case() {
    assert!(desktop_mentions_hyprland("hyprland"));
    assert!(desktop_mentions_hyprland("GNOME; \u{a0}HYPRLAND\u{2003} ;KDE"));
    assert!(desktop_mentions_hyprland("a:b;\thYpRlAnD"));
    assert!(!desktop_mentions_hyprland(""));
    assert!(!desktop_mentions_hyprland("hyprland-session"));
    assert!(!desktop_mentions_hyprland("not hyprland"));
    assert!(!desktop_mentions_hyprland("hypr land"));
    assert!(!desktop_mentions_hyprland("hyprland\u{200b}"));
    assert!(!desktop_mentions_hyprland("hyprlan\u{130}"));
}

#[test]
fn session_markers_need_a_signature_or_a_name() {
    assert!(session_markers_indicate_hyprland(false, Some("Hyprland"), false));
    assert!(session_markers_indicate_hyprland(true, None, false));
    assert!(!session_markers_indicate_hyprland(false, Some("GNOME"), false));
    assert!(!session_markers_indicate_hyprland(false, None, false));
    assert!(!session_markers_indicate_hyprland(true, None, true));
}

#[test]
fn a_session_needs_an_enabled_monitor_once() {
    assert!(is_session(true, false, None));
    assert!(!is_session(false, false, Some(&[monitor(false)])));
    assert!(!is_session(false, true, None));
    assert!(!is_session(false, true, Some(&[])));
    assert!(!is_session(false, true, Some(&[monitor(true)])));
    assert!(is_session(false, true, Some(&[monitor(true), monitor(false)])));
}

#[test]
fn the_bits_of_a_scale_of_one() {
    assert_eq!(f64::from_bits(UNIT_SCALE_BITS), 1.0);
}
