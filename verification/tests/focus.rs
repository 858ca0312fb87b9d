use std::cell::RefCell;

use platform_linux::commands::CommandOutput;
use platform_linux::error::{Failure, HyprError};
use platform_linux::focus::{
    begin_temporary_focus, begin_temporary_focus_for_client, focus_identity,
    focus_restore_decision, focus_step, focus_time_is_over, focus_window, focus_with_rollback,
    restore_temporary_focus, temporary_focus_lease, validate_temporary_focus,
    verified_prior_identity, wait_for_focused_identity, with_focused_client, with_focused_window,
    with_focused_window_id, FocusLease, FocusRestoreDecision, FocusRestoreOutcome, FocusStep,
    FocusWait, FOCUS_POLL_INTERVAL_MS, FOCUS_TIMEOUT_MS,
};
use platform_linux::identity::{ActiveWindow, Client, WindowIdentity, Workspace};
use platform_linux::monitors::{Monitor, UNIT_SCALE_BITS};
use platform_linux::registry::IdRegistry;
use platform_linux::windows::{id_for_client, Snapshot};

const OWN_PID: u32 = 4242;

fn monitor() -> Monitor {
    Monitor {
        name: "DP-1".to_owned(),
        width: 1920,
        height: 1080,
        x: 0,
        y: 0,
        scale_bits: UNIT_SCALE_BITS,
        logical_width: 1920,
        logical_height: 1080,
        transform: 0,
        focused: true,
        disabled: false,
        active_workspace: Some(Workspace { id: 1 }),
        special_workspace: None,
    }
}

fn client(address: &str, workspace: i32) -> Client {
    Client {
        address: address.to_owned(),
        mapped: true,
        hidden: false,
        at: [0, 0],
        size: [10, 10],
        class: "app".to_owned(),
        initial_class: "app".to_owned(),
        title: "title".to_owned(),
        initial_title: "title".to_owned(),
        stable_id: format!("stable-{address}"),
        pid: Some(10),
        workspace: Some(Workspace { id: workspace }),
        pinned: false,
    }
}

fn active(client: &Client) -> ActiveWindow {
    ActiveWindow {
        address: client.address.clone(),
        stable_id: client.stable_id.clone(),
        pid: client.pid,
        class: client.class.clone(),
        initial_class: client.initial_class.clone(),
        initial_title: client.initial_title.clone(),
    }
}

fn no_window() -> ActiveWindow {
    ActiveWindow {
        address: String::new(),
        stable_id: String::new(),
        pid: None,
        class: String::new(),
        initial_class: String::new(),
        initial_title: String::new(),
    }
}

fn identity(client: &Client) -> WindowIdentity {
    WindowIdentity::from(client)
}

fn failure(message: &str) -> Failure {
    Failure::new(message.to_owned())
}

fn lease(target: &Client, prior: Option<&Client>) -> FocusLease {
    FocusLease { target: identity(target), prior: prior.map(identity) }
}

fn output(success: bool, status: &str, stdout: &str, stderr: &str) -> CommandOutput {
    CommandOutput {
        success,
        status: status.to_owned(),
        stdout: stdout.as_bytes().to_vec(),
        stderr: stderr.as_bytes().to_vec(),
    }
}

#[test]
fn the_prior_window_must_live_and_differ_from_the_target() {
    let (a, b) = (client("0xa", 1), client("0xb", 1));
    let live = [identity(&a), identity(&b)];
    assert_eq!(
        verified_prior_identity(Some(identity(&b)), &identity(&a), &live),
        Some(identity(&b))
    );
    assert_eq!(verified_prior_identity(Some(identity(&a)), &identity(&a), &live), None);
    assert_eq!(verified_prior_identity(None, &identity(&a), &live), None);
    let gone = identity(&client("0xc", 1));
    assert_eq!(verified_prior_identity(Some(gone), &identity(&a), &live), None);
}

#[test]
fn without_a_prior_window_nothing_is_restored() {
    let a = client("0xa", 1);
    assert_eq!(
        focus_restore_decision(&lease(&a, None), Some(&identity(&a)), &[identity(&a)]),
        FocusRestoreDecision::NoPriorFocus
    );
    assert_eq!(
        focus_restore_decision(&lease(&a, None), None, &[identity(&a)]),
        FocusRestoreDecision::ActiveFocusChanged
    );
}

#[test]
fn an_address_that_differs_in_case_counts_as_reused() {
    let (a, b) = (client("0xa", 1), client("0xb", 1));
    let live = [identity(&a), identity(&client("0xB", 1)), identity(&b)];
    assert_eq!(
        focus_restore_decision(&lease(&a, Some(&b)), Some(&identity(&a)), &live),
        FocusRestoreDecision::PriorWindowUnavailable
    );
}

#[test]
fn a_focus_that_works_is_not_rolled_back() {
    let (a, b) = (client("0xa", 1), client("0xb", 1));
    let kept = focus_with_rollback(
        lease(&a, Some(&b)),
        |target: &WindowIdentity| {
            assert_eq!(*target, identity(&client("0xa", 1)));
            Ok(())
        },
        |_| panic!("nothing to roll back"),
    )
    .unwrap();
    assert_eq!(kept.target, identity(&a));
    assert_eq!(kept.prior, Some(identity(&b)));
}

#[test]
fn a_failed_rollback_is_reported_with_the_focus_failure() {
    let a = client("0xa", 1);
    let reported = focus_with_rollback(
        lease(&a, None),
        |_: &WindowIdentity| Err(failure("timed out")),
        |_| Err(failure("no ipc")),
    )
    .unwrap_err();
    assert_eq!(
        reported.messages,
        vec![
            "guarded rollback after the failed focus attempt also failed: no ipc".to_owned(),
            "timed out".to_owned(),
        ]
    );
    let outcomes = [
        (FocusRestoreOutcome::Restored, "Restored"),
        (FocusRestoreOutcome::NoPriorFocus, "NoPriorFocus"),
        (FocusRestoreOutcome::ActiveFocusChanged, "ActiveFocusChanged"),
        (FocusRestoreOutcome::PriorWindowUnavailable, "PriorWindowUnavailable"),
    ];
    for (outcome, name) in outcomes {
        let reported = focus_with_rollback(
            lease(&a, None),
            |_: &WindowIdentity| Err(failure("timed out")),
            |_| Ok(outcome),
        )
        .unwrap_err();
        assert_eq!(
            reported.message(),
            format!("guarded rollback after the failed focus attempt completed with {name}")
        );
    }
}

#[test]
fn a_lease_needs_a_target_that_shows_and_lives() {
    let (a, b) = (client("0xa", 1), client("0xb", 1));
    let monitors = [monitor()];
    let all = [client("0xa", 1), client("0xb", 1)];
    let granted = temporary_focus_lease(&a, &monitors, OWN_PID, &all, &active(&b)).unwrap();
    assert_eq!(granted.prior, Some(identity(&b)));
    let alone = temporary_focus_lease(&a, &monitors, OWN_PID, &all, &no_window()).unwrap();
    assert_eq!(alone.prior, None);
    let hidden = client("0xa", 2);
    assert_eq!(
        temporary_focus_lease(&hidden, &monitors, OWN_PID, &all, &active(&b)).unwrap_err(),
        HyprError::NotVisible
    );
    let others = [client("0xb", 1)];
    let changed =
        temporary_focus_lease(&a, &monitors, OWN_PID, &others, &active(&b)).unwrap_err();
    assert_eq!(changed, HyprError::TargetChangedIdentity);
    assert_eq!(
        changed.message(),
        "Hyprland target window changed identity before it could be focused"
    );
}

#[test]
fn lending_the_focus_runs_the_whole_way() {
    let (a, b) = (client("0xa", 1), client("0xb", 1));
    let all = [client("0xa", 1), client("0xb", 1)];
    let granted = begin_temporary_focus_for_client(
        &a,
        &[monitor()],
        OWN_PID,
        &all,
        &active(&b),
        |_: &WindowIdentity| Ok(()),
        |_| Ok(FocusRestoreOutcome::Restored),
    )
    .unwrap();
    assert_eq!(granted.prior, Some(identity(&b)));
    let mut registry = IdRegistry::default();
    let id = u64::from(id_for_client(&mut registry, &a));
    let snapshot = Snapshot {
        clients: vec![client("0xa", 1), client("0xb", 1)],
        monitors: vec![monitor()],
        own_pid: OWN_PID,
    };
    let again = begin_temporary_focus(
        &mut registry,
        &snapshot,
        id,
        &all,
        &active(&b),
        |_: &WindowIdentity| Ok(()),
        |_| Ok(FocusRestoreOutcome::Restored),
    )
    .unwrap();
    assert_eq!(again.target, identity(&a));
    let unknown = begin_temporary_focus(
        &mut registry,
        &snapshot,
        1,
        &all,
        &active(&b),
        |_: &WindowIdentity| panic!("nothing to focus"),
        |_| panic!("nothing to roll back"),
    )
    .unwrap_err();
    assert_eq!(
        unknown.message(),
        "unknown Hyprland window_id 1; call list_windows to refresh it"
    );
}

#[test]
fn input_is_refused_once_the_target_lost_the_focus() {
    let (a, b) = (client("0xa", 1), client("0xb", 1));
    let held = lease(&a, Some(&b));
    assert_eq!(validate_temporary_focus(None, &active(&b)), Ok(()));
    assert_eq!(validate_temporary_focus(Some(&held), &active(&a)), Ok(()));
    let error = validate_temporary_focus(Some(&held), &active(&b)).unwrap_err();
    assert_eq!(error, HyprError::ActiveFocusChanged);
    assert_eq!(
        error.message(),
        "Hyprland active focus changed before pointer dispatch; refusing input to a different surface"
    );
    assert_eq!(
        validate_temporary_focus(Some(&held), &no_window()),
        Err(HyprError::ActiveFocusChanged)
    );
}

#[test]
fn the_focus_goes_back_to_the_window_that_had_it() {
    let (a, b) = (client("0xa", 1), client("0xb", 1));
    let all = [client("0xa", 1), client("0xb", 1)];
    let focused = RefCell::new(Vec::new());
    let focus = |window: &WindowIdentity| {
        focused.borrow_mut().push(window.address.clone());
        Ok(())
    };
    assert_eq!(
        restore_temporary_focus(Some(lease(&a, Some(&b))), &active(&a), &all, focus),
        Ok(FocusRestoreOutcome::Restored)
    );
    assert_eq!(
        restore_temporary_focus(Some(lease(&a, Some(&b))), &active(&b), &all, focus),
        Ok(FocusRestoreOutcome::ActiveFocusChanged)
    );
    assert_eq!(
        restore_temporary_focus(Some(lease(&a, None)), &active(&a), &all, focus),
        Ok(FocusRestoreOutcome::NoPriorFocus)
    );
    assert_eq!(
        restore_temporary_focus(None, &active(&a), &all, focus),
        Ok(FocusRestoreOutcome::NoPriorFocus)
    );
    assert_eq!(
        restore_temporary_focus(Some(lease(&a, Some(&b))), &active(&a), &all[..1], focus),
        Ok(FocusRestoreOutcome::PriorWindowUnavailable)
    );
    assert_eq!(*focused.borrow(), vec!["0xb".to_owned()]);
    assert_eq!(
        restore_temporary_focus(
            Some(lease(&a, Some(&b))),
            &active(&a),
            &all,
            |_: &WindowIdentity| Err(failure("no ipc")),
        ),
        Err(failure("no ipc"))
    );
}

#[test]
fn focusing_needs_a_window_that_shows() {
    let mut registry = IdRegistry::default();
    let (a, off) = (client("0xa", 1), client("0xb", 2));
    let shown = u64::from(id_for_client(&mut registry, &a));
    let hidden = u64::from(id_for_client(&mut registry, &off));
    let snapshot =
        Snapshot { clients: vec![a, off], monitors: vec![monitor()], own_pid: OWN_PID };
    let focus = |window: &WindowIdentity| Err(failure(&window.address));
    assert_eq!(focus_window(&mut registry, &snapshot, shown, focus), Err(failure("0xa")));
    assert_eq!(
        focus_window(&mut registry, &snapshot, hidden, focus).unwrap_err().message(),
        HyprError::NotVisible.message()
    );
}

#[test]
fn a_body_runs_between_lending_and_restoring() {
    let a = client("0xa", 1);
    let run = |body: Result<u32, Failure>, restored: Result<FocusRestoreOutcome, Failure>| {
        with_focused_client(Ok(lease(&a, None)), || body, |_| restored)
    };
    let restored = || Ok(FocusRestoreOutcome::Restored);
    assert_eq!(run(Ok(3), restored()), Ok(3));
    assert_eq!(run(Err(failure("body")), restored()), Err(failure("body")));
    assert_eq!(run(Ok(3), Err(failure("restore"))), Err(failure("restore")));
    assert_eq!(
        run(Err(failure("body")), Err(failure("restore"))).unwrap_err().messages,
        vec![
            "the prior Hyprland focus also could not be restored: restore".to_owned(),
            "body".to_owned(),
        ]
    );
    let refused: Result<u32, Failure> = with_focused_client(
        Err(failure("no lease")),
        || panic!("no focus was lent"),
        |_| panic!("no focus was lent"),
    );
    assert_eq!(refused, Err(failure("no lease")));
}

#[test]
fn a_window_of_another_process_is_refused() {
    let mut registry = IdRegistry::default();
    let clients = [client("0xa", 1)];
    let id = u64::from(id_for_client(&mut registry, &clients[0]));
    let run = |window: &Client| Ok(window.address.clone());
    assert_eq!(
        with_focused_window(&mut registry, &clients, 10, id, run),
        Ok("0xa".to_owned())
    );
    assert_eq!(
        with_focused_window(&mut registry, &clients, 11, id, run).unwrap_err().message(),
        format!("Hyprland window {id} is not owned by pid 11")
    );
    assert_eq!(
        with_focused_window_id(&mut registry, &clients, id, run),
        Ok("0xa".to_owned())
    );
    assert_eq!(
        with_focused_window_id(&mut registry, &[], id, run).unwrap_err().message(),
        format!("stale Hyprland window_id {id}; its original window no longer exists")
    );
}

#[test]
fn the_focus_request_quotes_the_address() {
    let plain = client("0xa", 1);
    let request = focus_identity(&identity(&plain), &[client("0xa", 1)]).unwrap();
    assert_eq!(request.selector, "address:0xa");
    assert_eq!(request.lua_dispatch, "hl.dsp.focus({ window = \"address:0xa\" })");
    let odd = client("\"\\\n\u{1}\u{1f}\t\u{8}\u{c}\r/\u{7f}\u{e9}", 1);
    let request =
        focus_identity(&identity(&odd), &[client("0xa", 1), odd.clone()]).unwrap();
    assert_eq!(
        request.lua_dispatch,
        "hl.dsp.focus({ window = \"address:\\\"\\\\\\n\\u0001\\u001f\\t\\b\\f\\r/\u{7f}\u{e9}\" })"
    );
}

#[test]
fn a_stale_or_reused_address_is_not_focused() {
    let a = client("0xa", 1);
    let mut reused = client("0xA", 1);
    reused.stable_id = "another".to_owned();
    for live in [vec![], vec![reused, client("0xa", 1)]] {
        let error = focus_identity(&identity(&a), &live).unwrap_err();
        assert_eq!(error, HyprError::StaleAddress { address: "0xa".to_owned() });
        assert_eq!(error.message(), "refusing to focus stale or reused Hyprland address 0xa");
    }
}

#[test]
fn the_former_form_is_tried_once() {
    let well = output(true, "exit status: 0", "", "");
    let lua = output(false, "exit status: 1", "", " bad lua\n");
    let legacy = output(false, "exit status: 2", "", "");
    assert_eq!(focus_step(&well, None), FocusStep::AwaitFocus);
    assert_eq!(focus_step(&lua, None), FocusStep::AskInFormerForm);
    assert_eq!(focus_step(&lua, Some(&well)), FocusStep::AwaitFocus);
    match focus_step(&lua, Some(&legacy)) {
        FocusStep::Refused(error) => assert_eq!(
            error.message(),
            "Hyprland focus dispatch failed (Lua: bad lua; legacy: exit status exit status: 2)"
        ),
        other => panic!("{other:?}"),
    }
}

#[test]
fn waiting_ends_with_the_focus_a_reuse_or_the_time() {
    let a = client("0xa", 1);
    let target = identity(&a);
    let other = client("0xb", 1);
    let mut reused = active(&client("0xA", 1));
    reused.stable_id = "another".to_owned();
    assert_eq!(wait_for_focused_identity(&target, Some(&active(&a)), 9000), FocusWait::Focused);
    assert_eq!(
        wait_for_focused_identity(&target, Some(&active(&other)), 499),
        FocusWait::KeepWaiting
    );
    assert_eq!(wait_for_focused_identity(&target, None, 0), FocusWait::KeepWaiting);
    match wait_for_focused_identity(&target, Some(&reused), 0) {
        FocusWait::GiveUp(error) => assert_eq!(
            error.message(),
            "Hyprland address 0xa was reused by a different window while focusing"
        ),
        step => panic!("{step:?}"),
    }
    match wait_for_focused_identity(&target, None, 500) {
        FocusWait::GiveUp(error) => {
            assert_eq!(error.message(), "Hyprland did not focus window 0xa within 500ms")
        }
        step => panic!("{step:?}"),
    }
}

#[test]
fn a_window_has_half_a_second_to_get_the_focus() {
    assert_eq!((FOCUS_TIMEOUT_MS, FOCUS_POLL_INTERVAL_MS), (500, 15));
    assert!(!focus_time_is_over(0));
    assert!(!focus_time_is_over(499));
    assert!(focus_time_is_over(500));
}

#[test]
fn a_refused_target_is_never_focused() {
    let (a, b) = (client("0xa", 1), client("0xb", 1));
    let off = client("0xa", 2);
    for (target, live) in [(&off, vec![client("0xa", 2)]), (&a, vec![client("0xb", 1)])] {
        let refused = begin_temporary_focus_for_client(
            target,
            &[monitor()],
            OWN_PID,
            &live,
            &active(&b),
            |_: &WindowIdentity| panic!("nothing to focus"),
            |_| panic!("nothing to roll back"),
        );
        assert!(refused.is_err());
    }
}

#[test]
fn a_focus_that_the_user_took_is_not_touched() {
    let (a, b) = (client("0xa", 1), client("0xb", 1));
    let all = [client("0xa", 1), client("0xb", 1)];
    let untouched = |_: &WindowIdentity| panic!("nothing to focus");
    assert_eq!(
        restore_temporary_focus(Some(lease(&a, Some(&b))), &active(&b), &all, untouched),
        Ok(FocusRestoreOutcome::ActiveFocusChanged)
    );
    assert_eq!(
        restore_temporary_focus(Some(lease(&a, Some(&b))), &no_window(), &all, untouched),
        Ok(FocusRestoreOutcome::ActiveFocusChanged)
    );
}

#[test]
fn the_body_runs_before_the_focus_goes_back() {
    let order = RefCell::new(Vec::new());
    let done = with_focused_client(
        Ok(lease(&client("0xa", 1), None)),
        || {
            order.borrow_mut().push("body");
            Ok(())
        },
        |_| {
            order.borrow_mut().push("restore");
            Ok(FocusRestoreOutcome::NoPriorFocus)
        },
    );
    assert_eq!(done, Ok(()));
    assert_eq!(*order.borrow(), vec!["body", "restore"]);
}

#[test]
fn nothing_runs_on_a_window_that_is_refused() {
    let mut registry = IdRegistry::default();
    let clients = [client("0xa", 1)];
    let id = u64::from(id_for_client(&mut registry, &clients[0]));
    let run = |_: &Client| -> Result<(), Failure> { panic!("nothing to run") };
    assert!(with_focused_window(&mut registry, &clients, 11, id, run).is_err());
    assert!(with_focused_window(&mut registry, &clients, 10, 1, run).is_err());
    assert!(with_focused_window_id(&mut registry, &clients, 1, run).is_err());
    let off = Snapshot {
        clients: vec![client("0xa", 2)],
        monitors: vec![monitor()],
        own_pid: OWN_PID,
    };
    let untouched = |_: &WindowIdentity| panic!("nothing to focus");
    assert!(focus_window(&mut registry, &off, id, untouched).is_err());
}
