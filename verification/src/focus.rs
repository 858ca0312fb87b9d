//! Lending the focus to a window, and giving it back.

use vstd::prelude::*;
use vstd::string::*;

use crate::commands::{command_error, failure_detail, lossy_utf8, CommandOutput};
use crate::error::{outermost, Failure, HyprError};
use crate::identity::{
    active_identity, contains_identity, holds_its_address, identities_of, identity_of,
    identity_views, live_identities, option_view, still_at_address, ActiveWindow, Client,
    IdentityView, WindowIdentity,
};
use crate::json::{json_text, to_json};
use crate::lookup::{
    client_behind, client_for_window, visible_client_behind, visible_client_for_window,
};
use crate::monitors::Monitor;
use crate::registry::{can_sync, is_sound, synced, IdRegistry};
use crate::text::{eq_ignore_ascii_case, folded};
use crate::visibility::{ensure_visible, is_visible, shown_workspaces};
use crate::windows::Snapshot;

verus! {

/// The focus as it is lent: the window that has it, and the one that had it.
#[derive(Debug)]
pub struct FocusLease {
    pub target: WindowIdentity,
    pub prior: Option<WindowIdentity>,
}

impl Clone for FocusLease {
    fn clone(&self) -> (r: Self)
        ensures
            r == *self,
    {
        FocusLease {
            target: self.target.clone(),
            prior: match &self.prior {
                Some(prior) => Some(prior.clone()),
                None => None,
            },
        }
    }
}

/// How giving the focus back ended.
#[derive(Clone, Copy, Debug, PartialEq, Eq, Structural)]
pub enum FocusRestoreOutcome {
    Restored,
    NoPriorFocus,
    ActiveFocusChanged,
    PriorWindowUnavailable,
}

impl FocusRestoreOutcome {
    /// How the outcome reads.
    pub open spec fn text(self) -> Seq<char> {
        match self {
            FocusRestoreOutcome::Restored => "Restored"@,
            FocusRestoreOutcome::NoPriorFocus => "NoPriorFocus"@,
            FocusRestoreOutcome::ActiveFocusChanged => "ActiveFocusChanged"@,
            FocusRestoreOutcome::PriorWindowUnavailable => "PriorWindowUnavailable"@,
        }
    }

    fn name(&self) -> (r: &'static str)
        ensures
            r@ == self.text(),
    {
        match self {
            FocusRestoreOutcome::Restored => "Restored",
            FocusRestoreOutcome::NoPriorFocus => "NoPriorFocus",
            FocusRestoreOutcome::ActiveFocusChanged => "ActiveFocusChanged",
            FocusRestoreOutcome::PriorWindowUnavailable => "PriorWindowUnavailable",
        }
    }
}

/// What is to be done to give the focus back.
#[derive(Debug, PartialEq, Eq)]
pub enum FocusRestoreDecision {
    Restore(WindowIdentity),
    NoPriorFocus,
    ActiveFocusChanged,
    PriorWindowUnavailable,
}

/// What a `FocusRestoreDecision` holds.
pub enum DecisionView {
    Restore(IdentityView),
    NoPriorFocus,
    ActiveFocusChanged,
    PriorWindowUnavailable,
}

impl View for FocusRestoreDecision {
    type V = DecisionView;

    open spec fn view(&self) -> DecisionView {
        match *self {
            FocusRestoreDecision::Restore(identity) => DecisionView::Restore(identity@),
            FocusRestoreDecision::NoPriorFocus => DecisionView::NoPriorFocus,
            FocusRestoreDecision::ActiveFocusChanged => DecisionView::ActiveFocusChanged,
            FocusRestoreDecision::PriorWindowUnavailable => DecisionView::PriorWindowUnavailable,
        }
    }
}

/// What an optional identity holds.
pub open spec fn option_ref_view(identity: Option<&WindowIdentity>) -> Option<IdentityView> {
    match identity {
        Some(identity) => Some(identity@),
        None => None,
    }
}

/// The window that gets the focus back: the one that has it, unless that is
/// the window it is lent to, or not among those that live.
pub open spec fn verified_prior(
    active: Option<IdentityView>,
    target: IdentityView,
    live: Seq<IdentityView>,
) -> Option<IdentityView> {
    match active {
        Some(identity) if identity != target && live.contains(identity) => Some(identity),
        _ => None,
    }
}

/// The window that gets the focus back.
pub fn verified_prior_identity(
    active: Option<WindowIdentity>,
    target: &WindowIdentity,
    live: &[WindowIdentity],
) -> (r: Option<WindowIdentity>)
    ensures
        option_view(r) == verified_prior(option_view(active), target@, identity_views(live@)),
        r is Some ==> r == active,
{
    match active {
        Some(identity) => if !identity.same(target) && contains_identity(live, &identity) {
            Some(identity)
        } else {
            None
        },
        None => None,
    }
}

/// What is to be done to give the focus back: nothing where another window
/// has taken the focus, or none had it; else the window that had it gets it
/// back, if it still is the one at its address.
pub open spec fn restore_decision(
    target: IdentityView,
    prior: Option<IdentityView>,
    active: Option<IdentityView>,
    live: Seq<IdentityView>,
) -> DecisionView {
    if active != Some(target) {
        DecisionView::ActiveFocusChanged
    } else {
        match prior {
            None => DecisionView::NoPriorFocus,
            Some(prior) => if holds_its_address(live, prior) {
                DecisionView::Restore(prior)
            } else {
                DecisionView::PriorWindowUnavailable
            },
        }
    }
}

/// What is to be done to give the focus back, where `active` has it and the
/// windows of `live` live.
pub fn focus_restore_decision(
    lease: &FocusLease,
    active: Option<&WindowIdentity>,
    live: &[WindowIdentity],
) -> (r: FocusRestoreDecision)
    ensures
        r@ == restore_decision(
            lease.target@,
            option_view(lease.prior),
            option_ref_view(active),
            identity_views(live@),
        ),
        r matches FocusRestoreDecision::Restore(prior) ==> lease.prior == Some(prior),
{
    let unchanged = match active {
        Some(identity) => identity.same(&lease.target),
        None => false,
    };
    if !unchanged {
        return FocusRestoreDecision::ActiveFocusChanged;
    }
    match &lease.prior {
        None => FocusRestoreDecision::NoPriorFocus,
        Some(prior) => if still_at_address(live, prior) {
            FocusRestoreDecision::Restore(prior.clone())
        } else {
            FocusRestoreDecision::PriorWindowUnavailable
        },
    }
}

/// What a failed focus is reported with, by how the rollback ended.
pub open spec fn rollback_text(rollback: Result<FocusRestoreOutcome, Failure>) -> Seq<char> {
    match rollback {
        Ok(outcome) => "guarded rollback after the failed focus attempt completed with "@
            + outcome.text(),
        Err(failure) => "guarded rollback after the failed focus attempt also failed: "@
            + outermost(failure@),
    }
}

/// Focuses the window of `lease`, and where that fails gives the focus back
/// before the failure is reported. A focus that works is never rolled back.
pub fn focus_with_rollback<F, R>(lease: FocusLease, focus: F, rollback: R) -> (r: Result<
    FocusLease,
    Failure,
>) where
    F: FnOnce(&WindowIdentity) -> Result<(), Failure>,
    R: FnOnce(FocusLease) -> Result<FocusRestoreOutcome, Failure>,

    requires
        call_requires(focus, (&lease.target,)),
        forall|failure: Failure| #[trigger]
            call_ensures(focus, (&lease.target,), Err::<(), Failure>(failure)) ==> call_requires(
                rollback,
                (lease,),
            ),
    ensures
        exists|focused: Result<(), Failure>| #[trigger]
            call_ensures(focus, (&lease.target,), focused) && match focused {
                Ok(()) => r == Ok::<FocusLease, Failure>(lease),
                Err(failure) => exists|back: Result<FocusRestoreOutcome, Failure>| #[trigger]
                    call_ensures(rollback, (lease,), back) && (r matches Err(reported)
                        && reported@ == seq![rollback_text(back)] + failure@),
            },
{
    match focus(&lease.target) {
        Ok(()) => Ok(lease),
        Err(failure) => {
            let back = rollback(lease.clone());
            let text = match &back {
                Ok(outcome) =>
                    "guarded rollback after the failed focus attempt completed with ".to_owned().concat(
                outcome.name()),
                Err(rollback_failure) =>
                    "guarded rollback after the failed focus attempt also failed: ".to_owned().concat(
                rollback_failure.message().as_str()),
            };
            assert(text@ == rollback_text(back));
            Err(failure.context(text))
        },
    }
}

/// The lease under which a window gets the focus, or why it does not: it does
/// not show, or is not among the windows that live.
pub fn temporary_focus_lease(
    target: &Client,
    monitors: &[Monitor],
    own_pid: u32,
    clients: &[Client],
    active: &ActiveWindow,
) -> (r: Result<FocusLease, HyprError>)
    ensures
        match r {
            Ok(lease) => {
                &&& is_visible(*target, shown_workspaces(monitors@), own_pid)
                &&& identities_of(clients@).contains(identity_of(*target))
                &&& lease.target@ == identity_of(*target)
                &&& option_view(lease.prior) == verified_prior(
                    active_identity(*active),
                    identity_of(*target),
                    identities_of(clients@),
                )
            },
            Err(error) => if !is_visible(*target, shown_workspaces(monitors@), own_pid) {
                error == HyprError::NotVisible
            } else {
                error == HyprError::TargetChangedIdentity && !identities_of(clients@).contains(
                    identity_of(*target),
                )
            },
        },
{
    match ensure_visible(target, monitors, own_pid) {
        Ok(()) => {},
        Err(error) => {
            return Err(error);
        },
    }
    let target = WindowIdentity::from(target);
    let live = live_identities(clients);
    if !contains_identity(live.as_slice(), &target) {
        return Err(HyprError::TargetChangedIdentity);
    }
    let prior = verified_prior_identity(active.identity(), &target, live.as_slice());
    Ok(FocusLease { target, prior })
}

/// Whether `r` answers how lending the focus to `target` ended: refused where
/// it does not show or does not live; else it was focused, and where that
/// failed the focus was given back before the failure was reported.
pub open spec fn is_lent_to<F, R>(
    target: Client,
    monitors: Seq<Monitor>,
    own_pid: u32,
    clients: Seq<Client>,
    active: ActiveWindow,
    focus: F,
    rollback: R,
    r: Result<FocusLease, Failure>,
) -> bool where
    F: FnOnce(&WindowIdentity) -> Result<(), Failure>,
    R: FnOnce(FocusLease) -> Result<FocusRestoreOutcome, Failure>,
 {
    if !is_visible(target, shown_workspaces(monitors), own_pid) {
        r matches Err(failure) && failure@ == seq![HyprError::NotVisible.text()]
    } else if !identities_of(clients).contains(identity_of(target)) {
        r matches Err(failure) && failure@ == seq![HyprError::TargetChangedIdentity.text()]
    } else {
        exists|lease: FocusLease, focused: Result<(), Failure>| #[trigger]
            call_ensures(focus, (&lease.target,), focused) && is_lease_for(
                lease,
                target,
                clients,
                active,
            ) && match focused {
                Ok(()) => r == Ok::<FocusLease, Failure>(lease),
                Err(failure) => exists|back: Result<FocusRestoreOutcome, Failure>| #[trigger]
                    call_ensures(rollback, (lease,), back) && (r matches Err(reported)
                        && reported@ == seq![rollback_text(back)] + failure@),
            }
    }
}

/// Whether `lease` is the one under which `target` gets the focus.
pub open spec fn is_lease_for(
    lease: FocusLease,
    target: Client,
    clients: Seq<Client>,
    active: ActiveWindow,
) -> bool {
    &&& lease.target@ == identity_of(target)
    &&& option_view(lease.prior) == verified_prior(
        active_identity(active),
        identity_of(target),
        identities_of(clients),
    )
}

/// Whether the focus may be lent to `target`: it shows, and lives.
pub open spec fn may_be_lent_to(
    target: Client,
    monitors: Seq<Monitor>,
    own_pid: u32,
    clients: Seq<Client>,
) -> bool {
    &&& is_visible(target, shown_workspaces(monitors), own_pid)
    &&& identities_of(clients).contains(identity_of(target))
}

/// Whether `focus` and `rollback` can do what lending the focus to `target`
/// asks of them: focus that very window, where the focus may be lent to it,
/// and take its lease back once that has failed.
pub open spec fn can_lend_to<F, R>(
    target: Client,
    monitors: Seq<Monitor>,
    own_pid: u32,
    clients: Seq<Client>,
    active: ActiveWindow,
    focus: F,
    rollback: R,
) -> bool where
    F: FnOnce(&WindowIdentity) -> Result<(), Failure>,
    R: FnOnce(FocusLease) -> Result<FocusRestoreOutcome, Failure>,
 {
    may_be_lent_to(target, monitors, own_pid, clients) ==> {
        &&& forall|identity: &WindowIdentity|
            identity@ == identity_of(target) ==> #[trigger] call_requires(focus, (identity,))
        &&& forall|lease: FocusLease, failure: Failure| #[trigger]
            call_ensures(focus, (&lease.target,), Err::<(), Failure>(failure)) && is_lease_for(
                lease,
                target,
                clients,
                active,
            ) ==> call_requires(rollback, (lease,))
    }
}

/// Lends the focus to `target`, where it shows and still lives; no other
/// window is focused, and none where it is refused. `clients` are the windows
/// that live, `active` has the focus.
pub fn begin_temporary_focus_for_client<F, R>(
    target: &Client,
    monitors: &[Monitor],
    own_pid: u32,
    clients: &[Client],
    active: &ActiveWindow,
    focus: F,
    rollback: R,
) -> (r: Result<FocusLease, Failure>) where
    F: FnOnce(&WindowIdentity) -> Result<(), Failure>,
    R: FnOnce(FocusLease) -> Result<FocusRestoreOutcome, Failure>,

    requires
        can_lend_to(*target, monitors@, own_pid, clients@, *active, focus, rollback),
    ensures
        is_lent_to(*target, monitors@, own_pid, clients@, *active, focus, rollback, r),
{
    match temporary_focus_lease(target, monitors, own_pid, clients, active) {
        Ok(lease) => focus_with_rollback(lease, focus, rollback),
        Err(error) => Err(Failure::new(error.message())),
    }
}

/// Lends the focus to the window that `window_id` stands for. `snapshot` is
/// what the compositor reported first, `clients` and `active` what it reported
/// right before the window is focused.
pub fn begin_temporary_focus<F, R>(
    registry: &mut IdRegistry,
    snapshot: &Snapshot,
    window_id: u64,
    clients: &[Client],
    active: &ActiveWindow,
    focus: F,
    rollback: R,
) -> (r: Result<FocusLease, Failure>) where
    F: FnOnce(&WindowIdentity) -> Result<(), Failure>,
    R: FnOnce(FocusLease) -> Result<FocusRestoreOutcome, Failure>,

    requires
        is_sound(old(registry)@),
        can_sync(old(registry)@, snapshot.clients@),
        client_behind(
            synced(old(registry)@, snapshot.clients@),
            snapshot.clients@,
            window_id,
        ) matches Ok(client) ==> can_lend_to(
            client,
            snapshot.monitors@,
            snapshot.own_pid,
            clients@,
            *active,
            focus,
            rollback,
        ),
    ensures
        is_sound(final(registry)@),
        final(registry)@ == synced(old(registry)@, snapshot.clients@),
        match client_behind(final(registry)@, snapshot.clients@, window_id) {
            Ok(client) => is_lent_to(
                client,
                snapshot.monitors@,
                snapshot.own_pid,
                clients@,
                *active,
                focus,
                rollback,
                r,
            ),
            Err(error) => r matches Err(failure) && failure@ == seq![error.text()],
        },
{
    match client_for_window(registry, snapshot.clients.as_slice(), window_id) {
        Ok(client) => begin_temporary_focus_for_client(
            client,
            snapshot.monitors.as_slice(),
            snapshot.own_pid,
            clients,
            active,
            focus,
            rollback,
        ),
        Err(error) => Err(Failure::new(error.message())),
    }
}

/// Refuses input where the window that the focus was lent to has lost it.
/// Without a lease nothing is refused.
pub fn validate_temporary_focus(lease: Option<&FocusLease>, active: &ActiveWindow) -> (r: Result<
    (),
    HyprError,
>)
    ensures
        r == (if lease matches Some(lease) && active_identity(*active) != Some(lease.target@) {
            Err::<(), HyprError>(HyprError::ActiveFocusChanged)
        } else {
            Ok(())
        }),
{
    let lease = match lease {
        Some(lease) => lease,
        None => {
            return Ok(());
        },
    };
    let unchanged = match active.identity() {
        Some(identity) => identity.same(&lease.target),
        None => false,
    };
    if unchanged {
        Ok(())
    } else {
        Err(HyprError::ActiveFocusChanged)
    }
}

/// Gives the focus back, where it was lent. `active` has the focus and
/// `clients` are the windows that live; `focus` focuses a window, and is only
/// asked to where the window that had the focus is to get it back.
pub fn restore_temporary_focus<F>(
    lease: Option<FocusLease>,
    active: &ActiveWindow,
    clients: &[Client],
    focus: F,
) -> (r: Result<FocusRestoreOutcome, Failure>) where
    F: FnOnce(&WindowIdentity) -> Result<(), Failure>,

    requires
        lease matches Some(lease) ==> (restore_decision(
            lease.target@,
            option_view(lease.prior),
            active_identity(*active),
            identities_of(clients@),
        ) is Restore ==> call_requires(focus, (&lease.prior->0,))),
    ensures
        match lease {
            None => r == Ok::<FocusRestoreOutcome, Failure>(FocusRestoreOutcome::NoPriorFocus),
            Some(lease) => match restore_decision(
                lease.target@,
                option_view(lease.prior),
                active_identity(*active),
                identities_of(clients@),
            ) {
                DecisionView::NoPriorFocus => r == Ok::<FocusRestoreOutcome, Failure>(
                    FocusRestoreOutcome::NoPriorFocus,
                ),
                DecisionView::ActiveFocusChanged => r == Ok::<FocusRestoreOutcome, Failure>(
                    FocusRestoreOutcome::ActiveFocusChanged,
                ),
                DecisionView::PriorWindowUnavailable => r == Ok::<FocusRestoreOutcome, Failure>(
                    FocusRestoreOutcome::PriorWindowUnavailable,
                ),
                DecisionView::Restore(_) => lease.prior is Some && exists|
                    focused: Result<(), Failure>,
                | #[trigger]
                    call_ensures(focus, (&lease.prior->0,), focused) && r == match focused {
                        Ok(()) => Ok(FocusRestoreOutcome::Restored),
                        Err(failure) => Err(failure),
                    },
            },
        },
{
    let lease = match lease {
        Some(lease) => lease,
        None => {
            return Ok(FocusRestoreOutcome::NoPriorFocus);
        },
    };
    let active = active.identity();
    let live = live_identities(clients);
    match focus_restore_decision(&lease, active.as_ref(), live.as_slice()) {
        FocusRestoreDecision::Restore(prior) => match focus(&prior) {
            Ok(()) => Ok(FocusRestoreOutcome::Restored),
            Err(failure) => Err(failure),
        },
        FocusRestoreDecision::NoPriorFocus => Ok(FocusRestoreOutcome::NoPriorFocus),
        FocusRestoreDecision::ActiveFocusChanged => Ok(FocusRestoreOutcome::ActiveFocusChanged),
        FocusRestoreDecision::PriorWindowUnavailable => Ok(
            FocusRestoreOutcome::PriorWindowUnavailable,
        ),
    }
}

/// Focuses the window that `window_id` stands for, where it shows, and no
/// other one.
pub fn focus_window<F>(
    registry: &mut IdRegistry,
    snapshot: &Snapshot,
    window_id: u64,
    focus: F,
) -> (r: Result<(), Failure>) where F: FnOnce(&WindowIdentity) -> Result<(), Failure>
    requires
        is_sound(old(registry)@),
        can_sync(old(registry)@, snapshot.clients@),
        visible_client_behind(
            synced(old(registry)@, snapshot.clients@),
            *snapshot,
            window_id,
        ) matches Ok(client) ==> forall|identity: &WindowIdentity|
            identity@ == identity_of(client) ==> #[trigger] call_requires(focus, (identity,)),
    ensures
        is_sound(final(registry)@),
        final(registry)@ == synced(old(registry)@, snapshot.clients@),
        match visible_client_behind(final(registry)@, *snapshot, window_id) {
            Ok(client) => exists|identity: WindowIdentity|
                identity@ == identity_of(client) && #[trigger] call_ensures(
                    focus,
                    (&identity,),
                    r,
                ),
            Err(error) => r matches Err(failure) && failure@ == seq![error.text()],
        },
{
    match visible_client_for_window(registry, snapshot, window_id) {
        Ok(client) => {
            let identity = WindowIdentity::from(client);
            focus(&identity)
        },
        Err(error) => Err(Failure::new(error.message())),
    }
}

/// What a request under a lent focus ends with: what its body did, unless the
/// focus could not be given back. Where neither worked, the body's failure is
/// what led to it.
pub open spec fn is_joint_result<T>(
    result: Result<T, Failure>,
    restored: Result<FocusRestoreOutcome, Failure>,
    r: Result<T, Failure>,
) -> bool {
    match (result, restored) {
        (_, Ok(_)) => r == result,
        (Ok(_), Err(failure)) => r == Err::<T, Failure>(failure),
        (Err(failure), Err(restore_failure)) => r matches Err(reported) && reported@ == seq![
            "the prior Hyprland focus also could not be restored: "@ + outermost(
                restore_failure@,
            ),
        ] + failure@,
    }
}

/// Runs `body` under a lent focus, and then gives the focus back whatever
/// `body` did. `lease` is how lending it ended; where nothing was lent, `body`
/// does not run.
pub fn with_focused_client<T, B, R>(lease: Result<FocusLease, Failure>, body: B, restore: R) -> (r:
    Result<T, Failure>) where
    B: FnOnce() -> Result<T, Failure>,
    R: FnOnce(FocusLease) -> Result<FocusRestoreOutcome, Failure>,

    requires
        lease is Ok ==> call_requires(body, ()),
        lease matches Ok(lease) ==> (forall|result: Result<T, Failure>| #[trigger]
            call_ensures(body, (), result) ==> call_requires(restore, (lease,))),
    ensures
        match lease {
            Err(failure) => r == Err::<T, Failure>(failure),
            Ok(lease) => exists|
                result: Result<T, Failure>,
                restored: Result<FocusRestoreOutcome, Failure>,
            |
                #![trigger call_ensures(body, (), result), call_ensures(restore, (lease,), restored)]
                call_ensures(body, (), result) && call_ensures(restore, (lease,), restored)
                    && is_joint_result(result, restored, r),
        },
{
    let lease = match lease {
        Ok(lease) => lease,
        Err(failure) => {
            return Err(failure);
        },
    };
    let result = body();
    let restored = restore(lease);
    match (result, restored) {
        (Ok(value), Ok(_)) => Ok(value),
        (Err(failure), Ok(_)) => Err(failure),
        (Ok(_), Err(failure)) => Err(failure),
        (Err(failure), Err(restore_failure)) => {
            let text = "the prior Hyprland focus also could not be restored: ".to_owned().concat(
                restore_failure.message().as_str(),
            );
            Err(failure.context(text))
        },
    }
}

/// Hands the window that `window_id` stands for to `run`, where it belongs to
/// process `pid`; nothing is run on a window of another process.
pub fn with_focused_window<T, C>(
    registry: &mut IdRegistry,
    clients: &[Client],
    pid: u32,
    window_id: u64,
    run: C,
) -> (r: Result<T, Failure>) where C: FnOnce(&Client) -> Result<T, Failure>
    requires
        is_sound(old(registry)@),
        can_sync(old(registry)@, clients@),
        client_behind(synced(old(registry)@, clients@), clients@, window_id) matches Ok(client)
            ==> (client.pid == Some(pid) ==> call_requires(run, (&client,))),
    ensures
        is_sound(final(registry)@),
        final(registry)@ == synced(old(registry)@, clients@),
        match client_behind(final(registry)@, clients@, window_id) {
            Ok(client) => if client.pid == Some(pid) {
                call_ensures(run, (&client,), r)
            } else {
                r matches Err(failure) && failure@ == seq![
                    (HyprError::WrongOwner { window_id, pid }).text(),
                ]
            },
            Err(error) => r matches Err(failure) && failure@ == seq![error.text()],
        },
{
    match client_for_window(registry, clients, window_id) {
        Ok(client) => {
            let owned = match client.pid {
                Some(owner) => owner == pid,
                None => false,
            };
            if owned {
                run(client)
            } else {
                Err(Failure::new((HyprError::WrongOwner { window_id, pid }).message()))
            }
        },
        Err(error) => Err(Failure::new(error.message())),
    }
}

/// Hands the window that `window_id` stands for to `run`.
pub fn with_focused_window_id<T, C>(
    registry: &mut IdRegistry,
    clients: &[Client],
    window_id: u64,
    run: C,
) -> (r: Result<T, Failure>) where C: FnOnce(&Client) -> Result<T, Failure>
    requires
        is_sound(old(registry)@),
        can_sync(old(registry)@, clients@),
        client_behind(synced(old(registry)@, clients@), clients@, window_id) matches Ok(client)
            ==> call_requires(run, (&client,)),
    ensures
        is_sound(final(registry)@),
        final(registry)@ == synced(old(registry)@, clients@),
        match client_behind(final(registry)@, clients@, window_id) {
            Ok(client) => call_ensures(run, (&client,), r),
            Err(error) => r matches Err(failure) && failure@ == seq![error.text()],
        },
{
    match client_for_window(registry, clients, window_id) {
        Ok(client) => run(client),
        Err(error) => Err(Failure::new(error.message())),
    }
}

/// How the compositor is asked to focus a window: in its present form, and in
/// the form that it took before.
#[derive(Debug)]
pub struct FocusRequest {
    pub lua_dispatch: String,
    pub selector: String,
}

/// How a window is selected by its address.
pub open spec fn selector_of(address: Seq<char>) -> Seq<char> {
    "address:"@ + address
}

/// The request to focus the window at `address`, in the compositor's present
/// form.
pub open spec fn lua_dispatch_of(address: Seq<char>) -> Seq<char> {
    "hl.dsp.focus({ window = "@ + json_text(selector_of(address)) + " })"@
}

/// How the compositor is asked to focus a window, where it still is the one at
/// its address. `clients` are the windows that live.
pub fn focus_identity(identity: &WindowIdentity, clients: &[Client]) -> (r: Result<
    FocusRequest,
    HyprError,
>)
    ensures
        match r {
            Ok(request) => {
                &&& holds_its_address(identities_of(clients@), identity@)
                &&& request.selector@ == selector_of(identity@.address)
                &&& request.lua_dispatch@ == lua_dispatch_of(identity@.address)
            },
            Err(error) => {
                &&& !holds_its_address(identities_of(clients@), identity@)
                &&& error == HyprError::StaleAddress { address: identity.address }
            },
        },
{
    let live = live_identities(clients);
    if !still_at_address(live.as_slice(), identity) {
        return Err(HyprError::StaleAddress { address: identity.address.clone() });
    }
    let selector = "address:".to_owned().concat(identity.address.as_str());
    let quoted = to_json(selector.as_str()).unwrap();
    let lua_dispatch = "hl.dsp.focus({ window = ".to_owned().concat(quoted.as_str()).concat(" })");
    Ok(FocusRequest { lua_dispatch, selector })
}

/// What follows a request to focus a window.
#[derive(Debug, PartialEq, Eq)]
pub enum FocusStep {
    /// Ask again, in the former form.
    AskInFormerForm,
    /// Wait until the window has the focus.
    AwaitFocus,
    /// Neither form was accepted.
    Refused(HyprError),
}

/// What follows a request to focus a window: `lua` is what the present form
/// left, `legacy` what the former form did, once it was tried.
pub fn focus_step(lua: &CommandOutput, legacy: Option<&CommandOutput>) -> (r: FocusStep)
    ensures
        if lua.success {
            r == FocusStep::AwaitFocus
        } else {
            match legacy {
                None => r == FocusStep::AskInFormerForm,
                Some(legacy) => if legacy.success {
                    r == FocusStep::AwaitFocus
                } else {
                    r matches FocusStep::Refused(
                        HyprError::DispatchFailed { lua: lua_text, legacy: legacy_text },
                    ) && lua_text@ == failure_detail(
                        lossy_utf8(lua.stderr@),
                        lossy_utf8(lua.stdout@),
                        lua.status@,
                    ) && legacy_text@ == failure_detail(
                        lossy_utf8(legacy.stderr@),
                        lossy_utf8(legacy.stdout@),
                        legacy.status@,
                    )
                },
            }
        },
{
    if lua.success {
        return FocusStep::AwaitFocus;
    }
    match legacy {
        None => FocusStep::AskInFormerForm,
        Some(legacy) => if legacy.success {
            FocusStep::AwaitFocus
        } else {
            FocusStep::Refused(
                HyprError::DispatchFailed {
                    lua: command_error(lua),
                    legacy: command_error(legacy),
                },
            )
        },
    }
}

/// What one look at the window with the focus tells of a window that is being
/// focused.
#[derive(Debug, PartialEq, Eq)]
pub enum FocusWait {
    Focused,
    KeepWaiting,
    GiveUp(HyprError),
}

/// How long a window may take to get the focus, in milliseconds.
pub const FOCUS_TIMEOUT_MS: u64 = 500;

/// How long to wait between two looks at the window with the focus, in
/// milliseconds.
pub const FOCUS_POLL_INTERVAL_MS: u64 = 15;

/// Whether a window that was asked to take the focus so many milliseconds ago
/// is not waited for any longer.
pub fn focus_time_is_over(elapsed_ms: u64) -> (r: bool)
    ensures
        r == (elapsed_ms >= 500),
{
    elapsed_ms >= FOCUS_TIMEOUT_MS
}

/// What one look tells: the window has the focus; another one has it at the
/// same address; the time is over; or it is to be waited for. `active` is the
/// window that has the focus, or nothing where the compositor did not tell;
/// the wait began `elapsed_ms` milliseconds ago.
pub fn wait_for_focused_identity(
    identity: &WindowIdentity,
    active: Option<&ActiveWindow>,
    elapsed_ms: u64,
) -> (r: FocusWait)
    ensures
        ({
            let focused = active matches Some(window) && active_identity(*window) == Some(
                identity@,
            );
            let reused = active matches Some(window) && folded(window.address@) == folded(
                identity@.address,
            );
            r == (if focused {
                FocusWait::Focused
            } else if reused {
                FocusWait::GiveUp(HyprError::AddressReused { address: identity.address })
            } else if elapsed_ms >= FOCUS_TIMEOUT_MS {
                FocusWait::GiveUp(HyprError::FocusTimedOut { address: identity.address })
            } else {
                FocusWait::KeepWaiting
            })
        }),
{
    if let Some(window) = active {
        if let Some(seen) = window.identity() {
            if seen.same(identity) {
                return FocusWait::Focused;
            }
        }
        if eq_ignore_ascii_case(window.address.as_str(), identity.address.as_str()) {
            return FocusWait::GiveUp(
                HyprError::AddressReused { address: identity.address.clone() },
            );
        }
    }
    if focus_time_is_over(elapsed_ms) {
        FocusWait::GiveUp(HyprError::FocusTimedOut { address: identity.address.clone() })
    } else {
        FocusWait::KeepWaiting
    }
}

} // verus!
