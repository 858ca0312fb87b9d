//! What holds of a focus that is lent and given back.

use vstd::prelude::*;

use crate::error::{outermost, Failure, HyprError};
use crate::focus::{
    is_joint_result, is_lease_for, is_lent_to, lua_dispatch_of, restore_decision, rollback_text,
    selector_of, verified_prior, DecisionView, FocusLease, FocusRestoreOutcome,
};
use crate::identity::{
    active_identity, holds_its_address, identities_of, identity_of, is_first_at_address,
    option_view, ActiveWindow, Client, IdentityView, WindowIdentity,
};
use crate::json::json_contents;
use crate::monitors::Monitor;
use crate::text::folded;
use crate::visibility::{is_visible, shown_workspaces};

verus! {

/// The window that is to get the focus back had it, lives, and is not the
/// window that the focus is lent to.
pub proof fn law_the_prior_window_had_the_focus(
    active: Option<IdentityView>,
    target: IdentityView,
    live: Seq<IdentityView>,
)
    ensures
        verified_prior(active, target, live) matches Some(prior) ==> active == Some(prior) && prior
            != target && live.contains(prior),
{
}

/// Where another window has taken the focus, or none has it, the focus stays
/// as it is.
pub proof fn law_the_users_focus_is_respected(
    target: IdentityView,
    prior: Option<IdentityView>,
    active: Option<IdentityView>,
    live: Seq<IdentityView>,
)
    requires
        active != Some(target),
    ensures
        restore_decision(target, prior, active, live) == DecisionView::ActiveFocusChanged,
{
}

/// A window gets the focus back only where it is the very window that had it,
/// still lives, and no other window is found at its address before it.
pub proof fn law_only_the_exact_prior_window_is_restored(
    target: IdentityView,
    prior: Option<IdentityView>,
    active: Option<IdentityView>,
    live: Seq<IdentityView>,
)
    ensures
        restore_decision(target, prior, active, live) matches DecisionView::Restore(window)
            ==> prior == Some(window) && active == Some(target) && live.contains(window)
            && holds_its_address(live, window),
{
    if restore_decision(target, prior, active, live) is Restore {
        let window = prior->0;
        let i = choose|i: int| #[trigger]
            is_first_at_address(live, window.address, i) && live[i] == window;
        assert(live.contains(live[i]));
    }
}

/// A window that took over the address of the one that had the focus is never
/// focused in its place.
pub proof fn law_a_reused_address_gets_no_focus(
    target: IdentityView,
    prior: IdentityView,
    live: Seq<IdentityView>,
    i: int,
)
    requires
        is_first_at_address(live, prior.address, i),
        live[i] != prior,
    ensures
        restore_decision(target, Some(prior), Some(target), live)
            == DecisionView::PriorWindowUnavailable,
{
    if holds_its_address(live, prior) {
        let k = choose|k: int| #[trigger]
            is_first_at_address(live, prior.address, k) && live[k] == prior;
        if k < i {
            assert(folded(live[k].address) != folded(prior.address));
        }
        if i < k {
            assert(folded(live[i].address) != folded(prior.address));
        }
    }
}

/// A focus that was lent goes back to the window that had it, where that
/// window still lives at its address and the borrower still has the focus.
pub proof fn law_a_lent_focus_returns(
    target: IdentityView,
    holder: IdentityView,
    before: Seq<IdentityView>,
    after: Seq<IdentityView>,
)
    requires
        holder != target,
        before.contains(holder),
        holds_its_address(after, holder),
    ensures
        restore_decision(
            target,
            verified_prior(Some(holder), target, before),
            Some(target),
            after,
        ) == DecisionView::Restore(holder),
{
}

/// The window that has the focus gets it back later exactly where it lives and
/// is not the target; without a window that has the focus none does.
pub proof fn law_a_live_window_with_the_focus_gets_it_back(
    holder: IdentityView,
    target: IdentityView,
    live: Seq<IdentityView>,
    i: int,
)
    ensures
        verified_prior(None, target, live) is None,
        verified_prior(Some(target), target, live) is None,
        holder != target && 0 <= i < live.len() && live[i] == holder ==> verified_prior(
            Some(holder),
            target,
            live,
        ) == Some(holder),
        (forall|k: int| 0 <= k < live.len() ==> #[trigger] live[k] != holder) ==> verified_prior(
            Some(holder),
            target,
            live,
        ) is None,
{
    if 0 <= i < live.len() && live[i] == holder {
        assert(live.contains(holder));
    }
}

/// While the target has the focus, the prior window gets it back exactly where
/// it lives and no window before it in the list has its address in any case;
/// without a prior window nothing is done.
pub proof fn law_a_prior_window_must_hold_its_address(
    target: IdentityView,
    prior: IdentityView,
    live: Seq<IdentityView>,
    i: int,
)
    ensures
        restore_decision(target, None, Some(target), live) == DecisionView::NoPriorFocus,
        0 <= i < live.len() && live[i] == prior && (forall|j: int|
            0 <= j < i ==> folded((#[trigger] live[j]).address) != folded(prior.address))
            ==> restore_decision(target, Some(prior), Some(target), live) == DecisionView::Restore(
            prior,
        ),
        0 <= i < live.len() && live[i] != prior && folded(live[i].address) == folded(prior.address)
            && (forall|j: int|
            0 <= j < i ==> folded((#[trigger] live[j]).address) != folded(prior.address))
            ==> restore_decision(target, Some(prior), Some(target), live)
            == DecisionView::PriorWindowUnavailable,
        (forall|j: int| 0 <= j < live.len() ==> #[trigger] live[j] != prior) ==> restore_decision(
            target,
            Some(prior),
            Some(target),
            live,
        ) == DecisionView::PriorWindowUnavailable,
{
    if 0 <= i < live.len() && folded(live[i].address) == folded(prior.address) && (forall|j: int|
        0 <= j < i ==> folded((#[trigger] live[j]).address) != folded(prior.address)) {
        assert(is_first_at_address(live, prior.address, i));
        if live[i] != prior {
            law_a_reused_address_gets_no_focus(target, prior, live, i);
        }
    }
}

/// A window may be focused exactly where it is the first live one at its
/// address, in any case of its letters.
pub proof fn law_a_window_holds_its_address(
    identity: IdentityView,
    live: Seq<IdentityView>,
    i: int,
)
    ensures
        0 <= i < live.len() && live[i] == identity && (forall|j: int|
            0 <= j < i ==> folded((#[trigger] live[j]).address) != folded(identity.address))
            ==> holds_its_address(live, identity),
        0 <= i < live.len() && live[i] != identity && folded(live[i].address) == folded(
            identity.address,
        ) && (forall|j: int|
            0 <= j < i ==> folded((#[trigger] live[j]).address) != folded(identity.address))
            ==> !holds_its_address(live, identity),
        (forall|j: int| 0 <= j < live.len() ==> #[trigger] live[j] != identity)
            ==> !holds_its_address(live, identity),
{
    law_a_prior_window_must_hold_its_address(identity, identity, live, i);
    if 0 <= i < live.len() && live[i] == identity && (forall|j: int|
        0 <= j < i ==> folded((#[trigger] live[j]).address) != folded(identity.address)) {
        assert(is_first_at_address(live, identity.address, i));
    }
}

/// What ran under a lent focus succeeds exactly where it worked and the focus
/// went back, with what it gave; its own failure stays what led to whatever is
/// reported, and a focus that did not go back is reported.
pub proof fn law_both_the_body_and_the_restoring_count<T>(
    result: Result<T, Failure>,
    restored: Result<FocusRestoreOutcome, Failure>,
    r: Result<T, Failure>,
)
    requires
        is_joint_result(result, restored, r),
    ensures
        r is Ok <==> result is Ok && restored is Ok,
        r is Ok ==> r == result,
        result matches Err(failure) ==> (r matches Err(told) && failure@.is_suffix_of(told@)),
        result is Err && restored is Ok ==> r == result,
        result is Ok && restored is Err ==> r->Err_0 == restored->Err_0,
        result is Err && restored is Err ==> r->Err_0@.len() == result->Err_0@.len() + 1,
{
    if result is Err && restored is Err {
        let told = r->Err_0@;
        let failure = result->Err_0@;
        assert(told.subrange(1, told.len() as int) =~= failure);
    }
    if result is Err && restored is Ok {
        let failure = result->Err_0@;
        assert(failure.subrange(0, failure.len() as int) =~= failure);
    }
}

proof fn lemma_plain_contents(text: Seq<char>)
    requires
        forall|i: int|
            0 <= i < text.len() ==> #[trigger] text[i] != '"' && text[i] != '\\' && text[i] as int
                >= 0x20,
    ensures
        json_contents(text) == text,
    decreases text.len(),
{
    if text.len() > 0 {
        let init = text.drop_last();
        assert forall|i: int| 0 <= i < init.len() implies #[trigger] init[i] != '"' && init[i]
            != '\\' && init[i] as int >= 0x20 by {
            assert(init[i] == text[i]);
        }
        lemma_plain_contents(init);
        assert(text[text.len() - 1] != '"');
        assert(json_contents(text) =~= text);
    } else {
        assert(json_contents(text) =~= text);
    }
}

/// A window is asked for by its address, as it stands; in the present form the
/// selector stands between quotes.
pub proof fn law_a_window_is_asked_for_by_its_address(address: Seq<char>)
    requires
        forall|i: int|
            0 <= i < address.len() ==> #[trigger] address[i] != '"' && address[i] != '\\'
                && address[i] as int >= 0x20,
    ensures
        selector_of(address) == "address:"@ + address,
        lua_dispatch_of(address) == "hl.dsp.focus({ window = "@ + (seq!['"'] + ("address:"@
            + address) + seq!['"']) + " })"@,
{
    reveal_strlit("address:");
    let selector = "address:"@ + address;
    assert forall|i: int| 0 <= i < selector.len() implies #[trigger] selector[i] != '"'
        && selector[i] != '\\' && selector[i] as int >= 0x20 by {
        if i >= 8 {
            assert(selector[i] == address[i - 8]);
        }
    }
    lemma_plain_contents(selector);
}

/// A lease that was granted is for the very window that was asked for, which
/// shows and lives; one that does not show is refused as such, and one that
/// shows but does not live as another window.
pub proof fn law_a_lease_is_for_the_window_that_was_asked_for<F, R>(
    target: Client,
    monitors: Seq<Monitor>,
    own_pid: u32,
    clients: Seq<Client>,
    active: ActiveWindow,
    focus: F,
    rollback: R,
    r: Result<FocusLease, Failure>,
) where
    F: FnOnce(&WindowIdentity) -> Result<(), Failure>,
    R: FnOnce(FocusLease) -> Result<FocusRestoreOutcome, Failure>,

    requires
        is_lent_to(target, monitors, own_pid, clients, active, focus, rollback, r),
    ensures
        r matches Ok(lease) ==> {
            &&& is_visible(target, shown_workspaces(monitors), own_pid)
            &&& identities_of(clients).contains(identity_of(target))
            &&& lease.target@.address == target.address@
            &&& lease.target@ == identity_of(target)
            &&& exists|focused: Result<(), Failure>| #[trigger]
                call_ensures(focus, (&lease.target,), focused) && focused is Ok
            &&& lease.prior matches Some(prior) ==> active_identity(active) == Some(prior@)
                && prior@ != lease.target@ && identities_of(clients).contains(prior@)
            &&& lease.prior is None ==> active_identity(active) is None || active_identity(active)
                == Some(lease.target@) || !identities_of(clients).contains(
                active_identity(active)->0,
            )
        },
        !is_visible(target, shown_workspaces(monitors), own_pid) ==> (r matches Err(failure)
            && failure@.len() == 1 && failure@[0] == HyprError::NotVisible.text()),
        is_visible(target, shown_workspaces(monitors), own_pid) && !identities_of(
            clients,
        ).contains(identity_of(target)) ==> (r matches Err(failure) && failure@.len() == 1
            && failure@[0] == HyprError::TargetChangedIdentity.text()),
{
    if let Ok(lease) = r {
        let (granted, focused) = choose|granted: FocusLease, focused: Result<(), Failure>| #[trigger]
            call_ensures(focus, (&granted.target,), focused) && is_lease_for(
                granted,
                target,
                clients,
                active,
            ) && match focused {
                Ok(()) => r == Ok::<FocusLease, Failure>(granted),
                Err(failure) => exists|back: Result<FocusRestoreOutcome, Failure>| #[trigger]
                    call_ensures(rollback, (granted,), back) && (r matches Err(reported)
                        && reported@ == seq![rollback_text(back)] + failure@),
            };
        assert(granted == lease && focused is Ok);
        assert(is_lease_for(lease, target, clients, active));
        assert(option_view(lease.prior) == verified_prior(
            active_identity(active),
            identity_of(target),
            identities_of(clients),
        ));
    }
}

/// A failure is told by its outermost message, and what a rollback came to is
/// told in front of the failure that led to it.
pub proof fn law_a_failure_is_told_by_its_outermost_message(
    message: Seq<char>,
    rest: Seq<Seq<char>>,
    outcome: FocusRestoreOutcome,
    failure: Failure,
)
    ensures
        outermost(seq![message] + rest) == message,
        rollback_text(Ok(outcome))
            == "guarded rollback after the failed focus attempt completed with "@
            + outcome.text(),
        rollback_text(Err(failure))
            == "guarded rollback after the failed focus attempt also failed: "@ + outermost(
            failure@,
        ),
        FocusRestoreOutcome::Restored.text() == "Restored"@,
        FocusRestoreOutcome::NoPriorFocus.text() == "NoPriorFocus"@,
        FocusRestoreOutcome::ActiveFocusChanged.text() == "ActiveFocusChanged"@,
        FocusRestoreOutcome::PriorWindowUnavailable.text() == "PriorWindowUnavailable"@,
{
}

} // verus!
