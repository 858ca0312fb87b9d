//! Single windows by their ids.

use vstd::prelude::*;
use vstd::string::*;

use crate::error::HyprError;
use crate::identity::{identity_of, ActiveWindow, Client, IdentityView, WindowIdentity};
use crate::registry::{can_sync, is_sound, synced, IdRegistry, RegistryView};
use crate::text::{eq_ignore_ascii_case, folded};
use crate::visibility::{
    active_workspace_ids, client_is_visible, ensure_visible, is_visible, shown_workspaces,
};
use crate::windows::{make_window, window_of, Snapshot, WindowInfo};

verus! {

/// The window that `window_id` was given to.
pub open spec fn window_behind(m: RegistryView, window_id: u64) -> Option<IdentityView> {
    if window_id <= u32::MAX && m.by_id.contains_key(window_id as u32) {
        Some(m.by_id[window_id as u32])
    } else {
        None
    }
}

/// Whether `i` is the first place of `clients` where the window stands that
/// `identity` names.
pub open spec fn is_first_with_identity(
    clients: Seq<Client>,
    identity: IdentityView,
    i: int,
) -> bool {
    &&& 0 <= i < clients.len()
    &&& identity_of(clients[i]) == identity
    &&& forall|j: int| 0 <= j < i ==> identity_of(#[trigger] clients[j]) != identity
}

/// A found client as a value.
pub open spec fn by_value(found: Result<&Client, HyprError>) -> Result<Client, HyprError> {
    match found {
        Ok(client) => Ok(*client),
        Err(error) => Err(error),
    }
}

/// The client that `window_id` stands for, or why there is none: the id was
/// never given out, or its window lives no more.
pub open spec fn client_behind(
    m: RegistryView,
    clients: Seq<Client>,
    window_id: u64,
) -> Result<Client, HyprError> {
    match window_behind(m, window_id) {
        None => Err(HyprError::UnknownWindow { window_id }),
        Some(identity) => if exists|i: int| is_first_with_identity(clients, identity, i) {
            Ok(clients[choose|i: int| is_first_with_identity(clients, identity, i)])
        } else {
            Err(HyprError::StaleWindow { window_id })
        },
    }
}

/// The client that `window_id` stands for, where it shows, or why not.
pub open spec fn visible_client_behind(
    m: RegistryView,
    snapshot: Snapshot,
    window_id: u64,
) -> Result<Client, HyprError> {
    match client_behind(m, snapshot.clients@, window_id) {
        Ok(client) => if is_visible(
            client,
            shown_workspaces(snapshot.monitors@),
            snapshot.own_pid,
        ) {
            Ok(client)
        } else {
            Err(HyprError::NotVisible)
        },
        Err(error) => Err(error),
    }
}

/// Takes the windows that the compositor reported as those that live, and
/// hands them on.
pub fn clients(registry: &mut IdRegistry, reported: Vec<Client>) -> (r: Vec<Client>)
    requires
        is_sound(old(registry)@),
        can_sync(old(registry)@, reported@),
    ensures
        is_sound(final(registry)@),
        final(registry)@ == synced(old(registry)@, reported@),
        r == reported,
{
    registry.sync(reported.as_slice());
    reported
}

/// Finds the client that `window_id` stands for among `clients`, which it
/// takes as those that live. The id must stand for that very window: one that
/// has taken over its address does not count.
pub fn client_for_window<'a>(
    registry: &mut IdRegistry,
    clients: &'a [Client],
    window_id: u64,
) -> (r: Result<&'a Client, HyprError>)
    requires
        is_sound(old(registry)@),
        can_sync(old(registry)@, clients@),
    ensures
        is_sound(final(registry)@),
        final(registry)@ == synced(old(registry)@, clients@),
        by_value(r) == client_behind(final(registry)@, clients@, window_id),
{
    registry.sync(clients);
    let identity = match registry.identity(window_id) {
        Some(identity) => identity,
        None => {
            return Err(HyprError::UnknownWindow { window_id });
        },
    };
    let mut i: usize = 0;
    while i < clients.len()
        invariant
            i <= clients.len(),
            is_sound(registry@),
            registry@ == synced(old(registry)@, clients@),
            window_behind(registry@, window_id) == Some(identity@),
            forall|j: int| 0 <= j < i ==> identity_of(#[trigger] clients@[j]) != identity@,
        decreases clients.len() - i,
    {
        if WindowIdentity::from(&clients[i]).same(identity) {
            proof {
                assert(is_first_with_identity(clients@, identity@, i as int));
                let chosen = choose|k: int| is_first_with_identity(clients@, identity@, k);
                assert(chosen == i) by {
                    if chosen < i {
                        assert(identity_of(clients@[chosen]) != identity@);
                    }
                    if chosen > i {
                        assert(identity_of(clients@[i as int]) != identity@);
                    }
                }
            }
            return Ok(&clients[i]);
        }
        i = i + 1;
    }
    Err(HyprError::StaleWindow { window_id })
}

/// Finds the client that `window_id` stands for and refuses one that does not
/// show.
pub(crate) fn visible_client_for_window<'a>(
    registry: &mut IdRegistry,
    snapshot: &'a Snapshot,
    window_id: u64,
) -> (r: Result<&'a Client, HyprError>)
    requires
        is_sound(old(registry)@),
        can_sync(old(registry)@, snapshot.clients@),
    ensures
        is_sound(final(registry)@),
        final(registry)@ == synced(old(registry)@, snapshot.clients@),
        by_value(r) == visible_client_behind(final(registry)@, *snapshot, window_id),
{
    match client_for_window(registry, snapshot.clients.as_slice(), window_id) {
        Ok(client) => match ensure_visible(
            client,
            snapshot.monitors.as_slice(),
            snapshot.own_pid,
        ) {
            Ok(()) => Ok(client),
            Err(error) => Err(error),
        },
        Err(error) => Err(error),
    }
}

/// The window that `window_id` stands for, where it shows.
pub fn window(registry: &mut IdRegistry, snapshot: &Snapshot, window_id: u64) -> (r: Result<
    WindowInfo,
    HyprError,
>)
    requires
        is_sound(old(registry)@),
        can_sync(old(registry)@, snapshot.clients@),
    ensures
        is_sound(final(registry)@),
        final(registry)@ == synced(old(registry)@, snapshot.clients@),
        match visible_client_behind(final(registry)@, *snapshot, window_id) {
            Ok(client) => r matches Ok(window) && window@ == window_of(
                client,
                window_id,
                client.title@,
                true,
            ),
            Err(error) => r == Err::<WindowInfo, HyprError>(error),
        },
{
    match visible_client_for_window(registry, snapshot, window_id) {
        Ok(client) => Ok(make_window(client, window_id, client.title.clone(), true)),
        Err(error) => Err(error),
    }
}

/// Where the window that `window_id` stands for begins, where it shows.
pub fn window_origin(registry: &mut IdRegistry, snapshot: &Snapshot, window_id: u64) -> (r: Result<
    (i32, i32),
    HyprError,
>)
    requires
        is_sound(old(registry)@),
        can_sync(old(registry)@, snapshot.clients@),
    ensures
        is_sound(final(registry)@),
        final(registry)@ == synced(old(registry)@, snapshot.clients@),
        r == match visible_client_behind(final(registry)@, *snapshot, window_id) {
            Ok(client) => Ok((client.at[0], client.at[1])),
            Err(error) => Err(error),
        },
{
    match window(registry, snapshot, window_id) {
        Ok(window) => Ok((window.x, window.y)),
        Err(error) => Err(error),
    }
}

/// The class of the window that `window_id` stands for, whether it shows or
/// not.
pub fn app_class(registry: &mut IdRegistry, clients: &[Client], window_id: u64) -> (r: Result<
    String,
    HyprError,
>)
    requires
        is_sound(old(registry)@),
        can_sync(old(registry)@, clients@),
    ensures
        is_sound(final(registry)@),
        final(registry)@ == synced(old(registry)@, clients@),
        r == match client_behind(final(registry)@, clients@, window_id) {
            Ok(client) => Ok(client.class),
            Err(error) => Err(error),
        },
{
    match client_for_window(registry, clients, window_id) {
        Ok(client) => Ok(client.class.clone()),
        Err(error) => Err(error),
    }
}

/// The clients of one process that show, in their order.
pub open spec fn shown_clients_of(snapshot: Snapshot, pid: u32) -> Seq<Client> {
    snapshot.clients@.filter(
        |client: Client|
            client.pid == Some(pid) && is_visible(
                client,
                shown_workspaces(snapshot.monitors@),
                snapshot.own_pid,
            ),
    )
}

/// Whether `i` is the first place of `clients` whose address agrees with
/// `address` but for the case of ASCII letters.
pub open spec fn is_first_client_at(clients: Seq<Client>, address: Seq<char>, i: int) -> bool {
    &&& 0 <= i < clients.len()
    &&& folded(clients[i].address@) == folded(address)
    &&& forall|j: int|
        0 <= j < i ==> folded((#[trigger] clients[j]).address@) != folded(address)
}

/// Where the window of a process begins: the one that has the focus, or its
/// only one. Of several without the focus none is taken.
pub open spec fn origin_among(shown: Seq<Client>, active: Option<&ActiveWindow>) -> Option<
    (i32, i32),
> {
    let focused = |i: int|
        active matches Some(window) && is_first_client_at(shown, window.address@, i);
    if exists|i: int| #[trigger] focused(i) {
        let i = choose|i: int| #[trigger] focused(i);
        Some((shown[i].at[0], shown[i].at[1]))
    } else if shown.len() == 1 {
        Some((shown[0].at[0], shown[0].at[1]))
    } else {
        None
    }
}

/// Where the window of process `pid` begins that has the focus, or its only
/// one that shows. `active` is the window that has the focus, or nothing where
/// the compositor did not tell. Takes the clients of the snapshot as those
/// that live.
pub fn window_origin_for_pid(
    registry: &mut IdRegistry,
    snapshot: &Snapshot,
    active: Option<&ActiveWindow>,
    pid: u32,
) -> (r: Option<(i32, i32)>)
    requires
        is_sound(old(registry)@),
        can_sync(old(registry)@, snapshot.clients@),
    ensures
        is_sound(final(registry)@),
        final(registry)@ == synced(old(registry)@, snapshot.clients@),
        r == origin_among(shown_clients_of(*snapshot, pid), active),
{
    let clients = &snapshot.clients;
    registry.sync(clients.as_slice());
    let workspaces = active_workspace_ids(snapshot.monitors.as_slice());
    let ghost pred = |client: Client|
        client.pid == Some(pid) && is_visible(
            client,
            shown_workspaces(snapshot.monitors@),
            snapshot.own_pid,
        );
    let ghost shown = clients@.filter(pred);
    let mut matches: Vec<usize> = Vec::new();
    let mut i: usize = 0;
    proof {
        reveal(Seq::filter);
        assert(clients@.take(0).filter(pred) =~= Seq::empty());
    }
    while i < clients.len()
        invariant
            i <= clients.len(),
            clients@ == snapshot.clients@,
            workspaces@ == shown_workspaces(snapshot.monitors@),
            pred == (|client: Client|
                client.pid == Some(pid) && is_visible(
                    client,
                    shown_workspaces(snapshot.monitors@),
                    snapshot.own_pid,
                )),
            matches.len() == clients@.take(i as int).filter(pred).len(),
            forall|k: int|
                0 <= k < matches.len() ==> (#[trigger] matches@[k]) < clients.len()
                    && clients@[matches@[k] as int] == clients@.take(i as int).filter(pred)[k],
        decreases clients.len() - i,
    {
        let client = &clients[i];
        let of_process = match client.pid {
            Some(client_pid) => client_pid == pid,
            None => false,
        };
        let shows = of_process && client_is_visible(client, &workspaces, snapshot.own_pid);
        proof {
            reveal(Seq::filter);
            let longer = clients@.take(i + 1);
            assert(longer.drop_last() =~= clients@.take(i as int));
            assert(longer.last() == *client);
            assert(pred(*client) == shows);
        }
        if shows {
            matches.push(i);
        }
        i = i + 1;
    }
    assert(clients@.take(clients.len() as int) =~= clients@);
    let ghost focused = |i: int|
        active matches Some(window) && is_first_client_at(shown, window.address@, i);
    if let Some(window) = active {
        let mut k: usize = 0;
        while k < matches.len()
            invariant
                k <= matches.len(),
                is_sound(registry@),
                registry@ == synced(old(registry)@, snapshot.clients@),
                clients@ == snapshot.clients@,
                active == Some(window),
                focused == (|i: int|
                    active matches Some(window) && is_first_client_at(shown, window.address@, i)),
                shown == shown_clients_of(*snapshot, pid),
                matches.len() == shown.len(),
                forall|k: int|
                    0 <= k < matches.len() ==> (#[trigger] matches@[k]) < clients.len()
                        && clients@[matches@[k] as int] == shown[k],
                forall|j: int|
                    0 <= j < k ==> folded((#[trigger] shown[j]).address@) != folded(
                        window.address@,
                    ),
            decreases matches.len() - k,
        {
            let client = &clients[matches[k]];
            if eq_ignore_ascii_case(client.address.as_str(), window.address.as_str()) {
                proof {
                    assert(focused(k as int));
                    let chosen = choose|i: int| #[trigger] focused(i);
                    assert(chosen == k) by {
                        if chosen < k {
                            assert(folded(shown[chosen].address@) != folded(window.address@));
                        }
                        if chosen > k {
                            assert(folded(shown[k as int].address@) != folded(window.address@));
                        }
                    }
                }
                return Some((client.at[0], client.at[1]));
            }
            k = k + 1;
        }
        assert forall|i: int| !#[trigger] focused(i) by {
            if focused(i) {
                assert(folded(shown[i].address@) != folded(window.address@));
            }
        }
    }
    if matches.len() == 1 {
        let client = &clients[matches[0]];
        Some((client.at[0], client.at[1]))
    } else {
        None
    }
}

} // verus!
