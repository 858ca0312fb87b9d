//! Which windows can be listed and which show.

use std::collections::HashSet;

use vstd::prelude::*;
use vstd::string::*;

use crate::error::HyprError;
use crate::identity::Client;
use crate::monitors::Monitor;
use crate::text::starts_with;

verus! {

broadcast use vstd::std_specs::hash::group_hash_axioms;

/// Whether an enabled monitor shows the workspace with this number: as its
/// active one, or as its special one, which zero does not stand for.
pub open spec fn monitor_shows(monitor: Monitor, id: i32) -> bool {
    &&& !monitor.disabled
    &&& {
        ||| monitor.active_workspace matches Some(workspace) && workspace.id == id
        ||| monitor.special_workspace matches Some(workspace) && workspace.id == id && id != 0
    }
}

/// The numbers of the workspaces that show.
pub open spec fn shown_workspaces(monitors: Seq<Monitor>) -> Set<i32> {
    Set::new(
        |id: i32|
            exists|i: int| 0 <= i < monitors.len() && monitor_shows(#[trigger] monitors[i], id),
    )
}

/// The numbers of the workspaces that show on an enabled monitor.
pub fn active_workspace_ids(monitors: &[Monitor]) -> (r: HashSet<i32>)
    ensures
        r@ == shown_workspaces(monitors@),
{
    let mut ids: HashSet<i32> = HashSet::new();
    let mut i: usize = 0;
    while i < monitors.len()
        invariant
            i <= monitors.len(),
            forall|id: i32| #[trigger]
                ids@.contains(id) <==> exists|j: int|
                    0 <= j < i && monitor_shows(#[trigger] monitors@[j], id),
        decreases monitors.len() - i,
    {
        let ghost before = ids@;
        let monitor = &monitors[i];
        if !monitor.disabled {
            if let Some(workspace) = &monitor.active_workspace {
                ids.insert(workspace.id);
            }
            if let Some(workspace) = &monitor.special_workspace {
                if workspace.id != 0 {
                    ids.insert(workspace.id);
                }
            }
        }
        proof {
            assert forall|id: i32| #[trigger] ids@.contains(id) <==> exists|j: int|
                0 <= j < i + 1 && monitor_shows(#[trigger] monitors@[j], id) by {
                assert(ids@.contains(id) <==> before.contains(id) || monitor_shows(
                    monitors@[i as int],
                    id,
                ));
                if before.contains(id) {
                    let j = choose|j: int| 0 <= j < i && monitor_shows(#[trigger] monitors@[j], id);
                    assert(monitor_shows(monitors@[j], id));
                }
                if exists|j: int| 0 <= j < i + 1 && monitor_shows(#[trigger] monitors@[j], id) {
                    let j = choose|j: int|
                        0 <= j < i + 1 && monitor_shows(#[trigger] monitors@[j], id);
                    if j < i {
                        assert(before.contains(id));
                    }
                }
            }
        }
        i = i + 1;
    }
    assert(ids@ =~= shown_workspaces(monitors@));
    ids
}

/// What the names of the driver's own overlay begin with.
pub open spec fn overlay_prefix() -> Seq<char> {
    "Cua.AgentCursorOverlay."@
}

/// Whether a window belongs to the driver itself: to its process, or by its
/// name to its overlay.
pub open spec fn is_internal(client: Client, own_pid: u32) -> bool {
    ||| client.pid == Some(own_pid)
    ||| overlay_prefix().is_prefix_of(client.class@)
    ||| overlay_prefix().is_prefix_of(client.initial_class@)
    ||| overlay_prefix().is_prefix_of(client.title@)
    ||| overlay_prefix().is_prefix_of(client.initial_title@)
}

/// Whether a window can be listed: it is mapped, and not the driver's own.
pub open spec fn is_enumerable(client: Client, own_pid: u32) -> bool {
    client.mapped && !is_internal(client, own_pid)
}

/// Whether a window shows: it can be listed, is not hidden, and is on a
/// workspace, which shows unless the window is pinned or nothing is known of
/// the workspaces that show.
pub open spec fn is_visible(client: Client, workspaces: Set<i32>, own_pid: u32) -> bool {
    &&& is_enumerable(client, own_pid)
    &&& !client.hidden
    &&& client.workspace matches Some(workspace) && (workspaces.is_empty() || client.pinned
        || workspaces.contains(workspace.id))
}

/// Whether a window belongs to the driver itself, which runs as process
/// `own_pid`.
pub fn client_is_internal(client: &Client, own_pid: u32) -> (r: bool)
    ensures
        r == is_internal(*client, own_pid),
{
    let own = match client.pid {
        Some(pid) => pid == own_pid,
        None => false,
    };
    own || starts_with(client.class.as_str(), "Cua.AgentCursorOverlay.") || starts_with(
        client.initial_class.as_str(),
        "Cua.AgentCursorOverlay.",
    ) || starts_with(client.title.as_str(), "Cua.AgentCursorOverlay.") || starts_with(
        client.initial_title.as_str(),
        "Cua.AgentCursorOverlay.",
    )
}

/// Whether a window can be listed.
pub fn client_is_enumerable(client: &Client, own_pid: u32) -> (r: bool)
    ensures
        r == is_enumerable(*client, own_pid),
{
    client.mapped && !client_is_internal(client, own_pid)
}

/// Whether a window shows, where the workspaces with the numbers in
/// `workspaces` do.
pub fn client_is_visible(client: &Client, workspaces: &HashSet<i32>, own_pid: u32) -> (r: bool)
    ensures
        r == is_visible(*client, workspaces@, own_pid),
{
    client_is_enumerable(client, own_pid) && !client.hidden && match &client.workspace {
        Some(workspace) => workspaces.is_empty() || client.pinned || workspaces.contains(
            &workspace.id,
        ),
        None => false,
    }
}

/// Refuses a window that does not show on `monitors`.
pub fn ensure_visible(client: &Client, monitors: &[Monitor], own_pid: u32) -> (r: Result<
    (),
    HyprError,
>)
    ensures
        r == (if is_visible(*client, shown_workspaces(monitors@), own_pid) {
            Ok::<(), HyprError>(())
        } else {
            Err(HyprError::NotVisible)
        }),
{
    let workspaces = active_workspace_ids(monitors);
    if client_is_visible(client, &workspaces, own_pid) {
        Ok(())
    } else {
        Err(HyprError::NotVisible)
    }
}

} // verus!
