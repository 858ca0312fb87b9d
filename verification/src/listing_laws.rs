//! What holds of the windows that show, are listed and are found, said of what
//! the compositor reports of them.

use vstd::prelude::*;

use crate::error::HyprError;
use crate::identity::{identity_of, ActiveWindow, Client};
use crate::lookup::{
    by_value, client_behind, is_first_client_at, is_first_with_identity, origin_among,
    shown_clients_of, visible_client_behind, window_behind,
};
use crate::monitors::Monitor;
use crate::registry::RegistryView;
use crate::text::{folded, is_white_space, lemma_precedes_irreflexive, precedes};
use crate::visibility::{
    is_enumerable, is_internal, is_visible, monitor_shows, shown_workspaces,
};
use crate::windows::{
    is_listed, listed_clients, listed_title, listed_window, listed_windows, sorts_by, window_of, window_precedes, Snapshot, WindowView,
};

verus! {

/// A workspace shows exactly where an enabled monitor reports it as its active
/// one, or as its special one under a number other than zero.
pub proof fn law_a_workspace_shows_on_an_enabled_monitor(
    monitors: Seq<Monitor>,
    i: int,
    id: i32,
    more: Seq<Monitor>,
)
    requires
        0 <= i < monitors.len(),
    ensures
        !monitors[i].disabled && monitors[i].active_workspace is Some ==> shown_workspaces(
            monitors,
        ).contains(monitors[i].active_workspace->0.id),
        !monitors[i].disabled && monitors[i].special_workspace is Some
            && monitors[i].special_workspace->0.id != 0 ==> shown_workspaces(monitors).contains(
            monitors[i].special_workspace->0.id,
        ),
        shown_workspaces(monitors).contains(id) ==> exists|k: int|
            0 <= k < monitors.len() && !(#[trigger] monitors[k]).disabled && ((
            monitors[k].active_workspace is Some && monitors[k].active_workspace->0.id == id) || (
            monitors[k].special_workspace is Some && monitors[k].special_workspace->0.id == id
                && id != 0)),
        shown_workspaces(monitors + more).contains(id) <==> shown_workspaces(monitors).contains(id)
            || shown_workspaces(more).contains(id),
{
    if monitors[i].active_workspace is Some && !monitors[i].disabled {
        assert(monitor_shows(monitors[i], monitors[i].active_workspace->0.id));
    }
    if monitors[i].special_workspace is Some && !monitors[i].disabled {
        assert(monitors[i].special_workspace->0.id != 0 ==> monitor_shows(
            monitors[i],
            monitors[i].special_workspace->0.id,
        ));
    }
    let all = monitors + more;
    if shown_workspaces(monitors).contains(id) {
        let k = choose|k: int| 0 <= k < monitors.len() && monitor_shows(#[trigger] monitors[k], id);
        assert(all[k] == monitors[k]);
        assert(monitor_shows(all[k], id));
    }
    if shown_workspaces(more).contains(id) {
        let k = choose|k: int| 0 <= k < more.len() && monitor_shows(#[trigger] more[k], id);
        assert(all[monitors.len() + k] == more[k]);
        assert(monitor_shows(all[monitors.len() + k], id));
    }
    if shown_workspaces(all).contains(id) {
        let k = choose|k: int| 0 <= k < all.len() && monitor_shows(#[trigger] all[k], id);
        if k < monitors.len() {
            assert(monitors[k] == all[k]);
        } else {
            assert(more[k - monitors.len()] == all[k]);
        }
    }
}

/// A window is the driver's own exactly where it belongs to its process, or
/// one of its four names begins as the overlay's do.
pub proof fn law_own_windows_are_known_by_process_or_name(
    client: Client,
    own_pid: u32,
    rest: Seq<char>,
)
    ensures
        client.pid == Some(own_pid) ==> is_internal(client, own_pid),
        client.class@ == "Cua.AgentCursorOverlay."@ + rest ==> is_internal(client, own_pid),
        client.initial_class@ == "Cua.AgentCursorOverlay."@ + rest ==> is_internal(
            client,
            own_pid,
        ),
        client.title@ == "Cua.AgentCursorOverlay."@ + rest ==> is_internal(client, own_pid),
        client.initial_title@ == "Cua.AgentCursorOverlay."@ + rest ==> is_internal(
            client,
            own_pid,
        ),
        is_internal(client, own_pid) && client.pid != Some(own_pid) ==> exists|tail: Seq<char>|
            #![trigger "Cua.AgentCursorOverlay."@ + tail]
            {
                let name = "Cua.AgentCursorOverlay."@ + tail;
                client.class@ == name || client.initial_class@ == name || client.title@ == name
                    || client.initial_title@ == name
            },
{
    let prefix = "Cua.AgentCursorOverlay."@;
    let n = prefix.len() as int;
    assert((prefix + rest).subrange(0, n) =~= prefix);
    if is_internal(client, own_pid) && client.pid != Some(own_pid) {
        let name = if prefix.is_prefix_of(client.class@) {
            client.class@
        } else if prefix.is_prefix_of(client.initial_class@) {
            client.initial_class@
        } else if prefix.is_prefix_of(client.title@) {
            client.title@
        } else {
            client.initial_title@
        };
        let tail = name.skip(n);
        assert(name =~= prefix + tail);
    }
}

/// A window that is mapped, not hidden, not the driver's own, and on a
/// workspace that an enabled monitor has active, shows.
pub proof fn law_a_window_on_an_active_workspace_shows(
    client: Client,
    monitors: Seq<Monitor>,
    own_pid: u32,
    i: int,
)
    requires
        client.mapped,
        !client.hidden,
        !is_internal(client, own_pid),
        client.workspace is Some,
        0 <= i < monitors.len(),
        !monitors[i].disabled,
        monitors[i].active_workspace is Some,
        monitors[i].active_workspace->0.id == client.workspace->0.id,
    ensures
        is_visible(client, shown_workspaces(monitors), own_pid),
        is_enumerable(client, own_pid),
{
    assert(monitor_shows(monitors[i], client.workspace->0.id));
}

/// A window does not show that is not mapped, is hidden, is the driver's own,
/// is on no workspace, or is neither pinned nor on a workspace that shows,
/// where any does. A pinned window shows on whatever workspace it is, and so
/// does every window where no workspace is known to show.
pub proof fn law_what_keeps_a_window_from_showing(
    client: Client,
    workspaces: Set<i32>,
    own_pid: u32,
    id: i32,
)
    ensures
        !client.mapped ==> !is_visible(client, workspaces, own_pid) && !is_enumerable(
            client,
            own_pid,
        ),
        client.hidden ==> !is_visible(client, workspaces, own_pid),
        client.workspace is None ==> !is_visible(client, workspaces, own_pid),
        is_internal(client, own_pid) ==> !is_visible(client, workspaces, own_pid)
            && !is_enumerable(client, own_pid),
        client.workspace is Some && !client.pinned && workspaces.contains(id)
            && !workspaces.contains(client.workspace->0.id) ==> !is_visible(
            client,
            workspaces,
            own_pid,
        ),
        client.mapped && !is_internal(client, own_pid) ==> is_enumerable(client, own_pid),
        client.mapped && !client.hidden && !is_internal(client, own_pid) && client.workspace is Some
            && (client.pinned || workspaces == Set::<i32>::empty() || workspaces.contains(
            client.workspace->0.id,
        )) ==> is_visible(client, workspaces, own_pid),
{
}

/// A window reads to callers as the compositor reports it: its place, its
/// process and its class; sides that are reported as negative count as none.
pub proof fn law_a_window_reads_as_it_is_reported(
    client: Client,
    xid: u64,
    title: Seq<char>,
    is_on_screen: bool,
)
    ensures
        ({
            let window = window_of(client, xid, title, is_on_screen);
            &&& window.xid == xid
            &&& window.pid == client.pid
            &&& window.app_name == client.class@
            &&& window.title == title
            &&& window.is_on_screen == is_on_screen
            &&& window.z_index is None
            &&& window.x == client.at[0]
            &&& window.y == client.at[1]
            &&& client.size[0] >= 0 ==> window.width == client.size[0]
            &&& client.size[1] >= 0 ==> window.height == client.size[1]
            &&& client.size[0] < 0 ==> window.width == 0
            &&& client.size[1] < 0 ==> window.height == 0
        }),
{
}

/// In a listing a window keeps the place and the names that are reported of
/// it, and is on the screen exactly where it shows.
pub proof fn law_a_listed_window_reads_as_it_is_reported(
    m: RegistryView,
    listed: Seq<Client>,
    workspaces: Set<i32>,
    own_pid: u32,
    i: int,
)
    requires
        0 <= i < listed.len(),
    ensures
        ({
            let window = listed_window(m, listed, workspaces, own_pid, i);
            &&& window.pid == listed[i].pid
            &&& window.app_name == listed[i].class@
            &&& window.x == listed[i].at[0]
            &&& window.y == listed[i].at[1]
            &&& window.is_on_screen == is_visible(listed[i], workspaces, own_pid)
            &&& window.title == listed_title(listed[i])
        }),
{
}

/// The title of a listed window begins with its own title, where that is not
/// blank, ends with its class in brackets, where that is not blank, and is the
/// address where both are blank.
pub proof fn law_a_listed_title_names_title_and_class(client: Client, i: int, j: int)
    ensures
        0 <= i < client.title@.len() && !is_white_space(client.title@[i])
            ==> client.title@.is_prefix_of(listed_title(client)),
        0 <= j < client.class@.len() && !is_white_space(client.class@[j]) ==> (
        "["@ + client.class@ + "]"@).is_suffix_of(listed_title(client)),
        0 <= i < client.title@.len() && !is_white_space(client.title@[i]) && 0 <= j
            < client.class@.len() && !is_white_space(client.class@[j])
            ==> listed_title(client).len() == client.title@.len() + client.class@.len() + 3,
        (forall|k: int|
            0 <= k < client.title@.len() ==> is_white_space(
                #[trigger] client.title@[k],
            )) && (forall|k: int|
            0 <= k < client.class@.len() ==> is_white_space(
                #[trigger] client.class@[k],
            )) ==> listed_title(client) == client.address@,
        (forall|k: int|
            0 <= k < client.class@.len() ==> is_white_space(
                #[trigger] client.class@[k],
            )) && 0 <= i < client.title@.len() && !is_white_space(client.title@[i])
            ==> listed_title(client) == client.title@,
        (forall|k: int|
            0 <= k < client.title@.len() ==> is_white_space(
                #[trigger] client.title@[k],
            )) && 0 <= j < client.class@.len() && !is_white_space(client.class@[j])
            ==> listed_title(client) == seq!['['] + client.class@ + seq![']'],
        0 <= i < client.title@.len() && !is_white_space(client.title@[i]) && 0 <= j
            < client.class@.len() && !is_white_space(client.class@[j]) ==> listed_title(client)
            == client.title@ + seq![' ', '['] + client.class@ + seq![']'],
{
    reveal_strlit("[");
    reveal_strlit(" [");
    reveal_strlit("]");
    assert("["@ =~= seq!['[']);
    assert(" ["@ =~= seq![' ', '[']);
    assert("]"@ =~= seq![']']);
    let title = client.title@;
    let class = client.class@;
    let bracketed = "["@ + class + "]"@;
    let whole = title + " ["@ + class + "]"@;
    assert(whole.subrange(0, title.len() as int) =~= title);
    assert(whole.subrange(whole.len() - bracketed.len(), whole.len() as int) =~= bracketed);
    assert(bracketed.subrange(0, bracketed.len() as int) =~= bracketed);
    assert(title.subrange(0, title.len() as int) =~= title);
}

/// In a listing, windows without a process come first, then one process after
/// the other; of one process those that show come first; then they go from top
/// to bottom, from left to right, and by title. Windows that agree in all of
/// this keep the order in which they were reported.
pub proof fn law_a_listing_goes_by_process_screen_place_and_title(
    input: Seq<WindowView>,
    output: Seq<WindowView>,
    places: Seq<int>,
    i: int,
    j: int,
)
    requires
        sorts_by(input, output, places),
        0 <= i < j < output.len(),
    ensures
        output.len() == input.len(),
        0 <= places[i] < input.len(),
        0 <= places[j] < input.len(),
        output[i] == input[places[i]],
        output[j] == input[places[j]],
        places[i] != places[j],
        output[j].pid is None ==> output[i].pid is None,
        output[i].pid is Some && output[j].pid is Some ==> output[i].pid->0 <= output[j].pid->0,
        output[i].pid == output[j].pid && output[j].is_on_screen ==> output[i].is_on_screen,
        output[i].pid == output[j].pid && output[i].is_on_screen == output[j].is_on_screen
            ==> output[i].y <= output[j].y,
        output[i].pid == output[j].pid && output[i].is_on_screen == output[j].is_on_screen
            && output[i].y == output[j].y ==> output[i].x <= output[j].x,
        output[i].pid == output[j].pid && output[i].is_on_screen == output[j].is_on_screen
            && output[i].y == output[j].y && output[i].x == output[j].x ==> !precedes(
            output[j].title,
            output[i].title,
        ),
        output[i].pid == output[j].pid && output[i].is_on_screen == output[j].is_on_screen
            && output[i].y == output[j].y && output[i].x == output[j].x && output[i].title
            == output[j].title ==> places[i] < places[j],
{
    lemma_precedes_irreflexive(output[i].title);
    assert(!window_precedes(output[j], output[i]));
}

/// The windows of a process that show are exactly those of its clients that
/// show.
pub proof fn law_the_windows_of_a_process_are_its_own(snapshot: Snapshot, pid: u32, client: Client)
    ensures
        shown_clients_of(snapshot, pid).contains(client) <==> snapshot.clients@.contains(client)
            && client.pid == Some(pid) && is_visible(
            client,
            shown_workspaces(snapshot.monitors@),
            snapshot.own_pid,
        ),
{
    let pred = |c: Client|
        c.pid == Some(pid) && is_visible(
            c,
            shown_workspaces(snapshot.monitors@),
            snapshot.own_pid,
        );
    let clients = snapshot.clients@;
    let shown = clients.filter(pred);
    if shown.contains(client) {
        clients.lemma_filter_contains_rev(pred, client);
        let i = choose|i: int| 0 <= i < shown.len() && shown[i] == client;
        clients.lemma_filter_pred(pred, i);
    }
    if clients.contains(client) && pred(client) {
        let i = choose|i: int| 0 <= i < clients.len() && clients[i] == client;
        clients.lemma_filter_contains(pred, i);
    }
}

/// A process with exactly one window that shows begins where that window does,
/// whatever window has the focus.
pub proof fn law_an_only_window_is_the_origin(
    snapshot: Snapshot,
    pid: u32,
    active: Option<&ActiveWindow>,
    client: Client,
)
    requires
        shown_clients_of(snapshot, pid).len() == 1,
        snapshot.clients@.contains(client),
        client.pid == Some(pid),
        is_visible(client, shown_workspaces(snapshot.monitors@), snapshot.own_pid),
    ensures
        origin_among(shown_clients_of(snapshot, pid), active) == Some((client.at[0], client.at[1])),
{
    let shown = shown_clients_of(snapshot, pid);
    law_the_windows_of_a_process_are_its_own(snapshot, pid, client);
    assert(shown[0] == client);
    let focused = |i: int|
        active matches Some(window) && is_first_client_at(shown, window.address@, i);
    if exists|i: int| #[trigger] focused(i) {
        let i = choose|i: int| #[trigger] focused(i);
        assert(i == 0);
    }
}

/// A process without a window that shows has no origin; one with several has
/// one only where the window with the focus is among them, by its address, and
/// then begins where the first of them at that address does.
pub proof fn law_of_several_windows_the_focused_one_is_the_origin(
    shown: Seq<Client>,
    active: ActiveWindow,
    i: int,
)
    ensures
        shown.len() == 0 ==> origin_among(shown, Some(&active)) is None && origin_among(
            shown,
            None,
        ) is None,
        shown.len() > 1 ==> origin_among(shown, None) is None,
        shown.len() > 1 && (forall|k: int|
            0 <= k < shown.len() ==> folded((#[trigger] shown[k]).address@) != folded(
                active.address@,
            )) ==> origin_among(shown, Some(&active)) is None,
        0 <= i < shown.len() && folded(shown[i].address@) == folded(active.address@) && (forall|
            k: int,
        |
            0 <= k < i ==> folded((#[trigger] shown[k]).address@) != folded(active.address@))
            ==> origin_among(shown, Some(&active)) == Some((shown[i].at[0], shown[i].at[1])),
{
    let given = Some(&active);
    let asked = |i: int|
        given matches Some(window) && is_first_client_at(shown, window.address@, i);
    if 0 <= i < shown.len() && folded(shown[i].address@) == folded(active.address@) && (forall|
        k: int,
    |
        0 <= k < i ==> folded((#[trigger] shown[k]).address@) != folded(active.address@)) {
        assert(asked(i));
        let c = choose|k: int| #[trigger] asked(k);
        assert(asked(c));
        if c < i {
            assert(folded(shown[c].address@) != folded(active.address@));
        }
        if i < c {
            assert(folded(shown[i].address@) != folded(active.address@));
        }
    }
}

/// An id beyond 32 bits, or one that was never given out, is unknown; a window
/// that was found and does not show is refused as such, and one that shows is
/// handed on as it was found.
pub proof fn law_a_request_needs_a_window_that_shows(
    m: RegistryView,
    snapshot: Snapshot,
    window_id: u64,
)
    ensures
        window_id > 0xffff_ffff ==> client_behind(m, snapshot.clients@, window_id) == Err::<
            Client,
            HyprError,
        >(HyprError::UnknownWindow { window_id }),
        window_id <= 0xffff_ffff && !m.by_id.contains_key(window_id as u32) ==> client_behind(
            m,
            snapshot.clients@,
            window_id,
        ) == Err::<Client, HyprError>(HyprError::UnknownWindow { window_id }),
        window_id <= 0xffff_ffff && m.by_id.contains_key(window_id as u32) ==> window_behind(
            m,
            window_id,
        ) == Some(m.by_id[window_id as u32]),
        match client_behind(m, snapshot.clients@, window_id) {
            Ok(client) => visible_client_behind(m, snapshot, window_id) == (if is_visible(
                client,
                shown_workspaces(snapshot.monitors@),
                snapshot.own_pid,
            ) {
                Ok::<Client, HyprError>(client)
            } else {
                Err(HyprError::NotVisible)
            }),
            Err(error) => visible_client_behind(m, snapshot, window_id) == Err::<
                Client,
                HyprError,
            >(error),
        },
{
}

/// Of several reports of one window the first is found.
pub proof fn law_the_first_report_of_a_window_is_found(
    m: RegistryView,
    clients: Seq<Client>,
    window_id: u64,
    i: int,
)
    requires
        window_id <= 0xffff_ffff,
        m.by_id.contains_key(window_id as u32),
        0 <= i < clients.len(),
        identity_of(clients[i]) == m.by_id[window_id as u32],
        forall|j: int| 0 <= j < i ==> identity_of(#[trigger] clients[j]) != m.by_id[window_id as u32],
    ensures
        client_behind(m, clients, window_id) == Ok::<Client, HyprError>(clients[i]),
{
    let identity = m.by_id[window_id as u32];
    assert(is_first_with_identity(clients, identity, i));
    let c = choose|k: int| is_first_with_identity(clients, identity, k);
    assert(is_first_with_identity(clients, identity, c));
    if c < i {
        assert(identity_of(clients[c]) != identity);
    }
    if i < c {
        assert(identity_of(clients[i]) != identity);
    }
}

/// Clients are listed in the order in which they are reported: those of one
/// report before those of the next.
pub proof fn law_clients_are_listed_in_their_order(
    first: Seq<Client>,
    second: Seq<Client>,
    filter_pid: Option<u32>,
    own_pid: u32,
)
    ensures
        listed_clients(first + second, filter_pid, own_pid) == listed_clients(
            first,
            filter_pid,
            own_pid,
        ) + listed_clients(second, filter_pid, own_pid),
{
    let pred = |client: Client| is_listed(client, filter_pid, own_pid);
    Seq::filter_distributes_over_add(first, second, pred);
}

/// A listing has one window for each client that is listed, in their order.
pub proof fn law_each_listed_client_gives_one_window(
    m: RegistryView,
    listed: Seq<Client>,
    workspaces: Set<i32>,
    own_pid: u32,
    i: int,
)
    requires
        0 <= i < listed.len(),
    ensures
        listed_windows(m, listed, workspaces, own_pid).len() == listed.len(),
        listed_windows(m, listed, workspaces, own_pid)[i] == listed_window(
            m,
            listed,
            workspaces,
            own_pid,
            i,
        ),
{
}

/// What was found is handed on as it is, and so is why nothing was.
pub proof fn law_a_found_client_is_handed_on(client: &Client, error: HyprError)
    ensures
        by_value(Ok(client)) == Ok::<Client, HyprError>(*client),
        by_value(Err(error)) == Err::<Client, HyprError>(error),
{
}

} // verus!
