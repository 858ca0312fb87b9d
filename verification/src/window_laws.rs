//! What holds of windows, their ids, and places on the desktop.

use vstd::prelude::*;

use crate::capture::{
    is_captured_at, is_inside, is_shown_at, is_targeted_at, moved, sides, ScreenTarget,
};
use crate::desktop::{
    bottom_of, is_capture_space, is_enabled_at, is_greatest, is_least, left_of, right_of, scale_of,
    span_fits, top_of, DesktopCaptureSpace,
};
use crate::error::HyprError;
use crate::identity::{identities_of, identity_of, Client, IdentityView};
use crate::lookup::{
    client_behind, is_first_with_identity, visible_client_behind, window_behind,
};
use crate::monitors::{
    at_least_one, capture_scale, is_first_at, is_place_on, monitor_at, Monitor, PointerTarget,
};
use crate::registry::{
    can_register_all, can_sync, has_free_id, is_registered, is_sound, live_by_address,
    registered_all, registered_id, seed_of, synced, RegistryView, SURROGATE_ID_COUNT,
};
use crate::registry_laws::{
    keeps_ids, law_registering_keeps_ids, law_room_to_sync, law_sync_knows_the_live_windows,
    lemma_room_to_register_all,
};
use crate::visibility::{is_enumerable, is_internal, is_visible, shown_workspaces};
use crate::windows::{
    is_listed, is_stably_sorted, lemma_window_order, lemma_window_order_irreflexive,
    listed_clients, listed_window, sorts_by, window_precedes, Snapshot, WindowView,
};

verus! {

proof fn lemma_first_with_identity_upto(clients: Seq<Client>, identity: IdentityView, n: nat)
    requires
        n <= clients.len(),
        exists|i: int| 0 <= i < n && identity_of(#[trigger] clients[i]) == identity,
    ensures
        exists|i: int| is_first_with_identity(clients, identity, i),
    decreases n,
{
    let last = n - 1;
    if exists|i: int| 0 <= i < last && identity_of(#[trigger] clients[i]) == identity {
        lemma_first_with_identity_upto(clients, identity, last as nat);
    } else {
        assert(is_first_with_identity(clients, identity, last));
    }
}

/// An id stands for the window that it was given to, for good: it finds that
/// window wherever the compositor reports it, and else no window at all, also
/// where another one has taken over the address.
pub proof fn law_an_id_stands_for_one_window(m: RegistryView, clients: Seq<Client>, id: u32)
    requires
        is_sound(m),
        can_sync(m, clients),
        m.by_id.contains_key(id),
    ensures
        match client_behind(synced(m, clients), clients, id as u64) {
            Ok(client) => identity_of(client) == m.by_id[id] && clients.contains(client),
            Err(error) => error == (HyprError::StaleWindow { window_id: id as u64 })
                && !identities_of(clients).contains(m.by_id[id]),
        },
{
    law_sync_knows_the_live_windows(m, clients);
    let after = synced(m, clients);
    let identity = m.by_id[id];
    assert(after.by_id.contains_key(id) && after.by_id[id] == identity);
    assert(window_behind(after, id as u64) == Some(identity));
    if exists|i: int| is_first_with_identity(clients, identity, i) {
        let i = choose|i: int| is_first_with_identity(clients, identity, i);
        assert(clients.contains(clients[i]));
    } else if identities_of(clients).contains(identity) {
        let i = choose|i: int|
            0 <= i < identities_of(clients).len() && identities_of(clients)[i] == identity;
        assert(identity_of(clients[i]) == identity);
        lemma_first_with_identity_upto(clients, identity, clients.len());
    }
}

/// Every window that the compositor reports last at its address can be found
/// by its id.
pub proof fn law_every_live_window_has_an_id(m: RegistryView, clients: Seq<Client>, a: Seq<char>)
    requires
        is_sound(m),
        can_sync(m, clients),
        live_by_address(clients).contains_key(a),
    ensures
        ({
            let after = synced(m, clients);
            &&& after.by_address.contains_key(a)
            &&& window_behind(after, after.by_address[a] as u64) == Some(
                live_by_address(clients)[a],
            )
        }),
{
    law_sync_knows_the_live_windows(m, clients);
    assert(is_registered(synced(m, clients), live_by_address(clients)[a]));
}

proof fn lemma_registering_more_keeps_ids(m: RegistryView, identities: Seq<IdentityView>, n: nat)
    requires
        is_sound(m),
        can_register_all(m, identities),
        n <= identities.len(),
    ensures
        is_sound(registered_all(m, identities)),
        is_sound(registered_all(m, identities.take(n as int))),
        keeps_ids(registered_all(m, identities.take(n as int)), registered_all(m, identities)),
    decreases identities.len(),
{
    if identities.len() > 0 {
        let init = identities.drop_last();
        let last = identities.last();
        let end = identities.len() - 1;
        assert forall|i: int| 0 <= i < init.len() implies {
            let before = #[trigger] registered_all(m, init.take(i));
            is_registered(before, init[i]) || has_free_id(before)
        } by {
            assert(init.take(i) =~= identities.take(i));
            let before = registered_all(m, identities.take(i));
        }
        assert(init =~= identities.take(end));
        let before = registered_all(m, identities.take(end));
        let k = if n <= end { n } else { end as nat };
        lemma_registering_more_keeps_ids(m, init, k);
        assert(init.take(k as int) =~= identities.take(k as int));
        law_registering_keeps_ids(before, last, seed_of(last));
    }
    if n == identities.len() {
        assert(identities.take(n as int) =~= identities);
    }
}

/// Each window of a listing is listed under an id that leads back to it.
pub proof fn law_listed_ids_lead_back(
    m: RegistryView,
    listed: Seq<Client>,
    workspaces: Set<i32>,
    own_pid: u32,
    i: int,
)
    requires
        is_sound(m),
        can_register_all(m, identities_of(listed)),
        0 <= i < listed.len(),
    ensures
        window_behind(
            registered_all(m, identities_of(listed)),
            listed_window(m, listed, workspaces, own_pid, i).xid,
        ) == Some(identity_of(listed[i])),
{
    let identities = identities_of(listed);
    let before = registered_all(m, identities.take(i));
    lemma_registering_more_keeps_ids(m, identities, i as nat);
    lemma_registering_more_keeps_ids(m, identities, (i + 1) as nat);
    assert(is_registered(before, identities[i]) || has_free_id(before));
    law_registering_keeps_ids(before, identities[i], seed_of(identities[i]));
    assert(identities.take(i + 1).drop_last() =~= identities.take(i));
    let id = registered_id(before, identities[i], seed_of(identities[i]));
    let next = registered_all(m, identities.take(i + 1));
    assert(next.by_id.contains_key(id));
}

/// Where twice as many ids are free as there are clients, there are enough to
/// sync with them and to list them.
pub proof fn law_room_to_list(
    m: RegistryView,
    clients: Seq<Client>,
    filter_pid: Option<u32>,
    own_pid: u32,
)
    requires
        is_sound(m),
        m.by_id.dom().len() + 2 * clients.len() <= SURROGATE_ID_COUNT,
    ensures
        can_sync(m, clients),
        can_register_all(
            synced(m, clients),
            identities_of(listed_clients(clients, filter_pid, own_pid)),
        ),
{
    law_room_to_sync(m, clients);
    law_sync_knows_the_live_windows(m, clients);
    let pred = |client: Client| is_listed(client, filter_pid, own_pid);
    clients.lemma_filter_len(pred);
    lemma_room_to_register_all(
        synced(m, clients),
        identities_of(listed_clients(clients, filter_pid, own_pid)),
    );
}

/// A window that shows can be listed and is not hidden; a window of the driver
/// itself is never listed, never shows, and is never found by a request that
/// needs a window that shows.
pub proof fn law_own_windows_stay_out(
    client: Client,
    filter_pid: Option<u32>,
    own_pid: u32,
    workspaces: Set<i32>,
    m: RegistryView,
    snapshot: Snapshot,
    window_id: u64,
)
    ensures
        is_visible(client, workspaces, own_pid) ==> is_enumerable(client, own_pid)
            && !client.hidden,
        is_internal(client, own_pid) ==> !is_listed(client, filter_pid, own_pid),
        is_internal(client, own_pid) ==> !is_visible(client, workspaces, own_pid),
        visible_client_behind(m, snapshot, window_id) matches Ok(found) ==> !is_internal(
            found,
            snapshot.own_pid,
        ) && is_visible(found, shown_workspaces(snapshot.monitors@), snapshot.own_pid),
{
}

/// A listing holds exactly the windows that are mapped, not the driver's own,
/// and of the process that was asked for, whether they show or not.
pub proof fn law_a_listing_is_complete(
    clients: Seq<Client>,
    filter_pid: Option<u32>,
    own_pid: u32,
    client: Client,
)
    ensures
        listed_clients(clients, filter_pid, own_pid).contains(client) <==> clients.contains(client)
            && client.mapped && !is_internal(client, own_pid) && (filter_pid is None || client.pid
            == filter_pid),
{
    let pred = |c: Client| is_listed(c, filter_pid, own_pid);
    let listed = clients.filter(pred);
    if listed.contains(client) {
        clients.lemma_filter_contains_rev(pred, client);
        let i = choose|i: int| 0 <= i < listed.len() && listed[i] == client;
        clients.lemma_filter_pred(pred, i);
    }
    if clients.contains(client) && pred(client) {
        let i = choose|i: int| 0 <= i < clients.len() && clients[i] == client;
        clients.lemma_filter_contains(pred, i);
    }
}

/// Whether the window at place `a` of `input` is listed before the one at
/// place `b`.
spec fn comes_first(input: Seq<WindowView>, a: int, b: int) -> bool {
    window_precedes(input[a], input[b]) || (!window_precedes(input[b], input[a]) && a < b)
}

proof fn lemma_comes_first_once(input: Seq<WindowView>, a: int, b: int)
    requires
        comes_first(input, a, b),
    ensures
        a != b,
        !comes_first(input, b, a),
{
    lemma_window_order_irreflexive(input[a]);
    if window_precedes(input[a], input[b]) && window_precedes(input[b], input[a]) {
        lemma_window_order(input[a], input[b], input[a]);
    }
}

proof fn lemma_sorted_places(
    input: Seq<WindowView>,
    output: Seq<WindowView>,
    places: Seq<int>,
)
    requires
        sorts_by(input, output, places),
    ensures
        forall|i: int, j: int|
            #![trigger places[i], places[j]]
            0 <= i < j < places.len() ==> comes_first(input, places[i], places[j]),
        forall|a: int| 0 <= a < input.len() ==> #[trigger] places.contains(a),
{
    assert forall|i: int, j: int|
        #![trigger places[i], places[j]]
        0 <= i < j < places.len() implies comes_first(input, places[i], places[j]) by {
        assert(output[i] == input[places[i]]);
        assert(output[j] == input[places[j]]);
    }
    let all = vstd::set_lib::set_int_range(0, input.len() as int);
    vstd::set_lib::lemma_int_range(0, input.len() as int);
    places.unique_seq_to_set();
    assert(places.to_set().subset_of(all)) by {
        assert forall|a: int| places.to_set().contains(a) implies all.contains(a) by {
            let i = choose|i: int| 0 <= i < places.len() && places[i] == a;
        }
    }
    vstd::set_lib::lemma_subset_equality(places.to_set(), all);
    assert forall|a: int| 0 <= a < input.len() implies #[trigger] places.contains(a) by {
        assert(all.contains(a));
        assert(places.to_set().contains(a));
    }
}

proof fn lemma_places_agree_upto(
    input: Seq<WindowView>,
    first: Seq<WindowView>,
    p: Seq<int>,
    second: Seq<WindowView>,
    q: Seq<int>,
    n: nat,
)
    requires
        sorts_by(input, first, p),
        sorts_by(input, second, q),
        n <= input.len(),
    ensures
        forall|i: int| 0 <= i < n ==> p[i] == q[i],
    decreases n,
{
    if n > 0 {
        let i = n - 1;
        lemma_places_agree_upto(input, first, p, second, q, i as nat);
        lemma_sorted_places(input, first, p);
        lemma_sorted_places(input, second, q);
        let a = p[i];
        let b = q[i];
        assert(q.contains(a) && p.contains(b));
        let j = choose|j: int| 0 <= j < q.len() && q[j] == a;
        let k = choose|k: int| 0 <= k < p.len() && p[k] == b;
        if j < i {
            assert(p[j] == q[j]);
            lemma_comes_first_once(input, p[j], p[i]);
        }
        if k < i {
            assert(p[k] == q[k]);
            lemma_comes_first_once(input, q[k], q[i]);
        }
        if j > i && k > i {
            assert(comes_first(input, q[i], q[j]));
            assert(comes_first(input, p[i], p[k]));
            lemma_comes_first_once(input, b, a);
        }
    }
}

/// Windows have one order in which they are listed.
pub proof fn law_listings_have_one_order(
    input: Seq<WindowView>,
    first: Seq<WindowView>,
    second: Seq<WindowView>,
)
    requires
        is_stably_sorted(input, first),
        is_stably_sorted(input, second),
    ensures
        first == second,
{
    let p = choose|places: Seq<int>| sorts_by(input, first, places);
    let q = choose|places: Seq<int>| sorts_by(input, second, places);
    lemma_places_agree_upto(input, first, p, second, q, input.len());
    assert forall|i: int| 0 <= i < first.len() implies first[i] == second[i] by {
        assert(first[i] == input[p[i]]);
        assert(second[i] == input[q[i]]);
    }
    assert(first =~= second);
}

/// A pointer is only ever sent to a pixel within the sides that are named with
/// it.
pub proof fn law_targets_lie_on_their_output(
    target: PointerTarget,
    monitor: Monitor,
    scaled: (i64, i64),
)
    requires
        is_place_on(target, monitor, scaled),
    ensures
        target.output_x < target.output_width,
        target.output_y < target.output_height,
{
}

/// A point of a window's capture gets a target only where it lies inside the
/// capture, and the target lies on an enabled monitor that shows the place of
/// the desktop which the point leads to, and which is named with it.
pub proof fn law_only_points_of_the_capture_get_a_target<E, U, S>(
    client: Client,
    monitors: Seq<Monitor>,
    extent: &E,
    unscale: &U,
    scale: &S,
    point: (i32, i32),
    shown: ScreenTarget,
) where
    E: Fn((i32, i32), u64) -> (u32, u32),
    U: Fn((i32, i32), u64) -> (i32, i32),
    S: Fn(&Monitor, (i32, i32)) -> (i64, i64),

    requires
        is_targeted_at(client, monitors, extent, unscale, scale, point, Ok(shown)),
    ensures
        exists|size: (u32, u32)| #[trigger]
            call_ensures(extent, (sides(client), capture_scale(client, monitors)), size)
                && is_inside(point, size),
        exists|offset: (i32, i32), i: int|
            #![trigger call_ensures(unscale, (point, capture_scale(client, monitors)), offset), monitors[i]]
            call_ensures(unscale, (point, capture_scale(client, monitors)), offset) && (
                shown.screen_x,
                shown.screen_y,
            ) == moved(client, offset) && 0 <= i < monitors.len() && monitors[i].shows_pixel(
                moved(client, offset).0 as int,
                moved(client, offset).1 as int,
            ) && shown.target.output_name@ == monitors[i].name@,
        shown.target.output_x < shown.target.output_width,
        shown.target.output_y < shown.target.output_height,
{
    let place = choose|place: Result<(i32, i32), HyprError>| #[trigger]
        is_captured_at(client, monitors, extent, unscale, point, place) && match place {
            Ok(place) => is_shown_at(monitors, scale, place, Ok(shown)),
            Err(error) => Ok::<ScreenTarget, HyprError>(shown) == Err::<ScreenTarget, HyprError>(
                error,
            ),
        };
    let at = place->Ok_0;
    let i = monitor_at(monitors, Some(at.0 as i64), Some(at.1 as i64))->0;
    assert(is_first_at(monitors, at.0 as int, at.1 as int, i));
    let offset = choose|offset: (i32, i32)| #[trigger]
        call_ensures(unscale, (point, capture_scale(client, monitors)), offset) && at == moved(
            client,
            offset,
        );
    assert(monitors[i].shows_pixel(at.0 as int, at.1 as int));
}

/// The space of a capture of the desktop holds every enabled monitor, and is
/// the only one.
pub proof fn law_the_desktop_holds_its_monitors(
    monitors: Seq<Monitor>,
    space: DesktopCaptureSpace,
    other: DesktopCaptureSpace,
    i: int,
)
    requires
        span_fits(monitors),
        is_capture_space(monitors, space),
        is_capture_space(monitors, other),
        is_enabled_at(monitors, i),
    ensures
        space == other,
        space.origin_x <= monitors[i].x,
        space.origin_y <= monitors[i].y,
        monitors[i].right() <= space.origin_x + space.extent_x,
        monitors[i].bottom() <= space.origin_y + space.extent_y,
        monitors[i].scale_bits <= space.scale_bits,
{
    assert(left_of()(monitors[i]) == monitors[i].x);
    assert(top_of()(monitors[i]) == monitors[i].y);
    assert(right_of()(monitors[i]) == monitors[i].right());
    assert(bottom_of()(monitors[i]) == monitors[i].bottom());
    assert(scale_of()(monitors[i]) == monitors[i].scale_bits);
    let right = choose|right: int| #[trigger]
        is_greatest(monitors, right_of(), right) && space.extent_x == at_least_one(
            (right - space.origin_x) as i32,
        );
    let bottom = choose|bottom: int| #[trigger]
        is_greatest(monitors, bottom_of(), bottom) && space.extent_y == at_least_one(
            (bottom - space.origin_y) as i32,
        );
    let l = choose|l: int| #[trigger]
        is_enabled_at(monitors, l) && left_of()(monitors[l]) == space.origin_x;
    let t = choose|t: int| #[trigger]
        is_enabled_at(monitors, t) && top_of()(monitors[t]) == space.origin_y;
    let r = choose|r: int| #[trigger]
        is_enabled_at(monitors, r) && right_of()(monitors[r]) == right;
    let b = choose|b: int| #[trigger]
        is_enabled_at(monitors, b) && bottom_of()(monitors[b]) == bottom;
    assert(monitors[r].right() - monitors[l].x <= i32::MAX);
    assert(monitors[b].bottom() - monitors[t].y <= i32::MAX);
    assert(right_of()(monitors[l]) == monitors[l].right());
    assert(bottom_of()(monitors[t]) == monitors[t].bottom());
    lemma_one_least(monitors, left_of(), space.origin_x as int, other.origin_x as int);
    lemma_one_least(monitors, top_of(), space.origin_y as int, other.origin_y as int);
    lemma_one_greatest(monitors, scale_of(), space.scale_bits as int, other.scale_bits as int);
    let right2 = choose|right: int| #[trigger]
        is_greatest(monitors, right_of(), right) && other.extent_x == at_least_one(
            (right - other.origin_x) as i32,
        );
    let bottom2 = choose|bottom: int| #[trigger]
        is_greatest(monitors, bottom_of(), bottom) && other.extent_y == at_least_one(
            (bottom - other.origin_y) as i32,
        );
    lemma_one_greatest(monitors, right_of(), right, right2);
    lemma_one_greatest(monitors, bottom_of(), bottom, bottom2);
}

proof fn lemma_one_least(monitors: Seq<Monitor>, value: spec_fn(Monitor) -> int, a: int, b: int)
    requires
        is_least(monitors, value, a),
        is_least(monitors, value, b),
    ensures
        a == b,
{
    let i = choose|i: int| #[trigger] is_enabled_at(monitors, i) && value(monitors[i]) == a;
    let j = choose|j: int| #[trigger] is_enabled_at(monitors, j) && value(monitors[j]) == b;
    assert(b <= value(monitors[i]) && a <= value(monitors[j]));
}

proof fn lemma_one_greatest(monitors: Seq<Monitor>, value: spec_fn(Monitor) -> int, a: int, b: int)
    requires
        is_greatest(monitors, value, a),
        is_greatest(monitors, value, b),
    ensures
        a == b,
{
    let i = choose|i: int| #[trigger] is_enabled_at(monitors, i) && value(monitors[i]) == a;
    let j = choose|j: int| #[trigger] is_enabled_at(monitors, j) && value(monitors[j]) == b;
    assert(b >= value(monitors[i]) && a >= value(monitors[j]));
}

} // verus!
