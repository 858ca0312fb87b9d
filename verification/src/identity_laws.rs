//! What makes two reports reports of one window, and how a window keeps its id
//! from one report to the next.

use vstd::prelude::*;

use crate::identity::{
    active_identity, identities_of, identity_of, ActiveWindow, Client, IdentityView,
};
use crate::lookup::client_behind;
use crate::registry::{
    can_sync, fnv1a, has_free_id, is_first_free, is_registered, is_sound, lemma_listing_exists,
    lists_by_address, live_by_address, probe, registered, registered_all, registered_id,
    registration_order, retained, seed_of, synced, RegistryView,
};
use crate::registry_laws::{
    law_sync_knows_the_live_windows, lemma_first_free, lemma_first_free_found,
};
use crate::text::{is_white_space, precedes};
use crate::window_laws::law_an_id_stands_for_one_window;

verus! {

/// Whether two reports agree in what does not change while a window lives: its
/// address, its stable id, its process, and the class and title that it began
/// with.
pub open spec fn agree_in_origin(first: Client, second: Client) -> bool {
    &&& first.address@ == second.address@
    &&& first.stable_id@ == second.stable_id@
    &&& first.pid == second.pid
    &&& first.initial_class@ == second.initial_class@
    &&& first.initial_title@ == second.initial_title@
}

/// Two reports that agree in what a window began with are of one window,
/// whatever class, title, place, size or workspace it has by then. A window
/// that reports no class that it began with is known by its present one.
pub proof fn law_a_window_is_known_by_its_origin(first: Client, second: Client)
    requires
        agree_in_origin(first, second),
        first.initial_class@.len() > 0 || first.class@ == second.class@,
    ensures
        identity_of(first) == identity_of(second),
{
}

/// Two reports are of different windows where they differ in address, stable
/// id, process or first title, in the class that they began with, or, where
/// neither reports one, in their present class.
pub proof fn law_windows_of_different_origin_are_told_apart(first: Client, second: Client)
    requires
        ({
            ||| first.address@ != second.address@
            ||| first.stable_id@ != second.stable_id@
            ||| first.pid != second.pid
            ||| first.initial_title@ != second.initial_title@
            ||| first.initial_class@.len() > 0 && second.initial_class@.len() > 0
                && first.initial_class@ != second.initial_class@
            ||| first.initial_class@.len() == 0 && second.initial_class@.len() == 0
                && first.class@ != second.class@
        }),
    ensures
        identity_of(first) != identity_of(second),
{
}

/// The parts of an identity are those that the window reports.
pub proof fn law_an_identity_holds_what_is_reported(client: Client)
    ensures
        identity_of(client).address == client.address@,
        identity_of(client).stable_id == client.stable_id@,
        identity_of(client).pid == client.pid,
        identity_of(client).initial_title == client.initial_title@,
        client.initial_class@.len() > 0 ==> identity_of(client).initial_class
            == client.initial_class@,
        client.initial_class@.len() == 0 ==> identity_of(client).initial_class == client.class@,
{
}

/// The window with the focus is the client that reports the same of itself,
/// and is none exactly where its address holds nothing but white space.
pub proof fn law_the_window_with_the_focus_is_its_client(active: ActiveWindow, client: Client)
    ensures
        (exists|i: int|
            0 <= i < active.address@.len() && !is_white_space(#[trigger] active.address@[i]))
            <==> active_identity(active) is Some,
        active_identity(active) is Some && active.address@ == client.address@ && active.stable_id@
            == client.stable_id@ && active.pid == client.pid && active.class@ == client.class@
            && active.initial_class@ == client.initial_class@ && active.initial_title@
            == client.initial_title@ ==> active_identity(active) == Some(identity_of(client)),
        active_identity(active) == Some(identity_of(client)) ==> active.address@ == client.address@
            && active.stable_id@ == client.stable_id@ && active.pid == client.pid
            && active.initial_title@ == client.initial_title@,
        active_identity(active) == Some(identity_of(client)) && active.initial_class@.len() > 0
            && client.initial_class@.len() > 0 ==> active.initial_class@ == client.initial_class@,
{
}

/// Where an address is reported more than once, the last report counts.
pub proof fn law_the_last_report_of_an_address_counts(clients: Seq<Client>, i: int)
    requires
        0 <= i < clients.len(),
        forall|j: int| i < j < clients.len() ==> (#[trigger] clients[j]).address@
            != clients[i].address@,
    ensures
        live_by_address(clients).contains_key(clients[i].address@),
        live_by_address(clients)[clients[i].address@] == identity_of(clients[i]),
    decreases clients.len(),
{
    let init = clients.drop_last();
    if i < clients.len() - 1 {
        assert(clients[clients.len() - 1].address@ != clients[i].address@);
        assert(init[i] == clients[i]);
        assert forall|j: int| i < j < init.len() implies (#[trigger] init[j]).address@
            != init[i].address@ by {
            assert(clients[j].address@ != clients[i].address@);
        }
        law_the_last_report_of_an_address_counts(init, i);
    }
}

/// An address that no client reports is not live.
pub proof fn law_an_address_without_a_report_is_not_live(clients: Seq<Client>, a: Seq<char>)
    requires
        forall|i: int| 0 <= i < clients.len() ==> (#[trigger] clients[i]).address@ != a,
    ensures
        !live_by_address(clients).contains_key(a),
    decreases clients.len(),
{
    if clients.len() > 0 {
        let init = clients.drop_last();
        assert forall|i: int| 0 <= i < init.len() implies (#[trigger] init[i]).address@ != a by {
            assert(clients[i].address@ != a);
        }
        law_an_address_without_a_report_is_not_live(init, a);
        assert(clients[clients.len() - 1].address@ != a);
    }
}

/// A window that was reported once is found under the id that it then got, as
/// often as it is reported again, though its class, its title, its place, its
/// size and its workspace have changed; and what is found agrees with it in
/// what it began with.
pub proof fn law_a_window_that_changes_keeps_its_id(
    m: RegistryView,
    before: Seq<Client>,
    i: int,
    later: Seq<Client>,
    second: Client,
)
    requires
        is_sound(m),
        can_sync(m, before),
        can_sync(synced(m, before), later),
        0 <= i < before.len(),
        forall|j: int| i < j < before.len() ==> (#[trigger] before[j]).address@
            != before[i].address@,
        later.contains(second),
        agree_in_origin(before[i], second),
        second.initial_class@.len() > 0,
    ensures
        ({
            let known = synced(m, before);
            &&& known.by_address.contains_key(before[i].address@)
            &&& client_behind(
                synced(known, later),
                later,
                known.by_address[before[i].address@] as u64,
            ) matches Ok(found) && found.address@ == second.address@ && found.stable_id@
                == second.stable_id@ && found.pid == second.pid && found.initial_title@
                == second.initial_title@ && later.contains(found) && (found.initial_class@
                == second.initial_class@ || found.initial_class@.len() == 0)
        }),
{
    let first = before[i];
    let known = synced(m, before);
    law_the_last_report_of_an_address_counts(before, i);
    law_sync_knows_the_live_windows(m, before);
    assert(is_registered(known, live_by_address(before)[first.address@]));
    let id = known.by_address[first.address@];
    law_a_window_is_known_by_its_origin(first, second);
    law_an_id_stands_for_one_window(known, later, id);
    let k = choose|k: int| 0 <= k < later.len() && later[k] == second;
    assert(identities_of(later)[k] == identity_of(second));
    assert(identities_of(later).contains(identity_of(second)));
}

/// After a sync the last report of each address has an id in the upper half of
/// 32 bits under which its window stands, and two addresses have two ids.
pub proof fn law_every_reported_window_gets_an_id_of_its_own(
    m: RegistryView,
    clients: Seq<Client>,
    i: int,
    j: int,
)
    requires
        is_sound(m),
        can_sync(m, clients),
        0 <= i < clients.len(),
        0 <= j < clients.len(),
        forall|k: int| i < k < clients.len() ==> (#[trigger] clients[k]).address@
            != clients[i].address@,
        forall|k: int| j < k < clients.len() ==> (#[trigger] clients[k]).address@
            != clients[j].address@,
    ensures
        ({
            let after = synced(m, clients);
            let a = clients[i].address@;
            let b = clients[j].address@;
            &&& after.by_address.contains_key(a)
            &&& after.by_address[a] >= 0x8000_0000
            &&& after.by_id.contains_key(after.by_address[a])
            &&& after.by_id[after.by_address[a]] == identity_of(clients[i])
            &&& a != b ==> after.by_address[a] != after.by_address[b]
        }),
{
    law_the_last_report_of_an_address_counts(clients, i);
    law_the_last_report_of_an_address_counts(clients, j);
    law_sync_knows_the_live_windows(m, clients);
    let live = live_by_address(clients);
    assert(is_registered(synced(m, clients), live[clients[i].address@]));
    assert(is_registered(synced(m, clients), live[clients[j].address@]));
}

/// How far an id lies above a candidate, going up in the upper half of 32 bits
/// and round.
pub open spec fn steps_up(candidate: u32, id: u32) -> int {
    let from = candidate as int % 0x8000_0000;
    let to = id as int - 0x8000_0000;
    if to >= from {
        to - from
    } else {
        to - from + 0x8000_0000
    }
}

/// A window that is new gets a free id, and no free id comes before it on the
/// way up from the candidate.
pub proof fn law_the_next_free_id_is_taken(
    m: RegistryView,
    identity: IdentityView,
    candidate: u32,
    free: u32,
)
    requires
        is_sound(m),
        has_free_id(m),
        !is_registered(m, identity),
        free >= 0x8000_0000,
        !m.by_id.contains_key(free),
    ensures
        registered_id(m, identity, candidate) >= 0x8000_0000,
        !m.by_id.contains_key(registered_id(m, identity, candidate)),
        steps_up(candidate, registered_id(m, identity, candidate)) <= steps_up(candidate, free),
{
    let used = m.by_id.dom();
    lemma_first_free(used, candidate);
    let k = steps_up(candidate, free) as nat;
    lemma_probe_after_steps(candidate, free);
    lemma_first_free_found(used, candidate);
    let j = choose|j: nat| is_first_free(used, candidate, j);
    assert(is_first_free(used, candidate, j));
    if k < j {
        assert(used.contains(probe(candidate, k)));
    }
    lemma_steps_of_probe(candidate, j);
}

proof fn lemma_probe_after_steps(candidate: u32, id: u32)
    requires
        id >= 0x8000_0000,
    ensures
        0 <= steps_up(candidate, id) < 0x8000_0000,
        probe(candidate, steps_up(candidate, id) as nat) == id,
{
    let from = candidate as int % 0x8000_0000;
    let to = id as int - 0x8000_0000;
    let k = steps_up(candidate, id);
    let c = candidate as int;
    assert((c + k) % 0x8000_0000 == to) by {
        assert(c == 0x8000_0000 * (c / 0x8000_0000) + from);
        if to >= from {
            assert(c + k == 0x8000_0000 * (c / 0x8000_0000) + to);
        } else {
            assert(c + k == 0x8000_0000 * (c / 0x8000_0000 + 1) + to);
        }
    }
}

proof fn lemma_steps_of_probe(candidate: u32, j: nat)
    ensures
        steps_up(candidate, probe(candidate, j)) <= j,
{
    let from = candidate as int % 0x8000_0000;
    let c = candidate as int;
    let to = (c + j) % 0x8000_0000;
    assert(probe(candidate, j) as int - 0x8000_0000 == to);
    assert(c == 0x8000_0000 * (c / 0x8000_0000) + from);
    assert(c + j == 0x8000_0000 * ((c + j) / 0x8000_0000) + to);
    let q = (c + j) / 0x8000_0000 - c / 0x8000_0000;
    assert(j == 0x8000_0000 * q + to - from);
    if to < from {
        assert(q >= 1);
    }
}

/// Two addresses that differ in their last byte alone have different seeds.
pub proof fn law_seeds_tell_last_bytes_apart(bytes: Seq<u8>, a: u8, b: u8)
    requires
        a != b,
    ensures
        fnv1a(bytes.push(a)) != fnv1a(bytes.push(b)),
{
    let h = fnv1a(bytes);
    assert(bytes.push(a).drop_last() =~= bytes);
    assert(bytes.push(b).drop_last() =~= bytes);
    let x = h ^ (a as u32);
    let y = h ^ (b as u32);
    assert(x != y) by (bit_vector)
        requires
            x == h ^ (a as u32),
            y == h ^ (b as u32),
            a != b,
    ;
    if fnv1a(bytes.push(a)) == fnv1a(bytes.push(b)) {
        lemma_prime_is_odd(x as int, y as int);
    }
}

/// The seed of an address is the 32-bit FNV-1a hash of its bytes: it begins
/// with the offset basis, and each byte is put in by an exclusive or and a
/// product with the prime, of which 32 bits are kept.
pub proof fn law_a_seed_is_built_byte_by_byte(bytes: Seq<u8>, byte: u8)
    ensures
        fnv1a(Seq::<u8>::empty()) == 2166136261,
        fnv1a(bytes.push(byte)) == ((fnv1a(bytes) ^ (byte as u32)) as int * 16777619)
            % 4294967296,
{
    assert(bytes.push(byte).drop_last() =~= bytes);
}

proof fn lemma_prime_is_odd(x: int, y: int)
    requires
        0 <= x < 0x1_0000_0000,
        0 <= y < 0x1_0000_0000,
        (x * 0x0100_0193) % 0x1_0000_0000 == (y * 0x0100_0193) % 0x1_0000_0000,
    ensures
        x == y,
{
    let m = 0x1_0000_0000int;
    let p = 0x0100_0193int;
    let inv = 899433627int;
    let d = (x * p) / m - (y * p) / m;
    assert(x * p - y * p == m * d) by {
        vstd::arithmetic::div_mod::lemma_fundamental_div_mod(x * p, m);
        vstd::arithmetic::div_mod::lemma_fundamental_div_mod(y * p, m);
    }
    assert(p * inv == 1 + m * 3513497int);
    assert((x - y) * (p * inv) == m * d * inv) by (nonlinear_arith)
        requires
            x * p - y * p == m * d,
    ;
    assert((x - y) == m * (d * inv - (x - y) * 3513497int)) by (nonlinear_arith)
        requires
            (x - y) * (p * inv) == m * d * inv,
            p * inv == 1 + m * 3513497int,
    ;
    let e = d * inv - (x - y) * 3513497int;
    assert(-m < m * e < m);
    assert(e == 0) by (nonlinear_arith)
        requires
            -m < m * e < m,
            m == 0x1_0000_0000int,
    ;
}

/// Identities stand in the order of the clients that they are of.
pub proof fn law_identities_stand_in_the_order_of_their_clients(clients: Seq<Client>, i: int)
    requires
        0 <= i < clients.len(),
    ensures
        identities_of(clients).len() == clients.len(),
        identities_of(clients)[i] == identity_of(clients[i]),
{
}

/// A window that is new gets one id and its address; every other id and every
/// other address stays as it was. A window that is known changes nothing.
pub proof fn law_registering_adds_one_window(
    m: RegistryView,
    identity: IdentityView,
    candidate: u32,
    id: u32,
    a: Seq<char>,
)
    ensures
        ({
            let after = registered(m, identity, candidate);
            let given = registered_id(m, identity, candidate);
            &&& m.by_address.contains_key(identity.address) && m.by_id.contains_key(
                m.by_address[identity.address],
            ) && m.by_id[m.by_address[identity.address]] == identity ==> after == m && given
                == m.by_address[identity.address]
            &&& after.by_address.contains_key(identity.address)
            &&& after.by_address[identity.address] == given
            &&& after.by_id.contains_key(given)
            &&& after.by_id[given] == identity
            &&& id != given ==> after.by_id.contains_key(id) == m.by_id.contains_key(id)
            &&& id != given && m.by_id.contains_key(id) ==> after.by_id[id] == m.by_id[id]
            &&& a != identity.address ==> after.by_address.contains_key(a)
                == m.by_address.contains_key(a)
            &&& a != identity.address && m.by_address.contains_key(a) ==> after.by_address[a]
                == m.by_address[a]
        }),
{
}

/// Windows are registered from the hash of the bytes of their address, and of
/// nothing else of them.
pub proof fn law_the_seed_is_of_the_address_alone(first: IdentityView, second: IdentityView)
    ensures
        seed_of(first) == fnv1a(vstd::utf8::encode_utf8(first.address)),
        first.address == second.address ==> seed_of(first) == seed_of(second),
{
}

/// Windows are registered one after the other, by their addresses, each
/// address once.
pub proof fn law_windows_are_registered_by_address(clients: Seq<Client>, i: int, j: int)
    requires
        0 <= i < j < registration_order(clients).len(),
    ensures
        precedes(registration_order(clients)[i].address, registration_order(clients)[j].address),
        live_by_address(clients).contains_key(registration_order(clients)[i].address),
        live_by_address(clients)[registration_order(clients)[i].address] == registration_order(
            clients,
        )[i],
{
    lemma_listing_exists(clients);
    let order = registration_order(clients);
    assert(lists_by_address(order, live_by_address(clients)));
}

/// A list of windows is registered from its first to its last, each from the
/// seed of its address.
pub proof fn law_windows_are_registered_in_turn(
    m: RegistryView,
    identities: Seq<IdentityView>,
    next: IdentityView,
)
    ensures
        registered_all(m, Seq::<IdentityView>::empty()) == m,
        registered_all(m, identities.push(next)) == registered(
            registered_all(m, identities),
            next,
            fnv1a(vstd::utf8::encode_utf8(next.address)),
        ),
{
    assert(identities.push(next).drop_last() =~= identities);
}

proof fn lemma_new_ids_are_of_the_list(m: RegistryView, identities: Seq<IdentityView>, id: u32)
    requires
        registered_all(m, identities).by_id.contains_key(id),
        !m.by_id.contains_key(id),
    ensures
        identities.contains(registered_all(m, identities).by_id[id]),
    decreases identities.len(),
{
    if identities.len() > 0 {
        let init = identities.drop_last();
        let last = identities.last();
        let before = registered_all(m, init);
        let after = registered_all(m, identities);
        law_registering_adds_one_window(before, last, seed_of(last), id, last.address);
        if id == registered_id(before, last, seed_of(last)) {
            assert(identities[identities.len() - 1] == last);
        } else {
            lemma_new_ids_are_of_the_list(m, init, id);
            let k = choose|k: int| 0 <= k < init.len() && init[k] == before.by_id[id];
            assert(identities[k] == after.by_id[id]);
        }
    }
}

/// A sync gives new ids to windows that were reported, and to no others.
pub proof fn law_a_sync_gives_ids_to_reported_windows_alone(
    m: RegistryView,
    clients: Seq<Client>,
    id: u32,
)
    requires
        synced(m, clients).by_id.contains_key(id),
        !m.by_id.contains_key(id),
    ensures
        ({
            let window = synced(m, clients).by_id[id];
            live_by_address(clients).contains_key(window.address) && live_by_address(
                clients,
            )[window.address] == window
        }),
{
    lemma_listing_exists(clients);
    let order = registration_order(clients);
    assert(lists_by_address(order, live_by_address(clients)));
    lemma_new_ids_are_of_the_list(retained(m, live_by_address(clients)), order, id);
    let window = synced(m, clients).by_id[id];
    let k = choose|k: int| 0 <= k < order.len() && order[k] == window;
    assert(live_by_address(clients).contains_key(order[k].address));
}

} // verus!
