//! What holds of the registry across its operations.

use vstd::prelude::*;

use crate::identity::{Client, IdentityView};
use crate::registry::{
    can_register_all, can_sync, first_free, has_free_id, is_first_free, is_registered, is_sound,
    lemma_listing_exists, lemma_probes_taken, lists_by_address,
    live_by_address, probe, registered, registered_all, registered_id, registration_order,
    retained, seed_of, synced, RegistryView, SURROGATE_ID_COUNT, SURROGATE_ID_MIN,
};

verus! {

/// Whether every id given out in `before` means the same window in `after`.
pub open spec fn keeps_ids(before: RegistryView, after: RegistryView) -> bool {
    forall|id: u32| #[trigger]
        before.by_id.contains_key(id) ==> after.by_id.contains_key(id) && after.by_id[id]
            == before.by_id[id]
}

/// Among the first `n` probes one is the first to find a free id, or all of
/// them find taken ones.
proof fn lemma_first_free_upto(used: Set<u32>, candidate: u32, n: nat)
    ensures
        (exists|k: nat| is_first_free(used, candidate, k)) || (forall|j: nat|
            j < n ==> used.contains(#[trigger] probe(candidate, j))),
    decreases n,
{
    if n > 0 {
        let m = (n - 1) as nat;
        lemma_first_free_upto(used, candidate, m);
        if forall|j: nat| j < m ==> used.contains(#[trigger] probe(candidate, j)) {
            if !used.contains(probe(candidate, m)) {
                assert(is_first_free(used, candidate, m));
            }
        }
    }
}

/// Where an id is free, the probes find one, and it lies in the upper half.
pub proof fn lemma_first_free(used: Set<u32>, candidate: u32)
    requires
        used.finite(),
        used.len() < SURROGATE_ID_COUNT,
    ensures
        !used.contains(first_free(used, candidate)),
        first_free(used, candidate) >= SURROGATE_ID_MIN,
{
    lemma_first_free_upto(used, candidate, 0x8000_0000);
    if forall|j: nat| j < 0x8000_0000 ==> used.contains(#[trigger] probe(candidate, j)) {
        lemma_probes_taken(used, candidate, 0x8000_0000);
    }
}

/// Where an id is free, one of the probes is the first to find one.
pub proof fn lemma_first_free_found(used: Set<u32>, candidate: u32)
    requires
        used.finite(),
        used.len() < SURROGATE_ID_COUNT,
    ensures
        exists|k: nat| is_first_free(used, candidate, k),
{
    lemma_first_free_upto(used, candidate, 0x8000_0000);
    if forall|j: nat| j < 0x8000_0000 ==> used.contains(#[trigger] probe(candidate, j)) {
        lemma_probes_taken(used, candidate, 0x8000_0000);
    }
}

/// An id that was given out stays with its window, whatever is registered
/// later; only ids of the upper half are given out; and a registered window
/// has its id.
pub proof fn law_registering_keeps_ids(m: RegistryView, identity: IdentityView, candidate: u32)
    requires
        is_sound(m),
        is_registered(m, identity) || has_free_id(m),
    ensures
        is_sound(registered(m, identity, candidate)),
        keeps_ids(m, registered(m, identity, candidate)),
        is_registered(registered(m, identity, candidate), identity),
        registered(m, identity, candidate).by_address[identity.address] == registered_id(
            m,
            identity,
            candidate,
        ),
        SURROGATE_ID_MIN <= registered_id(m, identity, candidate) <= u32::MAX,
        forall|a: Seq<char>|
            a != identity.address && #[trigger] m.by_address.contains_key(a) ==> registered(
                m,
                identity,
                candidate,
            ).by_address.contains_key(a) && registered(m, identity, candidate).by_address[a]
                == m.by_address[a],
{
    if !is_registered(m, identity) {
        lemma_first_free(m.by_id.dom(), candidate);
    } else {
        assert(m.by_id.contains_key(m.by_address[identity.address]));
    }
}

/// Registering a window again, from whatever candidate, gives its id and
/// changes nothing.
pub proof fn law_registering_again_gives_the_same_id(
    m: RegistryView,
    identity: IdentityView,
    candidate: u32,
    other_candidate: u32,
)
    requires
        is_sound(m),
        is_registered(m, identity) || has_free_id(m),
    ensures
        ({
            let after = registered(m, identity, candidate);
            &&& registered_id(after, identity, other_candidate) == registered_id(
                m,
                identity,
                candidate,
            )
            &&& registered(after, identity, other_candidate) == after
        }),
{
    law_registering_keeps_ids(m, identity, candidate);
}

/// Two windows that differ in any part get different ids, also where one has
/// taken over the address of the other or both probe from one candidate.
pub proof fn law_different_windows_get_different_ids(
    m: RegistryView,
    first: IdentityView,
    first_candidate: u32,
    second: IdentityView,
    second_candidate: u32,
)
    requires
        is_sound(m),
        is_registered(m, first) || has_free_id(m),
        ({
            let after = registered(m, first, first_candidate);
            is_registered(after, second) || has_free_id(after)
        }),
        first != second,
    ensures
        registered_id(m, first, first_candidate) != registered_id(
            registered(m, first, first_candidate),
            second,
            second_candidate,
        ),
{
    law_registering_keeps_ids(m, first, first_candidate);
    let after = registered(m, first, first_candidate);
    law_registering_keeps_ids(after, second, second_candidate);
    let last = registered(after, second, second_candidate);
    let id = registered_id(m, first, first_candidate);
    assert(after.by_id.contains_key(id));
    assert(last.by_id[id] == first);
}

/// Registering a list keeps every id that was given out, leaves other
/// addresses alone, and ends with each window of the list registered, as long
/// as no address comes twice.
proof fn lemma_registered_all(m: RegistryView, identities: Seq<IdentityView>)
    requires
        is_sound(m),
        can_register_all(m, identities),
        forall|i: int, j: int|
            0 <= i < j < identities.len() ==> (#[trigger] identities[i]).address != (
            #[trigger] identities[j]).address,
    ensures
        is_sound(registered_all(m, identities)),
        keeps_ids(m, registered_all(m, identities)),
        forall|i: int|
            0 <= i < identities.len() ==> is_registered(
                registered_all(m, identities),
                #[trigger] identities[i],
            ),
        forall|i: int|
            0 <= i < identities.len() && is_registered(m, #[trigger] identities[i])
                ==> registered_all(m, identities).by_address[identities[i].address]
                == m.by_address[identities[i].address],
        forall|a: Seq<char>| #[trigger]
            registered_all(m, identities).by_address.contains_key(a) ==> m.by_address.contains_key(
                a,
            ) || exists|i: int|
                0 <= i < identities.len() && (#[trigger] identities[i]).address == a,
        forall|a: Seq<char>| #[trigger]
            m.by_address.contains_key(a) && (forall|i: int|
                0 <= i < identities.len() ==> (#[trigger] identities[i]).address != a)
                ==> registered_all(m, identities).by_address.contains_key(a)
                && registered_all(m, identities).by_address[a] == m.by_address[a],
    decreases identities.len(),
{
    if identities.len() > 0 {
        let init = identities.drop_last();
        let last = identities.last();
        let before = registered_all(m, init);
        let n = identities.len() - 1;
        assert forall|i: int| 0 <= i < init.len() implies {
            let b = #[trigger] registered_all(m, init.take(i));
            is_registered(b, init[i]) || has_free_id(b)
        } by {
            assert(init.take(i) =~= identities.take(i));
            let b = registered_all(m, identities.take(i));
        }
        lemma_registered_all(m, init);
        assert(init =~= identities.take(n));
        let b = registered_all(m, identities.take(n));
        assert(is_registered(before, last) || has_free_id(before));
        law_registering_keeps_ids(before, last, seed_of(last));
        let after = registered_all(m, identities);
        assert(after == registered(before, last, seed_of(last)));
        assert forall|i: int| 0 <= i < identities.len() implies is_registered(
            after,
            #[trigger] identities[i],
        ) by {
            if i < n {
                assert(init[i] == identities[i]);
                assert(is_registered(before, init[i]));
                assert(identities[i].address != identities[n].address);
                assert(before.by_address.contains_key(init[i].address));
            }
        }
        assert forall|i: int|
            0 <= i < identities.len() && is_registered(m, #[trigger] identities[i]) implies
            after.by_address[identities[i].address] == m.by_address[identities[i].address] by {
            if i < n {
                assert(init[i] == identities[i]);
                assert(identities[i].address != identities[n].address);
                assert(before.by_address.contains_key(init[i].address));
            } else {
                assert(m.by_address.contains_key(last.address));
                assert forall|k: int| 0 <= k < init.len() implies (#[trigger] init[k]).address
                    != last.address by {
                    assert(identities[k].address != identities[n].address);
                }
                assert(before.by_address[last.address] == m.by_address[last.address]);
                assert(before.by_id[m.by_address[last.address]] == last);
            }
        }
        assert forall|a: Seq<char>| #[trigger] after.by_address.contains_key(a) implies
            m.by_address.contains_key(a) || exists|i: int|
            0 <= i < identities.len() && (#[trigger] identities[i]).address == a by {
            if a == last.address {
                assert(identities[n].address == a);
            } else {
                assert(before.by_address.contains_key(a));
                if !m.by_address.contains_key(a) {
                    let i = choose|i: int|
                        0 <= i < init.len() && (#[trigger] init[i]).address == a;
                    assert(identities[i].address == a);
                }
            }
        }
        assert forall|a: Seq<char>| #[trigger]
            m.by_address.contains_key(a) && (forall|i: int|
                0 <= i < identities.len() ==> (#[trigger] identities[i]).address != a) implies
            after.by_address.contains_key(a) && after.by_address[a] == m.by_address[a] by {
            assert forall|i: int| 0 <= i < init.len() implies (#[trigger] init[i]).address
                != a by {
                assert(identities[i].address != a);
            }
            assert(identities[n].address != a);
            assert(before.by_address.contains_key(a));
        }
    }
}

proof fn lemma_retained_is_sound(m: RegistryView, live: Map<Seq<char>, IdentityView>)
    requires
        is_sound(m),
    ensures
        is_sound(retained(m, live)),
{
}

proof fn lemma_order_has_distinct_addresses(clients: Seq<Client>)
    ensures
        lists_by_address(registration_order(clients), live_by_address(clients)),
        forall|i: int, j: int|
            0 <= i < j < registration_order(clients).len() ==> (#[trigger] registration_order(
                clients,
            )[i]).address != (#[trigger] registration_order(clients)[j]).address,
{
    lemma_listing_exists(clients);
    let order = registration_order(clients);
    assert forall|i: int, j: int| 0 <= i < j < order.len() implies (#[trigger] order[i]).address
        != (#[trigger] order[j]).address by {
        crate::registry::lemma_precedes_differs(order[i].address, order[j].address);
    }
}

/// After a sync exactly the live addresses stand in the registry, each for
/// the window that lives there, and every id given out before still means the
/// window that it meant.
pub proof fn law_sync_knows_the_live_windows(m: RegistryView, clients: Seq<Client>)
    requires
        is_sound(m),
        can_sync(m, clients),
    ensures
        is_sound(synced(m, clients)),
        keeps_ids(m, synced(m, clients)),
        synced(m, clients).by_address.dom() == live_by_address(clients).dom(),
        forall|a: Seq<char>| #[trigger]
            live_by_address(clients).contains_key(a) ==> is_registered(
                synced(m, clients),
                live_by_address(clients)[a],
            ) && live_by_address(clients)[a].address == a,
{
    let live = live_by_address(clients);
    let order = registration_order(clients);
    let kept = retained(m, live);
    lemma_order_has_distinct_addresses(clients);
    lemma_retained_is_sound(m, live);
    lemma_registered_all(kept, order);
    let after = synced(m, clients);
    assert forall|a: Seq<char>| #[trigger] live.contains_key(a) implies is_registered(
        after,
        live[a],
    ) && live[a].address == a by {
        let i = choose|i: int| 0 <= i < order.len() && (#[trigger] order[i]).address == a;
        assert(order[i] == live[a]);
    }
    assert(after.by_address.dom() =~= live.dom()) by {
        assert forall|a: Seq<char>| after.by_address.contains_key(a) implies live.contains_key(
            a,
        ) by {
            if !kept.by_address.contains_key(a) {
                let i = choose|i: int| 0 <= i < order.len() && (#[trigger] order[i]).address == a;
                assert(live.contains_key(order[i].address));
            }
        }
        assert forall|a: Seq<char>| live.contains_key(a) implies after.by_address.contains_key(
            a,
        ) by {
            assert(is_registered(after, live[a]));
        }
    }
}

proof fn lemma_registered_already(m: RegistryView, identities: Seq<IdentityView>)
    requires
        forall|i: int| 0 <= i < identities.len() ==> is_registered(m, #[trigger] identities[i]),
    ensures
        registered_all(m, identities) == m,
        can_register_all(m, identities),
    decreases identities.len(),
{
    assert forall|i: int| 0 <= i < identities.len() implies #[trigger] registered_all(
        m,
        identities.take(i),
    ) == m by {
        lemma_registered_already(m, identities.take(i));
    }
    if identities.len() > 0 {
        lemma_registered_already(m, identities.drop_last());
        assert(is_registered(m, identities[identities.len() - 1]));
    }
}

/// To sync again with the same windows changes nothing.
pub proof fn law_syncing_again_changes_nothing(m: RegistryView, clients: Seq<Client>)
    requires
        is_sound(m),
        can_sync(m, clients),
    ensures
        can_sync(synced(m, clients), clients),
        synced(synced(m, clients), clients) == synced(m, clients),
{
    law_sync_knows_the_live_windows(m, clients);
    lemma_order_has_distinct_addresses(clients);
    let after = synced(m, clients);
    let live = live_by_address(clients);
    let order = registration_order(clients);
    assert(retained(after, live).by_address =~= after.by_address);
    assert forall|i: int| 0 <= i < order.len() implies is_registered(
        after,
        #[trigger] order[i],
    ) by {
        assert(live.contains_key(order[i].address));
    }
    lemma_registered_already(after, order);
}

/// A window that was registered and still lives keeps its id over a sync.
pub proof fn law_sync_keeps_the_ids_of_live_windows(
    m: RegistryView,
    clients: Seq<Client>,
    identity: IdentityView,
)
    requires
        is_sound(m),
        can_sync(m, clients),
        is_registered(m, identity),
        live_by_address(clients).contains_key(identity.address),
        live_by_address(clients)[identity.address] == identity,
    ensures
        synced(m, clients).by_address[identity.address] == m.by_address[identity.address],
{
    let live = live_by_address(clients);
    let order = registration_order(clients);
    let kept = retained(m, live);
    lemma_order_has_distinct_addresses(clients);
    lemma_retained_is_sound(m, live);
    lemma_registered_all(kept, order);
    let i = choose|i: int|
        0 <= i < order.len() && (#[trigger] order[i]).address == identity.address;
    assert(order[i] == identity);
    assert(is_registered(kept, order[i]));
}

/// An id whose window has closed, or whose address another window has taken
/// over, is not the id of any live window after a sync.
pub proof fn law_sync_never_revives_an_id(m: RegistryView, clients: Seq<Client>, id: u32)
    requires
        is_sound(m),
        can_sync(m, clients),
        m.by_id.contains_key(id),
        !live_by_address(clients).contains_key(m.by_id[id].address)
            || live_by_address(clients)[m.by_id[id].address] != m.by_id[id],
    ensures
        forall|a: Seq<char>| #[trigger]
            synced(m, clients).by_address.contains_key(a) ==> synced(m, clients).by_address[a]
                != id,
{
    law_sync_knows_the_live_windows(m, clients);
    let after = synced(m, clients);
    let live = live_by_address(clients);
    assert(after.by_id.contains_key(id) && after.by_id[id] == m.by_id[id]);
    assert forall|a: Seq<char>| #[trigger] after.by_address.contains_key(a) implies
        after.by_address[a] != id by {
        assert(live.contains_key(a));
        assert(is_registered(after, live[a]));
    }
}

/// Where as many ids are free as `identities` has windows, all of them can be
/// registered.
pub proof fn lemma_room_to_register_all(m: RegistryView, identities: Seq<IdentityView>)
    requires
        is_sound(m),
        m.by_id.dom().len() + identities.len() <= SURROGATE_ID_COUNT,
    ensures
        can_register_all(m, identities),
        is_sound(registered_all(m, identities)),
        registered_all(m, identities).by_id.dom().len() <= m.by_id.dom().len() + identities.len(),
    decreases identities.len(),
{
    if identities.len() > 0 {
        let init = identities.drop_last();
        let last = identities.last();
        let n = identities.len() - 1;
        lemma_room_to_register_all(m, init);
        let before = registered_all(m, init);
        law_registering_keeps_ids(before, last, seed_of(last));
        assert forall|i: int| 0 <= i < identities.len() implies {
            let b = #[trigger] registered_all(m, identities.take(i));
            is_registered(b, identities[i]) || has_free_id(b)
        } by {
            if i < n {
                assert(init.take(i) =~= identities.take(i));
                let b = registered_all(m, init.take(i));
                assert(init[i] == identities[i]);
            } else {
                assert(identities.take(i) =~= init);
            }
        }
    }
}

proof fn lemma_listing_is_no_longer(clients: Seq<Client>)
    ensures
        live_by_address(clients).dom().finite(),
        live_by_address(clients).dom().len() <= clients.len(),
        registration_order(clients).len() <= clients.len(),
{
    lemma_live_is_small(clients);
    lemma_order_has_distinct_addresses(clients);
    let live = live_by_address(clients);
    let order = registration_order(clients);
    let addresses = order.map_values(|identity: IdentityView| identity.address);
    assert(addresses.no_duplicates()) by {
        assert forall|i: int, j: int|
            0 <= i < addresses.len() && 0 <= j < addresses.len() && i != j implies addresses[i]
            != addresses[j] by {
            if i < j {
                assert(order[i].address != order[j].address);
            } else {
                assert(order[j].address != order[i].address);
            }
        }
    }
    addresses.unique_seq_to_set();
    assert(addresses.to_set().subset_of(live.dom())) by {
        assert forall|a: Seq<char>| addresses.to_set().contains(a) implies live.dom().contains(
            a,
        ) by {
            let i = choose|i: int| 0 <= i < addresses.len() && addresses[i] == a;
            assert(live.contains_key(order[i].address));
        }
    }
    vstd::set_lib::lemma_len_subset(addresses.to_set(), live.dom());
}

proof fn lemma_live_is_small(clients: Seq<Client>)
    ensures
        live_by_address(clients).dom().finite(),
        live_by_address(clients).dom().len() <= clients.len(),
    decreases clients.len(),
{
    if clients.len() > 0 {
        lemma_live_is_small(clients.drop_last());
    }
}

/// Where as many ids are free as there are clients, a sync finds an id for
/// each of them, and takes no more than that.
pub proof fn law_room_to_sync(m: RegistryView, clients: Seq<Client>)
    requires
        is_sound(m),
        m.by_id.dom().len() + clients.len() <= SURROGATE_ID_COUNT,
    ensures
        can_sync(m, clients),
        synced(m, clients).by_id.dom().len() <= m.by_id.dom().len() + clients.len(),
{
    let live = live_by_address(clients);
    lemma_retained_is_sound(m, live);
    lemma_listing_is_no_longer(clients);
    lemma_room_to_register_all(retained(m, live), registration_order(clients));
}

} // verus!
