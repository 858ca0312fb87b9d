//! Window ids that stay with one window.
//!
//! The compositor names a window by an address that it may reuse once the
//! window has closed. The registry gives each window it has seen an id in the
//! upper half of the 32-bit range and never gives that id to another window.

use std::collections::HashMap;

use vstd::hash_map::StringHashMap;
use vstd::prelude::*;
use vstd::string::*;

use crate::identity::{identity_of, identity_views, Client, IdentityView, WindowIdentity};
use crate::text::{
    lemma_precedes_irreflexive, lemma_precedes_total, lemma_precedes_transitive, precedes,
    text_precedes,
};

verus! {

broadcast use vstd::std_specs::hash::group_hash_axioms;

/// The smallest id that the registry gives out.
pub const SURROGATE_ID_MIN: u64 = 0x8000_0000;

/// How many ids the registry can give out.
pub const SURROGATE_ID_COUNT: u64 = 0x8000_0000;

/// What the registry holds: the id of each live address, and the window that
/// each id was ever given to.
#[verifier::ext_equal]
pub struct RegistryView {
    pub by_address: Map<Seq<char>, u32>,
    pub by_id: Map<u32, IdentityView>,
}

/// The ids of the windows seen so far.
pub struct IdRegistry {
    by_address: StringHashMap<u32>,
    /// Entries stay here after their window has closed, so that an id never
    /// comes to mean another window.
    by_id: HashMap<u32, WindowIdentity>,
}

/// One step of the hash that `surrogate_seed` computes.
pub open spec fn fnv1a_step(hash: u32, byte: u8) -> u32 {
    (((hash ^ (byte as u32)) as nat * 0x0100_0193) % 0x1_0000_0000) as u32
}

/// The 32-bit FNV-1a hash of `bytes`.
pub open spec fn fnv1a(bytes: Seq<u8>) -> u32
    decreases bytes.len(),
{
    if bytes.len() == 0 {
        0x811c_9dc5
    } else {
        fnv1a_step(fnv1a(bytes.drop_last()), bytes.last())
    }
}

/// The 32-bit FNV-1a hash of the bytes of `address`.
pub fn surrogate_seed(address: &str) -> (r: u32)
    ensures
        r == fnv1a(vstd::utf8::encode_utf8(address@)),
{
    let bytes = address.as_bytes();
    let mut hash: u32 = 0x811c_9dc5;
    let mut i: usize = 0;
    assert(bytes@.take(0) =~= Seq::empty());
    while i < bytes.len()
        invariant
            i <= bytes.len(),
            hash == fnv1a(bytes@.take(i as int)),
        decreases bytes.len() - i,
    {
        hash = hash ^ (bytes[i] as u32);
        hash = hash.wrapping_mul(0x0100_0193);
        assert(bytes@.take(i + 1).drop_last() =~= bytes@.take(i as int));
        i = i + 1;
    }
    assert(bytes@.take(bytes.len() as int) =~= bytes@);
    hash
}

/// Whether `window_id` is one that the registry may give out.
pub fn is_surrogate_window_id(window_id: u64) -> (r: bool)
    ensures
        r == (SURROGATE_ID_MIN <= window_id <= u32::MAX),
{
    SURROGATE_ID_MIN <= window_id && window_id <= u32::MAX as u64
}

/// The id that is tried after `k` others have been found taken: the ids go up
/// from `candidate` in the upper half of the 32-bit range, and round.
pub open spec fn probe(candidate: u32, k: nat) -> u32 {
    (0x8000_0000 + (candidate + k) % 0x8000_0000) as u32
}

/// Whether the probe with number `k` is the first that finds a free id.
pub open spec fn is_first_free(used: Set<u32>, candidate: u32, k: nat) -> bool {
    &&& !used.contains(probe(candidate, k))
    &&& forall|j: nat| j < k ==> used.contains(#[trigger] probe(candidate, j))
}

/// The first free id that the probes find.
pub open spec fn first_free(used: Set<u32>, candidate: u32) -> u32 {
    probe(candidate, choose|k: nat| is_first_free(used, candidate, k))
}

/// Whether the address of `identity` now stands for that very window.
pub open spec fn is_registered(m: RegistryView, identity: IdentityView) -> bool {
    &&& m.by_address.contains_key(identity.address)
    &&& m.by_id.contains_key(m.by_address[identity.address])
    &&& m.by_id[m.by_address[identity.address]] == identity
}

/// Whether some id has never been given out.
pub open spec fn has_free_id(m: RegistryView) -> bool {
    m.by_id.dom().len() < SURROGATE_ID_COUNT
}

/// The id of `identity` once it is registered.
pub open spec fn registered_id(m: RegistryView, identity: IdentityView, candidate: u32) -> u32 {
    if is_registered(m, identity) {
        m.by_address[identity.address]
    } else {
        first_free(m.by_id.dom(), candidate)
    }
}

/// The registry once `identity` is registered.
pub open spec fn registered(
    m: RegistryView,
    identity: IdentityView,
    candidate: u32,
) -> RegistryView {
    if is_registered(m, identity) {
        m
    } else {
        let id = first_free(m.by_id.dom(), candidate);
        RegistryView {
            by_address: m.by_address.insert(identity.address, id),
            by_id: m.by_id.insert(id, identity),
        }
    }
}

/// The id from which the probes for `identity` start.
pub open spec fn seed_of(identity: IdentityView) -> u32 {
    fnv1a(vstd::utf8::encode_utf8(identity.address))
}

/// The registry once all of `identities` are registered, in their order.
pub open spec fn registered_all(m: RegistryView, identities: Seq<IdentityView>) -> RegistryView
    decreases identities.len(),
{
    if identities.len() == 0 {
        m
    } else {
        let before = registered_all(m, identities.drop_last());
        registered(before, identities.last(), seed_of(identities.last()))
    }
}

/// Whether registering all of `identities` in their order finds an id for
/// each of them.
pub open spec fn can_register_all(m: RegistryView, identities: Seq<IdentityView>) -> bool {
    forall|i: int|
        0 <= i < identities.len() ==> {
            let before = #[trigger] registered_all(m, identities.take(i));
            is_registered(before, identities[i]) || has_free_id(before)
        }
}

/// The window that `clients` reports at each address: the last one, where an
/// address comes more than once.
pub open spec fn live_by_address(clients: Seq<Client>) -> Map<Seq<char>, IdentityView>
    decreases clients.len(),
{
    if clients.len() == 0 {
        Map::empty()
    } else {
        live_by_address(clients.drop_last()).insert(
            clients.last().address@,
            identity_of(clients.last()),
        )
    }
}

/// Whether `order` lists the windows of `live`, each once, by address.
pub open spec fn lists_by_address(
    order: Seq<IdentityView>,
    live: Map<Seq<char>, IdentityView>,
) -> bool {
    &&& forall|i: int, j: int|
        0 <= i < j < order.len() ==> precedes(
            (#[trigger] order[i]).address,
            (#[trigger] order[j]).address,
        )
    &&& forall|i: int|
        0 <= i < order.len() ==> live.contains_key((#[trigger] order[i]).address)
            && live[order[i].address] == order[i]
    &&& forall|a: Seq<char>| #[trigger]
        live.contains_key(a) ==> exists|i: int|
            0 <= i < order.len() && (#[trigger] order[i]).address == a
}

/// The windows of `clients`, each address once, by address.
pub open spec fn registration_order(clients: Seq<Client>) -> Seq<IdentityView> {
    choose|order: Seq<IdentityView>| lists_by_address(order, live_by_address(clients))
}

/// The registry without the addresses that no longer stand for the window
/// that they were registered for.
pub open spec fn retained(
    m: RegistryView,
    live: Map<Seq<char>, IdentityView>,
) -> RegistryView {
    RegistryView {
        by_address: m.by_address.restrict(
            Set::new(|a: Seq<char>| live.contains_key(a) && is_registered(m, live[a]))
                .intersect(m.by_address.dom()),
        ),
        by_id: m.by_id,
    }
}

/// The registry once it knows exactly the windows of `clients` as live.
pub open spec fn synced(m: RegistryView, clients: Seq<Client>) -> RegistryView {
    registered_all(retained(m, live_by_address(clients)), registration_order(clients))
}

/// Whether `synced` finds an id for every window of `clients`.
pub open spec fn can_sync(m: RegistryView, clients: Seq<Client>) -> bool {
    can_register_all(retained(m, live_by_address(clients)), registration_order(clients))
}

/// Every id stands in the upper half of the 32-bit range, and every live
/// address has the id of a window at that address.
pub open spec fn is_sound(m: RegistryView) -> bool {
    &&& m.by_id.dom().finite()
    &&& forall|id: u32| #[trigger] m.by_id.contains_key(id) ==> id >= SURROGATE_ID_MIN
    &&& forall|a: Seq<char>| #[trigger]
        m.by_address.contains_key(a) ==> m.by_id.contains_key(m.by_address[a])
            && m.by_id[m.by_address[a]].address == a
}

spec fn probes(candidate: u32, n: nat) -> Set<u32>
    decreases n,
{
    if n == 0 {
        Set::empty()
    } else {
        probes(candidate, (n - 1) as nat).insert(probe(candidate, (n - 1) as nat))
    }
}

proof fn lemma_probe_injective(candidate: u32, j: nat, k: nat)
    requires
        j < k < j + 0x8000_0000,
    ensures
        probe(candidate, j) != probe(candidate, k),
{
    let a = candidate + j;
    let b = candidate + k;
    assert(a % 0x8000_0000 != b % 0x8000_0000) by (nonlinear_arith)
        requires
            a < b < a + 0x8000_0000,
    ;
}

proof fn lemma_probes(candidate: u32, n: nat)
    requires
        n <= 0x8000_0000,
    ensures
        probes(candidate, n).finite(),
        probes(candidate, n).len() == n,
        forall|id: u32| #[trigger]
            probes(candidate, n).contains(id) ==> exists|j: nat|
                j < n && id == #[trigger] probe(candidate, j),
    decreases n,
{
    if n > 0 {
        let m = (n - 1) as nat;
        lemma_probes(candidate, m);
        assert(!probes(candidate, m).contains(probe(candidate, m))) by {
            if probes(candidate, m).contains(probe(candidate, m)) {
                let j = choose|j: nat| j < m && probe(candidate, m) == #[trigger] probe(candidate, j);
                lemma_probe_injective(candidate, j, m);
            }
        }
        assert forall|id: u32| #[trigger] probes(candidate, n).contains(id) implies exists|j: nat|
            j < n && id == #[trigger] probe(candidate, j) by {
            if id == probe(candidate, m) {
            } else {
                assert(probes(candidate, m).contains(id));
            }
        }
    }
}

pub proof fn lemma_probes_taken(used: Set<u32>, candidate: u32, n: nat)
    requires
        used.finite(),
        n <= 0x8000_0000,
        forall|j: nat| j < n ==> used.contains(#[trigger] probe(candidate, j)),
    ensures
        n <= used.len(),
{
    lemma_probes(candidate, n);
    assert(probes(candidate, n).subset_of(used)) by {
        assert forall|id: u32| probes(candidate, n).contains(id) implies used.contains(id) by {
            let j = choose|j: nat| j < n && id == #[trigger] probe(candidate, j);
            assert(used.contains(probe(candidate, j)));
        }
    }
    vstd::set_lib::lemma_len_subset(probes(candidate, n), used);
}

pub proof fn lemma_first_free_unique(used: Set<u32>, candidate: u32, j: nat, k: nat)
    requires
        is_first_free(used, candidate, j),
        is_first_free(used, candidate, k),
    ensures
        j == k,
{
    if j < k {
        assert(used.contains(probe(candidate, j)));
    } else if k < j {
        assert(used.contains(probe(candidate, k)));
    }
}

pub proof fn lemma_precedes_differs(a: Seq<char>, b: Seq<char>)
    requires
        precedes(a, b),
    ensures
        a != b,
        !precedes(b, a),
{
    if a == b {
        lemma_precedes_irreflexive(a);
    }
    if precedes(b, a) {
        lemma_precedes_transitive(a, b, a);
        lemma_precedes_irreflexive(a);
    }
}

/// Two listings by address agree as far as both go, up to `n`.
proof fn lemma_listings_agree_upto(
    o1: Seq<IdentityView>,
    o2: Seq<IdentityView>,
    live: Map<Seq<char>, IdentityView>,
    n: nat,
)
    requires
        lists_by_address(o1, live),
        lists_by_address(o2, live),
        n <= o1.len(),
        n <= o2.len(),
    ensures
        forall|i: int| 0 <= i < n ==> o1[i] == o2[i],
    decreases n,
{
    if n > 0 {
        let i = n - 1;
        lemma_listings_agree_upto(o1, o2, live, i as nat);
        let a = o1[i].address;
        let b = o2[i].address;
        assert(live.contains_key(a) && live.contains_key(b));
        let j = choose|j: int| 0 <= j < o2.len() && (#[trigger] o2[j]).address == a;
        let k = choose|k: int| 0 <= k < o1.len() && (#[trigger] o1[k]).address == b;
        if j < i {
            assert(o1[j] == o2[j]);
            lemma_precedes_differs(o1[j].address, o1[i].address);
        }
        if k < i {
            assert(o1[k] == o2[k]);
            lemma_precedes_differs(o2[k].address, o2[i].address);
        }
        if j > i && k > i {
            assert(precedes(b, a));
            assert(precedes(a, b));
            lemma_precedes_differs(a, b);
        }
    }
}

/// The windows of `live` have one listing by address.
pub proof fn lemma_listing_unique(
    o1: Seq<IdentityView>,
    o2: Seq<IdentityView>,
    live: Map<Seq<char>, IdentityView>,
)
    requires
        lists_by_address(o1, live),
        lists_by_address(o2, live),
    ensures
        o1 == o2,
{
    lemma_not_longer(o1, o2, live);
    lemma_not_longer(o2, o1, live);
    lemma_listings_agree_upto(o1, o2, live, o1.len());
    assert(o1 =~= o2);
}

proof fn lemma_not_longer(
    o1: Seq<IdentityView>,
    o2: Seq<IdentityView>,
    live: Map<Seq<char>, IdentityView>,
)
    requires
        lists_by_address(o1, live),
        lists_by_address(o2, live),
    ensures
        o2.len() <= o1.len(),
{
    if o1.len() < o2.len() {
        lemma_listings_agree_upto(o1, o2, live, o1.len());
        let a = o2[o1.len() as int].address;
        assert(live.contains_key(a));
        let i = choose|i: int| 0 <= i < o1.len() && (#[trigger] o1[i]).address == a;
        assert(o1[i] == o2[i]);
        lemma_precedes_differs(o2[i].address, a);
    }
}

/// Whether `p` is the place of `address` in a listing by address: those before
/// it stand before `p`, the others do not.
spec fn is_place(listing: Seq<IdentityView>, address: Seq<char>, p: int) -> bool {
    &&& 0 <= p <= listing.len()
    &&& forall|i: int| 0 <= i < p ==> precedes((#[trigger] listing[i]).address, address)
    &&& p < listing.len() ==> !precedes(listing[p].address, address)
}

/// A listing by address with `identity` put at its place, instead of the one
/// that stands there for its address.
spec fn placed(listing: Seq<IdentityView>, identity: IdentityView, p: int) -> Seq<IdentityView> {
    if p < listing.len() && listing[p].address == identity.address {
        listing.update(p, identity)
    } else {
        listing.insert(p, identity)
    }
}

proof fn lemma_placed(
    before: Seq<IdentityView>,
    identity: IdentityView,
    p: int,
    live: Map<Seq<char>, IdentityView>,
)
    requires
        lists_by_address(before, live),
        is_place(before, identity.address, p),
    ensures
        lists_by_address(
            placed(before, identity, p),
            live.insert(identity.address, identity),
        ),
{
    let after = placed(before, identity, p);
    let after_live = live.insert(identity.address, identity);
    if p < before.len() && before[p].address == identity.address {
        assert forall|a: Seq<char>| #[trigger] after_live.contains_key(a) implies exists|i: int|
            0 <= i < after.len() && (#[trigger] after[i]).address == a by {
            if a == identity.address {
                assert(after[p].address == a);
            } else {
                let i = choose|i: int| 0 <= i < before.len() && (#[trigger] before[i]).address == a;
                assert(after[i].address == a);
            }
        }
        assert forall|i: int| 0 <= i < after.len() implies after_live.contains_key(
            (#[trigger] after[i]).address,
        ) && after_live[after[i].address] == after[i] by {
            if i != p {
                assert(after[i] == before[i]);
                if i < p {
                    lemma_precedes_differs(before[i].address, before[p].address);
                } else {
                    lemma_precedes_differs(before[p].address, before[i].address);
                }
            }
        }
        assert forall|i: int, j: int| 0 <= i < j < after.len() implies precedes(
            (#[trigger] after[i]).address,
            (#[trigger] after[j]).address,
        ) by {
            assert(precedes(before[i].address, before[j].address));
        }
    } else {
        if p < before.len() {
            lemma_precedes_total(identity.address, before[p].address);
        }
        assert forall|i: int| p <= i < before.len() implies precedes(
            identity.address,
            (#[trigger] before[i]).address,
        ) by {
            if i > p {
                assert(precedes(before[p].address, before[i].address));
                lemma_precedes_transitive(identity.address, before[p].address, before[i].address);
            }
        }
        assert forall|a: Seq<char>| #[trigger] after_live.contains_key(a) implies exists|i: int|
            0 <= i < after.len() && (#[trigger] after[i]).address == a by {
            if a == identity.address {
                assert(after[p].address == a);
            } else {
                let i = choose|i: int| 0 <= i < before.len() && (#[trigger] before[i]).address == a;
                let j = if i < p { i } else { i + 1 };
                assert(after[j].address == a);
            }
        }
        assert forall|i: int| 0 <= i < after.len() implies after_live.contains_key(
            (#[trigger] after[i]).address,
        ) && after_live[after[i].address] == after[i] by {
            if i < p {
                lemma_precedes_differs(before[i].address, identity.address);
            } else if i > p {
                lemma_precedes_differs(identity.address, before[i - 1].address);
            }
        }
        assert forall|i: int, j: int| 0 <= i < j < after.len() implies precedes(
            (#[trigger] after[i]).address,
            (#[trigger] after[j]).address,
        ) by {
            if j < p {
                assert(precedes(before[i].address, before[j].address));
            } else if i < p && j > p {
                assert(precedes(before[i].address, before[j - 1].address));
            } else if i > p {
                assert(precedes(before[i - 1].address, before[j - 1].address));
            }
        }
    }
}

proof fn lemma_place_exists(listing: Seq<IdentityView>, address: Seq<char>, from: int) -> (p: int)
    requires
        0 <= from <= listing.len(),
        forall|i: int| 0 <= i < from ==> precedes((#[trigger] listing[i]).address, address),
    ensures
        is_place(listing, address, p),
    decreases listing.len() - from,
{
    if from < listing.len() && precedes(listing[from].address, address) {
        lemma_place_exists(listing, address, from + 1)
    } else {
        from
    }
}

/// The windows of `clients` can be listed by address.
pub proof fn lemma_listing_exists(clients: Seq<Client>)
    ensures
        lists_by_address(registration_order(clients), live_by_address(clients)),
    decreases clients.len(),
{
    if clients.len() == 0 {
        assert(lists_by_address(Seq::<IdentityView>::empty(), live_by_address(clients)));
    } else {
        let init = clients.drop_last();
        lemma_listing_exists(init);
        let before = registration_order(init);
        let identity = identity_of(clients.last());
        let p = lemma_place_exists(before, identity.address, 0);
        lemma_placed(before, identity, p, live_by_address(init));
        assert(lists_by_address(placed(before, identity, p), live_by_address(clients)));
    }
}

/// Puts `identity` at its place in a listing by address, instead of the one
/// that stands there for its address.
fn put_by_address(
    listing: &mut Vec<WindowIdentity>,
    identity: WindowIdentity,
    Ghost(live): Ghost<Map<Seq<char>, IdentityView>>,
)
    requires
        lists_by_address(identity_views(old(listing)@), live),
    ensures
        lists_by_address(
            identity_views(final(listing)@),
            live.insert(identity@.address, identity@),
        ),
{
    let ghost before = identity_views(listing@);
    let mut at: usize = 0;
    while at < listing.len() && text_precedes(
        listing[at].address.as_str(),
        identity.address.as_str(),
    )
        invariant
            at <= listing.len(),
            before == identity_views(listing@),
            forall|i: int|
                0 <= i < at ==> precedes((#[trigger] before[i]).address, identity@.address),
        decreases listing.len() - at,
    {
        assert(before[at as int] == listing@[at as int]@);
        at = at + 1;
    }
    let ghost view = identity@;
    proof {
        if at < listing.len() {
            assert(before[at as int] == listing@[at as int]@);
        }
        lemma_placed(before, view, at as int, live);
    }
    if at < listing.len() && listing[at].address == identity.address {
        listing[at] = identity;
    } else {
        listing.insert(at, identity);
    }
    assert(identity_views(listing@) =~= placed(before, view, at as int));
}

/// The windows of `clients`, each address once, by address.
fn list_by_address(clients: &[Client]) -> (r: Vec<WindowIdentity>)
    ensures
        lists_by_address(identity_views(r@), live_by_address(clients@)),
        identity_views(r@) == registration_order(clients@),
{
    let mut r: Vec<WindowIdentity> = Vec::new();
    let mut i: usize = 0;
    assert(clients@.take(0) =~= Seq::empty());
    while i < clients.len()
        invariant
            i <= clients.len(),
            lists_by_address(identity_views(r@), live_by_address(clients@.take(i as int))),
        decreases clients.len() - i,
    {
        put_by_address(
            &mut r,
            WindowIdentity::from(&clients[i]),
            Ghost(live_by_address(clients@.take(i as int))),
        );
        assert(clients@.take(i + 1).drop_last() =~= clients@.take(i as int));
        i = i + 1;
    }
    proof {
        assert(clients@.take(clients.len() as int) =~= clients@);
        lemma_listing_unique(
            identity_views(r@),
            registration_order(clients@),
            live_by_address(clients@),
        );
    }
    r
}

impl View for IdRegistry {
    type V = RegistryView;

    closed spec fn view(&self) -> RegistryView {
        RegistryView {
            by_address: self.by_address@,
            by_id: self.by_id@.map_values(|identity: WindowIdentity| identity@),
        }
    }
}

impl Default for IdRegistry {
    fn default() -> (r: Self)
        ensures
            r@ == (RegistryView { by_address: Map::empty(), by_id: Map::empty() }),
            is_sound(r@),
    {
        let r = IdRegistry { by_address: StringHashMap::new(), by_id: HashMap::new() };
        assert(r@ =~= (RegistryView { by_address: Map::empty(), by_id: Map::empty() }));
        r
    }
}

impl IdRegistry {
    /// Gives `identity` an id: its own where its address stands for it, else
    /// the first free one from `candidate` up.
    pub fn register_with_candidate(&mut self, identity: WindowIdentity, candidate: u32) -> (id: u32)
        requires
            is_sound(old(self)@),
            is_registered(old(self)@, identity@) || has_free_id(old(self)@),
        ensures
            is_sound(final(self)@),
            id == registered_id(old(self)@, identity@, candidate),
            final(self)@ == registered(old(self)@, identity@, candidate),
    {
        let ghost m = self@;
        let known = match self.by_address.get(identity.address.as_str()) {
            Some(id) => Some(*id),
            None => None,
        };
        if let Some(id) = known {
            if let Some(existing) = self.by_id.get(&id) {
                if existing.same(&identity) {
                    return id;
                }
            }
            self.by_address.remove(identity.address.as_str());
        }
        assert(!is_registered(m, identity@));
        let ghost used = m.by_id.dom();
        let ghost mut k: nat = 0;
        let mut id: u32 = candidate | 0x8000_0000;
        assert(id == 0x8000_0000 + candidate % 0x8000_0000) by (bit_vector)
            requires
                id == candidate | 0x8000_0000,
        ;
        while self.by_id.contains_key(&id)
            invariant
                used == self.by_id@.dom(),
                used.finite(),
                used.len() < 0x8000_0000,
                id == probe(candidate, k),
                k < 0x8000_0000,
                forall|j: nat| j < k ==> used.contains(#[trigger] probe(candidate, j)),
            decreases 0x8000_0000 - k,
        {
            let next: u32 = id.wrapping_add(1);
            let ghost before = id;
            id = next | 0x8000_0000;
            proof {
                assert(next >= 0x8000_0000 ==> next | 0x8000_0000 == next) by (bit_vector);
                assert((0u32 | 0x8000_0000) == 0x8000_0000) by (bit_vector);
                let n = candidate + k;
                assert((n + 1) % 0x8000_0000 == (if n % 0x8000_0000 == 0x7fff_ffff {
                    0
                } else {
                    n % 0x8000_0000 + 1
                })) by (nonlinear_arith);
                k = k + 1;
                assert forall|j: nat| j < k implies used.contains(
                    #[trigger] probe(candidate, j),
                ) by {}
                lemma_probes_taken(used, candidate, k);
            }
        }
        proof {
            assert(is_first_free(used, candidate, k));
            let chosen = choose|k: nat| is_first_free(used, candidate, k);
            lemma_first_free_unique(used, candidate, k, chosen);
        }
        self.by_address.insert(identity.address.clone(), id);
        self.by_id.insert(id, identity);
        assert(self@.by_address =~= m.by_address.insert(identity@.address, id));
        assert(self@.by_id =~= m.by_id.insert(id, identity@));
        id
    }

    /// Gives `identity` an id, looking for a free one from the hash of its
    /// address up.
    pub fn register(&mut self, identity: WindowIdentity) -> (id: u32)
        requires
            is_sound(old(self)@),
            is_registered(old(self)@, identity@) || has_free_id(old(self)@),
        ensures
            is_sound(final(self)@),
            id == registered_id(old(self)@, identity@, seed_of(identity@)),
            final(self)@ == registered(old(self)@, identity@, seed_of(identity@)),
    {
        let candidate = surrogate_seed(identity.address.as_str());
        self.register_with_candidate(identity, candidate)
    }

    /// Takes `clients` as the windows that now live: addresses that no longer
    /// stand for the window they were registered for are dropped, and every
    /// window is registered, by address. Ids given out before stay as they are.
    pub fn sync(&mut self, clients: &[Client])
        requires
            is_sound(old(self)@),
            can_sync(old(self)@, clients@),
        ensures
            is_sound(final(self)@),
            final(self)@ == synced(old(self)@, clients@),
    {
        let live = list_by_address(clients);
        let ghost m = self@;
        let ghost by_live = live_by_address(clients@);
        let ghost order = identity_views(live@);
        let ghost kept = retained(m, by_live);
        let mut keep: StringHashMap<u32> = StringHashMap::new();
        let mut i: usize = 0;
        while i < live.len()
            invariant
                i <= live.len(),
                m == self@,
                order == identity_views(live@),
                lists_by_address(order, by_live),
                kept == retained(m, by_live),
                forall|a: Seq<char>| #[trigger]
                    keep@.contains_key(a) ==> kept.by_address.contains_key(a) && keep@[a]
                        == kept.by_address[a],
                forall|j: int|
                    0 <= j < i && kept.by_address.contains_key((#[trigger] order[j]).address)
                        ==> keep@.contains_key(order[j].address),
            decreases live.len() - i,
        {
            assert(order[i as int] == live@[i as int]@);
            if let Some(id) = self.by_address.get(live[i].address.as_str()) {
                if let Some(existing) = self.by_id.get(id) {
                    if existing.same(&live[i]) {
                        keep.insert(live[i].address.clone(), *id);
                    }
                }
            }
            i = i + 1;
        }
        proof {
            assert forall|a: Seq<char>| #[trigger] kept.by_address.contains_key(a) implies
                keep@.contains_key(a) by {
                assert(by_live.contains_key(a));
                let j = choose|j: int| 0 <= j < order.len() && (#[trigger] order[j]).address == a;
                assert(kept.by_address.contains_key(order[j].address));
            }
            assert(keep@ =~= kept.by_address);
        }
        self.by_address = keep;
        assert(self@ =~= kept);
        assert(is_sound(kept));
        let mut i: usize = 0;
        assert(order.take(0) =~= Seq::empty());
        while i < live.len()
            invariant
                i <= live.len(),
                order == identity_views(live@),
                is_sound(self@),
                can_register_all(kept, order),
                self@ == registered_all(kept, order.take(i as int)),
            decreases live.len() - i,
        {
            assert(order[i as int] == live@[i as int]@);
            self.register(live[i].clone());
            assert(order.take(i + 1).drop_last() =~= order.take(i as int));
            i = i + 1;
        }
        assert(order.take(order.len() as int) =~= order);
    }

    /// The window that `window_id` was given to.
    pub fn identity(&self, window_id: u64) -> (r: Option<&WindowIdentity>)
        ensures
            r matches Some(identity) ==> window_id <= u32::MAX && self@.by_id.contains_key(
                window_id as u32,
            ) && identity@ == self@.by_id[window_id as u32],
            r is None ==> window_id > u32::MAX || !self@.by_id.contains_key(window_id as u32),
    {
        if window_id > u32::MAX as u64 {
            return None;
        }
        let id: u32 = window_id as u32;
        self.by_id.get(&id)
    }

    /// Whether `n` more windows can be given ids of their own.
    pub fn has_room_for(&self, n: usize) -> (r: bool)
        requires
            is_sound(self@),
        ensures
            r == (self@.by_id.dom().len() + n <= SURROGATE_ID_COUNT),
    {
        assert(self@.by_id.dom() =~= self.by_id@.dom());
        let used: usize = self.by_id.len();
        used as u64 <= SURROGATE_ID_COUNT && n as u64 <= SURROGATE_ID_COUNT - used as u64
    }
}

} // verus!
