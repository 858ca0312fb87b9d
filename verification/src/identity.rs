//! Windows as the compositor reports them, and what identifies one.

use vstd::prelude::*;

use crate::text::{blank, eq_ignore_ascii_case, folded, is_blank};

verus! {

/// A workspace, by its number.
#[derive(Clone, Copy, Debug, Default)]
pub struct Workspace {
    pub id: i32,
}

/// One window of the compositor's list of clients.
#[derive(Debug)]
pub struct Client {
    pub address: String,
    pub mapped: bool,
    pub hidden: bool,
    pub at: [i32; 2],
    pub size: [i32; 2],
    pub class: String,
    pub initial_class: String,
    pub title: String,
    pub initial_title: String,
    pub stable_id: String,
    pub pid: Option<u32>,
    pub workspace: Option<Workspace>,
    pub pinned: bool,
}

/// The window that has the focus. Its address is blank when none has.
#[derive(Debug)]
pub struct ActiveWindow {
    pub address: String,
    pub stable_id: String,
    pub pid: Option<u32>,
    pub class: String,
    pub initial_class: String,
    pub initial_title: String,
}

/// What tells one window from another. An address alone does not: the
/// compositor reuses addresses after a window closes.
#[derive(Debug, PartialEq, Eq)]
pub struct WindowIdentity {
    pub address: String,
    pub stable_id: String,
    pub pid: Option<u32>,
    pub initial_class: String,
    pub initial_title: String,
}

/// What a `WindowIdentity` holds.
#[verifier::ext_equal]
pub struct IdentityView {
    pub address: Seq<char>,
    pub stable_id: Seq<char>,
    pub pid: Option<u32>,
    pub initial_class: Seq<char>,
    pub initial_title: Seq<char>,
}

impl View for WindowIdentity {
    type V = IdentityView;

    open spec fn view(&self) -> IdentityView {
        IdentityView {
            address: self.address@,
            stable_id: self.stable_id@,
            pid: self.pid,
            initial_class: self.initial_class@,
            initial_title: self.initial_title@,
        }
    }
}

/// The identity of a client: its initial class, or its class where it
/// reports no initial one.
pub open spec fn identity_of(client: Client) -> IdentityView {
    IdentityView {
        address: client.address@,
        stable_id: client.stable_id@,
        pid: client.pid,
        initial_class: if client.initial_class@.len() == 0 {
            client.class@
        } else {
            client.initial_class@
        },
        initial_title: client.initial_title@,
    }
}

/// The identities of `clients`, in their order.
pub open spec fn identities_of(clients: Seq<Client>) -> Seq<IdentityView> {
    clients.map_values(|client: Client| identity_of(client))
}

/// What `identities` holds, in its order.
pub open spec fn identity_views(identities: Seq<WindowIdentity>) -> Seq<IdentityView> {
    identities.map_values(|identity: WindowIdentity| identity@)
}

/// The identity of the window that has the focus, where one has.
pub open spec fn active_identity(active: ActiveWindow) -> Option<IdentityView> {
    if is_blank(active.address@) {
        None
    } else {
        Some(
            IdentityView {
                address: active.address@,
                stable_id: active.stable_id@,
                pid: active.pid,
                initial_class: if active.initial_class@.len() == 0 {
                    active.class@
                } else {
                    active.initial_class@
                },
                initial_title: active.initial_title@,
            },
        )
    }
}

/// What an optional identity holds.
pub open spec fn option_view(identity: Option<WindowIdentity>) -> Option<IdentityView> {
    match identity {
        Some(identity) => Some(identity@),
        None => None,
    }
}

impl Clone for Client {
    fn clone(&self) -> (r: Self)
        ensures
            r == *self,
    {
        Client {
            address: self.address.clone(),
            mapped: self.mapped,
            hidden: self.hidden,
            at: self.at,
            size: self.size,
            class: self.class.clone(),
            initial_class: self.initial_class.clone(),
            title: self.title.clone(),
            initial_title: self.initial_title.clone(),
            stable_id: self.stable_id.clone(),
            pid: self.pid,
            workspace: self.workspace,
            pinned: self.pinned,
        }
    }
}

impl Clone for WindowIdentity {
    fn clone(&self) -> (r: Self)
        ensures
            r == *self,
    {
        WindowIdentity {
            address: self.address.clone(),
            stable_id: self.stable_id.clone(),
            pid: self.pid,
            initial_class: self.initial_class.clone(),
            initial_title: self.initial_title.clone(),
        }
    }
}

impl WindowIdentity {
    /// Whether two identities agree in every part.
    pub fn same(&self, other: &WindowIdentity) -> (r: bool)
        ensures
            r == (self@ == other@),
    {
        self.address == other.address && self.stable_id == other.stable_id && self.pid == other.pid
            && self.initial_class == other.initial_class && self.initial_title
            == other.initial_title
    }
}

impl From<&Client> for WindowIdentity {
    fn from(client: &Client) -> (r: Self) {
        WindowIdentity {
            address: client.address.clone(),
            stable_id: client.stable_id.clone(),
            pid: client.pid,
            initial_class: if client.initial_class.as_str().is_empty() {
                client.class.clone()
            } else {
                client.initial_class.clone()
            },
            initial_title: client.initial_title.clone(),
        }
    }
}

impl vstd::std_specs::convert::FromSpecImpl<&Client> for WindowIdentity {
    open spec fn obeys_from_spec() -> bool {
        true
    }

    open spec fn from_spec(client: &Client) -> Self {
        WindowIdentity {
            address: client.address,
            stable_id: client.stable_id,
            pid: client.pid,
            initial_class: if client.initial_class@.len() == 0 {
                client.class
            } else {
                client.initial_class
            },
            initial_title: client.initial_title,
        }
    }
}

impl ActiveWindow {
    /// The identity of the window that has the focus, or nothing where the
    /// address is blank.
    pub fn identity(&self) -> (r: Option<WindowIdentity>)
        ensures
            option_view(r) == active_identity(*self),
    {
        if blank(self.address.as_str()) {
            None
        } else {
            Some(
                WindowIdentity {
                    address: self.address.clone(),
                    stable_id: self.stable_id.clone(),
                    pid: self.pid,
                    initial_class: if self.initial_class.as_str().is_empty() {
                        self.class.clone()
                    } else {
                        self.initial_class.clone()
                    },
                    initial_title: self.initial_title.clone(),
                },
            )
        }
    }
}

/// The identities of `clients`, in their order.
pub fn live_identities(clients: &[Client]) -> (r: Vec<WindowIdentity>)
    ensures
        identity_views(r@) == identities_of(clients@),
{
    let mut r: Vec<WindowIdentity> = Vec::new();
    let mut i: usize = 0;
    while i < clients.len()
        invariant
            i <= clients.len(),
            r.len() == i,
            forall|j: int| 0 <= j < i ==> (#[trigger] r@[j])@ == identity_of(clients@[j]),
        decreases clients.len() - i,
    {
        r.push(WindowIdentity::from(&clients[i]));
        i = i + 1;
    }
    assert(identity_views(r@) =~= identities_of(clients@));
    r
}

/// Whether an identity equal to `identity` stands in `live`.
pub(crate) fn contains_identity(live: &[WindowIdentity], identity: &WindowIdentity) -> (r: bool)
    ensures
        r == identity_views(live@).contains(identity@),
{
    let mut i: usize = 0;
    while i < live.len()
        invariant
            i <= live.len(),
            forall|j: int| 0 <= j < i ==> (#[trigger] live@[j])@ != identity@,
        decreases live.len() - i,
    {
        if live[i].same(identity) {
            assert(identity_views(live@)[i as int] == identity@);
            return true;
        }
        i = i + 1;
    }
    assert forall|j: int| 0 <= j < live.len() implies #[trigger] identity_views(live@)[j]
        != identity@ by {
        assert(live@[j]@ != identity@);
    }
    false
}

/// Whether `i` is the first place of `live` whose address agrees with
/// `address` but for the case of ASCII letters.
pub open spec fn is_first_at_address(live: Seq<IdentityView>, address: Seq<char>, i: int) -> bool {
    &&& 0 <= i < live.len()
    &&& folded(live[i].address) == folded(address)
    &&& forall|j: int|
        0 <= j < i ==> folded((#[trigger] live[j]).address) != folded(address)
}

/// Whether the first live window at the address of `identity` is the window
/// that `identity` names.
pub open spec fn holds_its_address(live: Seq<IdentityView>, identity: IdentityView) -> bool {
    exists|i: int| #[trigger]
        is_first_at_address(live, identity.address, i) && live[i] == identity
}

/// Whether the first live window at the address of `identity` is the window
/// that `identity` names.
pub(crate) fn still_at_address(live: &[WindowIdentity], identity: &WindowIdentity) -> (r: bool)
    ensures
        r == holds_its_address(identity_views(live@), identity@),
{
    let ghost views = identity_views(live@);
    let mut i: usize = 0;
    while i < live.len()
        invariant
            i <= live.len(),
            views == identity_views(live@),
            forall|j: int|
                0 <= j < i ==> folded((#[trigger] views[j]).address) != folded(identity@.address),
        decreases live.len() - i,
    {
        if eq_ignore_ascii_case(live[i].address.as_str(), identity.address.as_str()) {
            assert(is_first_at_address(views, identity@.address, i as int));
            let r = live[i].same(identity);
            proof {
                assert(views[i as int] == live@[i as int]@);
                assert forall|k: int| #[trigger]
                    is_first_at_address(views, identity@.address, k) implies k == i by {
                    if k < i {
                        assert(folded(views[k].address) != folded(identity@.address));
                    }
                    if k > i {
                        assert(folded(views[i as int].address) != folded(identity@.address));
                    }
                }
            }
            return r;
        }
        assert(views[i as int] == live@[i as int]@);
        i = i + 1;
    }
    false
}

} // verus!
