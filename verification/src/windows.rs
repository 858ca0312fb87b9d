//! The list of windows.

use vstd::prelude::*;
use vstd::string::*;

use crate::identity::{identities_of, identity_of, Client, WindowIdentity};
use crate::monitors::Monitor;
use crate::registry::{
    can_register_all, can_sync, has_free_id, is_registered, is_sound, registered, registered_all,
    registered_id, seed_of, synced, IdRegistry, RegistryView, SURROGATE_ID_COUNT,
};
use crate::registry_laws::law_room_to_sync;
use crate::text::{
    blank, is_blank, lemma_precedes_irreflexive, lemma_precedes_total, lemma_precedes_transitive,
    precedes, text_precedes,
};
use crate::visibility::{
    active_workspace_ids, client_is_enumerable, client_is_visible, is_enumerable, is_visible,
    shown_workspaces,
};
use crate::window_laws::law_room_to_list;

verus! {

/// A window as callers see it.
#[derive(Debug)]
pub struct WindowInfo {
    pub xid: u64,
    pub pid: Option<u32>,
    pub app_name: String,
    pub title: String,
    pub is_on_screen: bool,
    pub z_index: Option<i32>,
    pub x: i32,
    pub y: i32,
    pub width: u32,
    pub height: u32,
}

/// What a `WindowInfo` holds.
#[verifier::ext_equal]
pub struct WindowView {
    pub xid: u64,
    pub pid: Option<u32>,
    pub app_name: Seq<char>,
    pub title: Seq<char>,
    pub is_on_screen: bool,
    pub z_index: Option<i32>,
    pub x: i32,
    pub y: i32,
    pub width: u32,
    pub height: u32,
}

impl View for WindowInfo {
    type V = WindowView;

    open spec fn view(&self) -> WindowView {
        WindowView {
            xid: self.xid,
            pid: self.pid,
            app_name: self.app_name@,
            title: self.title@,
            is_on_screen: self.is_on_screen,
            z_index: self.z_index,
            x: self.x,
            y: self.y,
            width: self.width,
            height: self.height,
        }
    }
}

/// What `windows` holds, in its order.
pub open spec fn window_views(windows: Seq<WindowInfo>) -> Seq<WindowView> {
    windows.map_values(|window: WindowInfo| window@)
}

/// What the compositor reports of its session at one moment, and the process
/// that the driver runs as.
#[derive(Debug)]
pub struct Snapshot {
    pub clients: Vec<Client>,
    pub monitors: Vec<Monitor>,
    pub own_pid: u32,
}

/// A length that is reported as negative counts as none.
pub open spec fn extent(length: i32) -> u32 {
    if length < 0 {
        0
    } else {
        length as u32
    }
}

fn extent_of(length: i32) -> (r: u32)
    ensures
        r == extent(length),
{
    if length < 0 {
        0
    } else {
        length as u32
    }
}

/// The title under which a window is listed: its title and its class, each
/// unless it is blank, or its address where both are.
pub open spec fn listed_title(client: Client) -> Seq<char> {
    if is_blank(client.title@) && is_blank(client.class@) {
        client.address@
    } else if is_blank(client.class@) {
        client.title@
    } else if is_blank(client.title@) {
        "["@ + client.class@ + "]"@
    } else {
        client.title@ + " ["@ + client.class@ + "]"@
    }
}

fn title_for_list(client: &Client) -> (r: String)
    ensures
        r@ == listed_title(*client),
{
    let no_title = blank(client.title.as_str());
    let no_class = blank(client.class.as_str());
    if no_title && no_class {
        client.address.clone()
    } else if no_class {
        client.title.clone()
    } else if no_title {
        "[".to_owned().concat(client.class.as_str()).concat("]")
    } else {
        client.title.clone().concat(" [").concat(client.class.as_str()).concat("]")
    }
}

/// What callers see of a client.
pub open spec fn window_of(
    client: Client,
    xid: u64,
    title: Seq<char>,
    is_on_screen: bool,
) -> WindowView {
    WindowView {
        xid,
        pid: client.pid,
        app_name: client.class@,
        title,
        is_on_screen,
        z_index: None,
        x: client.at[0],
        y: client.at[1],
        width: extent(client.size[0]),
        height: extent(client.size[1]),
    }
}

pub(crate) fn make_window(client: &Client, xid: u64, title: String, is_on_screen: bool) -> (r: WindowInfo)
    ensures
        r@ == window_of(*client, xid, title@, is_on_screen),
{
    WindowInfo {
        xid,
        pid: client.pid,
        app_name: client.class.clone(),
        title,
        is_on_screen,
        z_index: None,
        x: client.at[0],
        y: client.at[1],
        width: extent_of(client.size[0]),
        height: extent_of(client.size[1]),
    }
}

/// A process id as a number, with none before all others.
pub open spec fn pid_rank(pid: Option<u32>) -> int {
    match pid {
        Some(pid) => pid as int,
        None => -1,
    }
}

/// Whether `a` is listed before `b`: by process, then those that show before
/// the others, then from top to bottom, from left to right, and by title.
pub open spec fn window_precedes(a: WindowView, b: WindowView) -> bool {
    if pid_rank(a.pid) != pid_rank(b.pid) {
        pid_rank(a.pid) < pid_rank(b.pid)
    } else if a.is_on_screen != b.is_on_screen {
        a.is_on_screen
    } else if a.y != b.y {
        a.y < b.y
    } else if a.x != b.x {
        a.x < b.x
    } else {
        precedes(a.title, b.title)
    }
}

fn comes_before(a: &WindowInfo, b: &WindowInfo) -> (r: bool)
    ensures
        r == window_precedes(a@, b@),
{
    match (a.pid, b.pid) {
        (None, Some(_)) => {
            return true;
        },
        (Some(_), None) => {
            return false;
        },
        (Some(p), Some(q)) => {
            if p != q {
                return p < q;
            }
        },
        (None, None) => {},
    }
    if a.is_on_screen != b.is_on_screen {
        a.is_on_screen
    } else if a.y != b.y {
        a.y < b.y
    } else if a.x != b.x {
        a.x < b.x
    } else {
        text_precedes(a.title.as_str(), b.title.as_str())
    }
}

pub proof fn lemma_window_order(a: WindowView, b: WindowView, c: WindowView)
    requires
        window_precedes(a, b),
        !window_precedes(c, b),
    ensures
        window_precedes(a, c),
{
    lemma_precedes_total(b.title, c.title);
    if precedes(a.title, b.title) && precedes(b.title, c.title) {
        lemma_precedes_transitive(a.title, b.title, c.title);
    }
}

pub proof fn lemma_window_order_irreflexive(a: WindowView)
    ensures
        !window_precedes(a, a),
{
    lemma_precedes_irreflexive(a.title);
}

/// Whether `output` is `input` in the order of `window_precedes`, where
/// `places` says for each place of `output` which place of `input` it comes
/// from, and windows of one rank keep their order.
pub open spec fn sorts_by(
    input: Seq<WindowView>,
    output: Seq<WindowView>,
    places: Seq<int>,
) -> bool {
    &&& places.len() == input.len()
    &&& output.len() == input.len()
    &&& places.no_duplicates()
    &&& forall|i: int|
        0 <= i < output.len() ==> 0 <= #[trigger] places[i] < input.len() && output[i]
            == input[places[i]]
    &&& forall|i: int, j: int|
        0 <= i < j < output.len() ==> !window_precedes(#[trigger] output[j], #[trigger] output[i])
            && (window_precedes(output[i], output[j]) || places[i] < places[j])
}

/// Whether `output` is `input`, stably sorted in the order of
/// `window_precedes`.
pub open spec fn is_stably_sorted(input: Seq<WindowView>, output: Seq<WindowView>) -> bool {
    exists|places: Seq<int>| sorts_by(input, output, places)
}

proof fn lemma_inserted_sorts(
    input: Seq<WindowView>,
    output: Seq<WindowView>,
    places: Seq<int>,
    window: WindowView,
    p: int,
)
    requires
        sorts_by(input, output, places),
        0 <= p <= output.len(),
        p > 0 ==> !window_precedes(window, output[p - 1]),
        forall|i: int| p <= i < output.len() ==> window_precedes(window, #[trigger] output[i]),
    ensures
        sorts_by(input.push(window), output.insert(p, window), places.insert(p, input.len() as int)),
{
    let input2 = input.push(window);
    let output2 = output.insert(p, window);
    let places2 = places.insert(p, input.len() as int);
    assert forall|i: int| 0 <= i < p implies !window_precedes(window, #[trigger] output[i]) by {
        if window_precedes(window, output[i]) && i < p - 1 {
            assert(!window_precedes(output[p - 1], output[i]));
            lemma_window_order(window, output[i], output[p - 1]);
        }
    }
    assert forall|i: int| p <= i < output.len() implies !window_precedes(
        #[trigger] output[i],
        window,
    ) by {
        if window_precedes(output[i], window) {
            lemma_window_order_irreflexive(window);
            lemma_window_order_irreflexive(output[i]);
            lemma_window_order(output[i], window, output[i]);
        }
    }
    assert(places2.no_duplicates()) by {
        assert forall|i: int, j: int|
            0 <= i < places2.len() && 0 <= j < places2.len() && i != j implies places2[i]
            != places2[j] by {
            let a = if i < p { i } else { i - 1 };
            let b = if j < p { j } else { j - 1 };
            if i != p {
                assert(places2[i] == places[a]);
                assert(places[a] < input.len());
            }
            if j != p {
                assert(places2[j] == places[b]);
                assert(places[b] < input.len());
            }
        }
    }
    assert forall|i: int| 0 <= i < output2.len() implies 0 <= #[trigger] places2[i] < input2.len()
        && output2[i] == input2[places2[i]] by {
        if i < p {
            assert(places2[i] == places[i]);
        } else if i > p {
            assert(places2[i] == places[i - 1]);
        }
    }
    assert forall|i: int, j: int| 0 <= i < j < output2.len() implies !window_precedes(
        #[trigger] output2[j],
        #[trigger] output2[i],
    ) && (window_precedes(output2[i], output2[j]) || places2[i] < places2[j]) by {
        if j < p {
            assert(output2[i] == output[i] && output2[j] == output[j]);
        } else if j == p {
            assert(output2[i] == output[i]);
            assert(places[i] < input.len());
        } else if i < p {
            assert(output2[i] == output[i] && output2[j] == output[j - 1]);
        } else if i == p {
            assert(output2[j] == output[j - 1]);
        } else {
            assert(output2[i] == output[i - 1] && output2[j] == output[j - 1]);
        }
    }
}

/// Puts `window` at its place in a sorted list, behind those of its rank.
fn insert_sorted(windows: &mut Vec<WindowInfo>, window: WindowInfo, Ghost(input): Ghost<
    Seq<WindowView>,
>)
    requires
        is_stably_sorted(input, window_views(old(windows)@)),
    ensures
        is_stably_sorted(input.push(window@), window_views(final(windows)@)),
{
    let ghost output = window_views(windows@);
    let ghost places = choose|places: Seq<int>| sorts_by(input, output, places);
    let ghost view = window@;
    let mut at: usize = windows.len();
    while at > 0 && comes_before(&window, &windows[at - 1])
        invariant
            at <= windows.len(),
            output == window_views(windows@),
            view == window@,
            forall|i: int| at <= i < output.len() ==> window_precedes(view, #[trigger] output[i]),
        decreases at,
    {
        assert(output[at - 1] == windows@[at - 1]@);
        at = at - 1;
    }
    if at > 0 {
        assert(output[at - 1] == windows@[at - 1]@);
    }
    windows.insert(at, window);
    proof {
        lemma_inserted_sorts(input, output, places, view, at as int);
        assert(window_views(windows@) =~= output.insert(at as int, view));
    }
}

/// Whether a client is listed for the asked process, or for any where none
/// is asked for.
pub open spec fn is_listed(client: Client, filter_pid: Option<u32>, own_pid: u32) -> bool {
    is_enumerable(client, own_pid) && (filter_pid is None || client.pid == filter_pid)
}

/// The clients that are listed, in their order.
pub open spec fn listed_clients(
    clients: Seq<Client>,
    filter_pid: Option<u32>,
    own_pid: u32,
) -> Seq<Client> {
    clients.filter(|client: Client| is_listed(client, filter_pid, own_pid))
}

/// The window that the `i`-th of the `listed` clients gives, where `m` is the
/// registry before any of them was asked for its id.
pub open spec fn listed_window(
    m: RegistryView,
    listed: Seq<Client>,
    workspaces: Set<i32>,
    own_pid: u32,
    i: int,
) -> WindowView {
    let identities = identities_of(listed);
    let id = registered_id(
        registered_all(m, identities.take(i)),
        identities[i],
        seed_of(identities[i]),
    );
    window_of(
        listed[i],
        id as u64,
        listed_title(listed[i]),
        is_visible(listed[i], workspaces, own_pid),
    )
}

/// The windows that the `listed` clients give, in their order.
pub open spec fn listed_windows(
    m: RegistryView,
    listed: Seq<Client>,
    workspaces: Set<i32>,
    own_pid: u32,
) -> Seq<WindowView> {
    Seq::new(listed.len(), |i: int| listed_window(m, listed, workspaces, own_pid, i))
}

proof fn lemma_listed_windows_push(
    m: RegistryView,
    listed: Seq<Client>,
    workspaces: Set<i32>,
    own_pid: u32,
    client: Client,
)
    ensures
        listed_windows(m, listed.push(client), workspaces, own_pid) == listed_windows(
            m,
            listed,
            workspaces,
            own_pid,
        ).push(listed_window(m, listed.push(client), workspaces, own_pid, listed.len() as int)),
        identities_of(listed.push(client)) == identities_of(listed).push(identity_of(client)),
{
    let longer = listed.push(client);
    assert(identities_of(longer) =~= identities_of(listed).push(identity_of(client)));
    assert forall|i: int| 0 <= i < listed.len() implies listed_window(
        m,
        longer,
        workspaces,
        own_pid,
        i,
    ) == listed_window(m, listed, workspaces, own_pid, i) by {
        assert(identities_of(longer).take(i) =~= identities_of(listed).take(i));
    }
    assert(listed_windows(m, longer, workspaces, own_pid) =~= listed_windows(
        m,
        listed,
        workspaces,
        own_pid,
    ).push(listed_window(m, longer, workspaces, own_pid, listed.len() as int)));
}

/// The id of the window that `client` is.
pub fn id_for_client(registry: &mut IdRegistry, client: &Client) -> (id: u32)
    requires
        is_sound(old(registry)@),
        is_registered(old(registry)@, identity_of(*client)) || has_free_id(old(registry)@),
    ensures
        is_sound(final(registry)@),
        id == registered_id(
            old(registry)@,
            identity_of(*client),
            seed_of(identity_of(*client)),
        ),
        final(registry)@ == registered(
            old(registry)@,
            identity_of(*client),
            seed_of(identity_of(*client)),
        ),
{
    registry.register(WindowIdentity::from(client))
}

/// Whether there are ids enough to take `clients` as the windows that live,
/// and to list them.
pub fn has_room_to_list(registry: &IdRegistry, clients: &[Client]) -> (r: bool)
    requires
        is_sound(registry@),
    ensures
        r == (registry@.by_id.dom().len() + 2 * clients@.len() <= SURROGATE_ID_COUNT),
        r ==> can_sync(registry@, clients@),
        r ==> forall|filter_pid: Option<u32>, own_pid: u32|
            can_register_all(
                synced(registry@, clients@),
                identities_of(#[trigger] listed_clients(clients@, filter_pid, own_pid)),
            ),
{
    let r = clients.len() <= usize::MAX / 2 && registry.has_room_for(2 * clients.len());
    proof {
        if r {
            law_room_to_sync(registry@, clients@);
            assert forall|filter_pid: Option<u32>, own_pid: u32| can_register_all(
                synced(registry@, clients@),
                identities_of(#[trigger] listed_clients(clients@, filter_pid, own_pid)),
            ) by {
                law_room_to_list(registry@, clients@, filter_pid, own_pid);
            }
        }
    }
    r
}

/// Lists the windows of `snapshot`, of one process or of all, each with its
/// id; takes the clients of the snapshot as those that live.
pub fn list_windows(
    registry: &mut IdRegistry,
    snapshot: &Snapshot,
    filter_pid: Option<u32>,
) -> (r: Vec<WindowInfo>)
    requires
        is_sound(old(registry)@),
        can_sync(old(registry)@, snapshot.clients@),
        can_register_all(
            synced(old(registry)@, snapshot.clients@),
            identities_of(listed_clients(snapshot.clients@, filter_pid, snapshot.own_pid)),
        ),
    ensures
        is_sound(final(registry)@),
        final(registry)@ == registered_all(
            synced(old(registry)@, snapshot.clients@),
            identities_of(listed_clients(snapshot.clients@, filter_pid, snapshot.own_pid)),
        ),
        is_stably_sorted(
            listed_windows(
                synced(old(registry)@, snapshot.clients@),
                listed_clients(snapshot.clients@, filter_pid, snapshot.own_pid),
                shown_workspaces(snapshot.monitors@),
                snapshot.own_pid,
            ),
            window_views(r@),
        ),
{
    let clients = &snapshot.clients;
    let own_pid = snapshot.own_pid;
    registry.sync(clients.as_slice());
    let workspaces = active_workspace_ids(snapshot.monitors.as_slice());
    let ghost m = registry@;
    let ghost pred = |client: Client| is_listed(client, filter_pid, own_pid);
    let ghost shown = shown_workspaces(snapshot.monitors@);
    let ghost all = clients@.filter(pred);
    let ghost mut listed: Seq<Client> = Seq::empty();
    let mut windows: Vec<WindowInfo> = Vec::new();
    let mut i: usize = 0;
    proof {
        reveal(Seq::filter);
        assert(clients@.take(0).filter(pred) =~= Seq::empty());
        assert(sorts_by(
            listed_windows(m, listed, shown, own_pid),
            window_views(windows@),
            Seq::empty(),
        ));
        assert(identities_of(listed) =~= Seq::empty());
    }
    while i < clients.len()
        invariant
            i <= clients.len(),
            own_pid == snapshot.own_pid,
            clients@ == snapshot.clients@,
            pred == (|client: Client| is_listed(client, filter_pid, own_pid)),
            all == clients@.filter(pred),
            listed == clients@.take(i as int).filter(pred),
            workspaces@ == shown,
            is_sound(registry@),
            registry@ == registered_all(m, identities_of(listed)),
            can_register_all(m, identities_of(all)),
            is_stably_sorted(listed_windows(m, listed, shown, own_pid), window_views(windows@)),
        decreases clients.len() - i,
    {
        let client = &clients[i];
        let wanted = match filter_pid {
            Some(pid) => match client.pid {
                Some(client_pid) => client_pid == pid,
                None => false,
            },
            None => true,
        };
        let listed_too = client_is_enumerable(client, own_pid) && wanted;
        proof {
            reveal(Seq::filter);
            let longer = clients@.take(i + 1);
            assert(longer.drop_last() =~= clients@.take(i as int));
            assert(longer.last() == *client);
            assert(pred(*client) == listed_too);
        }
        if listed_too {
            let ghost before = listed;
            proof {
                listed = listed.push(*client);
                lemma_listed_windows_push(m, before, shown, own_pid, *client);
                lemma_filter_prefix(clients@, pred, i + 1);
                let n = before.len() as int;
                assert(listed =~= all.take(n + 1));
                assert(all[n] == *client);
                assert(before =~= all.take(n)) by {
                    assert(before =~= listed.take(n));
                }
                assert forall|k: int| 0 <= k < n implies before[k] == all[k] by {
                    assert(all.take(n)[k] == all[k]);
                }
                assert(identities_of(all).take(n) =~= identities_of(before));
                assert(identities_of(all)[n] == identity_of(*client));
                assert(identities_of(listed).drop_last() =~= identities_of(before));
                assert(identities_of(listed).take(n) =~= identities_of(before));
            }
            let id = id_for_client(registry, client);
            let title = title_for_list(client);
            let on_screen = client_is_visible(client, &workspaces, own_pid);
            let window = make_window(client, id as u64, title, on_screen);
            assert(window@ == listed_window(m, listed, shown, own_pid, before.len() as int));
            insert_sorted(
                &mut windows,
                window,
                Ghost(listed_windows(m, before, shown, own_pid)),
            );
        }
        i = i + 1;
    }
    assert(clients@.take(clients.len() as int) =~= clients@);
    windows
}

proof fn lemma_filter_prefix(clients: Seq<Client>, pred: spec_fn(Client) -> bool, n: int)
    requires
        0 <= n <= clients.len(),
    ensures
        clients.take(n).filter(pred).len() <= clients.filter(pred).len(),
        clients.take(n).filter(pred) == clients.filter(pred).take(
            clients.take(n).filter(pred).len() as int,
        ),
    decreases clients.len() - n,
{
    reveal(Seq::filter);
    if n == clients.len() {
        assert(clients.take(n) =~= clients);
        assert(clients.filter(pred).take(clients.filter(pred).len() as int) =~= clients.filter(
            pred,
        ));
    } else {
        lemma_filter_prefix(clients, pred, n + 1);
        let longer = clients.take(n + 1);
        assert(longer.drop_last() =~= clients.take(n));
        let short = clients.take(n).filter(pred);
        assert(short =~= longer.filter(pred).take(short.len() as int));
        assert(short =~= clients.filter(pred).take(short.len() as int));
    }
}

} // verus!
