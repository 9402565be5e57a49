//! The interface table and the reconciliation of its peers.

pub mod lemmas;
pub mod messages;
pub mod structs;

use crate::http::peering::PeeringResponse;
use crate::ip_net::{IpAddress, IpNet};
use crate::network::utils::{
    next_hop, os_interface_views, owner, spec_next_hop, GetInterface, OsInterface,
    OsInterfaceView, Route,
};
use crate::state::lemmas::{
    lemma_add_or_update_wf, lemma_attach_wf, lemma_filter_wf, lemma_ifup_wf,
    lemma_reconciled_wf,
};
use crate::state::structs::{
    append_peers, holds, holds_peer, interface_views, opt_wireguard, peer_views,
    same_opt_wireguard, table_wf, NetworkInterface, NetworkInterfaceView, Peer, PeerView,
    Settings, StateManager, StateView, Wireguard, WireguardView,
};
use vstd::prelude::*;

verus! {

broadcast use {
    vstd::seq_lib::group_seq_properties,
    Seq::lemma_filter_push,
    Seq::lemma_take_succ_push,
    Seq::lemma_take_len,
};

/// Whether entry `i` of the table stands for `name` on `net`.
pub open spec fn is_entry(
    interfaces: Seq<NetworkInterfaceView>,
    i: int,
    name: Seq<char>,
    net: Option<IpNet>,
) -> bool {
    0 <= i < interfaces.len() && interfaces[i].name == name && interfaces[i].net == net
}

/// Whether entry `i` is the first that stands for `name` on `net`.
pub open spec fn is_first_entry(
    interfaces: Seq<NetworkInterfaceView>,
    i: int,
    name: Seq<char>,
    net: Option<IpNet>,
) -> bool {
    is_entry(interfaces, i, name, net) && forall|j: int|
        0 <= j < i ==> !is_entry(interfaces, j, name, net)
}

/// Whether the table has an entry for `name` on `net`.
pub open spec fn has_entry(
    interfaces: Seq<NetworkInterfaceView>,
    name: Seq<char>,
    net: Option<IpNet>,
) -> bool {
    exists|i: int| is_entry(interfaces, i, name, net)
}

/// The index of the first entry for `name` on `net`.
pub open spec fn entry_index(
    interfaces: Seq<NetworkInterfaceView>,
    name: Seq<char>,
    net: Option<IpNet>,
) -> int {
    choose|i: int| is_first_entry(interfaces, i, name, net)
}

/// Whether a stored entry differs from a candidate in what an up-event can change.
pub open spec fn differs(stored: NetworkInterfaceView, candidate: NetworkInterfaceView) -> bool {
    stored.nexthop != candidate.nexthop || stored.is_default != candidate.is_default
        || stored.wireguard != candidate.wireguard
}

/// A stored entry with the gateway, default flag and tunnel identity of a candidate.
pub open spec fn refreshed(
    stored: NetworkInterfaceView,
    candidate: NetworkInterfaceView,
) -> NetworkInterfaceView {
    NetworkInterfaceView {
        nexthop: candidate.nexthop,
        is_default: candidate.is_default,
        wireguard: candidate.wireguard,
        ..stored
    }
}

/// The table after an up-event for `candidate`, and whether it changed: a
/// first sight is appended, a known entry takes the candidate's gateway,
/// default flag and identity where one of them differs.
pub open spec fn add_or_update(
    interfaces: Seq<NetworkInterfaceView>,
    candidate: NetworkInterfaceView,
) -> (Seq<NetworkInterfaceView>, bool) {
    if has_entry(interfaces, candidate.name, candidate.net) {
        let i = entry_index(interfaces, candidate.name, candidate.net);
        if differs(interfaces[i], candidate) {
            (interfaces.update(i, refreshed(interfaces[i], candidate)), true)
        } else {
            (interfaces, false)
        }
    } else {
        (interfaces.push(candidate), true)
    }
}

/// The peers of all interfaces, in table order.
pub open spec fn all_peers(interfaces: Seq<NetworkInterfaceView>) -> Seq<PeerView>
    decreases interfaces.len(),
{
    if interfaces.len() == 0 {
        Seq::empty()
    } else {
        all_peers(interfaces.drop_last()) + interfaces.last().peers
    }
}

/// The interfaces that stand on `net`.
pub open spec fn on_net(net: IpNet) -> spec_fn(NetworkInterfaceView) -> bool {
    |i: NetworkInterfaceView| i.net == Some(net)
}

/// The interfaces that do not stand on `net`.
pub open spec fn off_net(net: IpNet) -> spec_fn(NetworkInterfaceView) -> bool {
    |i: NetworkInterfaceView| i.net != Some(net)
}

/// The entry that an up-event for `net` proposes: the owning interface by
/// name, the resolved next hop, the tunnel identity, and no peers yet.
pub open spec fn candidate(
    net: IpNet,
    interface: OsInterfaceView,
    hop: (bool, Option<IpAddress>),
    wireguard: Option<WireguardView>,
) -> NetworkInterfaceView {
    NetworkInterfaceView {
        name: interface.name,
        net: Some(net),
        nexthop: hop.1,
        is_default: hop.0,
        peers: Seq::empty(),
        wireguard,
    }
}

/// The interfaces that have a tunnel identity with a public key.
pub open spec fn has_identity() -> spec_fn(NetworkInterfaceView) -> bool {
    |i: NetworkInterfaceView| i.has_pubkey()
}

/// The interfaces whose peering service a round of reconciliation queries, in
/// table order: every interface with a public key, and none while suspended.
pub open spec fn query_targets(state: StateView) -> Seq<NetworkInterfaceView> {
    if state.suspended {
        Seq::empty()
    } else {
        state.interfaces.filter(has_identity())
    }
}

/// The table after an up-event for `net`, and whether a round of
/// reconciliation is due. An event for a prefix that no interface owns is
/// dropped.
pub open spec fn spec_ifup(
    state: StateView,
    net: IpNet,
    interfaces: Seq<OsInterfaceView>,
    routes: Seq<Route>,
    wireguard: Option<WireguardView>,
) -> (StateView, bool) {
    match owner(interfaces, net) {
        Some(interface) => {
            let entry = candidate(
                net,
                interface,
                spec_next_hop(net, routes, interfaces),
                wireguard,
            );
            let (table, changed) = add_or_update(state.interfaces, entry);
            (StateView { interfaces: table, ..state }, changed)
        },
        None => (state, false),
    }
}

/// Whether an interface takes a peer: its network holds the peer's endpoint.
pub open spec fn accepts(interface: NetworkInterfaceView, peer: PeerView) -> bool {
    interface.net matches Some(net) && peer.endpoint matches Some(endpoint) && net.spec_contains(
        endpoint,
    )
}

/// Whether interface `i` is the first of the table that takes `peer`.
pub open spec fn is_first_accepting(
    interfaces: Seq<NetworkInterfaceView>,
    i: int,
    peer: PeerView,
) -> bool {
    0 <= i < interfaces.len() && accepts(interfaces[i], peer) && forall|j: int|
        0 <= j < i ==> !accepts(#[trigger] interfaces[j], peer)
}

/// Whether some interface of the table takes `peer`.
pub open spec fn some_accepts(interfaces: Seq<NetworkInterfaceView>, peer: PeerView) -> bool {
    exists|i: int| 0 <= i < interfaces.len() && accepts(#[trigger] interfaces[i], peer)
}

/// The index of the first interface that takes `peer`.
pub open spec fn accepting_index(interfaces: Seq<NetworkInterfaceView>, peer: PeerView) -> int {
    choose|i: int| is_first_accepting(interfaces, i, peer)
}

/// Whether `peer` is yet to be attached: some interface takes it, and the
/// first that does holds no record of the same peer.
pub open spec fn is_new(interfaces: Seq<NetworkInterfaceView>, peer: PeerView) -> bool {
    some_accepts(interfaces, peer) && !holds(
        interfaces[accepting_index(interfaces, peer)].peers,
        peer,
    )
}

/// An interface with one more peer at the end of its list.
pub open spec fn with_peer(interface: NetworkInterfaceView, peer: PeerView) -> NetworkInterfaceView {
    NetworkInterfaceView { peers: interface.peers.push(peer), ..interface }
}

/// The table after `peer` was offered: a new peer joins the first interface
/// that takes it; a peer that no interface takes is dropped.
pub open spec fn attach(
    interfaces: Seq<NetworkInterfaceView>,
    peer: PeerView,
) -> Seq<NetworkInterfaceView> {
    if is_new(interfaces, peer) {
        let i = accepting_index(interfaces, peer);
        interfaces.update(i, with_peer(interfaces[i], peer))
    } else {
        interfaces
    }
}

/// The table after each peer of a response was offered, in the order of the response.
pub open spec fn attach_all(
    interfaces: Seq<NetworkInterfaceView>,
    peers: Seq<PeerView>,
) -> Seq<NetworkInterfaceView>
    decreases peers.len(),
{
    if peers.len() == 0 {
        interfaces
    } else {
        attach(attach_all(interfaces, peers.drop_last()), peers.last())
    }
}

/// The peers of a response that were attached, in the order of the response.
pub open spec fn attached(
    interfaces: Seq<NetworkInterfaceView>,
    peers: Seq<PeerView>,
) -> Seq<PeerView>
    decreases peers.len(),
{
    if peers.len() == 0 {
        Seq::empty()
    } else {
        let earlier = attached(interfaces, peers.drop_last());
        if is_new(attach_all(interfaces, peers.drop_last()), peers.last()) {
            earlier.push(peers.last())
        } else {
            earlier
        }
    }
}

/// The peers that a response to the query of interface `name` makes stale:
/// those the interface owns and the response does not list.
pub open spec fn is_stale(response: Seq<PeerView>, name: Seq<char>) -> spec_fn(PeerView) -> bool {
    |peer: PeerView| peer.owned_by(name) && !holds(response, peer)
}

/// The peers held before a round that its response makes stale, in table order.
pub open spec fn stale_peers(
    interfaces: Seq<NetworkInterfaceView>,
    response: Seq<PeerView>,
    name: Seq<char>,
) -> Seq<PeerView> {
    all_peers(interfaces).filter(is_stale(response, name))
}

/// The peers that are not among `stale`.
pub open spec fn not_among(stale: Seq<PeerView>) -> spec_fn(PeerView) -> bool {
    |peer: PeerView| !holds(stale, peer)
}

/// An interface without the peers that are among `stale`.
pub open spec fn without(
    interface: NetworkInterfaceView,
    stale: Seq<PeerView>,
) -> NetworkInterfaceView {
    NetworkInterfaceView { peers: interface.peers.filter(not_among(stale)), ..interface }
}

/// The table with the stale peers taken off every interface.
pub open spec fn strip(
    interfaces: Seq<NetworkInterfaceView>,
    stale: Seq<PeerView>,
) -> Seq<NetworkInterfaceView> {
    interfaces.map_values(|i: NetworkInterfaceView| without(i, stale))
}

/// The table after the response to the query of interface `name` was
/// reconciled: its peers are attached, then what it made stale is taken off.
pub open spec fn reconciled(
    interfaces: Seq<NetworkInterfaceView>,
    response: Seq<PeerView>,
    name: Seq<char>,
) -> Seq<NetworkInterfaceView> {
    strip(attach_all(interfaces, response), stale_peers(interfaces, response, name))
}

/// The first interface that takes a peer is the one the search meets first.
pub proof fn lemma_accepting_index(interfaces: Seq<NetworkInterfaceView>, i: int, peer: PeerView)
    requires
        is_first_accepting(interfaces, i, peer),
    ensures
        some_accepts(interfaces, peer),
        accepting_index(interfaces, peer) == i,
{
    let k = accepting_index(interfaces, peer);
    assert(is_first_accepting(interfaces, k, peer));
    assert(accepts(interfaces[i], peer));
    assert(accepts(interfaces[k], peer));
}

/// A table with an entry for a name and prefix has a first such entry, and
/// `entry_index` is its index.
pub proof fn lemma_entry_index_is_first(
    interfaces: Seq<NetworkInterfaceView>,
    name: Seq<char>,
    net: Option<IpNet>,
)
    requires
        has_entry(interfaces, name, net),
    ensures
        is_first_entry(interfaces, entry_index(interfaces, name, net), name, net),
{
    let i = choose|i: int| is_entry(interfaces, i, name, net);
    lemma_first_entry_before(interfaces, i, name, net);
}

proof fn lemma_first_entry_before(
    interfaces: Seq<NetworkInterfaceView>,
    i: int,
    name: Seq<char>,
    net: Option<IpNet>,
)
    requires
        is_entry(interfaces, i, name, net),
    ensures
        exists|k: int| is_first_entry(interfaces, k, name, net),
    decreases i,
{
    if exists|j: int| 0 <= j < i && is_entry(interfaces, j, name, net) {
        let j = choose|j: int| 0 <= j < i && is_entry(interfaces, j, name, net);
        lemma_first_entry_before(interfaces, j, name, net);
    } else {
        assert(is_first_entry(interfaces, i, name, net));
    }
}

/// A table with an interface that takes a peer has a first such interface,
/// and `accepting_index` is its index.
pub proof fn lemma_accepting_index_is_first(
    interfaces: Seq<NetworkInterfaceView>,
    peer: PeerView,
)
    requires
        some_accepts(interfaces, peer),
    ensures
        is_first_accepting(interfaces, accepting_index(interfaces, peer), peer),
{
    let i = choose|i: int| 0 <= i < interfaces.len() && accepts(#[trigger] interfaces[i], peer);
    lemma_first_accepting_before(interfaces, i, peer);
}

proof fn lemma_first_accepting_before(
    interfaces: Seq<NetworkInterfaceView>,
    i: int,
    peer: PeerView,
)
    requires
        0 <= i < interfaces.len(),
        accepts(interfaces[i], peer),
    ensures
        exists|k: int| is_first_accepting(interfaces, k, peer),
    decreases i,
{
    if exists|j: int| 0 <= j < i && accepts(#[trigger] interfaces[j], peer) {
        let j = choose|j: int| 0 <= j < i && accepts(#[trigger] interfaces[j], peer);
        lemma_first_accepting_before(interfaces, j, peer);
    } else {
        assert(is_first_accepting(interfaces, i, peer));
    }
}

/// The first entry for a name and prefix is the one the search meets first.
pub proof fn lemma_entry_index(
    interfaces: Seq<NetworkInterfaceView>,
    i: int,
    name: Seq<char>,
    net: Option<IpNet>,
)
    requires
        is_first_entry(interfaces, i, name, net),
    ensures
        has_entry(interfaces, name, net),
        entry_index(interfaces, name, net) == i,
{
    let k = entry_index(interfaces, name, net);
    assert(is_first_entry(interfaces, k, name, net));
    assert(is_entry(interfaces, i, name, net));
    assert(is_entry(interfaces, k, name, net));
}

/// The peers of a table grown by one interface are those of the table, then
/// those of the interface.
pub proof fn lemma_all_peers_push(
    interfaces: Seq<NetworkInterfaceView>,
    interface: NetworkInterfaceView,
)
    ensures
        all_peers(interfaces.push(interface)) == all_peers(interfaces) + interface.peers,
{
    assert(interfaces.push(interface).drop_last() =~= interfaces);
}

/// What a round of reconciliation asks of the tunnel devices.
#[derive(Debug, PartialEq, Eq)]
pub struct PeerChanges {
    /// The peers to apply, in the order in which they were attached.
    pub added: Vec<Peer>,
    /// The peers to remove, in the order in which they were held.
    pub removed: Vec<Peer>,
}

/// How the query of one interface ended.
#[derive(Debug, PartialEq, Eq)]
pub struct QueryOutcome {
    /// What is to be applied to and removed from the tunnel devices.
    pub changes: PeerChanges,
    /// Why nothing was learned from the query, where it failed.
    pub error: Option<String>,
}

/// The peers of `peers` that are not among `stale`, in their order.
fn peers_without(peers: &Vec<Peer>, stale: &Vec<Peer>) -> (kept: Vec<Peer>)
    ensures
        peer_views(kept@) == peer_views(peers@).filter(not_among(peer_views(stale@))),
{
    let ghost pred = not_among(peer_views(stale@));
    let mut kept: Vec<Peer> = Vec::new();
    let mut i: usize = 0;
    while i < peers.len()
        invariant
            i <= peers.len(),
            pred == not_among(peer_views(stale@)),
            peer_views(kept@) == peer_views(peers@).take(i as int).filter(pred),
        decreases peers.len() - i,
    {
        let ghost kept_before = kept@;
        proof {
            assert(peer_views(peers@).take(i + 1) == peer_views(peers@).take(i as int).push(
                peers@[i as int]@,
            ));
        }
        if !holds_peer(stale, &peers[i]) {
            kept.push(peers[i].clone());
            assert(peer_views(kept@) =~= peer_views(kept_before).push(peers@[i as int]@));
        }
        i += 1;
    }
    assert(peer_views(peers@).take(peers.len() as int) == peer_views(peers@));
    kept
}

impl StateManager {
    pub fn new() -> (state: Self)
        ensures
            state@.interfaces.len() == 0,
            state@.settings.refresh_timeout.spec_seconds() == 30,
            state@.suspended,
            state@.wf(),
    {
        Self { interfaces: Vec::new(), settings: Settings::default(), suspended: true }
    }

    /// Enters an interface that came up, or brings its entry up to date.
    /// Returns whether the table changed.
    pub fn add_or_update_interface(&mut self, interface: NetworkInterface) -> (changed: bool)
        ensures
            final(self)@.interfaces == add_or_update(old(self)@.interfaces, interface@).0,
            changed == add_or_update(old(self)@.interfaces, interface@).1,
            final(self)@.settings == old(self)@.settings,
            final(self)@.suspended == old(self)@.suspended,
            old(self)@.wf() && interface@.wf() ==> final(self)@.wf(),
    {
        let ghost before = self@.interfaces;
        let ghost after = add_or_update(before, interface@).0;
        proof {
            if table_wf(before) && interface@.wf() {
                lemma_add_or_update_wf(before, interface@);
            }
        }
        let mut i: usize = 0;
        while i < self.interfaces.len()
            invariant
                i <= self.interfaces.len(),
                *self == *old(self),
                before == self@.interfaces,
                after == add_or_update(before, interface@).0,
                table_wf(before) && interface@.wf() ==> table_wf(after),
                forall|j: int| 0 <= j < i ==> !is_entry(before, j, interface@.name, interface@.net),
            decreases self.interfaces.len() - i,
        {
            if self.interfaces[i].name == interface.name && self.interfaces[i].net
                == interface.net {
                proof {
                    assert(is_entry(before, i as int, interface@.name, interface@.net));
                    lemma_entry_index(before, i as int, interface@.name, interface@.net);
                }
                if self.interfaces[i].nexthop != interface.nexthop || self.interfaces[i].is_default
                    != interface.is_default || !same_opt_wireguard(
                    &self.interfaces[i].wireguard,
                    &interface.wireguard,
                ) {
                    self.interfaces[i].nexthop = interface.nexthop;
                    self.interfaces[i].is_default = interface.is_default;
                    self.interfaces[i].wireguard = interface.wireguard;
                    assert(self@.interfaces =~= before.update(
                        i as int,
                        refreshed(before[i as int], interface@),
                    ));
                    return true;
                }
                return false;
            }
            i += 1;
        }
        assert(!has_entry(before, interface@.name, interface@.net));
        self.interfaces.push(interface);
        assert(self@.interfaces =~= before.push(interface@));
        true
    }

    /// A copy of every peer that is attached to some interface, in table order.
    pub fn attached_peers(&self) -> (peers: Vec<Peer>)
        ensures
            peer_views(peers@) == all_peers(self@.interfaces),
    {
        let ghost table = self@.interfaces;
        let mut peers: Vec<Peer> = Vec::new();
        let mut i: usize = 0;
        while i < self.interfaces.len()
            invariant
                i <= self.interfaces.len(),
                table == self@.interfaces,
                peer_views(peers@) == all_peers(table.take(i as int)),
            decreases self.interfaces.len() - i,
        {
            proof {
                assert(table.take(i + 1) == table.take(i as int).push(table[i as int]));
                lemma_all_peers_push(table.take(i as int), table[i as int]);
            }
            append_peers(&mut peers, &self.interfaces[i].peers);
            i += 1;
        }
        assert(table.take(self.interfaces.len() as int) == table);
        peers
    }

    /// The index of the first interface whose network holds the endpoint of `peer`.
    pub fn accepting_interface(&self, peer: &Peer) -> (index: Option<usize>)
        ensures
            match index {
                Some(i) => is_first_accepting(self@.interfaces, i as int, peer@),
                None => !some_accepts(self@.interfaces, peer@),
            },
    {
        let ghost table = self@.interfaces;
        let mut i: usize = 0;
        while i < self.interfaces.len()
            invariant
                i <= self.interfaces.len(),
                table == self@.interfaces,
                forall|j: int| 0 <= j < i ==> !accepts(#[trigger] table[j], peer@),
            decreases self.interfaces.len() - i,
        {
            assert(table[i as int] == self.interfaces@[i as int]@);
            if let (Some(net), Some(endpoint)) = (self.interfaces[i].net, peer.endpoint) {
                if net.contains(&endpoint) {
                    return Some(i);
                }
            }
            i += 1;
        }
        None
    }

    /// Offers one peer of a response to the table. Returns whether it was
    /// attached, in which case it is to be applied to its tunnel device.
    pub fn attach_peer(&mut self, peer: &Peer) -> (added: bool)
        ensures
            final(self)@.interfaces == attach(old(self)@.interfaces, peer@),
            added == is_new(old(self)@.interfaces, peer@),
            final(self)@.settings == old(self)@.settings,
            final(self)@.suspended == old(self)@.suspended,
            old(self)@.wf() ==> final(self)@.wf(),
    {
        let ghost before = self@.interfaces;
        proof {
            if table_wf(before) {
                lemma_attach_wf(before, peer@);
            }
        }
        match self.accepting_interface(peer) {
            Some(i) => {
                proof {
                    lemma_accepting_index(before, i as int, peer@);
                    assert(before[i as int] == self.interfaces@[i as int]@);
                }
                if !holds_peer(&self.interfaces[i].peers, peer) {
                    let ghost held = self.interfaces@[i as int].peers@;
                    self.interfaces[i].peers.push(peer.clone());
                    proof {
                        assert(peer_views(self.interfaces@[i as int].peers@) =~= peer_views(
                            held,
                        ).push(peer@));
                        assert(self@.interfaces =~= before.update(
                            i as int,
                            with_peer(before[i as int], peer@),
                        ));
                    }
                    true
                } else {
                    false
                }
            },
            None => false,
        }
    }

    /// Reconciles the answer to the peering query of interface `wg` with the
    /// table: attaches each listed peer to the first interface that takes it,
    /// then takes off every interface the peers that `wg` owned and the answer
    /// no longer lists. Returns what is to be applied to and removed from the
    /// tunnel devices.
    pub fn update_peers(&mut self, peers: Vec<Peer>, wg: &NetworkInterface) -> (changes:
        PeerChanges)
        ensures
            final(self)@.interfaces == reconciled(
                old(self)@.interfaces,
                peer_views(peers@),
                wg@.name,
            ),
            peer_views(changes.added@) == attached(old(self)@.interfaces, peer_views(peers@)),
            peer_views(changes.removed@) == stale_peers(
                old(self)@.interfaces,
                peer_views(peers@),
                wg@.name,
            ),
            final(self)@.settings == old(self)@.settings,
            final(self)@.suspended == old(self)@.suspended,
            old(self)@.wf() ==> final(self)@.wf(),
    {
        let ghost before = self@.interfaces;
        let ghost response = peer_views(peers@);
        proof {
            if table_wf(before) {
                lemma_reconciled_wf(before, response, wg@.name);
            }
        }
        let old_peers = self.attached_peers();

        // find the interface of each peer
        let mut added: Vec<Peer> = Vec::new();
        let mut k: usize = 0;
        while k < peers.len()
            invariant
                k <= peers.len(),
                response == peer_views(peers@),
                self@.interfaces == attach_all(before, response.take(k as int)),
                peer_views(added@) == attached(before, response.take(k as int)),
                self@.settings == old(self)@.settings,
                self@.suspended == old(self)@.suspended,
            decreases peers.len() - k,
        {
            let ghost added_before = added@;
            proof {
                assert(response.take(k + 1).drop_last() == response.take(k as int));
                assert(response.take(k + 1).last() == peers@[k as int]@);
            }
            if self.attach_peer(&peers[k]) {
                added.push(peers[k].clone());
                assert(peer_views(added@) =~= peer_views(added_before).push(peers@[k as int]@));
            }
            k += 1;
        }
        assert(response.take(peers.len() as int) == response);
        let ghost middle = self@.interfaces;

        // what this round makes stale
        let ghost pred = is_stale(response, wg@.name);
        let mut removed: Vec<Peer> = Vec::new();
        let mut j: usize = 0;
        while j < old_peers.len()
            invariant
                j <= old_peers.len(),
                response == peer_views(peers@),
                pred == is_stale(response, wg@.name),
                peer_views(removed@) == peer_views(old_peers@).take(j as int).filter(pred),
            decreases old_peers.len() - j,
        {
            let ghost removed_before = removed@;
            proof {
                assert(peer_views(old_peers@).take(j + 1) == peer_views(old_peers@).take(
                    j as int,
                ).push(old_peers@[j as int]@));
            }
            if old_peers[j].owned_by(&wg.name) && !holds_peer(&peers, &old_peers[j]) {
                removed.push(old_peers[j].clone());
                assert(peer_views(removed@) =~= peer_views(removed_before).push(
                    old_peers@[j as int]@,
                ));
            }
            j += 1;
        }
        assert(peer_views(old_peers@).take(old_peers.len() as int) == peer_views(old_peers@));
        let ghost stale = peer_views(removed@);

        // take the stale peers off every interface
        let mut i: usize = 0;
        while i < self.interfaces.len()
            invariant
                i <= self.interfaces.len(),
                stale == peer_views(removed@),
                self@.interfaces.len() == middle.len(),
                forall|n: int| 0 <= n < i ==> #[trigger] self@.interfaces[n] == without(middle[n], stale),
                forall|n: int| i <= n < middle.len() ==> #[trigger] self@.interfaces[n] == middle[n],
                self@.settings == old(self)@.settings,
                self@.suspended == old(self)@.suspended,
            decreases self.interfaces.len() - i,
        {
            let ghost table = self@.interfaces;
            assert(table[i as int] == self.interfaces@[i as int]@);
            let kept = peers_without(&self.interfaces[i].peers, &removed);
            self.interfaces[i].peers = kept;
            proof {
                assert(self@.interfaces =~= table.update(i as int, without(middle[i as int], stale)));
            }
            i += 1;
        }
        assert(self@.interfaces =~= strip(middle, stale));
        PeerChanges { added, removed }
    }

    /// The interfaces to query in a round of reconciliation, as they stand
    /// now: a copy of each interface that has a public key, in table order.
    /// While suspended there are none.
    pub fn perform_queries(&self) -> (targets: Vec<NetworkInterface>)
        ensures
            interface_views(targets@) == query_targets(self@),
    {
        let mut targets: Vec<NetworkInterface> = Vec::new();
        if !self.suspended {
            let ghost table = self@.interfaces;
            let mut i: usize = 0;
            while i < self.interfaces.len()
                invariant
                    i <= self.interfaces.len(),
                    table == self@.interfaces,
                    interface_views(targets@) == table.take(i as int).filter(has_identity()),
                decreases self.interfaces.len() - i,
            {
                let ghost before = targets@;
                proof {
                    assert(table.take(i + 1) == table.take(i as int).push(table[i as int]));
                    assert(table[i as int] == self.interfaces@[i as int]@);
                }
                if self.interfaces[i].has_pubkey() {
                    targets.push(self.interfaces[i].clone());
                    assert(interface_views(targets@) =~= interface_views(before).push(
                        table[i as int],
                    ));
                }
                i += 1;
            }
            assert(table.take(self.interfaces.len() as int) == table);
        }
        targets
    }

    /// Handles the answer to the peering query of interface `wg`. A list of
    /// peers is reconciled with the table. A failed query teaches nothing: the
    /// table stays as it is, no peer is applied or removed, and the fault is
    /// handed back to be reported. While suspended nothing is done at all.
    pub fn peering_result(
        &mut self,
        wg: &NetworkInterface,
        result: Result<PeeringResponse, String>,
    ) -> (outcome: QueryOutcome)
        ensures
            final(self)@.settings == old(self)@.settings,
            final(self)@.suspended == old(self)@.suspended,
            old(self)@.wf() ==> final(self)@.wf(),
            old(self)@.suspended ==> {
                &&& final(self)@ == old(self)@
                &&& outcome.changes.added@.len() == 0
                &&& outcome.changes.removed@.len() == 0
                &&& outcome.error is None
            },
            !old(self)@.suspended ==> match result {
                Ok(response) => {
                    &&& final(self)@.interfaces == reconciled(
                        old(self)@.interfaces,
                        peer_views(response.peers@),
                        wg@.name,
                    )
                    &&& peer_views(outcome.changes.added@) == attached(
                        old(self)@.interfaces,
                        peer_views(response.peers@),
                    )
                    &&& peer_views(outcome.changes.removed@) == stale_peers(
                        old(self)@.interfaces,
                        peer_views(response.peers@),
                        wg@.name,
                    )
                    &&& outcome.error is None
                },
                Err(fault) => {
                    &&& final(self)@ == old(self)@
                    &&& outcome.changes.added@.len() == 0
                    &&& outcome.changes.removed@.len() == 0
                    &&& outcome.error == Some(fault)
                },
            },
    {
        if self.suspended {
            return QueryOutcome {
                changes: PeerChanges { added: Vec::new(), removed: Vec::new() },
                error: None,
            };
        }
        match result {
            Ok(response) => {
                let changes = self.update_peers(response.peers, wg);
                QueryOutcome { changes, error: None }
            },
            Err(fault) => QueryOutcome {
                changes: PeerChanges { added: Vec::new(), removed: Vec::new() },
                error: Some(fault),
            },
        }
    }

    /// Handles an up-event for `net`, given the interfaces and routes of the
    /// operating system and the tunnel identity of the interface that owns
    /// `net`. An event for a prefix that no interface owns is dropped. Else
    /// the interface is entered or brought up to date. Returns the interfaces
    /// to query: those of a round of reconciliation where the table changed,
    /// none where it did not.
    pub fn ifup(
        &mut self,
        net: IpNet,
        interfaces: &Vec<OsInterface>,
        routes: &Vec<Route>,
        wireguard: Option<Wireguard>,
    ) -> (targets: Vec<NetworkInterface>)
        ensures
            final(self)@ == spec_ifup(
                old(self)@,
                net,
                os_interface_views(interfaces@),
                routes@,
                opt_wireguard(wireguard),
            ).0,
            interface_views(targets@) == if spec_ifup(
                old(self)@,
                net,
                os_interface_views(interfaces@),
                routes@,
                opt_wireguard(wireguard),
            ).1 {
                query_targets(final(self)@)
            } else {
                Seq::empty()
            },
            old(self)@.wf() ==> final(self)@.wf(),
    {
        proof {
            if self@.wf() {
                lemma_ifup_wf(
                    self@,
                    net,
                    os_interface_views(interfaces@),
                    routes@,
                    opt_wireguard(wireguard),
                );
            }
        }
        let interface = match net.interface(interfaces) {
            Some(interface) => interface,
            None => {
                return Vec::new();
            },
        };
        // Get next hop
        let (default, gw) = next_hop(net, routes, interfaces);
        let netif = NetworkInterface {
            name: interface.name,
            net: Some(net),
            nexthop: gw,
            is_default: default,
            peers: Vec::new(),
            wireguard,
        };
        assert(netif@.peers =~= Seq::empty());
        assert(netif@ == candidate(
            net,
            interface@,
            spec_next_hop(net, routes@, os_interface_views(interfaces@)),
            opt_wireguard(wireguard),
        ));
        // add interface to state
        let changed = self.add_or_update_interface(netif);
        if changed {
            self.perform_queries()
        } else {
            Vec::new()
        }
    }

    /// The interfaces to query when peers are to be refreshed without an
    /// up-event: those of a round of reconciliation.
    pub fn refresh(&self) -> (targets: Vec<NetworkInterface>)
        ensures
            interface_views(targets@) == query_targets(self@),
    {
        self.perform_queries()
    }

    /// Forgets every interface that stands on `net`. Returns the peers those
    /// interfaces held, each of which is to be taken off its tunnel device.
    /// This is done while suspended too.
    pub fn ifdown(&mut self, net: IpNet) -> (removed: Vec<Peer>)
        ensures
            final(self)@.interfaces == old(self)@.interfaces.filter(off_net(net)),
            peer_views(removed@) == all_peers(old(self)@.interfaces.filter(on_net(net))),
            final(self)@.settings == old(self)@.settings,
            final(self)@.suspended == old(self)@.suspended,
            old(self)@.wf() ==> final(self)@.wf(),
    {
        let ghost before = self@.interfaces;
        proof {
            if table_wf(before) {
                lemma_filter_wf(before, off_net(net));
            }
        }
        let mut kept: Vec<NetworkInterface> = Vec::new();
        let mut removed: Vec<Peer> = Vec::new();
        let mut i: usize = 0;
        while i < self.interfaces.len()
            invariant
                i <= self.interfaces.len(),
                *self == *old(self),
                before == self@.interfaces,
                interface_views(kept@) == before.take(i as int).filter(off_net(net)),
                peer_views(removed@) == all_peers(before.take(i as int).filter(on_net(net))),
            decreases self.interfaces.len() - i,
        {
            let ghost seen = before.take(i as int);
            let ghost kept_before = kept@;
            proof {
                assert(before.take(i + 1) == seen.push(before[i as int]));
                assert(before[i as int] == self.interfaces@[i as int]@);
            }
            if self.interfaces[i].net == Some(net) {
                append_peers(&mut removed, &self.interfaces[i].peers);
                proof {
                    lemma_all_peers_push(seen.filter(on_net(net)), before[i as int]);
                }
            } else {
                kept.push(self.interfaces[i].clone());
                assert(interface_views(kept@) =~= interface_views(kept_before).push(
                    before[i as int],
                ));
            }
            i += 1;
        }
        self.interfaces = kept;
        removed
    }
}

} // verus!
