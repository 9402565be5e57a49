//! What holds of the interface table across up-events, down-events and
//! rounds of reconciliation.

use crate::http::peering::announcements;
use crate::ip_net::IpNet;
use crate::network::utils::{owner, spec_next_hop, OsInterfaceView, Route};
use crate::sequences::{
    lemma_filter_all, lemma_filter_none, lemma_filter_order, lemma_filter_within,
};
use crate::state::structs::{
    holds, table_wf, NetworkInterfaceView, PeerView, StateView, WireguardView,
};
use crate::state::{
    accepting_index, accepts, add_or_update, all_peers, attach, attach_all, candidate, differs,
    entry_index, has_entry, has_identity, is_entry, is_first_accepting, is_first_entry, is_new,
    is_stale, lemma_accepting_index_is_first, lemma_entry_index, lemma_entry_index_is_first, not_among, off_net,
    on_net, query_targets, reconciled, refreshed, spec_ifup, stale_peers,
};
use vstd::prelude::*;

verus! {

broadcast use {
    vstd::seq_lib::group_seq_properties,
    Seq::lemma_filter_push,
};

/// Where the up-event changes nothing that a filter looks at, and leaves the
/// peers alone, the entries on and off a prefix are as before.
proof fn lemma_same_nets_same_filters(
    a: Seq<NetworkInterfaceView>,
    b: Seq<NetworkInterfaceView>,
    net: IpNet,
)
    requires
        a.len() == b.len(),
        forall|k: int| 0 <= k < a.len() ==> (#[trigger] a[k]).net == b[k].net,
        forall|k: int| 0 <= k < a.len() ==> (#[trigger] a[k]).peers == b[k].peers,
        forall|k: int| 0 <= k < a.len() && a[k].net != Some(net) ==> (#[trigger] a[k]) == b[k],
    ensures
        a.filter(off_net(net)) == b.filter(off_net(net)),
        all_peers(a.filter(on_net(net))) == all_peers(b.filter(on_net(net))),
    decreases a.len(),
{
    reveal(Seq::filter);
    if a.len() > 0 {
        lemma_same_nets_same_filters(a.drop_last(), b.drop_last(), net);
        let fa = a.drop_last().filter(on_net(net));
        let fb = b.drop_last().filter(on_net(net));
        if a.last().net == Some(net) {
            assert(fa.push(a.last()).drop_last() =~= fa);
            assert(fb.push(b.last()).drop_last() =~= fb);
        }
    }
}

/// An up-event for a prefix followed at once by a down-event for it leaves
/// the table without the entries on that prefix and otherwise as it was, and
/// has removed the peers that were attached to that prefix, each once. A
/// table that held no entry on the prefix is as it was before the two events.
pub proof fn lemma_up_then_down(
    state: StateView,
    net: IpNet,
    interfaces: Seq<OsInterfaceView>,
    routes: Seq<Route>,
    wireguard: Option<WireguardView>,
)
    ensures
        ({
            let up = spec_ifup(state, net, interfaces, routes, wireguard).0;
            &&& up.interfaces.filter(off_net(net)) == state.interfaces.filter(off_net(net))
            &&& all_peers(up.interfaces.filter(on_net(net))) == all_peers(
                state.interfaces.filter(on_net(net)),
            )
            &&& (forall|k: int|
                0 <= k < state.interfaces.len() ==> (#[trigger] state.interfaces[k]).net != Some(
                    net,
                )) ==> {
                &&& up.interfaces.filter(off_net(net)) == state.interfaces
                &&& all_peers(up.interfaces.filter(on_net(net))) == Seq::<PeerView>::empty()
            }
        }),
{
    let up = spec_ifup(state, net, interfaces, routes, wireguard).0;
    let table = state.interfaces;
    if up.interfaces.len() == table.len() {
        lemma_updated_entry(state, net, interfaces, routes, wireguard);
        lemma_same_nets_same_filters(up.interfaces, table, net);
    } else {
        lemma_pushed_entry(state, net, interfaces, routes, wireguard);
        let entry = up.interfaces.last();
        assert(up.interfaces.drop_last() =~= table);
        assert(up.interfaces =~= table.push(entry));
        assert(table.filter(on_net(net)).push(entry).drop_last() =~= table.filter(on_net(net)));
        assert(all_peers(table.filter(on_net(net)).push(entry)) =~= all_peers(
            table.filter(on_net(net)),
        ));
    }
    if forall|k: int| 0 <= k < table.len() ==> (#[trigger] table[k]).net != Some(net) {
        lemma_filter_all(table, off_net(net));
        lemma_filter_none(table, on_net(net));
    }
}

/// An up-event that keeps the length of the table changes at most one entry,
/// and of that entry neither the prefix nor the peers.
proof fn lemma_updated_entry(
    state: StateView,
    net: IpNet,
    interfaces: Seq<OsInterfaceView>,
    routes: Seq<Route>,
    wireguard: Option<WireguardView>,
)
    requires
        spec_ifup(state, net, interfaces, routes, wireguard).0.interfaces.len()
            == state.interfaces.len(),
    ensures
        ({
            let up = spec_ifup(state, net, interfaces, routes, wireguard).0.interfaces;
            &&& forall|k: int| 0 <= k < up.len() ==> (#[trigger] up[k]).net == state.interfaces[k].net
            &&& forall|k: int|
                0 <= k < up.len() ==> (#[trigger] up[k]).peers == state.interfaces[k].peers
            &&& forall|k: int|
                0 <= k < up.len() && up[k].net != Some(net) ==> (#[trigger] up[k])
                    == state.interfaces[k]
        }),
{
    let up = spec_ifup(state, net, interfaces, routes, wireguard).0.interfaces;
    let table = state.interfaces;
    if up != table {
        let owning = owner(interfaces, net);
        let entry = candidate(
            net,
            owning->0,
            spec_next_hop(net, routes, interfaces),
            wireguard,
        );
        assert(has_entry(table, entry.name, entry.net));
        let i = entry_index(table, entry.name, entry.net);
        lemma_entry_index_is_first(table, entry.name, entry.net);
        assert(up == table.update(i, refreshed(table[i], entry)));
        assert(table[i].net == Some(net));
    }
}

/// An up-event that lengthens the table appends one entry on the prefix,
/// without peers.
proof fn lemma_pushed_entry(
    state: StateView,
    net: IpNet,
    interfaces: Seq<OsInterfaceView>,
    routes: Seq<Route>,
    wireguard: Option<WireguardView>,
)
    requires
        spec_ifup(state, net, interfaces, routes, wireguard).0.interfaces.len()
            != state.interfaces.len(),
    ensures
        ({
            let up = spec_ifup(state, net, interfaces, routes, wireguard).0.interfaces;
            &&& up.len() == state.interfaces.len() + 1
            &&& up.drop_last() == state.interfaces
            &&& up.last().net == Some(net)
            &&& up.last().peers == Seq::<PeerView>::empty()
        }),
{
    let up = spec_ifup(state, net, interfaces, routes, wireguard).0.interfaces;
    let table = state.interfaces;
    let owning = owner(interfaces, net);
    let entry = candidate(
        net,
        owning->0,
        spec_next_hop(net, routes, interfaces),
        wireguard,
    );
    if has_entry(table, entry.name, entry.net) {
        let i = entry_index(table, entry.name, entry.net);
        lemma_entry_index_is_first(table, entry.name, entry.net);
    } else {
        assert(up == table.push(entry));
        assert(up.drop_last() =~= table);
    }
}


/// Entering the same candidate twice changes nothing the second time.
pub proof fn lemma_add_or_update_twice(
    interfaces: Seq<NetworkInterfaceView>,
    candidate: NetworkInterfaceView,
)
    ensures
        ({
            let once = add_or_update(interfaces, candidate).0;
            add_or_update(once, candidate) == (once, false)
        }),
{
    let once = add_or_update(interfaces, candidate).0;
    let name = candidate.name;
    let net = candidate.net;
    if has_entry(interfaces, name, net) {
        let i = entry_index(interfaces, name, net);
        lemma_entry_index_is_first(interfaces, name, net);
        assert(is_entry(once, i, name, net));
        assert forall|j: int| 0 <= j < i implies !is_entry(once, j, name, net) by {
            assert(!is_entry(interfaces, j, name, net));
        }
        assert(is_first_entry(once, i, name, net));
        lemma_entry_index(once, i, name, net);
        assert(!differs(once[i], candidate));
    } else {
        let i = interfaces.len() as int;
        assert(once == interfaces.push(candidate));
        assert(is_entry(once, i, name, net));
        assert forall|j: int| 0 <= j < i implies !is_entry(once, j, name, net) by {
            assert(!is_entry(interfaces, j, name, net));
        }
        assert(is_first_entry(once, i, name, net));
        lemma_entry_index(once, i, name, net);
    }
}

/// A second up-event with the same owner, next hop and tunnel identity is a
/// no-op: the table stays as the first left it, and no round of
/// reconciliation is due.
pub proof fn lemma_up_twice(
    state: StateView,
    net: IpNet,
    interfaces: Seq<OsInterfaceView>,
    routes: Seq<Route>,
    wireguard: Option<WireguardView>,
)
    ensures
        ({
            let once = spec_ifup(state, net, interfaces, routes, wireguard).0;
            spec_ifup(once, net, interfaces, routes, wireguard) == (once, false)
        }),
{
    let owning = owner(interfaces, net);
    if owning is Some {
        let entry = candidate(
            net,
            owning->0,
            spec_next_hop(net, routes, interfaces),
            wireguard,
        );
        lemma_add_or_update_twice(state.interfaces, entry);
    }
}

/// What offering a peer leaves alone: the length of the table, every
/// interface but for its peers, and the peers that were held, which stay at
/// the front of their lists.
pub proof fn lemma_attach_frame(interfaces: Seq<NetworkInterfaceView>, peer: PeerView)
    ensures
        attach(interfaces, peer).len() == interfaces.len(),
        forall|i: int|
            0 <= i < interfaces.len() ==> {
                let after = #[trigger] attach(interfaces, peer)[i];
                &&& after.name == interfaces[i].name
                &&& after.net == interfaces[i].net
                &&& after.nexthop == interfaces[i].nexthop
                &&& after.is_default == interfaces[i].is_default
                &&& after.wireguard == interfaces[i].wireguard
                &&& interfaces[i].peers.is_prefix_of(after.peers)
            },
{
    if is_new(interfaces, peer) {
        lemma_accepting_index_is_first(interfaces, peer);
    }
}

/// What offering the peers of a response leaves alone.
pub proof fn lemma_attach_all_frame(interfaces: Seq<NetworkInterfaceView>, peers: Seq<PeerView>)
    ensures
        attach_all(interfaces, peers).len() == interfaces.len(),
        forall|i: int|
            0 <= i < interfaces.len() ==> {
                let after = #[trigger] attach_all(interfaces, peers)[i];
                &&& after.name == interfaces[i].name
                &&& after.net == interfaces[i].net
                &&& after.nexthop == interfaces[i].nexthop
                &&& after.is_default == interfaces[i].is_default
                &&& after.wireguard == interfaces[i].wireguard
                &&& interfaces[i].peers.is_prefix_of(after.peers)
            },
    decreases peers.len(),
{
    if peers.len() > 0 {
        let earlier = attach_all(interfaces, peers.drop_last());
        lemma_attach_all_frame(interfaces, peers.drop_last());
        lemma_attach_frame(earlier, peers.last());
        assert forall|i: int| 0 <= i < interfaces.len() implies {
            let after = #[trigger] attach_all(interfaces, peers)[i];
            interfaces[i].peers.is_prefix_of(after.peers)
        } by {
            let middle = earlier[i];
            let after = attach(earlier, peers.last())[i];
            assert(interfaces[i].peers.is_prefix_of(middle.peers));
            assert(middle.peers.is_prefix_of(after.peers));
        }
    }
}

/// A round of reconciliation changes no interface but for its peers: what
/// the peering requests are built from stays as it was.
pub proof fn lemma_reconciled_frame(
    interfaces: Seq<NetworkInterfaceView>,
    response: Seq<PeerView>,
    name: Seq<char>,
)
    ensures
        reconciled(interfaces, response, name).len() == interfaces.len(),
        forall|i: int|
            0 <= i < interfaces.len() ==> {
                let after = #[trigger] reconciled(interfaces, response, name)[i];
                &&& after.name == interfaces[i].name
                &&& after.net == interfaces[i].net
                &&& after.nexthop == interfaces[i].nexthop
                &&& after.is_default == interfaces[i].is_default
                &&& after.wireguard == interfaces[i].wireguard
            },
{
    lemma_attach_all_frame(interfaces, response);
    let middle = attach_all(interfaces, response);
    assert forall|i: int| 0 <= i < interfaces.len() implies {
        let after = #[trigger] reconciled(interfaces, response, name)[i];
        after.name == interfaces[i].name
    } by {
        assert(middle[i].name == interfaces[i].name);
    }
}

/// Tables that agree in all but the peers of their interfaces give the same
/// peering requests.
pub proof fn lemma_same_announcements(
    a: Seq<NetworkInterfaceView>,
    b: Seq<NetworkInterfaceView>,
    pubkey: Seq<char>,
)
    requires
        a.len() == b.len(),
        forall|i: int|
            0 <= i < a.len() ==> {
                &&& (#[trigger] a[i]).net == b[i].net
                &&& a[i].nexthop == b[i].nexthop
                &&& a[i].is_default == b[i].is_default
            },
    ensures
        announcements(a, pubkey) == announcements(b, pubkey),
    decreases a.len(),
{
    if a.len() > 0 {
        lemma_same_announcements(a.drop_last(), b.drop_last(), pubkey);
        assert(a.last().net == b.last().net);
    }
}

/// The answer to one query of a round does not change what the later
/// queries of the round ask: the peering requests that are built from the
/// table are the same before and after the answer is reconciled.
pub proof fn lemma_round_asks_the_same(
    interfaces: Seq<NetworkInterfaceView>,
    response: Seq<PeerView>,
    name: Seq<char>,
    pubkey: Seq<char>,
)
    ensures
        announcements(reconciled(interfaces, response, name), pubkey) == announcements(
            interfaces,
            pubkey,
        ),
{
    lemma_reconciled_frame(interfaces, response, name);
    lemma_same_announcements(reconciled(interfaces, response, name), interfaces, pubkey);
}

/// Every peer that a round removes was owned by the interface whose query
/// was answered, and is missing from the answer.
pub proof fn lemma_removed_are_stale(
    interfaces: Seq<NetworkInterfaceView>,
    response: Seq<PeerView>,
    name: Seq<char>,
    k: int,
)
    requires
        0 <= k < stale_peers(interfaces, response, name).len(),
    ensures
        stale_peers(interfaces, response, name)[k].owned_by(name),
        !holds(response, stale_peers(interfaces, response, name)[k]),
        all_peers(interfaces).contains(stale_peers(interfaces, response, name)[k]),
{
    let held = all_peers(interfaces);
    let pred = is_stale(response, name);
    held.lemma_filter_pred(pred, k);
    lemma_filter_within(held, pred, k);
}

/// A round of reconciliation for one interface leaves the peers of every
/// other interface attached: a peer whose owner is not the interface whose
/// query was answered stays where it was, whatever the answer holds.
pub proof fn lemma_foreign_peers_stay(
    interfaces: Seq<NetworkInterfaceView>,
    response: Seq<PeerView>,
    name: Seq<char>,
    i: int,
    k: int,
)
    requires
        0 <= i < interfaces.len(),
        0 <= k < interfaces[i].peers.len(),
        !interfaces[i].peers[k].owned_by(name),
    ensures
        reconciled(interfaces, response, name).len() == interfaces.len(),
        reconciled(interfaces, response, name)[i].peers.contains(interfaces[i].peers[k]),
{
    let peer = interfaces[i].peers[k];
    let middle = attach_all(interfaces, response);
    let stale = stale_peers(interfaces, response, name);
    lemma_attach_all_frame(interfaces, response);
    assert(interfaces[i].peers.is_prefix_of(middle[i].peers));
    assert(middle[i].peers[k] == peer);
    assert(!holds(stale, peer)) by {
        if holds(stale, peer) {
            let n = choose|n: int| 0 <= n < stale.len() && (#[trigger] stale[n]).same_peer(peer);
            lemma_removed_are_stale(interfaces, response, name, n);
        }
    }
    assert(not_among(stale)(middle[i].peers[k]));
    middle[i].peers.lemma_filter_contains(not_among(stale), k);
}

/// A round of reconciliation takes a stale peer off: where an interface held
/// a peer that the queried interface owned and the answer does not list, no
/// interface holds that peer afterwards.
pub proof fn lemma_stale_peers_leave(
    interfaces: Seq<NetworkInterfaceView>,
    response: Seq<PeerView>,
    name: Seq<char>,
    i: int,
    k: int,
    j: int,
)
    requires
        0 <= i < interfaces.len(),
        0 <= k < interfaces[i].peers.len(),
        interfaces[i].peers[k].owned_by(name),
        !holds(response, interfaces[i].peers[k]),
        0 <= j < interfaces.len(),
    ensures
        reconciled(interfaces, response, name).len() == interfaces.len(),
        !holds(reconciled(interfaces, response, name)[j].peers, interfaces[i].peers[k]),
{
    let peer = interfaces[i].peers[k];
    let middle = attach_all(interfaces, response);
    let stale = stale_peers(interfaces, response, name);
    let after = reconciled(interfaces, response, name)[j].peers;
    lemma_attach_all_frame(interfaces, response);
    lemma_all_peers_contains(interfaces, i, k);
    let held = all_peers(interfaces);
    let n = choose|n: int| 0 <= n < held.len() && held[n] == peer;
    assert(is_stale(response, name)(held[n]));
    held.lemma_filter_contains(is_stale(response, name), n);
    let m = choose|m: int| 0 <= m < stale.len() && stale[m] == peer;
    if holds(after, peer) {
        let a = choose|a: int| 0 <= a < after.len() && (#[trigger] after[a]).same_peer(peer);
        middle[j].peers.lemma_filter_pred(not_among(stale), a);
        assert(stale[m].same_peer(after[a]));
        assert(holds(stale, after[a]));
    }
}

/// A peer of an interface of the table is among the peers of the table.
pub proof fn lemma_all_peers_contains(interfaces: Seq<NetworkInterfaceView>, i: int, k: int)
    requires
        0 <= i < interfaces.len(),
        0 <= k < interfaces[i].peers.len(),
    ensures
        all_peers(interfaces).contains(interfaces[i].peers[k]),
    decreases interfaces.len(),
{
    let front = all_peers(interfaces.drop_last());
    if i == interfaces.len() - 1 {
        assert(all_peers(interfaces)[front.len() + k] == interfaces[i].peers[k]);
    } else {
        lemma_all_peers_contains(interfaces.drop_last(), i, k);
        let n = choose|n: int| 0 <= n < front.len() && front[n] == interfaces[i].peers[k];
        assert(all_peers(interfaces)[n] == interfaces[i].peers[k]);
    }
}

/// Where the networks of two interfaces both hold the endpoint of a peer,
/// the peer goes to an interface that stands no later in the table than the
/// earlier of the two: it is held there after it was offered, and the lists
/// of all later interfaces are as they were.
pub proof fn lemma_attach_first_wins(
    interfaces: Seq<NetworkInterfaceView>,
    peer: PeerView,
    i: int,
    j: int,
)
    requires
        0 <= i < j < interfaces.len(),
        accepts(interfaces[i], peer),
        accepts(interfaces[j], peer),
    ensures
        ({
            let first = accepting_index(interfaces, peer);
            &&& is_first_accepting(interfaces, first, peer)
            &&& first <= i
            &&& holds(attach(interfaces, peer)[first].peers, peer)
            &&& forall|n: int|
                first < n < interfaces.len() ==> #[trigger] attach(interfaces, peer)[n]
                    == interfaces[n]
        }),
{
    let first = accepting_index(interfaces, peer);
    lemma_accepting_index_is_first(interfaces, peer);
    if is_new(interfaces, peer) {
        let list = attach(interfaces, peer)[first].peers;
        assert(list[list.len() - 1].same_peer(peer));
    }
}

/// While suspended no interface is queried, neither on a refresh nor after
/// an up-event, and an up-event leaves the state suspended. Once the state is
/// no longer suspended, every interface that has a public key is queried
/// again.
pub proof fn lemma_suspended_is_quiet(
    state: StateView,
    net: IpNet,
    interfaces: Seq<OsInterfaceView>,
    routes: Seq<Route>,
    wireguard: Option<WireguardView>,
)
    ensures
        state.suspended ==> query_targets(state) == Seq::<NetworkInterfaceView>::empty(),
        spec_ifup(state, net, interfaces, routes, wireguard).0.suspended == state.suspended,
        state.suspended ==> query_targets(spec_ifup(state, net, interfaces, routes, wireguard).0)
            == Seq::<NetworkInterfaceView>::empty(),
        query_targets(StateView { suspended: false, ..state }) == state.interfaces.filter(
            has_identity(),
        ),
{
}


/// A well-formed table stays well formed when interfaces are taken out.
pub proof fn lemma_filter_wf(
    interfaces: Seq<NetworkInterfaceView>,
    keep: spec_fn(NetworkInterfaceView) -> bool,
)
    requires
        table_wf(interfaces),
    ensures
        table_wf(interfaces.filter(keep)),
{
    let kept = interfaces.filter(keep);
    assert forall|i: int, j: int| 0 <= i < j < kept.len() implies !((#[trigger] kept[i]).name == (
    #[trigger] kept[j]).name && kept[i].net == kept[j].net) by {
        let from = lemma_filter_order(interfaces, keep, i, j);
        assert(interfaces[from.0] == kept[i]);
        assert(interfaces[from.1] == kept[j]);
    }
    assert forall|i: int| 0 <= i < kept.len() implies (#[trigger] kept[i]).wf() by {
        lemma_filter_within(interfaces, keep, i);
        let n = choose|n: int| 0 <= n < interfaces.len() && interfaces[n] == kept[i];
        assert(interfaces[n].wf());
    }
}

/// A well-formed table stays well formed when a well-formed candidate is
/// entered.
pub proof fn lemma_add_or_update_wf(
    interfaces: Seq<NetworkInterfaceView>,
    candidate: NetworkInterfaceView,
)
    requires
        table_wf(interfaces),
        candidate.wf(),
    ensures
        table_wf(add_or_update(interfaces, candidate).0),
{
    let after = add_or_update(interfaces, candidate).0;
    let name = candidate.name;
    let net = candidate.net;
    if has_entry(interfaces, name, net) {
        lemma_entry_index_is_first(interfaces, name, net);
        let e = entry_index(interfaces, name, net);
        assert forall|i: int, j: int| 0 <= i < j < after.len() implies !((#[trigger] after[i]).name
            == (#[trigger] after[j]).name && after[i].net == after[j].net) by {
            assert(after[i].name == interfaces[i].name && after[i].net == interfaces[i].net);
            assert(after[j].name == interfaces[j].name && after[j].net == interfaces[j].net);
        }
        assert forall|i: int| 0 <= i < after.len() implies (#[trigger] after[i]).wf() by {
            assert(after[i].peers == interfaces[i].peers);
            assert(interfaces[i].wf());
        }
    } else {
        assert forall|i: int, j: int| 0 <= i < j < after.len() implies !((#[trigger] after[i]).name
            == (#[trigger] after[j]).name && after[i].net == after[j].net) by {
            if j == interfaces.len() {
                assert(!is_entry(interfaces, i, name, net));
            } else {
                assert(after[i] == interfaces[i] && after[j] == interfaces[j]);
            }
        }
        assert forall|i: int| 0 <= i < after.len() implies (#[trigger] after[i]).wf() by {
            if i < interfaces.len() {
                assert(after[i] == interfaces[i]);
            }
        }
    }
}

/// A well-formed state stays well formed across an up-event.
pub proof fn lemma_ifup_wf(
    state: StateView,
    net: IpNet,
    interfaces: Seq<OsInterfaceView>,
    routes: Seq<Route>,
    wireguard: Option<WireguardView>,
)
    requires
        state.wf(),
    ensures
        spec_ifup(state, net, interfaces, routes, wireguard).0.wf(),
{
    let owning = owner(interfaces, net);
    if owning is Some {
        let entry = candidate(
            net,
            owning->0,
            spec_next_hop(net, routes, interfaces),
            wireguard,
        );
        lemma_add_or_update_wf(state.interfaces, entry);
    }
}

/// A well-formed table stays well formed when a peer is offered to it.
pub proof fn lemma_attach_wf(interfaces: Seq<NetworkInterfaceView>, peer: PeerView)
    requires
        table_wf(interfaces),
    ensures
        table_wf(attach(interfaces, peer)),
{
    let after = attach(interfaces, peer);
    lemma_attach_frame(interfaces, peer);
    if is_new(interfaces, peer) {
        lemma_accepting_index_is_first(interfaces, peer);
        let f = accepting_index(interfaces, peer);
        assert forall|i: int| 0 <= i < after.len() implies (#[trigger] after[i]).wf() by {
            assert(interfaces[i].wf());
            if i == f {
                let list = after[i].peers;
                let held = interfaces[i].peers;
                assert forall|a: int, b: int| 0 <= a < b < list.len() implies !(
                #[trigger] list[a]).same_peer(#[trigger] list[b]) by {
                    if b == held.len() {
                        assert(held[a].same_peer(peer) ==> holds(held, peer));
                    } else {
                        assert(list[a] == held[a] && list[b] == held[b]);
                    }
                }
            } else {
                assert(after[i] == interfaces[i]);
            }
        }
    }
}

/// A well-formed table stays well formed when the peers of a response are
/// offered to it.
pub proof fn lemma_attach_all_wf(interfaces: Seq<NetworkInterfaceView>, peers: Seq<PeerView>)
    requires
        table_wf(interfaces),
    ensures
        table_wf(attach_all(interfaces, peers)),
    decreases peers.len(),
{
    if peers.len() > 0 {
        lemma_attach_all_wf(interfaces, peers.drop_last());
        lemma_attach_wf(attach_all(interfaces, peers.drop_last()), peers.last());
    }
}

/// A well-formed table stays well formed across a round of reconciliation.
pub proof fn lemma_reconciled_wf(
    interfaces: Seq<NetworkInterfaceView>,
    response: Seq<PeerView>,
    name: Seq<char>,
)
    requires
        table_wf(interfaces),
    ensures
        table_wf(reconciled(interfaces, response, name)),
{
    let middle = attach_all(interfaces, response);
    let stale = stale_peers(interfaces, response, name);
    let after = reconciled(interfaces, response, name);
    lemma_attach_all_wf(interfaces, response);
    lemma_attach_all_frame(interfaces, response);
    assert forall|i: int, j: int| 0 <= i < j < after.len() implies !((#[trigger] after[i]).name == (
    #[trigger] after[j]).name && after[i].net == after[j].net) by {
        assert(after[i].name == middle[i].name && after[i].net == middle[i].net);
        assert(after[j].name == middle[j].name && after[j].net == middle[j].net);
    }
    assert forall|i: int| 0 <= i < after.len() implies (#[trigger] after[i]).wf() by {
        let list = after[i].peers;
        assert(middle[i].wf());
        assert forall|a: int, b: int| 0 <= a < b < list.len() implies !(
        #[trigger] list[a]).same_peer(#[trigger] list[b]) by {
            let from = lemma_filter_order(middle[i].peers, not_among(stale), a, b);
            assert(middle[i].peers[from.0] == list[a]);
            assert(middle[i].peers[from.1] == list[b]);
        }
    }
}

} // verus!
