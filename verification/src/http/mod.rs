//! The peering exchange with the service behind an interface.

pub mod peering;

use crate::http::peering::{request_views, PeeringRequest, PeeringRequestView};
use crate::ip_net::{FirstIp, IpAddress};
use crate::storage::{peer_views, IfDatabase, InterfaceView, Peer, PeerView, WGInterface};
use vstd::prelude::*;

verus! {

/// What a tunnel interface asks of the peering services of its networks.
#[derive(Debug, PartialEq, Eq)]
pub struct WatchlistQuery {
    /// The addresses of the peering services, each once, in rising order.
    pub destinations: Vec<IpAddress>,
    /// The body of the request.
    pub requests: Vec<PeeringRequest>,
}

/// The record that announces a network of the watchlist on behalf of the
/// owner of `pubkey`.
pub open spec fn watchlist_announcement(item: IfDatabase, pubkey: Seq<char>) -> PeeringRequestView {
    PeeringRequestView {
        ip: item.net.spec_addr(),
        prefix_len: item.net.spec_prefix_len(),
        gateway: item.gateway,
        pubkey,
    }
}

/// One record for each network of the watchlist, in its order.
pub open spec fn watchlist_announcements(db: Seq<IfDatabase>, pubkey: Seq<char>) -> Seq<
    PeeringRequestView,
> {
    db.map_values(|item: IfDatabase| watchlist_announcement(item, pubkey))
}

/// The lowest host address of each prefix of an interface: the IPv4
/// prefixes first, then the IPv6 prefixes.
pub open spec fn service_addresses(interface: InterfaceView) -> Seq<IpAddress> {
    interface.ipv4.map_values(|n: crate::ip_net::Ipv4Net| n.spec_first_ip())
        + interface.ipv6.map_values(|n: crate::ip_net::Ipv6Net| n.spec_first_ip())
}

/// Whether each address precedes all that follow it.
pub open spec fn rising(addresses: Seq<IpAddress>) -> bool {
    forall|i: int, j: int|
        #![trigger addresses[i], addresses[j]]
        0 <= i < j < addresses.len() ==> addresses[i].spec_precedes(&addresses[j])
}

/// A list grown by one element holds what it held, and that element.
proof fn lemma_push_contains(list: Seq<IpAddress>, last: IpAddress, a: IpAddress)
    ensures
        list.push(last).contains(a) <==> (list.contains(a) || a == last),
{
    let grown = list.push(last);
    if grown.contains(a) {
        let n = choose|n: int| 0 <= n < grown.len() && grown[n] == a;
        if n < list.len() {
            assert(list[n] == a);
        }
    }
    if list.contains(a) {
        let n = choose|n: int| 0 <= n < list.len() && list[n] == a;
        assert(grown[n] == a);
    }
    if a == last {
        assert(grown[list.len() as int] == a);
    }
}

/// Enters `address` into a rising list, unless the list holds it.
fn insert_rising(list: &mut Vec<IpAddress>, address: IpAddress)
    requires
        rising(old(list)@),
    ensures
        rising(final(list)@),
        forall|a: IpAddress|
            final(list)@.contains(a) <==> (old(list)@.contains(a) || a == address),
{
    let ghost before = list@;
    let mut i: usize = 0;
    while i < list.len() && list[i].precedes(&address)
        invariant
            i <= list.len(),
            list@ == before,
            forall|j: int| 0 <= j < i ==> (#[trigger] before[j]).spec_precedes(&address),
        decreases list.len() - i,
    {
        i += 1;
    }
    if i < list.len() && list[i] == address {
        assert(before.contains(address));
        return ;
    }
    list.insert(i, address);
    proof {
        let after = list@;
        assert(after == before.insert(i as int, address));
        assert forall|a: int, b: int|
            #![trigger after[a], after[b]]
            0 <= a < b < after.len() implies after[a].spec_precedes(&after[b]) by {
            if b == i {
                assert(after[a] == before[a]);
            } else if a == i {
                assert(after[b] == before[b - 1]);
                assert(!before[i as int].spec_precedes(&address));
                if b - 1 > i {
                    assert(before[i as int].spec_precedes(&before[b - 1]));
                }
            } else {
                let x = if a < i { a } else { a - 1 };
                let y = if b < i { b } else { b - 1 };
                assert(after[a] == before[x] && after[b] == before[y]);
            }
        }
        assert forall|a: IpAddress| after.contains(a) <==> (before.contains(a) || a
            == address) by {
            if after.contains(a) {
                let n = choose|n: int| 0 <= n < after.len() && after[n] == a;
                if n < i {
                    assert(before[n] == a);
                } else if n > i {
                    assert(before[n - 1] == a);
                }
            }
            if before.contains(a) {
                let n = choose|n: int| 0 <= n < before.len() && before[n] == a;
                if n < i {
                    assert(after[n] == a);
                } else {
                    assert(after[n + 1] == a);
                }
            }
            if a == address {
                assert(after[i as int] == a);
            }
        }
    }
}

/// Builds what the tunnel interface `interface` asks: one record for each
/// network of the watchlist, with the public key of the interface, to be
/// sent to the lowest host address of each prefix of the interface. Each
/// address is asked once, the addresses in rising order.
pub fn peering_request(interface: &WGInterface, db: &Vec<IfDatabase>) -> (query: WatchlistQuery)
    ensures
        request_views(query.requests@) == watchlist_announcements(db@, interface@.pubkey),
        rising(query.destinations@),
        forall|a: IpAddress|
            query.destinations@.contains(a) <==> service_addresses(interface@.interface).contains(
                a,
            ),
{
    let mut requests: Vec<PeeringRequest> = Vec::new();
    let mut k: usize = 0;
    while k < db.len()
        invariant
            k <= db.len(),
            request_views(requests@) == watchlist_announcements(db@, interface@.pubkey).take(
                k as int,
            ),
        decreases db.len() - k,
    {
        let ghost before = requests@;
        let item = db[k];
        requests.push(
            PeeringRequest {
                ip: item.net.addr(),
                prefix_len: item.net.prefix_len(),
                gateway: item.gateway,
                pubkey: interface.pubkey.clone(),
            },
        );
        k += 1;
        assert(request_views(requests@) =~= request_views(before).push(
            watchlist_announcement(item, interface@.pubkey),
        ));
        assert(request_views(requests@) =~= watchlist_announcements(
            db@,
            interface@.pubkey,
        ).take(k as int));
    }
    assert(request_views(requests@) =~= watchlist_announcements(db@, interface@.pubkey));

    let ghost v4 = interface@.interface.ipv4.map_values(
        |n: crate::ip_net::Ipv4Net| n.spec_first_ip(),
    );
    let ghost v6 = interface@.interface.ipv6.map_values(
        |n: crate::ip_net::Ipv6Net| n.spec_first_ip(),
    );
    let mut destinations: Vec<IpAddress> = Vec::new();
    let mut i: usize = 0;
    while i < interface.interface.ipv4.len()
        invariant
            i <= interface.interface.ipv4.len(),
            v4 == interface@.interface.ipv4.map_values(
                |n: crate::ip_net::Ipv4Net| n.spec_first_ip(),
            ),
            rising(destinations@),
            forall|a: IpAddress| destinations@.contains(a) <==> v4.take(i as int).contains(a),
        decreases interface.interface.ipv4.len() - i,
    {
        let ghost held = destinations@;
        let first = interface.interface.ipv4[i].first_ip();
        insert_rising(&mut destinations, first);
        proof {
            assert(v4[i as int] == first);
            assert(v4.take(i + 1) == v4.take(i as int).push(first));
            assert forall|a: IpAddress| destinations@.contains(a) <==> v4.take(i + 1).contains(
                a,
            ) by {
                assert(held.contains(a) <==> v4.take(i as int).contains(a));
                lemma_push_contains(v4.take(i as int), first, a);
            }
        }
        i += 1;
    }
    assert(v4.take(interface.interface.ipv4.len() as int) == v4);
    let mut j: usize = 0;
    while j < interface.interface.ipv6.len()
        invariant
            j <= interface.interface.ipv6.len(),
            v6 == interface@.interface.ipv6.map_values(
                |n: crate::ip_net::Ipv6Net| n.spec_first_ip(),
            ),
            rising(destinations@),
            forall|a: IpAddress|
                destinations@.contains(a) <==> (v4 + v6.take(j as int)).contains(a),
        decreases interface.interface.ipv6.len() - j,
    {
        let ghost held = destinations@;
        let first = interface.interface.ipv6[j].first_ip();
        insert_rising(&mut destinations, first);
        proof {
            assert(v6[j as int] == first);
            assert(v4 + v6.take(j + 1) == (v4 + v6.take(j as int)).push(first));
            assert forall|a: IpAddress| destinations@.contains(a) <==> (v4 + v6.take(
                j + 1,
            )).contains(a) by {
                assert(held.contains(a) <==> (v4 + v6.take(j as int)).contains(a));
                lemma_push_contains(v4 + v6.take(j as int), first, a);
            }
        }
        j += 1;
    }
    assert(v6.take(interface.interface.ipv6.len() as int) == v6);
    WatchlistQuery { destinations, requests }
}

/// A listed peer as the tunnel interface `name` learned it.
pub open spec fn learned(peer: PeerView, name: Seq<char>) -> PeerView {
    PeerView { interface: name, ..peer }
}

/// Adds the peers of one answer to those learned so far, each marked with
/// the name of the tunnel interface that asked.
pub fn collect_peers(peers: &mut Vec<Peer>, answer: Vec<Peer>, interface: &WGInterface)
    ensures
        peer_views(final(peers)@) == peer_views(old(peers)@) + peer_views(answer@).map_values(
            |p: PeerView| learned(p, interface@.interface.name),
        ),
{
    let ghost name = interface@.interface.name;
    let ghost marked = peer_views(answer@).map_values(|p: PeerView| learned(p, name));
    let mut i: usize = 0;
    while i < answer.len()
        invariant
            i <= answer.len(),
            name == interface@.interface.name,
            marked == peer_views(answer@).map_values(|p: PeerView| learned(p, name)),
            peer_views(peers@) == peer_views(old(peers)@) + marked.take(i as int),
        decreases answer.len() - i,
    {
        let ghost before = peers@;
        let mut peer = answer[i].clone();
        peer.interface = interface.interface.name.clone();
        peers.push(peer);
        assert(peer_views(peers@) =~= peer_views(before).push(learned(answer@[i as int]@, name)));
        assert(marked[i as int] == learned(answer@[i as int]@, name));
        assert(marked.take(i + 1) =~= marked.take(i as int).push(marked[i as int]));
        i += 1;
    }
    assert(marked.take(answer.len() as int) =~= marked);
}

} // verus!
