//! What is sent to a peering service, where it is sent, and what comes back.

use crate::ip_net::{FirstIp, IpAddress};
use crate::state::structs::{NetworkInterface, NetworkInterfaceView, Peer, StateManager};
use vstd::prelude::*;
use vstd::string::StringExecFns;

verus! {

/// One record of a peering request: a network that is reached through the
/// default route, its gateway, and the public key of the interface that asks.
#[derive(Debug, PartialEq, Eq)]
pub struct PeeringRequest {
    pub ip: IpAddress,
    pub prefix_len: u8,
    pub gateway: IpAddress,
    pub pubkey: String,
}

pub struct PeeringRequestView {
    pub ip: IpAddress,
    pub prefix_len: u8,
    pub gateway: IpAddress,
    pub pubkey: Seq<char>,
}

impl View for PeeringRequest {
    type V = PeeringRequestView;

    open spec fn view(&self) -> PeeringRequestView {
        PeeringRequestView {
            ip: self.ip,
            prefix_len: self.prefix_len,
            gateway: self.gateway,
            pubkey: self.pubkey@,
        }
    }
}

/// The records of a list, each as plain values.
pub open spec fn request_views(requests: Seq<PeeringRequest>) -> Seq<PeeringRequestView> {
    requests.map_values(|r: PeeringRequest| r@)
}

/// The peers that a peering service answers with.
#[derive(Debug, PartialEq, Eq)]
pub struct PeeringResponse {
    pub peers: Vec<Peer>,
}

/// A peering request that is ready to be sent.
#[derive(Debug, PartialEq, Eq)]
pub struct PeeringQuery {
    /// The address of the peering service: the lowest host address of the
    /// network of the interface that asks.
    pub destination: IpAddress,
    /// The body of the request.
    pub requests: Vec<PeeringRequest>,
}

/// Whether an interface is announced in a peering request: it supplies the
/// default route, and its gateway and its network are known.
pub open spec fn is_announced(interface: NetworkInterfaceView) -> bool {
    interface.is_default && interface.nexthop is Some && interface.net is Some
}

/// The record that announces an interface on behalf of the owner of `pubkey`.
pub open spec fn announcement(
    interface: NetworkInterfaceView,
    pubkey: Seq<char>,
) -> PeeringRequestView {
    PeeringRequestView {
        ip: interface.net->0.spec_addr(),
        prefix_len: interface.net->0.spec_prefix_len(),
        gateway: interface.nexthop->0,
        pubkey,
    }
}

/// One record for each announced interface, in table order.
pub open spec fn announcements(
    interfaces: Seq<NetworkInterfaceView>,
    pubkey: Seq<char>,
) -> Seq<PeeringRequestView>
    decreases interfaces.len(),
{
    if interfaces.len() == 0 {
        Seq::empty()
    } else {
        let earlier = announcements(interfaces.drop_last(), pubkey);
        if is_announced(interfaces.last()) {
            earlier.push(announcement(interfaces.last(), pubkey))
        } else {
            earlier
        }
    }
}

/// Whether an interface can ask for peers: it has a public key and a network.
pub open spec fn can_ask(wg: NetworkInterfaceView) -> bool {
    wg.has_pubkey() && wg.net is Some
}

/// Builds the peering request of interface `wg`: one record for each
/// interface of the table that supplies the default route through a known
/// gateway, each with the public key of `wg`, to be sent to the lowest host
/// address of the network of `wg`. An interface without a public key or
/// without a network asks nothing.
pub fn peering_request(state: &StateManager, wg: &NetworkInterface) -> (query: Option<
    PeeringQuery,
>)
    ensures
        can_ask(wg@) <==> query is Some,
        query matches Some(q) ==> {
            &&& q.destination == wg@.net->0.spec_first_ip()
            &&& request_views(q.requests@) == announcements(
                state@.interfaces,
                wg@.wireguard->0.pubkey->0,
            )
        },
{
    let pubkey = match &wg.wireguard {
        Some(identity) => match &identity.pubkey {
            Some(key) => key,
            None => {
                return None;
            },
        },
        None => {
            return None;
        },
    };
    let net = match wg.net {
        Some(net) => net,
        None => {
            return None;
        },
    };
    let ghost table = state@.interfaces;
    let mut requests: Vec<PeeringRequest> = Vec::new();
    let mut i: usize = 0;
    while i < state.interfaces.len()
        invariant
            i <= state.interfaces.len(),
            table == state@.interfaces,
            request_views(requests@) == announcements(table.take(i as int), pubkey@),
        decreases state.interfaces.len() - i,
    {
        let ghost before = requests@;
        proof {
            assert(table.take(i + 1).drop_last() == table.take(i as int));
            assert(table.take(i + 1).last() == state.interfaces@[i as int]@);
        }
        let item = &state.interfaces[i];
        if item.is_default {
            if let (Some(gateway), Some(item_net)) = (item.nexthop, item.net) {
                requests.push(
                    PeeringRequest {
                        ip: item_net.addr(),
                        prefix_len: item_net.prefix_len(),
                        gateway,
                        pubkey: pubkey.clone(),
                    },
                );
                assert(request_views(requests@) =~= request_views(before).push(
                    announcement(state.interfaces@[i as int]@, pubkey@),
                ));
            }
        }
        i += 1;
    }
    assert(table.take(state.interfaces.len() as int) == table);
    Some(PeeringQuery { destination: net.first_ip(), requests })
}

/// The address of the peering service of a host, given as text: plain for
/// IPv4, in brackets for IPv6.
pub open spec fn spec_peering_url(host: Seq<char>, ipv6: bool) -> Seq<char> {
    if ipv6 {
        "http://["@ + host + "]/peering-request"@
    } else {
        "http://"@ + host + "/peering-request"@
    }
}

/// The URL that a peering request for `destination` is posted to, where
/// `host` is `destination` as text.
pub fn peering_url(host: &str, destination: &IpAddress) -> (url: String)
    ensures
        url@ == spec_peering_url(host@, destination is V6),
{
    match destination {
        IpAddress::V4(_) => {
            let mut url = String::from_str("http://");
            url.append(host);
            url.append("/peering-request");
            url
        },
        IpAddress::V6(_) => {
            let mut url = String::from_str("http://[");
            url.append(host);
            url.append("]/peering-request");
            url
        },
    }
}

/// What is reported of an answer that could not be read: the fault, a colon
/// and a space, and the answer as it came.
pub open spec fn spec_parse_failure(error: Seq<char>, body: Seq<char>) -> Seq<char> {
    error + ": "@ + body
}

/// The error for an answer that is not a list of peers. It carries the
/// answer itself beside the fault.
pub fn parse_failure(error: &str, body: &str) -> (message: String)
    ensures
        message@ == spec_parse_failure(error@, body@),
{
    let mut message = String::from_str(error);
    message.append(": ");
    message.append(body);
    message
}

} // verus!
