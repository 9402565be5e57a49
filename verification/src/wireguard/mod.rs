//! What the tunnel devices are asked and told.

pub mod information;

use crate::ip_net::IpAddress;
use crate::state::structs::SocketAddress;
use crate::storage::{Peer, PeerView};
use crate::wireguard::information::{base64_decoded, decode_key, key_bytes, key_view};
use vstd::prelude::*;

verus! {

/// An address that is routed to a peer, with the length of its prefix.
#[derive(Debug, Clone, Copy, PartialEq, Eq, Structural)]
pub struct AllowedIp {
    pub address: IpAddress,
    pub cidr: u8,
}

/// The host route of an address: the address with all its bits as prefix.
pub open spec fn host_route(address: IpAddress) -> AllowedIp {
    AllowedIp {
        address,
        cidr: match address {
            IpAddress::V4(_) => 32,
            IpAddress::V6(_) => 128,
        },
    }
}

/// The peer of a tunnel device as it is to be set.
#[derive(Debug, PartialEq, Eq)]
pub struct PeerConfig {
    /// The public key of the peer.
    pub public_key: [u8; 32],
    /// Whether the allowed addresses replace those the device holds.
    pub replace_allowed_ips: bool,
    /// Where the peer is reached, where that is known.
    pub endpoint: Option<SocketAddress>,
    /// The addresses that are routed to the peer.
    pub allowed_ips: Vec<AllowedIp>,
}

pub struct PeerConfigView {
    pub public_key: Seq<u8>,
    pub replace_allowed_ips: bool,
    pub endpoint: Option<SocketAddress>,
    pub allowed_ips: Seq<AllowedIp>,
}

impl View for PeerConfig {
    type V = PeerConfigView;

    open spec fn view(&self) -> PeerConfigView {
        PeerConfigView {
            public_key: self.public_key@,
            replace_allowed_ips: self.replace_allowed_ips,
            endpoint: self.endpoint,
            allowed_ips: self.allowed_ips@,
        }
    }
}

pub open spec fn config_view(config: Option<PeerConfig>) -> Option<PeerConfigView> {
    match config {
        Some(c) => Some(c@),
        None => None,
    }
}

/// The configuration that adds a peer whose public key decodes to `key`:
/// none where the key does not decode to 32 bytes; else the key, the
/// endpoint where address and port are known, and a host route for each
/// address of the peer, which replace the routes the device holds.
pub open spec fn spec_peer_config(peer: PeerView, key: Option<Seq<u8>>) -> Option<PeerConfigView> {
    match key {
        Some(bytes) => if bytes.len() == 32 {
            Some(
                PeerConfigView {
                    public_key: bytes,
                    replace_allowed_ips: true,
                    endpoint: peer.socket_endpoint(),
                    allowed_ips: match peer.ips {
                        Some(ips) => ips.map_values(|ip: IpAddress| host_route(ip)),
                        None => Seq::empty(),
                    },
                },
            )
        } else {
            None
        },
        None => None,
    }
}

/// Builds the configuration that adds `peer` to a tunnel device, from the
/// peer and the bytes its public key decodes to.
pub fn peer_config_with_key(peer: &Peer, key: &Option<Vec<u8>>) -> (config: Option<PeerConfig>)
    ensures
        config_view(config) == spec_peer_config(peer@, key_view(*key)),
{
    let public_key = match key_bytes(key) {
        Some(bytes) => bytes,
        None => {
            return None;
        },
    };
    // If we have allowed ips, set them
    let mut allowed_ips: Vec<AllowedIp> = Vec::new();
    if let Some(ips) = &peer.ips {
        let mut i: usize = 0;
        while i < ips.len()
            invariant
                i <= ips.len(),
                allowed_ips@ == ips@.map_values(|ip: IpAddress| host_route(ip)).take(i as int),
            decreases ips.len() - i,
        {
            let cidr: u8 = match ips[i] {
                IpAddress::V4(_) => 32,
                IpAddress::V6(_) => 128,
            };
            allowed_ips.push(AllowedIp { address: ips[i], cidr });
            i += 1;
            assert(allowed_ips@ =~= ips@.map_values(|ip: IpAddress| host_route(ip)).take(
                i as int,
            ));
        }
        assert(allowed_ips@ =~= ips@.map_values(|ip: IpAddress| host_route(ip)));
    }
    // If we have an endpoint set the endpoint
    let config = PeerConfig {
        public_key,
        replace_allowed_ips: true,
        endpoint: peer.socket_endpoint(),
        allowed_ips,
    };
    assert(config@.allowed_ips =~= match peer@.ips {
        Some(ips) => ips.map_values(|ip: IpAddress| host_route(ip)),
        None => Seq::empty(),
    });
    Some(config)
}

/// The configuration that adds `peer` to a tunnel device, or none where its
/// public key is no key.
pub fn add_peer(peer: &Peer) -> (config: Option<PeerConfig>)
    ensures
        config_view(config) == spec_peer_config(peer@, base64_decoded(peer@.pubkey)),
{
    let key = decode_key(peer.pubkey.as_str());
    peer_config_with_key(peer, &key)
}

/// The public key of the peer that is to be removed from a tunnel device,
/// or none where it is no key.
pub fn remove_peer(peer: &Peer) -> (public_key: Option<[u8; 32]>)
    ensures
        match base64_decoded(peer@.pubkey) {
            Some(k) => if k.len() == 32 {
                public_key matches Some(b) && b@ == k
            } else {
                public_key is None
            },
            None => public_key is None,
        },
{
    let key = decode_key(peer.pubkey.as_str());
    key_bytes(&key)
}

} // verus!
