//! The watchlist of gateways and the peers learned through it.

use crate::ip_net::{IpAddress, IpNet, Ipv4Net, Ipv6Net};
use crate::state::structs::{clone_addresses, opt_addresses, SocketAddress};
use vstd::prelude::*;
use vstd::string::StringExecFns;

verus! {

/// A peer as a peering service lists it, with the tunnel interface that asked.
#[derive(Debug, PartialEq, Eq)]
pub struct Peer {
    pub pubkey: String,
    pub endpoint: Option<IpAddress>,
    pub port: Option<u16>,
    pub ips: Option<Vec<IpAddress>>,
    pub interface: String,
}

pub struct PeerView {
    pub pubkey: Seq<char>,
    pub endpoint: Option<IpAddress>,
    pub port: Option<u16>,
    pub ips: Option<Seq<IpAddress>>,
    pub interface: Seq<char>,
}

impl View for Peer {
    type V = PeerView;

    open spec fn view(&self) -> PeerView {
        PeerView {
            pubkey: self.pubkey@,
            endpoint: self.endpoint,
            port: self.port,
            ips: opt_addresses(self.ips),
            interface: self.interface@,
        }
    }
}

impl Clone for Peer {
    fn clone(&self) -> (copy: Self)
        ensures
            copy@ == self@,
    {
        Peer {
            pubkey: self.pubkey.clone(),
            endpoint: self.endpoint,
            port: self.port,
            ips: match &self.ips {
                Some(a) => Some(clone_addresses(a)),
                None => None,
            },
            interface: self.interface.clone(),
        }
    }
}

/// The peers of a list, each as plain values.
pub open spec fn peer_views(peers: Seq<Peer>) -> Seq<PeerView> {
    peers.map_values(|p: Peer| p@)
}

/// The interface of a peer that was listed without one: the empty name.
pub fn empty_interface() -> (name: String)
    ensures
        name@ == Seq::<char>::empty(),
{
    let name = String::from_str("");
    proof {
        reveal_strlit("");
    }
    assert(name@ =~= Seq::<char>::empty());
    name
}

impl PeerView {
    /// Where the peer can be reached: its endpoint and port, where it has both.
    pub open spec fn socket_endpoint(self) -> Option<SocketAddress> {
        match (self.endpoint, self.port) {
            (Some(ip), Some(port)) => Some(SocketAddress { ip, port }),
            _ => None,
        }
    }
}

impl Peer {
    pub fn socket_endpoint(&self) -> (socket: Option<SocketAddress>)
        ensures
            socket == self@.socket_endpoint(),
    {
        if let (Some(endpoint), Some(port)) = (self.endpoint, self.port) {
            Some(SocketAddress { ip: endpoint, port })
        } else {
            None
        }
    }
}

/// A network on the watchlist, and the gateway that was seen in it.
#[derive(Debug, Clone, Copy, PartialEq, Eq, Structural)]
pub struct IfDatabase {
    pub net: IpNet,
    pub gateway: IpAddress,
}

/// The watchlist and the peers learned so far.
#[derive(Debug, PartialEq, Eq)]
pub struct State {
    pub if_database: Vec<IfDatabase>,
    pub peers: Vec<Peer>,
}

impl State {
    pub fn new() -> (state: Self)
        ensures
            state.if_database@.len() == 0,
            state.peers@.len() == 0,
    {
        Self { if_database: Vec::new(), peers: Vec::new() }
    }
}

/// An interface of the operating system with its prefixes and its gateway.
#[derive(Debug, PartialEq, Eq)]
pub struct Interface {
    pub index: u32,
    pub name: String,
    pub ipv4: Vec<Ipv4Net>,
    pub ipv6: Vec<Ipv6Net>,
    pub gateway: Option<IpAddress>,
}

pub struct InterfaceView {
    pub index: u32,
    pub name: Seq<char>,
    pub ipv4: Seq<Ipv4Net>,
    pub ipv6: Seq<Ipv6Net>,
    pub gateway: Option<IpAddress>,
}

impl View for Interface {
    type V = InterfaceView;

    open spec fn view(&self) -> InterfaceView {
        InterfaceView {
            index: self.index,
            name: self.name@,
            ipv4: self.ipv4@,
            ipv6: self.ipv6@,
            gateway: self.gateway,
        }
    }
}

impl Clone for Interface {
    fn clone(&self) -> (copy: Self)
        ensures
            copy@ == self@,
    {
        let mut ipv4: Vec<Ipv4Net> = Vec::new();
        let mut i: usize = 0;
        while i < self.ipv4.len()
            invariant
                i <= self.ipv4.len(),
                ipv4@ == self.ipv4@.take(i as int),
            decreases self.ipv4.len() - i,
        {
            ipv4.push(self.ipv4[i]);
            i += 1;
        }
        let mut ipv6: Vec<Ipv6Net> = Vec::new();
        let mut j: usize = 0;
        while j < self.ipv6.len()
            invariant
                j <= self.ipv6.len(),
                ipv6@ == self.ipv6@.take(j as int),
            decreases self.ipv6.len() - j,
        {
            ipv6.push(self.ipv6[j]);
            j += 1;
        }
        assert(ipv4@ =~= self.ipv4@);
        assert(ipv6@ =~= self.ipv6@);
        Interface {
            index: self.index,
            name: self.name.clone(),
            ipv4,
            ipv6,
            gateway: self.gateway,
        }
    }
}

/// The interfaces of a list, each as plain values.
pub open spec fn interface_views(interfaces: Seq<Interface>) -> Seq<InterfaceView> {
    interfaces.map_values(|i: Interface| i@)
}

/// A tunnel interface and its public key.
#[derive(Debug, PartialEq, Eq)]
pub struct WGInterface {
    pub interface: Interface,
    pub pubkey: String,
}

pub struct WGInterfaceView {
    pub interface: InterfaceView,
    pub pubkey: Seq<char>,
}

impl View for WGInterface {
    type V = WGInterfaceView;

    open spec fn view(&self) -> WGInterfaceView {
        WGInterfaceView { interface: self.interface@, pubkey: self.pubkey@ }
    }
}

/// The tunnel interfaces of a list, each as plain values.
pub open spec fn wg_interface_views(interfaces: Seq<WGInterface>) -> Seq<WGInterfaceView> {
    interfaces.map_values(|i: WGInterface| i@)
}

/// A value, and whether an event changed it.
#[derive(Debug, PartialEq, Eq)]
pub enum Changed<T> {
    ValueChanged(T),
    ValueUnchanged(T),
}

} // verus!
