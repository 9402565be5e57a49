//! The data the state manager keeps: interfaces, their peers and the settings.

use crate::ip_net::{IpAddress, IpNet};
use vstd::prelude::*;
use vstd::std_specs::convert::{FromSpecImpl, TryFromSpecImpl};

verus! {

/// Timeout in seconds.
#[derive(Debug, Copy, Clone, PartialEq, Eq, Structural)]
pub struct Timeout(u64);

impl Timeout {
    pub closed spec fn spec_seconds(&self) -> u64 {
        self.0
    }

    pub fn new(seconds: u64) -> (timeout: Timeout)
        ensures
            timeout.spec_seconds() == seconds,
    {
        Timeout(seconds)
    }

    #[verifier::when_used_as_spec(spec_seconds)]
    pub fn seconds(&self) -> (seconds: u64)
        ensures
            seconds == self.spec_seconds(),
    {
        self.0
    }
}

impl Default for Timeout {
    fn default() -> (timeout: Self)
        ensures
            timeout.spec_seconds() == 30,
    {
        Timeout(30)
    }
}

impl From<Timeout> for u64 {
    fn from(value: Timeout) -> (seconds: Self) {
        value.0
    }
}

impl FromSpecImpl<Timeout> for u64 {
    open spec fn obeys_from_spec() -> bool {
        true
    }

    open spec fn from_spec(value: Timeout) -> Self {
        value.spec_seconds()
    }
}

/// An address and a port.
#[derive(Debug, Copy, Clone, PartialEq, Eq, Structural)]
pub struct SocketAddress {
    pub ip: IpAddress,
    pub port: u16,
}

pub open spec fn opt_text(text: Option<String>) -> Option<Seq<char>> {
    match text {
        Some(t) => Some(t@),
        None => None,
    }
}

pub open spec fn opt_addresses(addresses: Option<Vec<IpAddress>>) -> Option<Seq<IpAddress>> {
    match addresses {
        Some(a) => Some(a@),
        None => None,
    }
}

pub fn clone_opt_text(text: &Option<String>) -> (copy: Option<String>)
    ensures
        opt_text(copy) == opt_text(*text),
{
    match text {
        Some(t) => Some(t.clone()),
        None => None,
    }
}

pub fn same_opt_text(a: &Option<String>, b: &Option<String>) -> (same: bool)
    ensures
        same == (opt_text(*a) == opt_text(*b)),
{
    match (a, b) {
        (Some(x), Some(y)) => *x == *y,
        (None, None) => true,
        _ => false,
    }
}

pub fn clone_addresses(addresses: &Vec<IpAddress>) -> (copy: Vec<IpAddress>)
    ensures
        copy@ == addresses@,
{
    let mut copy: Vec<IpAddress> = Vec::new();
    let mut i: usize = 0;
    while i < addresses.len()
        invariant
            i <= addresses.len(),
            copy@ == addresses@.take(i as int),
        decreases addresses.len() - i,
    {
        copy.push(addresses[i]);
        i += 1;
    }
    copy
}

pub fn same_addresses(a: &Vec<IpAddress>, b: &Vec<IpAddress>) -> (same: bool)
    ensures
        same == (a@ == b@),
{
    if a.len() != b.len() {
        return false;
    }
    let mut i: usize = 0;
    while i < a.len()
        invariant
            i <= a.len(),
            a.len() == b.len(),
            a@.take(i as int) == b@.take(i as int),
        decreases a.len() - i,
    {
        if a[i] != b[i] {
            return false;
        }
        assert(a@.take(i + 1) == a@.take(i as int).push(a@[i as int]));
        assert(b@.take(i + 1) == b@.take(i as int).push(b@[i as int]));
        i += 1;
    }
    assert(a@ == a@.take(a.len() as int));
    assert(b@ == b@.take(b.len() as int));
    true
}

/// Peer information
#[derive(Debug, PartialEq, Eq)]
pub struct Peer {
    pub pubkey: String,
    pub endpoint: Option<IpAddress>,
    pub port: Option<u16>,
    pub ip: Option<Vec<IpAddress>>,
    pub wg_interface: Option<String>,
}

/// What a peer is, as plain values.
pub struct PeerView {
    pub pubkey: Seq<char>,
    pub endpoint: Option<IpAddress>,
    pub port: Option<u16>,
    pub ip: Option<Seq<IpAddress>>,
    pub wg_interface: Option<Seq<char>>,
}

impl View for Peer {
    type V = PeerView;

    open spec fn view(&self) -> PeerView {
        PeerView {
            pubkey: self.pubkey@,
            endpoint: self.endpoint,
            port: self.port,
            ip: opt_addresses(self.ip),
            wg_interface: opt_text(self.wg_interface),
        }
    }
}

impl Clone for Peer {
    fn clone(&self) -> (copy: Self)
        ensures
            copy@ == self@,
    {
        Peer {
            pubkey: self.pubkey.clone(),
            endpoint: self.endpoint,
            port: self.port,
            ip: match &self.ip {
                Some(a) => Some(clone_addresses(a)),
                None => None,
            },
            wg_interface: clone_opt_text(&self.wg_interface),
        }
    }
}


impl PeerView {
    /// Two records name the same peer where public key, endpoint, allowed
    /// addresses and owning interface agree; the port does not count.
    pub open spec fn same_peer(self, other: PeerView) -> bool {
        &&& self.pubkey == other.pubkey
        &&& self.endpoint == other.endpoint
        &&& self.ip == other.ip
        &&& self.wg_interface == other.wg_interface
    }

    /// A peer belongs to the interface it names, and to any interface where
    /// it names none.
    pub open spec fn owned_by(self, name: Seq<char>) -> bool {
        match self.wg_interface {
            Some(owner) => owner == name,
            None => true,
        }
    }

    /// Where the peer can be reached: its endpoint and port, where it has both.
    pub open spec fn socket_endpoint(self) -> Option<SocketAddress> {
        match (self.endpoint, self.port) {
            (Some(ip), Some(port)) => Some(SocketAddress { ip, port }),
            _ => None,
        }
    }
}

/// Whether `peers` holds a record of the same peer as `peer`.
pub open spec fn holds(peers: Seq<PeerView>, peer: PeerView) -> bool {
    exists|i: int| 0 <= i < peers.len() && (#[trigger] peers[i]).same_peer(peer)
}

/// The peers of a list, each as plain values.
pub open spec fn peer_views(peers: Seq<Peer>) -> Seq<PeerView> {
    peers.map_values(|p: Peer| p@)
}

impl Peer {
    pub fn same_peer(&self, other: &Peer) -> (same: bool)
        ensures
            same == self@.same_peer(other@),
    {
        let same_ip = match (&self.ip, &other.ip) {
            (Some(a), Some(b)) => same_addresses(a, b),
            (None, None) => true,
            _ => false,
        };
        self.pubkey == other.pubkey && self.endpoint == other.endpoint && same_ip && same_opt_text(
            &self.wg_interface,
            &other.wg_interface,
        )
    }

    pub fn owned_by(&self, name: &String) -> (owned: bool)
        ensures
            owned == self@.owned_by(name@),
    {
        match &self.wg_interface {
            Some(owner) => *owner == *name,
            None => true,
        }
    }

    pub fn socket_endpoint(&self) -> (socket: Option<SocketAddress>)
        ensures
            socket == self@.socket_endpoint(),
    {
        match (self.endpoint, self.port) {
            (Some(ip), Some(port)) => Some(SocketAddress { ip, port }),
            _ => None,
        }
    }
}

impl TryFrom<Peer> for SocketAddress {
    type Error = ();

    fn try_from(value: Peer) -> (socket: Result<Self, Self::Error>) {
        if let (Some(endpoint), Some(port)) = (value.endpoint, value.port) {
            Ok(SocketAddress { ip: endpoint, port })
        } else {
            Err(())
        }
    }
}

impl TryFromSpecImpl<Peer> for SocketAddress {
    open spec fn obeys_try_from_spec() -> bool {
        true
    }

    open spec fn try_from_spec(value: Peer) -> Result<Self, Self::Error> {
        match value@.socket_endpoint() {
            Some(socket) => Ok(socket),
            None => Err(()),
        }
    }
}

/// Whether `peers` holds a record of the same peer as `peer`.
pub fn holds_peer(peers: &Vec<Peer>, peer: &Peer) -> (found: bool)
    ensures
        found == holds(peer_views(peers@), peer@),
{
    let mut i: usize = 0;
    while i < peers.len()
        invariant
            i <= peers.len(),
            forall|j: int| 0 <= j < i ==> !(#[trigger] peer_views(peers@)[j]).same_peer(peer@),
        decreases peers.len() - i,
    {
        if peers[i].same_peer(peer) {
            assert(peer_views(peers@)[i as int].same_peer(peer@));
            return true;
        }
        i += 1;
    }
    false
}

/// A copy of a list of peers.
pub fn clone_peers(peers: &Vec<Peer>) -> (copy: Vec<Peer>)
    ensures
        peer_views(copy@) == peer_views(peers@),
{
    let mut copy: Vec<Peer> = Vec::new();
    let mut i: usize = 0;
    while i < peers.len()
        invariant
            i <= peers.len(),
            peer_views(copy@) == peer_views(peers@).take(i as int),
        decreases peers.len() - i,
    {
        let ghost before = copy@;
        copy.push(peers[i].clone());
        i += 1;
        assert(peer_views(copy@) =~= peer_views(before).push(peers@[i - 1]@));
        assert(peer_views(copy@) =~= peer_views(peers@).take(i as int));
    }
    copy
}

/// Adds a copy of each peer of `source` to the end of `target`.
pub fn append_peers(target: &mut Vec<Peer>, source: &Vec<Peer>)
    ensures
        peer_views(final(target)@) == peer_views(old(target)@) + peer_views(source@),
{
    let mut i: usize = 0;
    while i < source.len()
        invariant
            i <= source.len(),
            peer_views(target@) == peer_views(old(target)@) + peer_views(source@).take(i as int),
        decreases source.len() - i,
    {
        let ghost before = target@;
        target.push(source[i].clone());
        i += 1;
        assert(peer_views(target@) =~= peer_views(before).push(source@[i - 1]@));
        assert(peer_views(target@) =~= peer_views(old(target)@) + peer_views(source@).take(
            i as int,
        ));
    }
    assert(peer_views(source@).take(source.len() as int) =~= peer_views(source@));
}

/// The identity of a tunnel device.
#[derive(Debug, PartialEq, Eq)]
pub struct Wireguard {
    pub pubkey: Option<String>,
    pub port: u16,
}

pub struct WireguardView {
    pub pubkey: Option<Seq<char>>,
    pub port: u16,
}

impl View for Wireguard {
    type V = WireguardView;

    open spec fn view(&self) -> WireguardView {
        WireguardView { pubkey: opt_text(self.pubkey), port: self.port }
    }
}

impl Clone for Wireguard {
    fn clone(&self) -> (copy: Self)
        ensures
            copy@ == self@,
    {
        Wireguard { pubkey: clone_opt_text(&self.pubkey), port: self.port }
    }
}

pub open spec fn opt_wireguard(wireguard: Option<Wireguard>) -> Option<WireguardView> {
    match wireguard {
        Some(w) => Some(w@),
        None => None,
    }
}

pub fn clone_opt_wireguard(wireguard: &Option<Wireguard>) -> (copy: Option<Wireguard>)
    ensures
        opt_wireguard(copy) == opt_wireguard(*wireguard),
{
    match wireguard {
        Some(w) => Some(w.clone()),
        None => None,
    }
}

pub fn same_opt_wireguard(a: &Option<Wireguard>, b: &Option<Wireguard>) -> (same: bool)
    ensures
        same == (opt_wireguard(*a) == opt_wireguard(*b)),
{
    match (a, b) {
        (Some(x), Some(y)) => same_opt_text(&x.pubkey, &y.pubkey) && x.port == y.port,
        (None, None) => true,
        _ => false,
    }
}

/// Network interface definition
#[derive(Debug, PartialEq, Eq)]
pub struct NetworkInterface {
    pub name: String,
    pub net: Option<IpNet>,
    pub nexthop: Option<IpAddress>,
    pub is_default: bool,
    pub peers: Vec<Peer>,
    pub wireguard: Option<Wireguard>,
}

pub struct NetworkInterfaceView {
    pub name: Seq<char>,
    pub net: Option<IpNet>,
    pub nexthop: Option<IpAddress>,
    pub is_default: bool,
    pub peers: Seq<PeerView>,
    pub wireguard: Option<WireguardView>,
}

impl View for NetworkInterface {
    type V = NetworkInterfaceView;

    open spec fn view(&self) -> NetworkInterfaceView {
        NetworkInterfaceView {
            name: self.name@,
            net: self.net,
            nexthop: self.nexthop,
            is_default: self.is_default,
            peers: peer_views(self.peers@),
            wireguard: opt_wireguard(self.wireguard),
        }
    }
}

impl NetworkInterfaceView {
    /// The interface is a tunnel device that has a public key.
    pub open spec fn has_pubkey(self) -> bool {
        self.wireguard matches Some(w) && w.pubkey is Some
    }

    /// No peer is held twice.
    pub open spec fn wf(self) -> bool {
        forall|i: int, j: int|
            0 <= i < j < self.peers.len() ==> !(#[trigger] self.peers[i]).same_peer(
                #[trigger] self.peers[j],
            )
    }
}

impl Clone for NetworkInterface {
    fn clone(&self) -> (copy: Self)
        ensures
            copy@ == self@,
    {
        NetworkInterface {
            name: self.name.clone(),
            net: self.net,
            nexthop: self.nexthop,
            is_default: self.is_default,
            peers: clone_peers(&self.peers),
            wireguard: clone_opt_wireguard(&self.wireguard),
        }
    }
}

impl NetworkInterface {
    pub fn has_pubkey(&self) -> (has: bool)
        ensures
            has == self@.has_pubkey(),
    {
        if let Some(wg) = &self.wireguard {
            if let Some(_) = &wg.pubkey {
                true
            } else {
                false
            }
        } else {
            false
        }
    }
}

/// Settings
#[derive(Debug, Copy, Clone, PartialEq, Eq, Structural)]
pub struct Settings {
    pub refresh_timeout: Timeout,
}

impl Default for Settings {
    fn default() -> (settings: Self)
        ensures
            settings.refresh_timeout.spec_seconds() == 30,
    {
        Self { refresh_timeout: Timeout::default() }
    }
}

/// The interfaces of a list, each as plain values.
pub open spec fn interface_views(interfaces: Seq<NetworkInterface>) -> Seq<NetworkInterfaceView> {
    interfaces.map_values(|i: NetworkInterface| i@)
}

/// Whether a table is well formed: no two entries stand for the same name
/// on the same prefix, and no interface holds a peer twice.
pub open spec fn table_wf(interfaces: Seq<NetworkInterfaceView>) -> bool {
    &&& forall|i: int, j: int|
        0 <= i < j < interfaces.len() ==> !((#[trigger] interfaces[i]).name == (
        #[trigger] interfaces[j]).name && interfaces[i].net == interfaces[j].net)
    &&& forall|i: int| 0 <= i < interfaces.len() ==> (#[trigger] interfaces[i]).wf()
}

/// Internal state
#[derive(Debug)]
pub struct StateManager {
    pub interfaces: Vec<NetworkInterface>,
    pub settings: Settings,
    pub suspended: bool,
}

pub struct StateView {
    pub interfaces: Seq<NetworkInterfaceView>,
    pub settings: Settings,
    pub suspended: bool,
}

impl StateView {
    /// The table of the state is well formed.
    pub open spec fn wf(self) -> bool {
        table_wf(self.interfaces)
    }
}

impl View for StateManager {
    type V = StateView;

    open spec fn view(&self) -> StateView {
        StateView {
            interfaces: interface_views(self.interfaces@),
            settings: self.settings,
            suspended: self.suspended,
        }
    }
}

/// A copy of a list of interfaces.
pub fn clone_interfaces(interfaces: &Vec<NetworkInterface>) -> (copy: Vec<NetworkInterface>)
    ensures
        interface_views(copy@) == interface_views(interfaces@),
{
    let mut copy: Vec<NetworkInterface> = Vec::new();
    let mut i: usize = 0;
    while i < interfaces.len()
        invariant
            i <= interfaces.len(),
            interface_views(copy@) == interface_views(interfaces@).take(i as int),
        decreases interfaces.len() - i,
    {
        let ghost before = copy@;
        copy.push(interfaces[i].clone());
        i += 1;
        assert(interface_views(copy@) =~= interface_views(before).push(interfaces@[i - 1]@));
        assert(interface_views(copy@) =~= interface_views(interfaces@).take(i as int));
    }
    copy
}

impl Clone for StateManager {
    fn clone(&self) -> (copy: Self)
        ensures
            copy@ == self@,
    {
        StateManager {
            interfaces: clone_interfaces(&self.interfaces),
            settings: self.settings,
            suspended: self.suspended,
        }
    }
}

} // verus!
