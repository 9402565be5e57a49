use std::str::FromStr;
use wireguard_web_autopeer::http::peering::PeeringResponse;
use wireguard_web_autopeer::ip_net::{IpAddress, IpNet, Ipv4Net, Ipv6Net};
use wireguard_web_autopeer::network::utils::{OsInterface, Route};
use wireguard_web_autopeer::state::structs::{
    clone_peers, holds_peer, NetworkInterface, Peer, Settings, SocketAddress, StateManager,
    Timeout, Wireguard,
};
use wireguard_web_autopeer::state::PeerChanges;

fn net(text: &str) -> IpNet {
    match ipnet::IpNet::from_str(text).unwrap() {
        ipnet::IpNet::V4(n) => IpNet::V4(Ipv4Net::new(u32::from(n.addr()), n.prefix_len()).unwrap()),
        ipnet::IpNet::V6(n) => {
            IpNet::V6(Ipv6Net::new(u128::from(n.addr()), n.prefix_len()).unwrap())
        }
    }
}

fn ip(text: &str) -> IpAddress {
    let width = if text.contains(':') { 128 } else { 32 };
    net(&format!("{}/{}", text, width)).addr()
}

fn peer(pubkey: &str, endpoint: &str, owner: Option<&str>) -> Peer {
    Peer {
        pubkey: pubkey.to_string(),
        endpoint: Some(ip(endpoint)),
        port: Some(51820),
        ip: Some(vec![ip("10.100.0.2")]),
        wg_interface: owner.map(|o| o.to_string()),
    }
}

fn identity(pubkey: &str) -> Option<Wireguard> {
    Some(Wireguard { pubkey: Some(pubkey.to_string()), port: 51820 })
}

fn interface(name: &str, network: &str, peers: Vec<Peer>, wireguard: Option<Wireguard>) -> NetworkInterface {
    NetworkInterface {
        name: name.to_string(),
        net: Some(net(network)),
        nexthop: None,
        is_default: false,
        peers,
        wireguard,
    }
}

fn running(interfaces: Vec<NetworkInterface>) -> StateManager {
    StateManager { interfaces, settings: Settings::default(), suspended: false }
}

fn os_interfaces() -> Vec<OsInterface> {
    vec![
        OsInterface { name: "lo".to_string(), index: 1, addr: vec![ip("127.0.0.1"), ip("::1")] },
        OsInterface { name: "eth0".to_string(), index: 2, addr: vec![ip("192.168.1.10")] },
        OsInterface { name: "wg0".to_string(), index: 3, addr: vec![ip("10.100.0.1")] },
    ]
}

fn routes() -> Vec<Route> {
    vec![Route {
        destination: ip("0.0.0.0"),
        prefix: 0,
        gateway: Some(ip("192.168.1.1")),
        ifindex: Some(2),
    }]
}

#[test]
fn new_state_is_suspended_and_empty() {
    let state = StateManager::new();
    assert!(state.interfaces.is_empty());
    assert!(state.suspended);
    assert_eq!(state.settings.refresh_timeout.seconds(), 30);
}

#[test]
fn timeout_defaults_to_thirty_seconds() {
    assert_eq!(u64::from(Timeout::default()), 30);
    assert_eq!(u64::from(Timeout::new(7)), 7);
    assert_eq!(Settings::default().refresh_timeout, Timeout::new(30));
}

#[test]
fn has_pubkey_needs_identity_and_key() {
    assert!(interface("wg0", "10.100.0.1/24", vec![], identity("k")).has_pubkey());
    assert!(!interface("eth0", "10.0.0.1/24", vec![], None).has_pubkey());
    let keyless = Some(Wireguard { pubkey: None, port: 1 });
    assert!(!interface("wg1", "10.0.0.1/24", vec![], keyless).has_pubkey());
}

#[test]
fn socket_endpoint_of_a_peer() {
    let mut p = peer("A", "192.168.1.20", None);
    assert_eq!(p.socket_endpoint(), Some(SocketAddress { ip: ip("192.168.1.20"), port: 51820 }));
    assert_eq!(SocketAddress::try_from(p.clone()), Ok(SocketAddress { ip: ip("192.168.1.20"), port: 51820 }));
    p.port = None;
    assert_eq!(p.socket_endpoint(), None);
    assert_eq!(SocketAddress::try_from(p.clone()), Err(()));
    p.port = Some(1);
    p.endpoint = None;
    assert_eq!(p.socket_endpoint(), None);
}

#[test]
fn same_peer_ignores_the_port_only() {
    let a = peer("A", "192.168.1.20", Some("wg0"));
    let mut b = a.clone();
    b.port = Some(1);
    assert!(a.same_peer(&b));
    let mut c = a.clone();
    c.pubkey = "B".to_string();
    assert!(!a.same_peer(&c));
    let mut d = a.clone();
    d.endpoint = Some(ip("192.168.1.21"));
    assert!(!a.same_peer(&d));
    let mut e = a.clone();
    e.ip = None;
    assert!(!a.same_peer(&e));
    let mut f = a.clone();
    f.wg_interface = Some("wg1".to_string());
    assert!(!a.same_peer(&f));
    let mut g = a.clone();
    g.wg_interface = None;
    assert!(!a.same_peer(&g));
    assert!(holds_peer(&vec![c, b], &a));
    assert!(!holds_peer(&vec![d, e], &a));
}

#[test]
fn ownership_of_a_peer() {
    assert!(peer("A", "10.0.0.1", Some("wg0")).owned_by(&"wg0".to_string()));
    assert!(!peer("A", "10.0.0.1", Some("wg0")).owned_by(&"wg1".to_string()));
    assert!(peer("A", "10.0.0.1", None).owned_by(&"wg1".to_string()));
}

#[test]
fn first_up_event_enters_the_interface() {
    let mut state = running(vec![]);
    let targets = state.ifup(net("192.168.1.10/24"), &os_interfaces(), &routes(), None);
    assert_eq!(
        state.interfaces,
        vec![NetworkInterface {
            name: "eth0".to_string(),
            net: Some(net("192.168.1.10/24")),
            nexthop: Some(ip("192.168.1.1")),
            is_default: true,
            peers: vec![],
            wireguard: None,
        }]
    );
    assert!(targets.is_empty());
}

#[test]
fn up_event_for_an_unowned_prefix_is_dropped() {
    let mut state = running(vec![interface("wg0", "10.100.0.1/24", vec![], identity("k"))]);
    let before = state.clone();
    let targets = state.ifup(net("172.16.0.1/16"), &os_interfaces(), &routes(), identity("k"));
    assert!(targets.is_empty());
    assert_eq!(state.interfaces, before.interfaces);
}

#[test]
fn changed_up_event_queries_every_tunnel_interface() {
    let mut state = running(vec![
        interface("wg1", "10.200.0.1/24", vec![], identity("other")),
        interface("eth1", "10.0.0.1/8", vec![], None),
    ]);
    let targets = state.ifup(net("10.100.0.1/24"), &os_interfaces(), &routes(), identity("k"));
    assert_eq!(state.interfaces.len(), 3);
    let names: Vec<String> = targets.iter().map(|t| t.name.clone()).collect();
    assert_eq!(names, vec!["wg1".to_string(), "wg0".to_string()]);
}

#[test]
fn second_identical_up_event_is_unchanged() {
    let mut state = running(vec![]);
    let first = state.ifup(net("10.100.0.1/24"), &os_interfaces(), &routes(), identity("k"));
    assert_eq!(first.len(), 1);
    let after_first = state.clone();
    let second = state.ifup(net("10.100.0.1/24"), &os_interfaces(), &routes(), identity("k"));
    assert!(second.is_empty());
    assert_eq!(state.interfaces, after_first.interfaces);
}

#[test]
fn up_event_with_a_new_identity_updates_in_place() {
    let held = peer("A", "10.100.0.7", None);
    let mut state = running(vec![interface("wg0", "10.100.0.1/24", vec![held.clone()], identity("old"))]);
    let targets = state.ifup(net("10.100.0.1/24"), &os_interfaces(), &routes(), identity("new"));
    assert_eq!(targets.len(), 1);
    assert_eq!(state.interfaces.len(), 1);
    assert_eq!(state.interfaces[0].wireguard, identity("new"));
    assert_eq!(state.interfaces[0].peers, vec![held]);
}

#[test]
fn add_or_update_reports_a_change_of_each_field() {
    let mut state = running(vec![]);
    let base = interface("eth0", "192.168.1.10/24", vec![], None);
    assert!(state.add_or_update_interface(base.clone()));
    assert!(!state.add_or_update_interface(base.clone()));
    let mut hop = base.clone();
    hop.nexthop = Some(ip("192.168.1.1"));
    assert!(state.add_or_update_interface(hop.clone()));
    assert!(!state.add_or_update_interface(hop.clone()));
    let mut default = hop.clone();
    default.is_default = true;
    assert!(state.add_or_update_interface(default.clone()));
    let mut keyed = default.clone();
    keyed.wireguard = identity("k");
    assert!(state.add_or_update_interface(keyed.clone()));
    assert_eq!(state.interfaces, vec![keyed.clone()]);
    let mut other_name = keyed.clone();
    other_name.name = "eth1".to_string();
    assert!(state.add_or_update_interface(other_name));
    assert_eq!(state.interfaces.len(), 2);
}

#[test]
fn up_then_down_restores_the_table() {
    let a = peer("A", "10.100.0.7", Some("wg0"));
    let mut state = running(vec![interface("wg0", "10.100.0.1/24", vec![a], identity("k"))]);
    let before = state.clone();
    state.ifup(net("192.168.1.10/24"), &os_interfaces(), &routes(), None);
    assert_eq!(state.interfaces.len(), 2);
    let removed = state.ifdown(net("192.168.1.10/24"));
    assert!(removed.is_empty());
    assert_eq!(state.interfaces, before.interfaces);
}

#[test]
fn down_event_removes_each_attached_peer_once() {
    let a = peer("A", "10.100.0.7", Some("wg0"));
    let b = peer("B", "10.100.0.8", Some("wg0"));
    let c = peer("C", "192.168.1.20", Some("wg0"));
    let mut state = running(vec![
        interface("wg0", "10.100.0.1/24", vec![a.clone(), b.clone()], identity("k")),
        interface("eth0", "192.168.1.10/24", vec![c.clone()], None),
        interface("wg0b", "10.100.0.1/24", vec![], None),
    ]);
    state.suspended = true;
    let removed = state.ifdown(net("10.100.0.1/24"));
    assert_eq!(removed, vec![a, b]);
    assert_eq!(state.interfaces, vec![interface("eth0", "192.168.1.10/24", vec![c], None)]);
    assert!(state.suspended);
}

#[test]
fn down_event_for_an_unknown_prefix_changes_nothing() {
    let mut state = running(vec![interface("eth0", "192.168.1.10/24", vec![], None)]);
    let removed = state.ifdown(net("192.168.1.0/24"));
    assert!(removed.is_empty());
    assert_eq!(state.interfaces.len(), 1);
}

#[test]
fn refresh_queries_tunnel_interfaces_in_table_order() {
    let state = running(vec![
        interface("eth0", "192.168.1.10/24", vec![], None),
        interface("wg0", "10.100.0.1/24", vec![], identity("k0")),
        interface("wg1", "10.200.0.1/24", vec![], Some(Wireguard { pubkey: None, port: 1 })),
        interface("wg2", "10.201.0.1/24", vec![], identity("k2")),
    ]);
    let targets = state.refresh();
    assert_eq!(targets, vec![state.interfaces[1].clone(), state.interfaces[3].clone()]);
    assert_eq!(state.perform_queries(), targets);
}

#[test]
fn suspended_state_queries_nothing() {
    let mut state = running(vec![interface("wg0", "10.100.0.1/24", vec![], identity("k0"))]);
    state.suspended = true;
    assert!(state.refresh().is_empty());
    let targets = state.ifup(net("192.168.1.10/24"), &os_interfaces(), &routes(), None);
    assert!(targets.is_empty());
    assert_eq!(state.interfaces.len(), 2);
    let wg = state.interfaces[0].clone();
    let before = state.clone();
    let outcome = state.peering_result(
        &wg,
        Ok(PeeringResponse { peers: vec![peer("A", "10.100.0.7", None)] }),
    );
    assert_eq!(outcome.changes, PeerChanges { added: vec![], removed: vec![] });
    assert_eq!(outcome.error, None);
    assert_eq!(state.interfaces, before.interfaces);
    state.suspended = false;
    assert_eq!(state.refresh().len(), 1);
}

#[test]
fn listed_peer_is_attached_and_applied() {
    let mut state = running(vec![
        interface("eth0", "192.168.1.10/24", vec![], None),
        interface("wg0", "10.100.0.1/24", vec![], identity("k")),
    ]);
    let wg = state.interfaces[1].clone();
    let a = peer("A", "192.168.1.20", None);
    let far = peer("B", "172.16.0.9", None);
    let mut nowhere = peer("C", "192.168.1.21", None);
    nowhere.endpoint = None;
    let changes = state.update_peers(vec![a.clone(), far, nowhere], &wg);
    assert_eq!(changes, PeerChanges { added: vec![a.clone()], removed: vec![] });
    assert_eq!(state.interfaces[0].peers, vec![a.clone()]);
    assert!(state.interfaces[1].peers.is_empty());
    let again = state.update_peers(vec![a.clone()], &wg);
    assert_eq!(again, PeerChanges { added: vec![], removed: vec![] });
    assert_eq!(state.interfaces[0].peers, vec![a]);
}

#[test]
fn peer_goes_to_the_first_matching_interface() {
    let mut state = running(vec![
        interface("eth0", "10.0.0.1/8", vec![], None),
        interface("eth1", "10.1.0.1/16", vec![], None),
        interface("wg0", "10.100.0.1/24", vec![], identity("k")),
    ]);
    let wg = state.interfaces[2].clone();
    let a = peer("A", "10.1.0.20", None);
    assert_eq!(state.accepting_interface(&a), Some(0));
    let changes = state.update_peers(vec![a.clone()], &wg);
    assert_eq!(changes.added, vec![a.clone()]);
    assert_eq!(state.interfaces[0].peers, vec![a]);
    assert!(state.interfaces[1].peers.is_empty());
    assert!(state.interfaces[2].peers.is_empty());
}

#[test]
fn removal_is_scoped_to_the_queried_interface() {
    let of_a = peer("K", "192.168.1.20", Some("wgA"));
    let of_b = peer("K", "192.168.1.20", Some("wgB"));
    let mut state = running(vec![
        interface("wgA", "192.168.1.10/24", vec![of_a.clone()], identity("ka")),
        interface("wgB", "192.168.1.10/24", vec![of_b.clone()], identity("kb")),
    ]);
    let wg_a = state.interfaces[0].clone();
    let changes = state.update_peers(vec![], &wg_a);
    assert_eq!(changes, PeerChanges { added: vec![], removed: vec![of_a] });
    assert!(state.interfaces[0].peers.is_empty());
    assert_eq!(state.interfaces[1].peers, vec![of_b]);
}

#[test]
fn unowned_peer_is_removed_by_any_round() {
    let stray = peer("S", "192.168.1.20", None);
    let kept = peer("T", "192.168.1.21", None);
    let mut state = running(vec![
        interface("eth0", "192.168.1.10/24", vec![stray.clone(), kept.clone()], None),
        interface("wg0", "10.100.0.1/24", vec![], identity("k")),
    ]);
    let wg = state.interfaces[1].clone();
    let changes = state.update_peers(vec![kept.clone()], &wg);
    assert_eq!(changes, PeerChanges { added: vec![], removed: vec![stray] });
    assert_eq!(state.interfaces[0].peers, vec![kept]);
}

#[test]
fn replaced_endpoint_swaps_the_peer() {
    let old = peer("A", "192.168.1.20", None);
    let new = peer("A", "192.168.1.30", None);
    let mut state = running(vec![
        interface("eth0", "192.168.1.10/24", vec![old.clone()], None),
        interface("wg0", "10.100.0.1/24", vec![], identity("k")),
    ]);
    let wg = state.interfaces[1].clone();
    let changes = state.update_peers(vec![new.clone()], &wg);
    assert_eq!(changes, PeerChanges { added: vec![new.clone()], removed: vec![old] });
    assert_eq!(state.interfaces[0].peers, vec![new]);
}

#[test]
fn failed_query_removes_nothing() {
    let a = peer("A", "192.168.1.20", None);
    let mut state = running(vec![
        interface("eth0", "192.168.1.10/24", vec![a.clone()], None),
        interface("wg0", "10.100.0.1/24", vec![], identity("k")),
    ]);
    let wg = state.interfaces[1].clone();
    let fault = "expected value at line 1 column 1: <html>".to_string();
    let outcome = state.peering_result(&wg, Err(fault.clone()));
    assert_eq!(outcome.changes, PeerChanges { added: vec![], removed: vec![] });
    assert_eq!(outcome.error, Some(fault));
    assert_eq!(state.interfaces[0].peers, vec![a]);
}

#[test]
fn answered_query_is_reconciled() {
    let a = peer("A", "192.168.1.20", None);
    let b = peer("B", "192.168.1.21", None);
    let mut state = running(vec![
        interface("eth0", "192.168.1.10/24", vec![a.clone()], None),
        interface("wg0", "10.100.0.1/24", vec![], identity("k")),
    ]);
    let wg = state.interfaces[1].clone();
    let outcome = state.peering_result(&wg, Ok(PeeringResponse { peers: vec![b.clone()] }));
    assert_eq!(outcome.changes, PeerChanges { added: vec![b.clone()], removed: vec![a] });
    assert_eq!(outcome.error, None);
    assert_eq!(state.interfaces[0].peers, vec![b]);
}

#[test]
fn attached_peers_are_listed_in_table_order() {
    let a = peer("A", "192.168.1.20", None);
    let b = peer("B", "10.100.0.9", None);
    let c = peer("C", "10.100.0.10", None);
    let state = running(vec![
        interface("eth0", "192.168.1.10/24", vec![a.clone()], None),
        interface("eth1", "172.16.0.1/16", vec![], None),
        interface("wg0", "10.100.0.1/24", vec![b.clone(), c.clone()], identity("k")),
    ]);
    assert_eq!(state.attached_peers(), vec![a.clone(), b.clone(), c.clone()]);
    assert_eq!(clone_peers(&vec![a.clone(), b.clone()]), vec![a, b]);
}

#[test]
fn attach_peer_reports_whether_it_attached() {
    let mut state = running(vec![interface("eth0", "192.168.1.10/24", vec![], None)]);
    let a = peer("A", "192.168.1.20", None);
    assert!(state.attach_peer(&a));
    assert!(!state.attach_peer(&a));
    assert!(!state.attach_peer(&peer("B", "10.0.0.1", None)));
    assert_eq!(state.interfaces[0].peers, vec![a]);
}
