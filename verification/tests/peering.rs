use std::str::FromStr;
use wireguard_web_autopeer::http::peering::{
    parse_failure, peering_request, peering_url, PeeringQuery, PeeringRequest,
};
use wireguard_web_autopeer::http::{collect_peers, WatchlistQuery};
use wireguard_web_autopeer::ip_net::{IpAddress, IpNet, Ipv4Net, Ipv6Net};
use wireguard_web_autopeer::state::structs::{NetworkInterface, Settings, StateManager, Wireguard};
use wireguard_web_autopeer::storage::{IfDatabase, Interface, Peer, WGInterface};

fn net(text: &str) -> IpNet {
    match ipnet::IpNet::from_str(text).unwrap() {
        ipnet::IpNet::V4(n) => IpNet::V4(Ipv4Net::new(u32::from(n.addr()), n.prefix_len()).unwrap()),
        ipnet::IpNet::V6(n) => {
            IpNet::V6(Ipv6Net::new(u128::from(n.addr()), n.prefix_len()).unwrap())
        }
    }
}

fn ip(text: &str) -> IpAddress {
    let width = if text.contains(':') { 128 } else { 32 };
    net(&format!("{}/{}", text, width)).addr()
}

fn v4(text: &str) -> Ipv4Net {
    match net(text) {
        IpNet::V4(n) => n,
        IpNet::V6(_) => panic!("not an IPv4 prefix"),
    }
}

fn v6(text: &str) -> Ipv6Net {
    match net(text) {
        IpNet::V6(n) => n,
        IpNet::V4(_) => panic!("not an IPv6 prefix"),
    }
}

fn interface(
    name: &str,
    network: Option<&str>,
    nexthop: Option<&str>,
    is_default: bool,
    pubkey: Option<&str>,
) -> NetworkInterface {
    NetworkInterface {
        name: name.to_string(),
        net: network.map(net),
        nexthop: nexthop.map(ip),
        is_default,
        peers: vec![],
        wireguard: pubkey.map(|k| Wireguard { pubkey: Some(k.to_string()), port: 51820 }),
    }
}

fn state() -> StateManager {
    StateManager {
        interfaces: vec![
            interface("eth0", Some("192.168.1.10/24"), Some("192.168.1.1"), true, None),
            interface("eth1", Some("10.0.0.10/8"), Some("10.0.0.1"), false, None),
            interface("eth2", Some("172.16.0.10/16"), None, true, None),
            interface("wg0", Some("10.100.0.5/24"), None, false, Some("mine")),
            interface("eth3", Some("fd12:3456:789a:1::10/64"), Some("fe80::1"), true, Some("other")),
        ],
        settings: Settings::default(),
        suspended: false,
    }
}

#[test]
fn request_announces_the_default_routes_with_the_askers_key() {
    let state = state();
    let query = peering_request(&state, &state.interfaces[3]);
    assert_eq!(
        query,
        Some(PeeringQuery {
            destination: ip("10.100.0.1"),
            requests: vec![
                PeeringRequest {
                    ip: ip("192.168.1.10"),
                    prefix_len: 24,
                    gateway: ip("192.168.1.1"),
                    pubkey: "mine".to_string(),
                },
                PeeringRequest {
                    ip: ip("fd12:3456:789a:1::10"),
                    prefix_len: 64,
                    gateway: ip("fe80::1"),
                    pubkey: "mine".to_string(),
                },
            ],
        })
    );
}

#[test]
fn request_goes_to_the_lowest_host_address() {
    let state = state();
    let asker = interface("wg1", Some("fd12:3456:789a:1::/8"), None, false, Some("k"));
    assert_eq!(peering_request(&state, &asker).unwrap().destination, ip("fd00::1"));
    let host = interface("wg2", Some("192.168.1.10/32"), None, false, Some("k"));
    assert_eq!(peering_request(&state, &host).unwrap().destination, ip("192.168.1.10"));
}

#[test]
fn interface_without_key_or_network_asks_nothing() {
    let state = state();
    assert_eq!(peering_request(&state, &state.interfaces[0]), None);
    let keyless = NetworkInterface {
        wireguard: Some(Wireguard { pubkey: None, port: 1 }),
        ..interface("wg1", Some("10.0.0.1/8"), None, false, None)
    };
    assert_eq!(peering_request(&state, &keyless), None);
    let homeless = interface("wg1", None, None, false, Some("k"));
    assert_eq!(peering_request(&state, &homeless), None);
}

#[test]
fn request_without_default_routes_is_empty() {
    let mut state = state();
    state.interfaces.truncate(0);
    let asker = interface("wg0", Some("10.100.0.5/24"), None, false, Some("mine"));
    assert_eq!(
        peering_request(&state, &asker),
        Some(PeeringQuery { destination: ip("10.100.0.1"), requests: vec![] })
    );
}

#[test]
fn url_wraps_ipv6_in_brackets() {
    assert_eq!(peering_url("10.100.0.1", &ip("10.100.0.1")), "http://10.100.0.1/peering-request");
    assert_eq!(peering_url("fd00::1", &ip("fd00::1")), "http://[fd00::1]/peering-request");
}

#[test]
fn parse_failure_carries_the_body() {
    assert_eq!(
        parse_failure("expected value at line 1 column 1", "<html>"),
        "expected value at line 1 column 1: <html>"
    );
    assert_eq!(parse_failure("", ""), ": ");
}

fn tunnel() -> WGInterface {
    WGInterface {
        interface: Interface {
            index: 4,
            name: "wg0".to_string(),
            ipv4: vec![v4("10.100.0.5/24"), v4("10.1.0.10/8"), v4("10.100.0.77/24")],
            ipv6: vec![v6("fd12:3456:789a:1::/64"), v6("fd12:3456:789a:1::/8")],
            gateway: None,
        },
        pubkey: "mine".to_string(),
    }
}

#[test]
fn watchlist_request_asks_each_service_once_in_rising_order() {
    let db = vec![
        IfDatabase { net: net("192.168.1.10/24"), gateway: ip("192.168.1.1") },
        IfDatabase { net: net("fd12:3456:789a:1::10/64"), gateway: ip("fe80::1") },
    ];
    let query = wireguard_web_autopeer::http::peering_request(&tunnel(), &db);
    assert_eq!(
        query,
        WatchlistQuery {
            destinations: vec![
                ip("10.0.0.1"),
                ip("10.100.0.1"),
                ip("fd00::1"),
                ip("fd12:3456:789a:1::1"),
            ],
            requests: vec![
                PeeringRequest {
                    ip: ip("192.168.1.10"),
                    prefix_len: 24,
                    gateway: ip("192.168.1.1"),
                    pubkey: "mine".to_string(),
                },
                PeeringRequest {
                    ip: ip("fd12:3456:789a:1::10"),
                    prefix_len: 64,
                    gateway: ip("fe80::1"),
                    pubkey: "mine".to_string(),
                },
            ],
        }
    );
}

#[test]
fn address_order_puts_ipv4_first() {
    assert!(ip("255.255.255.255").precedes(&ip("::")));
    assert!(!ip("::").precedes(&ip("0.0.0.0")));
    assert!(ip("10.0.0.1").precedes(&ip("10.0.0.2")));
    assert!(!ip("10.0.0.2").precedes(&ip("10.0.0.2")));
    assert!(ip("fd00::1").precedes(&ip("fd00::2")));
    assert!(!ip("fd00::2").precedes(&ip("fd00::1")));
}

#[test]
fn collected_peers_bear_the_name_of_the_asker() {
    let listed = Peer {
        pubkey: "A".to_string(),
        endpoint: Some(ip("192.168.1.20")),
        port: Some(51820),
        ips: None,
        interface: "".to_string(),
    };
    let earlier = Peer { pubkey: "Z".to_string(), interface: "wg9".to_string(), ..listed.clone() };
    let mut peers = vec![earlier.clone()];
    collect_peers(&mut peers, vec![listed.clone(), earlier.clone()], &tunnel());
    assert_eq!(
        peers,
        vec![
            earlier.clone(),
            Peer { interface: "wg0".to_string(), ..listed },
            Peer { interface: "wg0".to_string(), ..earlier },
        ]
    );
}
