use std::str::FromStr;
use wireguard_web_autopeer::ip_net::{IpAddress, IpNet, Ipv4Net, Ipv6Net};
use wireguard_web_autopeer::network::monitor::{event_message, IfEvent, INTERFACES_LOADED_AFTER};
use wireguard_web_autopeer::network::utils::{next_hop, GetInterface, OsInterface, Route};
use wireguard_web_autopeer::state::messages::Message;

fn net(text: &str) -> IpNet {
    match ipnet::IpNet::from_str(text).unwrap() {
        ipnet::IpNet::V4(n) => IpNet::V4(Ipv4Net::new(u32::from(n.addr()), n.prefix_len()).unwrap()),
        ipnet::IpNet::V6(n) => {
            IpNet::V6(Ipv6Net::new(u128::from(n.addr()), n.prefix_len()).unwrap())
        }
    }
}

fn ip(text: &str) -> IpAddress {
    let width = if text.contains(':') { 128 } else { 32 };
    net(&format!("{}/{}", text, width)).addr()
}

fn os_interfaces() -> Vec<OsInterface> {
    vec![
        OsInterface { name: "lo".to_string(), index: 1, addr: vec![ip("127.0.0.1"), ip("::1")] },
        OsInterface {
            name: "eth0".to_string(),
            index: 2,
            addr: vec![ip("192.168.1.10"), ip("fd12:3456:789a:1::10")],
        },
        OsInterface { name: "eth1".to_string(), index: 3, addr: vec![ip("192.168.1.11")] },
    ]
}

fn route(destination: &str, prefix: u8, gateway: Option<&str>, ifindex: Option<u32>) -> Route {
    Route { destination: ip(destination), prefix, gateway: gateway.map(ip), ifindex }
}

#[test]
fn owner_is_the_first_interface_with_an_address_inside() {
    let list = os_interfaces();
    assert_eq!(net("192.168.1.10/24").interface(&list), Some(list[1].clone()));
    assert_eq!(net("192.168.1.10/24").interface_name(&list), Some("eth0".to_string()));
    assert_eq!(net("192.168.1.11/32").interface_name(&list), Some("eth1".to_string()));
    assert_eq!(net("fd12:3456:789a:1::/64").interface_name(&list), Some("eth0".to_string()));
    assert_eq!(net("10.0.0.1/8").interface(&list), None);
    assert_eq!(net("10.0.0.1/8").interface_name(&list), None);
    assert_eq!(net("192.168.1.10/24").interface(&vec![]), None);
}

#[test]
fn specific_route_takes_precedence() {
    let routes = vec![
        route("0.0.0.0", 0, Some("192.168.1.1"), Some(2)),
        route("192.168.1.0", 24, None, Some(2)),
        route("192.168.1.0", 24, Some("192.168.1.254"), Some(2)),
        route("192.168.1.0", 24, Some("192.168.1.253"), Some(2)),
    ];
    assert_eq!(
        next_hop(net("192.168.1.10/24"), &routes, &os_interfaces()),
        (false, Some(ip("192.168.1.254")))
    );
}

#[test]
fn default_route_through_the_owner() {
    let routes = vec![
        route("192.168.1.0", 24, None, Some(2)),
        route("0.0.0.0", 0, Some("192.168.1.2"), Some(3)),
        route("::", 0, Some("fe80::1"), Some(2)),
        route("0.0.0.0", 0, None, Some(2)),
        route("0.0.0.0", 0, Some("192.168.1.3"), None),
        route("0.0.0.0", 0, Some("192.168.1.1"), Some(2)),
    ];
    assert_eq!(
        next_hop(net("192.168.1.10/24"), &routes, &os_interfaces()),
        (true, Some(ip("192.168.1.1")))
    );
    assert_eq!(
        next_hop(net("fd12:3456:789a:1::10/64"), &routes, &os_interfaces()),
        (true, Some(ip("fe80::1")))
    );
}

#[test]
fn no_route_means_no_gateway() {
    assert_eq!(next_hop(net("192.168.1.10/24"), &vec![], &os_interfaces()), (false, None));
    let routes = vec![
        route("0.0.0.0", 0, Some("10.0.0.1"), Some(9)),
        route("192.168.1.0", 25, Some("192.168.1.1"), Some(2)),
        route("::", 0, Some("fe80::1"), Some(3)),
    ];
    assert_eq!(next_hop(net("192.168.1.10/24"), &routes, &os_interfaces()), (false, None));
    assert_eq!(next_hop(net("192.168.1.11/32"), &routes, &os_interfaces()), (false, None));
    let default = vec![route("0.0.0.0", 0, Some("192.168.1.1"), Some(2))];
    assert_eq!(next_hop(net("10.0.0.1/8"), &default, &os_interfaces()), (false, None));
}

#[test]
fn watcher_reports_become_messages() {
    let n = net("192.168.1.10/24");
    assert_eq!(event_message(IfEvent::Up(n)), Some(Message::InterfaceUp(n)));
    assert_eq!(event_message(IfEvent::Down(n)), Some(Message::InterfaceDown(n)));
    let six = net("fd12:3456:789a:1::10/64");
    assert_eq!(event_message(IfEvent::Up(six)), Some(Message::InterfaceUp(six)));
}

#[test]
fn loopback_reports_are_dropped() {
    assert_eq!(event_message(IfEvent::Up(net("127.0.0.1/8"))), None);
    assert_eq!(event_message(IfEvent::Down(net("127.0.0.1/8"))), None);
    assert_eq!(event_message(IfEvent::Up(net("::1/128"))), None);
    assert_eq!(event_message(IfEvent::Down(net("::1/128"))), None);
    assert_eq!(INTERFACES_LOADED_AFTER, 5);
}
