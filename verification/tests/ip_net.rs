use std::str::FromStr;
use wireguard_web_autopeer::ip_net::{FirstIp, IpAddress, IpNet, Ipv4Net, Ipv6Net};

fn net(text: &str) -> IpNet {
    match ipnet::IpNet::from_str(text).unwrap() {
        ipnet::IpNet::V4(n) => IpNet::V4(Ipv4Net::new(u32::from(n.addr()), n.prefix_len()).unwrap()),
        ipnet::IpNet::V6(n) => {
            IpNet::V6(Ipv6Net::new(u128::from(n.addr()), n.prefix_len()).unwrap())
        }
    }
}

fn ip(text: &str) -> IpAddress {
    let width = if text.contains(':') { 128 } else { 32 };
    net(&format!("{}/{}", text, width)).addr()
}

fn v4(text: &str, prefix_len: u8) -> Ipv4Net {
    match ip(text) {
        IpAddress::V4(a) => Ipv4Net::new(a, prefix_len).unwrap(),
        IpAddress::V6(_) => panic!("not an IPv4 address"),
    }
}

fn v6(text: &str, prefix_len: u8) -> Ipv6Net {
    match ip(text) {
        IpAddress::V6(a) => Ipv6Net::new(a, prefix_len).unwrap(),
        IpAddress::V4(_) => panic!("not an IPv6 address"),
    }
}

#[test]
fn ip_net_first_ip_in_net_v4() {
    assert_eq!(v4("10.0.0.10", 8).first_ip(), ip("10.0.0.1"));
    assert_eq!(v4("10.1.0.10", 8).first_ip(), ip("10.0.0.1"));
    assert_eq!(v4("192.168.1.10", 24).first_ip(), ip("192.168.1.1"));
    assert_eq!(v4("192.168.1.10", 32).first_ip(), ip("192.168.1.10"));
}

#[test]
fn ip_net_first_ip_in_net_v6() {
    assert_eq!(v6("fd12:3456:789a:1::", 64).first_ip(), ip("fd12:3456:789a:1::1"));
    assert_eq!(v6("fd12:3456:789a:1::", 8).first_ip(), ip("fd00::1"));
}

#[test]
fn utils_first_ip_in_net_v4() {
    assert_eq!(net("10.0.0.10/8").first_ip(), ip("10.0.0.1"));
    assert_eq!(net("10.1.0.10/8").first_ip(), ip("10.0.0.1"));
    assert_eq!(net("192.168.1.10/24").first_ip(), ip("192.168.1.1"));
    assert_eq!(net("192.168.1.10/32").first_ip(), ip("192.168.1.10"));
}

#[test]
fn utils_first_ip_in_net_v6() {
    assert_eq!(net("fd12:3456:789a:1::/64").first_ip(), ip("fd12:3456:789a:1::1"));
    assert_eq!(net("fd12:3456:789a:1::/8").first_ip(), ip("fd00::1"));
}

#[test]
fn first_ip_exact_values() {
    assert_eq!(Ipv4Net::new(0x0a00_000a, 8).unwrap().first_ip(), IpAddress::V4(0x0a00_0001));
    assert_eq!(Ipv4Net::new(0xc0a8_010a, 24).unwrap().first_ip(), IpAddress::V4(0xc0a8_0101));
    assert_eq!(Ipv4Net::new(0xc0a8_010a, 31).unwrap().first_ip(), IpAddress::V4(0xc0a8_010b));
    assert_eq!(
        Ipv6Net::new(0xfd12_3456_789a_0001_0000_0000_0000_0000, 64).unwrap().first_ip(),
        IpAddress::V6(0xfd12_3456_789a_0001_0000_0000_0000_0001)
    );
    assert_eq!(
        Ipv6Net::new(0xfd12_3456_789a_0001_0000_0000_0000_0000, 8).unwrap().first_ip(),
        IpAddress::V6(0xfd00_0000_0000_0000_0000_0000_0000_0001)
    );
}

#[test]
fn first_ip_of_the_whole_address_space() {
    assert_eq!(Ipv4Net::new(0xffff_ffff, 0).unwrap().first_ip(), IpAddress::V4(1));
    assert_eq!(Ipv6Net::new(u128::MAX, 0).unwrap().first_ip(), IpAddress::V6(1));
    assert_eq!(net("0.0.0.0/0").first_ip(), ip("0.0.0.1"));
}

#[test]
fn first_ip_of_a_host_prefix_is_the_address() {
    assert_eq!(net("255.255.255.255/32").first_ip(), ip("255.255.255.255"));
    assert_eq!(net("::/128").first_ip(), ip("::"));
    assert_eq!(Ipv6Net::new(u128::MAX, 128).unwrap().first_ip(), IpAddress::V6(u128::MAX));
}

#[test]
fn first_ip_lies_inside_its_prefix() {
    for text in ["10.0.0.10/8", "192.168.1.10/24", "172.16.5.4/31", "fd12:3456:789a:1::/64", "::1/127"] {
        let n = net(text);
        assert!(n.contains(&n.first_ip()), "{}", text);
    }
}

#[test]
fn prefix_length_is_bounded_by_the_address_width() {
    assert!(Ipv4Net::new(0, 32).is_some());
    assert!(Ipv4Net::new(0, 33).is_none());
    assert!(Ipv6Net::new(0, 128).is_some());
    assert!(Ipv6Net::new(0, 129).is_none());
    assert!(IpNet::new(IpAddress::V4(1), 33).is_none());
    assert!(IpNet::new(IpAddress::V6(1), 33).is_some());
}

#[test]
fn contains_agrees_with_ipnet() {
    let nets = ["10.0.0.10/8", "192.168.1.10/24", "192.168.1.10/32", "0.0.0.0/0", "fd12:3456:789a:1::/64", "::/0"];
    let ips = ["10.255.255.255", "11.0.0.0", "192.168.1.1", "192.168.2.1", "192.168.1.10", "fd12:3456:789a:1::5", "fd12:3456:789a:2::5", "::1"];
    for n in nets {
        let theirs = ipnet::IpNet::from_str(n).unwrap();
        for a in ips {
            let width = if a.contains(':') { 128 } else { 32 };
            let addr = ipnet::IpNet::from_str(&format!("{}/{}", a, width)).unwrap().addr();
            assert_eq!(net(n).contains(&ip(a)), theirs.contains(&addr), "{} in {}", a, n);
        }
    }
}

#[test]
fn accessors_give_back_what_was_put_in() {
    let n = net("192.168.1.10/24");
    assert_eq!(n.addr(), ip("192.168.1.10"));
    assert_eq!(n.prefix_len(), 24);
    assert_eq!(n.max_prefix_len(), 32);
    assert_eq!(net("fd00::/8").max_prefix_len(), 128);
    assert!(ip("10.0.0.1").is_ipv4());
    assert!(!ip("fd00::1").is_ipv4());
}

#[test]
fn loopback_addresses() {
    assert!(ip("127.0.0.1").is_loopback());
    assert!(ip("127.255.255.255").is_loopback());
    assert!(!ip("126.255.255.255").is_loopback());
    assert!(!ip("128.0.0.0").is_loopback());
    assert!(ip("::1").is_loopback());
    assert!(!ip("::2").is_loopback());
    assert!(!ip("::ffff:127.0.0.1").is_loopback());
}
