use wireguard_web_autopeer::ip_net::IpAddress;
use wireguard_web_autopeer::state::structs::{Peer, SocketAddress, Wireguard};
use wireguard_web_autopeer::wireguard::information::{
    add_peer, decode_key, key_bytes, peer_update, peer_update_with_key, remove_peer,
    wireguard_identity, PeerUpdate, UpdateError, KEY_LENGTH,
};
use wireguard_web_autopeer::wireguard::{peer_config_with_key, AllowedIp, PeerConfig};

const KEY_TEXT: &str = "AAECAwQFBgcICQoLDA0ODxAREhMUFRYXGBkaGxwdHh8=";

fn key() -> [u8; 32] {
    let mut bytes = [0u8; 32];
    for (i, b) in bytes.iter_mut().enumerate() {
        *b = i as u8;
    }
    bytes
}

fn peer(pubkey: &str) -> Peer {
    Peer {
        pubkey: pubkey.to_string(),
        endpoint: Some(IpAddress::V4(0xc0a8_0114)),
        port: Some(51820),
        ip: Some(vec![IpAddress::V4(0x0a64_0002), IpAddress::V6(0xfd00 << 112 | 2)]),
        wg_interface: Some("wg0".to_string()),
    }
}

#[test]
fn identity_encodes_the_public_key() {
    assert_eq!(
        wireguard_identity(Some(key()), 51820),
        Wireguard { pubkey: Some(KEY_TEXT.to_string()), port: 51820 }
    );
    assert_eq!(
        wireguard_identity(Some([0u8; 32]), 1),
        Wireguard { pubkey: Some("AAAAAAAAAAAAAAAAAAAAAAAAAAAAAAAAAAAAAAAAAAA=".to_string()), port: 1 }
    );
    assert_eq!(wireguard_identity(None, 7), Wireguard { pubkey: None, port: 7 });
}

#[test]
fn key_text_decodes_to_its_bytes() {
    assert_eq!(decode_key(KEY_TEXT), Some(key().to_vec()));
    assert_eq!(decode_key("aGVsbG8="), Some(b"hello".to_vec()));
    assert_eq!(decode_key(""), Some(vec![]));
    assert_eq!(decode_key("not base64!"), None);
    assert_eq!(decode_key("aGVsbG8"), None);
    assert_eq!(KEY_LENGTH, 32);
}

#[test]
fn key_bytes_wants_thirty_two() {
    assert_eq!(key_bytes(&Some(key().to_vec())), Some(key()));
    assert_eq!(key_bytes(&Some(vec![1, 2, 3])), None);
    assert_eq!(key_bytes(&Some(vec![0; 33])), None);
    assert_eq!(key_bytes(&None), None);
}

#[test]
fn update_applies_a_peer() {
    let expected = PeerUpdate {
        interface: "wg0".to_string(),
        public_key: key(),
        remove: false,
        endpoint: Some(SocketAddress { ip: IpAddress::V4(0xc0a8_0114), port: 51820 }),
        allowed_ips: vec![IpAddress::V4(0x0a64_0002), IpAddress::V6(0xfd00 << 112 | 2)],
    };
    assert_eq!(add_peer(&peer(KEY_TEXT)), Ok(expected));
}

#[test]
fn update_removes_a_peer() {
    let mut p = peer(KEY_TEXT);
    p.port = None;
    p.ip = None;
    let expected = PeerUpdate {
        interface: "wg0".to_string(),
        public_key: key(),
        remove: true,
        endpoint: None,
        allowed_ips: vec![],
    };
    assert_eq!(remove_peer(&p), Ok(expected));
    assert_eq!(peer_update(&p, true), remove_peer(&p));
}

#[test]
fn update_needs_an_interface() {
    let mut p = peer(KEY_TEXT);
    p.wg_interface = None;
    assert_eq!(add_peer(&p), Err(UpdateError::NoInterface));
    p.pubkey = "???".to_string();
    assert_eq!(remove_peer(&p), Err(UpdateError::NoInterface));
}

#[test]
fn update_needs_a_key() {
    assert_eq!(add_peer(&peer("not base64!")), Err(UpdateError::InvalidKey));
    assert_eq!(add_peer(&peer("aGVsbG8=")), Err(UpdateError::KeyLength(5)));
    assert_eq!(remove_peer(&peer("")), Err(UpdateError::KeyLength(0)));
    assert_eq!(
        peer_update_with_key(&peer("x"), false, Some(vec![0; 33])),
        Err(UpdateError::KeyLength(33))
    );
    assert_eq!(peer_update_with_key(&peer("x"), false, None), Err(UpdateError::InvalidKey));
}

fn listed(pubkey: &str) -> wireguard_web_autopeer::storage::Peer {
    wireguard_web_autopeer::storage::Peer {
        pubkey: pubkey.to_string(),
        endpoint: Some(IpAddress::V4(0xc0a8_0114)),
        port: Some(51820),
        ips: Some(vec![IpAddress::V4(0x0a64_0002), IpAddress::V6(0xfd00 << 112 | 2)]),
        interface: "wg0".to_string(),
    }
}

#[test]
fn configuration_routes_each_address_as_a_host() {
    let expected = PeerConfig {
        public_key: key(),
        replace_allowed_ips: true,
        endpoint: Some(SocketAddress { ip: IpAddress::V4(0xc0a8_0114), port: 51820 }),
        allowed_ips: vec![
            AllowedIp { address: IpAddress::V4(0x0a64_0002), cidr: 32 },
            AllowedIp { address: IpAddress::V6(0xfd00 << 112 | 2), cidr: 128 },
        ],
    };
    assert_eq!(wireguard_web_autopeer::wireguard::add_peer(&listed(KEY_TEXT)), Some(expected));
    let mut bare = listed(KEY_TEXT);
    bare.ips = None;
    bare.endpoint = None;
    assert_eq!(
        peer_config_with_key(&bare, &Some(key().to_vec())),
        Some(PeerConfig {
            public_key: key(),
            replace_allowed_ips: true,
            endpoint: None,
            allowed_ips: vec![],
        })
    );
}

#[test]
fn configuration_needs_a_key() {
    assert_eq!(wireguard_web_autopeer::wireguard::add_peer(&listed("not base64!")), None);
    assert_eq!(wireguard_web_autopeer::wireguard::add_peer(&listed("aGVsbG8=")), None);
    assert_eq!(wireguard_web_autopeer::wireguard::remove_peer(&listed("aGVsbG8=")), None);
    assert_eq!(wireguard_web_autopeer::wireguard::remove_peer(&listed(KEY_TEXT)), Some(key()));
}
