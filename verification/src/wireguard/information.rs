//! The identity of a tunnel device, and the update that applies a peer to
//! its device or removes it.

use crate::ip_net::IpAddress;
use crate::state::structs::{
    clone_addresses, Peer, PeerView, SocketAddress, Wireguard, WireguardView,
};
use vstd::prelude::*;

verus! {

/// The number of bytes of a public key.
pub const KEY_LENGTH: usize = 32;

#[verifier::external_type_specification]
#[verifier::external_body]
pub struct ExDecodeError(base64::DecodeError);

/// The bytes that standard base64 text with padding stands for, where it
/// stands for any.
pub uninterp spec fn base64_decoded(text: Seq<char>) -> Option<Seq<u8>>;

/// The standard base64 text with padding of a sequence of bytes.
pub uninterp spec fn base64_encoded(bytes: Seq<u8>) -> Seq<char>;

/// Calls `decode` of `base64::engine::general_purpose::STANDARD`. The bytes
/// it returns, or that it returns none, are a function of the text alone.
#[verifier::external_body]
fn decode_base64(text: &str) -> (bytes: Result<Vec<u8>, base64::DecodeError>)
    ensures
        match bytes {
            Ok(b) => base64_decoded(text@) == Some(b@),
            Err(_) => base64_decoded(text@) is None,
        },
{
    base64::Engine::decode(&base64::engine::general_purpose::STANDARD, text)
}

/// Calls `encode` of `base64::engine::general_purpose::STANDARD` on a key.
/// The text it returns is a function of the bytes alone.
#[verifier::external_body]
fn encode_base64(key: &[u8; 32]) -> (text: String)
    ensures
        text@ == base64_encoded(key@),
{
    base64::Engine::encode(&base64::engine::general_purpose::STANDARD, key)
}

/// The identity of a tunnel device with this public key and listen port.
pub open spec fn spec_identity(public_key: Option<Seq<u8>>, listen_port: u16) -> WireguardView {
    WireguardView {
        pubkey: match public_key {
            Some(key) => Some(base64_encoded(key)),
            None => None,
        },
        port: listen_port,
    }
}

/// The identity of a tunnel device, from what the device reports: its
/// public key as base64 text, where it has one, and its listen port.
pub fn wireguard_identity(public_key: Option<[u8; 32]>, listen_port: u16) -> (identity: Wireguard)
    ensures
        identity@ == spec_identity(
            match public_key {
                Some(key) => Some(key@),
                None => None,
            },
            listen_port,
        ),
{
    match public_key {
        Some(key) => Wireguard { pubkey: Some(encode_base64(&key)), port: listen_port },
        None => Wireguard { pubkey: None, port: listen_port },
    }
}

/// Why a peer cannot be brought to a tunnel device.
#[derive(Debug, Clone, Copy, PartialEq, Eq, Structural)]
pub enum UpdateError {
    /// The peer names no tunnel interface.
    NoInterface,
    /// The public key of the peer is no base64 text.
    InvalidKey,
    /// The public key of the peer has this many bytes and not 32.
    KeyLength(usize),
}

/// What a tunnel device is told of one peer.
#[derive(Debug, PartialEq, Eq)]
pub struct PeerUpdate {
    /// The name of the tunnel device.
    pub interface: String,
    /// The public key of the peer.
    pub public_key: [u8; 32],
    /// Whether the peer is to be removed.
    pub remove: bool,
    /// Where the peer is reached, where that is known.
    pub endpoint: Option<SocketAddress>,
    /// The addresses that are routed to the peer, each as a host route.
    pub allowed_ips: Vec<IpAddress>,
}

pub struct PeerUpdateView {
    pub interface: Seq<char>,
    pub public_key: Seq<u8>,
    pub remove: bool,
    pub endpoint: Option<SocketAddress>,
    pub allowed_ips: Seq<IpAddress>,
}

impl View for PeerUpdate {
    type V = PeerUpdateView;

    open spec fn view(&self) -> PeerUpdateView {
        PeerUpdateView {
            interface: self.interface@,
            public_key: self.public_key@,
            remove: self.remove,
            endpoint: self.endpoint,
            allowed_ips: self.allowed_ips@,
        }
    }
}

/// The update for a peer whose public key decodes to `key`: an error where
/// the peer names no interface, where the key does not decode, or where it
/// has not 32 bytes, in this order; else the update.
pub open spec fn spec_peer_update(peer: PeerView, remove: bool, key: Option<Seq<u8>>) -> Result<
    PeerUpdateView,
    UpdateError,
> {
    match (peer.wg_interface, key) {
        (None, _) => Err(UpdateError::NoInterface),
        (Some(_), None) => Err(UpdateError::InvalidKey),
        (Some(interface), Some(bytes)) => if bytes.len() != 32 {
            Err(UpdateError::KeyLength(bytes.len() as usize))
        } else {
            Ok(
                PeerUpdateView {
                    interface,
                    public_key: bytes,
                    remove,
                    endpoint: peer.socket_endpoint(),
                    allowed_ips: match peer.ip {
                        Some(ips) => ips,
                        None => Seq::empty(),
                    },
                },
            )
        },
    }
}

pub open spec fn update_view(update: Result<PeerUpdate, UpdateError>) -> Result<
    PeerUpdateView,
    UpdateError,
> {
    match update {
        Ok(u) => Ok(u@),
        Err(e) => Err(e),
    }
}

pub open spec fn key_view(key: Option<Vec<u8>>) -> Option<Seq<u8>> {
    match key {
        Some(k) => Some(k@),
        None => None,
    }
}

/// The 32 bytes of a key, where `key` holds that many.
pub fn key_bytes(key: &Option<Vec<u8>>) -> (bytes: Option<[u8; 32]>)
    ensures
        match key_view(*key) {
            Some(k) => if k.len() == 32 {
                bytes matches Some(b) && b@ == k
            } else {
                bytes is None
            },
            None => bytes is None,
        },
{
    match key {
        Some(k) => {
            if k.len() != 32 {
                return None;
            }
            let mut bytes: [u8; 32] = [0u8; 32];
            let mut i: usize = 0;
            while i < 32
                invariant
                    i <= 32,
                    k@.len() == 32,
                    forall|j: int| 0 <= j < i ==> bytes@[j] == k@[j],
                decreases 32 - i,
            {
                bytes[i] = k[i];
                i += 1;
            }
            assert(bytes@ =~= k@);
            Some(bytes)
        },
        None => None,
    }
}

/// Builds the update that applies `peer` to its tunnel device or removes
/// it, from the peer and the bytes its public key decodes to.
pub fn peer_update_with_key(peer: &Peer, remove: bool, key: Option<Vec<u8>>) -> (update: Result<
    PeerUpdate,
    UpdateError,
>)
    ensures
        update_view(update) == spec_peer_update(peer@, remove, key_view(key)),
{
    let interface = match &peer.wg_interface {
        Some(name) => name.clone(),
        None => {
            return Err(UpdateError::NoInterface);
        },
    };
    let length = match &key {
        Some(bytes) => bytes.len(),
        None => {
            return Err(UpdateError::InvalidKey);
        },
    };
    // convert values
    let public_key = match key_bytes(&key) {
        Some(bytes) => bytes,
        None => {
            return Err(UpdateError::KeyLength(length));
        },
    };
    // If we have allowed ips, set them
    let allowed_ips = match &peer.ip {
        Some(ips) => clone_addresses(ips),
        None => Vec::new(),
    };
    let update = PeerUpdate {
        interface,
        public_key,
        remove,
        endpoint: peer.socket_endpoint(),
        allowed_ips,
    };
    assert(update@.allowed_ips =~= match peer@.ip {
        Some(ips) => ips,
        None => Seq::empty(),
    });
    Ok(update)
}

/// The bytes that the text of a public key stands for, where it is base64.
pub fn decode_key(text: &str) -> (key: Option<Vec<u8>>)
    ensures
        key_view(key) == base64_decoded(text@),
{
    match decode_base64(text) {
        Ok(bytes) => Some(bytes),
        Err(_) => None,
    }
}

/// Builds the update for `peer` from the peer alone: decodes its public key
/// and goes on as `peer_update_with_key` does.
pub fn peer_update(peer: &Peer, remove: bool) -> (update: Result<PeerUpdate, UpdateError>)
    ensures
        update_view(update) == spec_peer_update(peer@, remove, base64_decoded(peer@.pubkey)),
{
    let key = decode_key(peer.pubkey.as_str());
    peer_update_with_key(peer, remove, key)
}

/// The update that applies `peer` to its tunnel device.
pub fn add_peer(peer: &Peer) -> (update: Result<PeerUpdate, UpdateError>)
    ensures
        update_view(update) == spec_peer_update(peer@, false, base64_decoded(peer@.pubkey)),
{
    peer_update(peer, false)
}

/// The update that removes `peer` from its tunnel device.
pub fn remove_peer(peer: &Peer) -> (update: Result<PeerUpdate, UpdateError>)
    ensures
        update_view(update) == spec_peer_update(peer@, true, base64_decoded(peer@.pubkey)),
{
    peer_update(peer, true)
}

} // verus!
