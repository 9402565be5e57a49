//! Keeps network interfaces peered: the interface and peer model, next-hop
//! resolution, the peering exchange and the reconciliation of tunnel peers.

pub mod event_loop;
pub mod http;
pub mod ip_net;
pub mod network;
pub mod network_interface;
pub mod sequences;
pub mod state;
pub mod storage;
pub mod tray;
pub mod wireguard;
