//! What the event loop is told.

use crate::ip_net::IpNet;
use vstd::prelude::*;

verus! {

/// One input of the event loop.
#[derive(Debug, Clone, Copy, PartialEq, Eq, Structural)]
pub enum Message {
    /// A prefix came up on some interface.
    InterfaceUp(IpNet),
    /// A prefix went away.
    InterfaceDown(IpNet),
    /// The watcher has reported the interfaces that were up at its start.
    InterfacesLoaded,
    /// Query every tunnel interface again.
    RefreshPeers,
    Suspend,
    Resume,
    Quit,
}

} // verus!
