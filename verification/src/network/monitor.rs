//! What the interface watcher reports, and what of it the event loop is told.

use crate::ip_net::IpNet;
use crate::state::messages::Message;
use vstd::prelude::*;

verus! {

/// The seconds after its start at which the watcher reports that the
/// interfaces that were up at its start are loaded.
pub const INTERFACES_LOADED_AFTER: u64 = 5;

/// One report of the interface watcher.
#[derive(Debug, Clone, Copy, PartialEq, Eq, Structural)]
pub enum IfEvent {
    Up(IpNet),
    Down(IpNet),
}

/// The message for a report: an up-event or a down-event for its prefix, and
/// none for a prefix of a loopback address.
pub open spec fn spec_event_message(event: IfEvent) -> Option<Message> {
    match event {
        IfEvent::Up(net) => if net.spec_addr().spec_is_loopback() {
            None
        } else {
            Some(Message::InterfaceUp(net))
        },
        IfEvent::Down(net) => if net.spec_addr().spec_is_loopback() {
            None
        } else {
            Some(Message::InterfaceDown(net))
        },
    }
}

/// What the event loop is told of a report of the watcher.
pub fn event_message(event: IfEvent) -> (message: Option<Message>)
    ensures
        message == spec_event_message(event),
{
    match event {
        IfEvent::Up(ip) => {
            if !ip.addr().is_loopback() {
                Some(Message::InterfaceUp(ip))
            } else {
                None
            }
        },
        IfEvent::Down(ip) => {
            if !ip.addr().is_loopback() {
                Some(Message::InterfaceDown(ip))
            } else {
                None
            }
        },
    }
}

} // verus!
