//! The state behind the tray icon: whether peering is enabled.

use crate::state::messages::Message;
use vstd::prelude::*;

verus! {

/// What the tray icon shows.
#[derive(Debug, Clone, Copy, PartialEq, Eq, Structural)]
pub struct TrayState {
    pub enabled: bool,
}

/// What a message asks of the tray icon.
#[derive(Debug, Clone, Copy, PartialEq, Eq, Structural)]
pub enum TrayAction {
    /// Take the icon down.
    Shutdown,
    /// Show the icon anew.
    Update,
    /// Leave the icon as it is.
    Ignore,
}

impl TrayState {
    /// The tray starts enabled.
    pub fn new() -> (tray: TrayState)
        ensures
            tray.enabled,
    {
        TrayState { enabled: true }
    }

    /// The user ticks or unticks "Enabled". Returns what the event loop is
    /// told: to resume where peering is now enabled, to suspend where not.
    pub fn toggle(&mut self) -> (message: Message)
        ensures
            final(self).enabled == !old(self).enabled,
            message == if final(self).enabled {
                Message::Resume
            } else {
                Message::Suspend
            },
    {
        self.enabled = !self.enabled;
        if self.enabled {
            Message::Resume
        } else {
            Message::Suspend
        }
    }

    /// The event loop tells the tray of a message: suspension and resumption
    /// are shown, quitting takes the icon down, anything else is ignored.
    pub fn handle(&mut self, message: Message) -> (action: TrayAction)
        ensures
            match message {
                Message::Quit => action == TrayAction::Shutdown && *final(self) == *old(self),
                Message::Suspend => action == TrayAction::Update && !final(self).enabled,
                Message::Resume => action == TrayAction::Update && final(self).enabled,
                _ => action == TrayAction::Ignore && *final(self) == *old(self),
            },
    {
        match message {
            Message::Quit => TrayAction::Shutdown,
            Message::Suspend => {
                self.enabled = false;
                TrayAction::Update
            },
            Message::Resume => {
                self.enabled = true;
                TrayAction::Update
            },
            _ => TrayAction::Ignore,
        }
    }
}

} // verus!
