//! The decisions of the event loop: which background tasks run under which
//! epoch, and what each message asks for.

use crate::ip_net::IpNet;
use crate::state::messages::Message;
use crate::state::structs::{StateManager, Timeout};
use vstd::prelude::*;

verus! {

/// The number of messages that may wait for the event loop. A sender waits
/// when the queue is full; no message is dropped.
pub const EVENT_QUEUE_CAPACITY: usize = 32;

/// The number of messages that may wait for the tray.
pub const TRAY_QUEUE_CAPACITY: usize = 1;

/// One thing the event loop is to do, in the order given.
#[derive(Debug, Clone, Copy, PartialEq, Eq, Structural)]
pub enum Command {
    /// Pass the message on to the tray.
    NotifyTray(Message),
    /// Cancel the signal of the current epoch.
    Cancel,
    /// Wait until the refresh task has ended.
    JoinRefresh,
    /// Wait until the watch task has ended.
    JoinMonitor,
    /// Make a fresh cancellation signal: the next epoch begins.
    NewEpoch,
    /// Start the refresh task under the current signal, with this interval.
    SpawnRefresh(Timeout),
    /// Start the watch task under the current signal.
    SpawnMonitor,
    /// Resolve the prefix and hand the up-event to the state manager.
    InterfaceUp(IpNet),
    /// Hand the down-event to the state manager.
    InterfaceDown(IpNet),
    /// Run a round of reconciliation.
    Refresh,
    /// Leave the loop.
    Stop,
}

/// Which background tasks run, and in which epoch.
#[derive(Debug, Clone, Copy, PartialEq, Eq, Structural)]
pub struct Orchestrator {
    /// Counts the cancellation signals made so far.
    pub epoch: u64,
    /// Whether the refresh task runs.
    pub refresh_running: bool,
    /// Whether the watch task runs.
    pub monitor_running: bool,
    /// Whether there is a tray to notify.
    pub has_tray: bool,
}

/// The epoch after `epoch`.
pub open spec fn next_epoch(epoch: u64) -> u64 {
    if epoch == u64::MAX {
        0
    } else {
        (epoch + 1) as u64
    }
}

/// The notice to the tray, where there is one.
pub open spec fn notice(has_tray: bool, message: Message) -> Seq<Command> {
    if has_tray {
        seq![Command::NotifyTray(message)]
    } else {
        Seq::empty()
    }
}

/// The commands that end the running tasks: the signal is cancelled, then
/// each task that runs is waited for.
pub open spec fn stop_tasks(orchestrator: Orchestrator) -> Seq<Command> {
    seq![Command::Cancel] + (if orchestrator.refresh_running {
        seq![Command::JoinRefresh]
    } else {
        Seq::empty()
    }) + (if orchestrator.monitor_running {
        seq![Command::JoinMonitor]
    } else {
        Seq::empty()
    })
}

/// The commands that start what does not run. A fresh signal is made only
/// where no task runs.
pub open spec fn start_tasks(orchestrator: Orchestrator, timeout: Timeout) -> Seq<Command> {
    (if !orchestrator.refresh_running && !orchestrator.monitor_running {
        seq![Command::NewEpoch]
    } else {
        Seq::empty()
    }) + (if orchestrator.refresh_running {
        Seq::empty()
    } else {
        seq![Command::SpawnRefresh(timeout)]
    }) + (if orchestrator.monitor_running {
        Seq::empty()
    } else {
        seq![Command::SpawnMonitor]
    })
}

/// The orchestrator, whether the state is suspended, and the commands, after
/// a message was handled.
pub open spec fn spec_handle(
    orchestrator: Orchestrator,
    suspended: bool,
    timeout: Timeout,
    message: Message,
) -> (Orchestrator, bool, Seq<Command>) {
    match message {
        Message::Quit => (orchestrator, suspended, seq![Command::Stop]),
        Message::Suspend => (
            Orchestrator { refresh_running: false, monitor_running: false, ..orchestrator },
            true,
            notice(orchestrator.has_tray, Message::Suspend) + stop_tasks(orchestrator),
        ),
        Message::Resume => (
            Orchestrator {
                epoch: if !orchestrator.refresh_running && !orchestrator.monitor_running {
                    next_epoch(orchestrator.epoch)
                } else {
                    orchestrator.epoch
                },
                refresh_running: true,
                monitor_running: true,
                ..orchestrator
            },
            suspended,
            notice(orchestrator.has_tray, Message::Resume) + start_tasks(orchestrator, timeout),
        ),
        Message::InterfacesLoaded => (orchestrator, false, seq![Command::Refresh]),
        Message::InterfaceUp(net) => (orchestrator, suspended, seq![Command::InterfaceUp(net)]),
        Message::InterfaceDown(net) => (
            orchestrator,
            suspended,
            seq![Command::InterfaceDown(net)],
        ),
        Message::RefreshPeers => (orchestrator, suspended, seq![Command::Refresh]),
    }
}

impl Orchestrator {
    /// The orchestrator before anything runs.
    pub fn new(has_tray: bool) -> (orchestrator: Orchestrator)
        ensures
            orchestrator == (Orchestrator {
                epoch: 0,
                refresh_running: false,
                monitor_running: false,
                has_tray,
            }),
    {
        Orchestrator { epoch: 0, refresh_running: false, monitor_running: false, has_tray }
    }

    /// Starts the background tasks that do not run yet.
    pub fn start(&mut self, timeout: Timeout) -> (commands: Vec<Command>)
        ensures
            commands@ == start_tasks(*old(self), timeout),
            *final(self) == spec_handle(*old(self), false, timeout, Message::Resume).0,
    {
        let mut commands: Vec<Command> = Vec::new();
        if !self.refresh_running && !self.monitor_running {
            self.epoch = if self.epoch == u64::MAX {
                0
            } else {
                self.epoch + 1
            };
            commands.push(Command::NewEpoch);
        }
        if !self.refresh_running {
            commands.push(Command::SpawnRefresh(timeout));
            self.refresh_running = true;
        }
        if !self.monitor_running {
            commands.push(Command::SpawnMonitor);
            self.monitor_running = true;
        }
        assert(commands@ =~= start_tasks(*old(self), timeout));
        commands
    }

    /// Ends the background tasks: cancels their signal and waits for each
    /// that runs, so that none outlives the epoch it was started in.
    pub fn stop(&mut self) -> (commands: Vec<Command>)
        ensures
            commands@ == stop_tasks(*old(self)),
            !final(self).refresh_running,
            !final(self).monitor_running,
            final(self).epoch == old(self).epoch,
            final(self).has_tray == old(self).has_tray,
    {
        let mut commands: Vec<Command> = Vec::new();
        commands.push(Command::Cancel);
        if self.refresh_running {
            commands.push(Command::JoinRefresh);
            self.refresh_running = false;
        }
        if self.monitor_running {
            commands.push(Command::JoinMonitor);
            self.monitor_running = false;
        }
        assert(commands@ =~= stop_tasks(*old(self)));
        commands
    }

    /// Handles one message. Suspending marks the state suspended and asks
    /// for the background tasks to be ended; resuming asks for them to be
    /// started where they do not run; the report that the interfaces are
    /// loaded lifts the suspension and asks for a round of reconciliation.
    /// The interface table is left alone: up-events, down-events and
    /// refreshes are handed on as commands. The commands are to be carried
    /// out, in their order, before the next message is handled.
    pub fn handle(&mut self, state: &mut StateManager, message: Message) -> (commands: Vec<
        Command,
    >)
        ensures
            (*final(self), final(state)@.suspended, commands@) == spec_handle(
                *old(self),
                old(state)@.suspended,
                old(state)@.settings.refresh_timeout,
                message,
            ),
            final(state)@.interfaces == old(state)@.interfaces,
            final(state)@.settings == old(state)@.settings,
    {
        let mut commands: Vec<Command> = Vec::new();
        match message {
            Message::Quit => {
                commands.push(Command::Stop);
            },
            Message::Suspend => {
                if self.has_tray {
                    commands.push(Command::NotifyTray(Message::Suspend));
                }
                let ghost told = commands@;
                let mut stopping = self.stop();
                commands.append(&mut stopping);
                state.suspended = true;
                assert(commands@ =~= notice(old(self).has_tray, Message::Suspend) + stop_tasks(
                    *old(self),
                ));
            },
            Message::Resume => {
                if self.has_tray {
                    commands.push(Command::NotifyTray(Message::Resume));
                }
                let mut starting = self.start(state.settings.refresh_timeout);
                commands.append(&mut starting);
                assert(commands@ =~= notice(old(self).has_tray, Message::Resume) + start_tasks(
                    *old(self),
                    old(state)@.settings.refresh_timeout,
                ));
            },
            Message::InterfacesLoaded => {
                state.suspended = false;
                commands.push(Command::Refresh);
            },
            Message::InterfaceUp(interface) => {
                commands.push(Command::InterfaceUp(interface));
            },
            Message::InterfaceDown(interface) => {
                commands.push(Command::InterfaceDown(interface));
            },
            Message::RefreshPeers => {
                commands.push(Command::Refresh);
            },
        }
        assert(commands@ =~= spec_handle(
            *old(self),
            old(state)@.suspended,
            old(state)@.settings.refresh_timeout,
            message,
        ).2);
        commands
    }

    /// What a hang-up signal asks for: a round of reconciliation.
    pub fn hangup(&self) -> (commands: Vec<Command>)
        ensures
            commands@ == seq![Command::Refresh],
    {
        let mut commands: Vec<Command> = Vec::new();
        commands.push(Command::Refresh);
        commands
    }

    /// What leaving the loop asks for: the tray is told to quit, and the
    /// background tasks are ended.
    pub fn shutdown(&mut self) -> (commands: Vec<Command>)
        ensures
            commands@ == notice(old(self).has_tray, Message::Quit) + stop_tasks(*old(self)),
            !final(self).refresh_running,
            !final(self).monitor_running,
    {
        let mut commands: Vec<Command> = Vec::new();
        if self.has_tray {
            commands.push(Command::NotifyTray(Message::Quit));
        }
        let mut stopping = self.stop();
        commands.append(&mut stopping);
        assert(commands@ =~= notice(old(self).has_tray, Message::Quit) + stop_tasks(*old(self)));
        commands
    }
}

/// Resuming twice starts nothing the second time: once the tasks run, a
/// further resumption at most tells the tray, and the epoch stays.
pub proof fn lemma_resume_twice(orchestrator: Orchestrator, suspended: bool, timeout: Timeout)
    ensures
        ({
            let once = spec_handle(orchestrator, suspended, timeout, Message::Resume);
            let twice = spec_handle(once.0, once.1, timeout, Message::Resume);
            &&& twice.0 == once.0
            &&& twice.1 == once.1
            &&& twice.2 == notice(orchestrator.has_tray, Message::Resume)
        }),
{
    let once = spec_handle(orchestrator, suspended, timeout, Message::Resume);
    assert(start_tasks(once.0, timeout) =~= Seq::empty());
    assert(notice(orchestrator.has_tray, Message::Resume) + Seq::<Command>::empty() =~= notice(
        orchestrator.has_tray,
        Message::Resume,
    ));
}

/// After a suspension no background task runs and the state is suspended,
/// and the commands have cancelled the signal before they wait for a task.
/// A resumption leaves the state suspended until the interfaces are
/// reported as loaded.
pub proof fn lemma_suspend_then_resume(
    orchestrator: Orchestrator,
    suspended: bool,
    timeout: Timeout,
)
    ensures
        ({
            let down = spec_handle(orchestrator, suspended, timeout, Message::Suspend);
            let up = spec_handle(down.0, down.1, timeout, Message::Resume);
            let loaded = spec_handle(up.0, up.1, timeout, Message::InterfacesLoaded);
            &&& !down.0.refresh_running && !down.0.monitor_running && down.1
            &&& stop_tasks(orchestrator)[0] == Command::Cancel
            &&& up.0.refresh_running && up.0.monitor_running && up.1
            &&& up.0.epoch != orchestrator.epoch
            &&& !loaded.1
            &&& loaded.2 == seq![Command::Refresh]
        }),
{
}

} // verus!
