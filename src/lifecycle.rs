//! The decisions of the thread fabric: the main thread's shutdown sequence,
//! and each subsystem's message loop.
use crate::comms::Peer;
use vstd::prelude::*;

verus! {

/// How long the main thread waits for subsystems after a shutdown request.
pub const SHUTDOWN_GRACE_MS: u64 = 1000;

/// What the main thread does on a shutdown request.
#[derive(Clone, Debug, PartialEq, Eq)]
pub enum ShutdownAction {
    /// Already shutting down: nothing more to do.
    Nothing,
    /// Send `Shutdown` to each of these peers, then arm the grace timer.
    Broadcast(Vec<Peer>),
}

/// The subsystems that the main thread tells to shut down.
pub open spec fn subsystems() -> Seq<Peer> {
    seq![Peer::Input, Peer::Display, Peer::Renderer, Peer::Config]
}

/// The main thread's shutdown state.
#[derive(Clone, Copy, Debug, PartialEq, Eq, Structural)]
pub struct ShutdownState {
    pub shutting_down: bool,
    pub force_shutting_down: bool,
}

impl ShutdownState {
    pub fn new() -> (s: ShutdownState)
        ensures
            !s.shutting_down,
            !s.force_shutting_down,
    {
        ShutdownState { shutting_down: false, force_shutting_down: false }
    }

    /// A shutdown request: the first one tells every subsystem and starts the
    /// grace period; later ones change nothing.
    pub fn on_shutdown(&mut self) -> (r: ShutdownAction)
        ensures
            final(self).shutting_down,
            final(self).force_shutting_down == old(self).force_shutting_down,
            old(self).shutting_down ==> r == ShutdownAction::Nothing,
            !old(self).shutting_down ==> r is Broadcast && r->Broadcast_0@ == subsystems(),
    {
        if self.shutting_down {
            return ShutdownAction::Nothing;
        }
        self.shutting_down = true;
        let peers = vec![Peer::Input, Peer::Display, Peer::Renderer, Peer::Config];
        assert(peers@ =~= subsystems());
        ShutdownAction::Broadcast(peers)
    }

    /// The grace period ended, or its timer could not be armed.
    pub fn on_grace_expired(&mut self)
        ensures
            final(self).force_shutting_down,
            final(self).shutting_down == old(self).shutting_down,
    {
        self.force_shutting_down = true;
    }

    /// Checked on every wake: stop once every subsystem has finished after a
    /// shutdown request, or once the grace period is over.
    pub fn should_stop(&self, all_finished: bool) -> (r: bool)
        ensures
            r == (self.shutting_down && all_finished || self.force_shutting_down),
    {
        self.shutting_down && all_finished || self.force_shutting_down
    }
}

/// What a subsystem's loop received.
#[derive(Clone, Copy, Debug, PartialEq, Eq, Structural)]
pub enum LoopEvent {
    /// A message arrived on the channel.
    Message,
    /// Every sender of the channel is gone.
    Closed,
}

/// What the loop does about it.
#[derive(Clone, Copy, Debug, PartialEq, Eq, Structural)]
pub enum LoopAction {
    /// Hand the message to the runner.
    Forward,
    /// Leave the loop.
    Stop,
}

/// A subsystem's message loop: it forwards each message to its runner, asks
/// the runner after each dispatch whether to go on, and stops when its
/// channel closes.
#[derive(Clone, Copy, Debug, PartialEq, Eq, Structural)]
pub struct MessageLoop {
    pub running: bool,
}

impl MessageLoop {
    pub fn new() -> (l: MessageLoop)
        ensures
            l.running,
    {
        MessageLoop { running: true }
    }

    pub fn on_event(&mut self, event: LoopEvent) -> (r: LoopAction)
        ensures
            event == LoopEvent::Message ==> r == LoopAction::Forward && final(self).running == old(self).running,
            event == LoopEvent::Closed ==> r == LoopAction::Stop && !final(self).running,
    {
        match event {
            LoopEvent::Message => LoopAction::Forward,
            LoopEvent::Closed => {
                self.running = false;
                LoopAction::Stop
            },
        }
    }

    /// Called once the loop is about to wait again, with whether the runner
    /// asked to stop; returns whether the loop goes on.
    pub fn on_dispatch_wait(&mut self, runner_stop: bool) -> (r: bool)
        ensures
            r == (old(self).running && !runner_stop),
            final(self).running == r,
    {
        if runner_stop {
            self.running = false;
        }
        self.running
    }
}

} // verus!
