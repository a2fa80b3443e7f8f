//! The messages that subsystem threads exchange, and what a thread does when
//! a peer can no longer be reached.
use std::collections::HashMap;
use vstd::prelude::*;

verus! {

/// A handle that names a script callback in the config thread.
#[derive(Clone, Copy, Debug, PartialEq, Eq, Structural, Hash)]
pub struct CallbackRef {
    pub callback_id: usize,
}

/// A display output as the config thread sees it.
#[derive(Debug)]
pub struct Output {
    pub name: String,
    pub description: String,
    pub location: (i32, i32),
    pub size: (i32, i32),
}

impl Output {
    /// Moves the output.
    pub fn set_location(&mut self, x: i32, y: i32)
        ensures
            final(self).location == (x, y),
            final(self).size == old(self).size,
            final(self).name == old(self).name,
            final(self).description == old(self).description,
    {
        self.location = (x, y);
    }
}

/// A rectangle of compositor space that windows are placed in.
#[derive(Debug)]
pub struct Zone {
    pub name: String,
    /// Offset and size: x, y, width, height.
    pub geometry: (i32, i32, i32, i32),
    pub default: bool,
}

impl Zone {
    pub fn new(name: String, x: i32, y: i32, width: i32, height: i32, default: bool) -> (z: Zone)
        ensures
            z.name == name,
            z.geometry == (x, y, width, height),
            z.default == default,
    {
        Zone { name, geometry: (x, y, width, height), default }
    }
}

/// A rule that sends the windows of one application to a zone.
#[derive(Debug)]
pub struct WindowRule {
    pub app_id: String,
    pub zone: String,
}

/// Messages to the main thread.
#[derive(Debug)]
pub enum MainMessage {
    Shutdown,
}

/// Messages to the display thread.
#[derive(Debug)]
pub enum DisplayMessage {
    Shutdown,
    ActivateSeat(String),
    ToggleDebugUi,
    StartVideoStream,
    SetLayout,
    AddWindowRule(WindowRule),
    SetZones(Vec<Zone>),
    FocusOrSpawn { app_id: String, command: String, args: Vec<String> },
    CloseCurrentWindow,
    MoveCurrentWindowToZone(String),
    VtSwitch(i32),
}

/// Messages to the renderer thread.
#[derive(Debug)]
pub enum RendererMessage {
    Shutdown,
    SeatSessionCreated { seat_name: String },
    SeatSessionPaused,
    SeatSessionResumed,
    FileOpenedInSession { path: String, fd: i32 },
}

/// Messages to the seat thread.
#[derive(Debug)]
pub enum SeatMessage {
    Shutdown,
    SeatEnabled,
    SeatDisabled,
    OpenDevice { path: String },
}

/// Messages to the input thread.
#[derive(Debug)]
pub enum InputMessage {
    Shutdown,
    Keymap { key_name: String, mods: Vec<String>, callback: CallbackRef },
}

/// Messages to the config thread.
pub enum ConfigMessage {
    Shutdown,
    RunCallback(CallbackRef),
    ForgetCallback(CallbackRef),
    Startup,
    ConnectorChange(Vec<Output>),
    ExtraEnv { name: String, value: String },
    Spawn(String, Vec<String>),
    SetOnStartup(CallbackRef),
    SetOnConnectorChange(CallbackRef),
    SetLayout { spaces: HashMap<String, Vec<(String, i32, i32)>> },
    LoadConfig(String),
}

/// The subsystem threads.
#[derive(Clone, Copy, Debug, PartialEq, Eq, Structural)]
pub enum Peer {
    Main,
    Display,
    Renderer,
    Input,
    Config,
    Seat,
}

/// What a thread does when a message to a peer cannot be delivered.
#[derive(Clone, Copy, Debug, PartialEq, Eq, Structural)]
pub enum LostPeerAction {
    /// The main thread is gone: nothing can shut the process down in order.
    Abort,
    /// Ask the main thread for a controlled shutdown.
    RequestShutdown,
}

/// The main thread being unreachable is fatal; any other peer being
/// unreachable asks main to shut down.
pub fn on_lost_peer(peer: Peer) -> (r: LostPeerAction)
    ensures
        peer == Peer::Main <==> r == LostPeerAction::Abort,
        peer != Peer::Main <==> r == LostPeerAction::RequestShutdown,
{
    match peer {
        Peer::Main => LostPeerAction::Abort,
        _ => LostPeerAction::RequestShutdown,
    }
}

} // verus!
