//! The protocol core of a Wayland compositor: the wire codec, per-client
//! object registries, the request dispatcher of the display server, shared
//! memory pools, and the decisions of the thread fabric around them.
pub mod callback;
pub mod cli;
pub mod client;
pub mod codegen;
pub mod comms;
pub mod display;
pub mod dumb_buffer;
pub mod events;
pub mod globals;
pub mod interface;
pub mod lifecycle;
pub mod message;
pub mod protocol;
pub mod reader;
pub mod registry;
pub mod schema;
pub mod seat;
pub mod shm;
pub mod surface;
pub mod wire;
pub mod writer;
