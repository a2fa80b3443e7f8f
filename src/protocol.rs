//! Request signatures: for each interface and opcode the server handles,
//! the wire types of the request's arguments.
use crate::interface::InterfaceIndex;
use crate::message::ArgType;
use vstd::prelude::*;

verus! {

pub const WL_DISPLAY_SYNC: u16 = 0;
pub const WL_DISPLAY_GET_REGISTRY: u16 = 1;
pub const WL_REGISTRY_BIND: u16 = 0;
pub const WL_COMPOSITOR_CREATE_SURFACE: u16 = 0;
pub const WL_SHM_CREATE_POOL: u16 = 0;
pub const WL_SHM_RELEASE: u16 = 1;
pub const WL_SHM_POOL_CREATE_BUFFER: u16 = 0;
pub const WL_SHM_POOL_DESTROY: u16 = 1;
pub const WL_SHM_POOL_RESIZE: u16 = 2;
pub const WL_BUFFER_DESTROY: u16 = 0;
pub const WL_SURFACE_DESTROY: u16 = 0;
pub const WL_SURFACE_ATTACH: u16 = 1;
pub const WL_SURFACE_COMMIT: u16 = 6;

/// The argument types of a request the server handles; `None` for any other.
pub open spec fn signature_of(iface: InterfaceIndex, opcode: u16) -> Option<Seq<ArgType>> {
    match (iface, opcode) {
        (InterfaceIndex::WlDisplay, 0) => Some(seq![ArgType::NewId]),
        (InterfaceIndex::WlDisplay, 1) => Some(seq![ArgType::NewId]),
        (InterfaceIndex::WlRegistry, 0) => Some(seq![ArgType::Uint, ArgType::Str, ArgType::Uint, ArgType::NewId]),
        (InterfaceIndex::WlCompositor, 0) => Some(seq![ArgType::NewId]),
        (InterfaceIndex::WlShm, 0) => Some(seq![ArgType::NewId, ArgType::Fd, ArgType::Int]),
        (InterfaceIndex::WlShm, 1) => Some(Seq::empty()),
        (InterfaceIndex::WlShmPool, 0) => Some(seq![
            ArgType::NewId,
            ArgType::Int,
            ArgType::Int,
            ArgType::Int,
            ArgType::Int,
            ArgType::Uint,
        ]),
        (InterfaceIndex::WlShmPool, 1) => Some(Seq::empty()),
        (InterfaceIndex::WlShmPool, 2) => Some(seq![ArgType::Int]),
        (InterfaceIndex::WlBuffer, 0) => Some(Seq::empty()),
        (InterfaceIndex::WlSurface, 0) => Some(Seq::empty()),
        (InterfaceIndex::WlSurface, 1) => Some(seq![ArgType::Object, ArgType::Int, ArgType::Int]),
        (InterfaceIndex::WlSurface, 6) => Some(Seq::empty()),
        _ => None,
    }
}

/// The argument types of a request the server handles; `None` for any other.
pub fn request_signature(iface: InterfaceIndex, opcode: u16) -> (r: Option<Vec<ArgType>>)
    ensures
        match signature_of(iface, opcode) {
            Some(s) => r is Some && r->Some_0@ == s,
            None => r is None,
        },
{
    let r = match (iface, opcode) {
        (InterfaceIndex::WlDisplay, 0) => Some(vec![ArgType::NewId]),
        (InterfaceIndex::WlDisplay, 1) => Some(vec![ArgType::NewId]),
        (InterfaceIndex::WlRegistry, 0) => Some(vec![ArgType::Uint, ArgType::Str, ArgType::Uint, ArgType::NewId]),
        (InterfaceIndex::WlCompositor, 0) => Some(vec![ArgType::NewId]),
        (InterfaceIndex::WlShm, 0) => Some(vec![ArgType::NewId, ArgType::Fd, ArgType::Int]),
        (InterfaceIndex::WlShm, 1) => Some(Vec::new()),
        (InterfaceIndex::WlShmPool, 0) => Some(vec![
            ArgType::NewId,
            ArgType::Int,
            ArgType::Int,
            ArgType::Int,
            ArgType::Int,
            ArgType::Uint,
        ]),
        (InterfaceIndex::WlShmPool, 1) => Some(Vec::new()),
        (InterfaceIndex::WlShmPool, 2) => Some(vec![ArgType::Int]),
        (InterfaceIndex::WlBuffer, 0) => Some(Vec::new()),
        (InterfaceIndex::WlSurface, 0) => Some(Vec::new()),
        (InterfaceIndex::WlSurface, 1) => Some(vec![ArgType::Object, ArgType::Int, ArgType::Int]),
        (InterfaceIndex::WlSurface, 6) => Some(Vec::new()),
        _ => None,
    };
    proof {
        if r is Some {
            assert(r->Some_0@ =~= signature_of(iface, opcode)->Some_0);
        }
    }
    r
}

} // verus!
