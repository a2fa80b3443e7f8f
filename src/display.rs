//! The display server's side of the protocol: what each handled request does
//! to the server's state and which events it sends back.
use crate::events::{
    DISPLAY_ID, WL_CALLBACK_DONE, WL_DISPLAY_DELETE_ID, WL_DISPLAY_ERROR,
    WL_DISPLAY_ERROR_INVALID_METHOD, WL_DISPLAY_ERROR_INVALID_OBJECT, WL_REGISTRY_GLOBAL,
    WL_SEAT_CAPABILITIES, WL_SEAT_CAPABILITY_KEYBOARD, WL_SEAT_CAPABILITY_POINTER, WL_SEAT_NAME,
    WL_SHM_ERROR_INVALID_FD, WL_SHM_ERROR_INVALID_FORMAT, WL_SHM_FORMAT, WL_SHM_FORMAT_RGBA8888,
    WL_SHM_FORMAT_XRGB8888,
};
use crate::globals::{Global, GlobalId, Globals};
use crate::interface::{all_interfaces, name_of, version_of, InterfaceIndex};
use crate::message::{arg_values, Arg, ArgValue};
use crate::protocol::{
    signature_of, WL_BUFFER_DESTROY, WL_COMPOSITOR_CREATE_SURFACE, WL_DISPLAY_GET_REGISTRY,
    WL_DISPLAY_SYNC, WL_REGISTRY_BIND, WL_SHM_CREATE_POOL, WL_SHM_POOL_CREATE_BUFFER,
    WL_SHM_POOL_DESTROY, WL_SHM_POOL_RESIZE, WL_SHM_RELEASE, WL_SURFACE_ATTACH,
    WL_SURFACE_COMMIT, WL_SURFACE_DESTROY,
};
use crate::registry::{is_server_id, Registry};
use crate::seat::SeatManager;
use crate::shm::{object_key, Mapping, ShmBuffer, ShmManager, ShmPool};
use crate::surface::{empty_state, Surface, SurfaceManager, SurfaceState};
use crate::client::{heard_of, Client};
use crate::writer::{lemma_wrote_all_one, lemma_wrote_all_push, lemma_wrote_all_empty, wrote_all, Outgoing, Writer};
use vstd::prelude::*;
use vstd::utf8::encode_utf8;

verus! {

/// Work that a handled request leaves to the caller, who owns the memory
/// mappings.
#[derive(Clone, Copy, Debug, PartialEq, Eq, Structural)]
pub enum Effect {
    /// Nothing to do.
    Nothing,
    /// Map `size` bytes of `fd`, shared and read-only, then hand the address
    /// (or the failure) to `finish_create_pool`.
    MapPool { pool_id: u32, fd: i32, size: usize },
    /// Map the pool's `fd` at its new `size`, then hand the address (or the
    /// failure) to `finish_resize_pool`.
    RemapPool { pool_id: u32, fd: i32, size: usize },
    /// Release a mapping that no pool uses any more.
    Unmap(Mapping),
}

/// The outcome of handling one request.
#[derive(Clone, Copy, Debug, PartialEq, Eq, Structural)]
pub enum Step {
    /// No whole message is buffered.
    Idle,
    /// A request was handled; the caller performs the effect and goes on.
    Handled(Effect),
    /// The client broke the protocol: an error event is queued; the caller
    /// flushes the writer and drops the connection.
    Disconnect,
}

/// `wl_display.error` about `object_id`.
pub open spec fn error_event(object_id: u32, code: u32, text: Seq<char>) -> Outgoing {
    (DISPLAY_ID, WL_DISPLAY_ERROR, seq![ArgValue::Object(object_id), ArgValue::Uint(code), ArgValue::Str(Some(encode_utf8(text)))])
}

/// The arguments of `wl_registry.global` for one global.
pub open spec fn global_args(g: Global) -> Seq<ArgValue> {
    seq![
        ArgValue::Uint(g.id),
        ArgValue::Str(Some(encode_utf8(name_of(g.interface_index)))),
        ArgValue::Uint(version_of(g.interface_index)),
    ]
}

/// One `wl_registry.global` for each global, in order, to one registry object.
pub open spec fn global_events(registry_id: u32, gs: Seq<Global>) -> Seq<Outgoing> {
    Seq::new(gs.len(), |i: int| (registry_id, WL_REGISTRY_GLOBAL, global_args(gs[i])))
}

/// One `wl_registry.global` for one global, to each registry object.
pub open spec fn broadcast_events(registry_ids: Seq<u32>, g: Global) -> Seq<Outgoing> {
    Seq::new(registry_ids.len(), |i: int| (registry_ids[i], WL_REGISTRY_GLOBAL, global_args(g)))
}

/// The events that answer `wl_display.sync`.
pub open spec fn sync_events(callback_id: u32) -> Seq<Outgoing> {
    seq![
        (callback_id, WL_CALLBACK_DONE, seq![ArgValue::Uint(0)]),
        (DISPLAY_ID, WL_DISPLAY_DELETE_ID, seq![ArgValue::Uint(callback_id)]),
    ]
}

/// The events that follow binding `wl_shm`.
pub open spec fn shm_bind_events(shm_id: u32) -> Seq<Outgoing> {
    seq![
        (shm_id, WL_SHM_FORMAT, seq![ArgValue::Uint(WL_SHM_FORMAT_XRGB8888)]),
        (shm_id, WL_SHM_FORMAT, seq![ArgValue::Uint(WL_SHM_FORMAT_RGBA8888)]),
    ]
}

/// A new object id the client may use: not zero, not in the server's range,
/// and not live.
pub open spec fn new_id_ok(registry: Registry, id: u32) -> bool {
    id != 0 && !is_server_id(id) && !registry.objects().contains_key(id)
}

/// The events that follow binding `wl_seat`: the seat's name, when the
/// global has one, then its capabilities.
pub open spec fn seat_bind_events(seat_id: u32, name: Option<Seq<char>>) -> Seq<Outgoing> {
    let caps = (seat_id, WL_SEAT_CAPABILITIES, seq![ArgValue::Uint(WL_SEAT_CAPABILITY_POINTER | WL_SEAT_CAPABILITY_KEYBOARD)]);
    match name {
        Some(n) => seq![(seat_id, WL_SEAT_NAME, seq![ArgValue::Str(Some(encode_utf8(n)))]), caps],
        None => seq![caps],
    }
}

/// Sends a newly bound shared-memory object the two pixel formats.
fn announce_shm_formats(writer: &mut Writer, shm_id: u32)
    ensures
        wrote_all(*old(writer), *final(writer), shm_bind_events(shm_id)),
{
    let ghost w0 = *writer;
    writer.wl_shm_format(shm_id, WL_SHM_FORMAT_XRGB8888);
    let ghost w1 = *writer;
    writer.wl_shm_format(shm_id, WL_SHM_FORMAT_RGBA8888);
    proof {
        let m0 = (shm_id, WL_SHM_FORMAT, seq![ArgValue::Uint(WL_SHM_FORMAT_XRGB8888)]);
        let m1 = (shm_id, WL_SHM_FORMAT, seq![ArgValue::Uint(WL_SHM_FORMAT_RGBA8888)]);
        lemma_wrote_all_one(w0, w1, m0);
        lemma_wrote_all_push(w0, w1, *writer, seq![m0], m1);
        assert(seq![m0].push(m1) =~= shm_bind_events(shm_id));
    }
}

/// The surfaces after `wl_surface.attach` on the surface under `key`: its
/// pending state takes the buffer (none for a null buffer) and the offset; an
/// unknown surface changes nothing.
pub open spec fn attached(surfaces: Map<u64, Surface>, key: u64, buffer: u32, dx: i32, dy: i32) -> Map<u64, Surface> {
    if surfaces.contains_key(key) {
        surfaces.insert(
            key,
            Surface {
                pending: SurfaceState { buffer: if buffer == 0 { None } else { Some(buffer) }, dx, dy },
                ..surfaces[key]
            },
        )
    } else {
        surfaces
    }
}

/// Sends each global to a registry object; the sends are as the events say.
pub fn announce_globals(writer: &mut Writer, registry_id: u32, globals: &[Global])
    ensures
        wrote_all(*old(writer), *final(writer), global_events(registry_id, globals@)),
{
    let mut i: usize = 0;
    proof {
        lemma_wrote_all_empty(*writer);
        assert(global_events(registry_id, globals@.take(0)) =~= Seq::<Outgoing>::empty());
    }
    while i < globals.len()
        invariant
            i <= globals@.len(),
            wrote_all(*old(writer), *writer, global_events(registry_id, globals@.take(i as int))),
        decreases globals@.len() - i,
    {
        let g = globals[i];
        let ghost before = *writer;
        writer.wl_registry_global(registry_id, g.id, g.interface_index, g.interface_index.interface_version());
        proof {
            lemma_wrote_all_push(*old(writer), before, *writer, global_events(registry_id, globals@.take(i as int)), (registry_id, WL_REGISTRY_GLOBAL, global_args(g)));
            assert(global_events(registry_id, globals@.take(i as int)).push((registry_id, WL_REGISTRY_GLOBAL, global_args(g))) =~= global_events(registry_id, globals@.take(i + 1)));
        }
        i = i + 1;
    }
    assert(globals@.take(i as int) =~= globals@);
}

/// Sends one global to each registry object.
pub fn broadcast_global(writer: &mut Writer, registry_ids: &[u32], g: Global)
    ensures
        wrote_all(*old(writer), *final(writer), broadcast_events(registry_ids@, g)),
{
    let mut i: usize = 0;
    proof {
        lemma_wrote_all_empty(*writer);
        assert(broadcast_events(registry_ids@.take(0), g) =~= Seq::<Outgoing>::empty());
    }
    while i < registry_ids.len()
        invariant
            i <= registry_ids@.len(),
            wrote_all(*old(writer), *writer, broadcast_events(registry_ids@.take(i as int), g)),
        decreases registry_ids@.len() - i,
    {
        let id = registry_ids[i];
        let ghost before = *writer;
        writer.wl_registry_global(id, g.id, g.interface_index, g.interface_index.interface_version());
        proof {
            lemma_wrote_all_push(*old(writer), before, *writer, broadcast_events(registry_ids@.take(i as int), g), (id, WL_REGISTRY_GLOBAL, global_args(g)));
            assert(broadcast_events(registry_ids@.take(i as int), g).push((id, WL_REGISTRY_GLOBAL, global_args(g))) =~= broadcast_events(registry_ids@.take(i + 1), g));
        }
        i = i + 1;
    }
    assert(registry_ids@.take(i as int) =~= registry_ids@);
}

/// Answers `wl_display.sync`: `wl_callback.done(0)` on the callback, then
/// `wl_display.delete_id` of it.
pub fn handle_sync(writer: &mut Writer, callback_id: u32) -> (r: Step)
    ensures
        r == Step::Handled(Effect::Nothing),
        wrote_all(*old(writer), *final(writer), sync_events(callback_id)),
{
    let ghost w0 = *writer;
    writer.wl_callback_done(callback_id, 0);
    let ghost w1 = *writer;
    writer.wl_display_delete_id(callback_id);
    proof {
        lemma_wrote_all_one(w0, w1, (callback_id, WL_CALLBACK_DONE, seq![ArgValue::Uint(0)]));
        lemma_wrote_all_push(w0, w1, *writer, seq![(callback_id, WL_CALLBACK_DONE, seq![ArgValue::Uint(0)])], (DISPLAY_ID, WL_DISPLAY_DELETE_ID, seq![ArgValue::Uint(callback_id)]));
        assert(seq![(callback_id, WL_CALLBACK_DONE, seq![ArgValue::Uint(0)])].push((DISPLAY_ID, WL_DISPLAY_DELETE_ID, seq![ArgValue::Uint(callback_id)])) =~= sync_events(callback_id));
    }
    Step::Handled(Effect::Nothing)
}

/// Registers a new object the client named, or reports the id as invalid.
fn register_new(registry: &mut Registry, writer: &mut Writer, new_id: u32, iface: InterfaceIndex) -> (ok: bool)
    requires
        old(registry).wf(),
    ensures
        final(registry).wf(),
        final(registry).free_list() == old(registry).free_list(),
        final(registry).next_id() == old(registry).next_id(),
        ok == (new_id != 0 && !is_server_id(new_id) && !old(registry).objects().contains_key(new_id)),
        ok ==> final(registry).objects() == old(registry).objects().insert(new_id, iface) && *final(writer) == *old(writer),
        !ok ==> final(registry).objects() == old(registry).objects() && wrote_all(
            *old(writer),
            *final(writer),
            seq![error_event(new_id, WL_DISPLAY_ERROR_INVALID_OBJECT, "invalid new object id"@)],
        ),
{
    match registry.register_object(new_id, iface) {
        Ok(()) => true,
        Err(_) => {
            let ghost w0 = *writer;
            writer.wl_display_error(new_id, WL_DISPLAY_ERROR_INVALID_OBJECT, "invalid new object id");
            proof {
                lemma_wrote_all_one(w0, *writer, error_event(new_id, WL_DISPLAY_ERROR_INVALID_OBJECT, "invalid new object id"@));
            }
            false
        },
    }
}

/// Reports a protocol error about `object_id`; the connection is to be dropped.
pub fn fail(writer: &mut Writer, object_id: u32, code: u32, text: &str) -> (r: Step)
    ensures
        r == Step::Disconnect,
        wrote_all(*old(writer), *final(writer), seq![error_event(object_id, code, text@)]),
{
    let ghost w0 = *writer;
    writer.wl_display_error(object_id, code, text);
    proof {
        lemma_wrote_all_one(w0, *writer, error_event(object_id, code, text@));
    }
    Step::Disconnect
}

/// What the display server knows beyond any one connection.
pub struct DisplayState {
    pub globals: Globals,
    pub shm: ShmManager,
    pub surfaces: SurfaceManager,
    pub seats: SeatManager,
}

impl DisplayState {
    pub open spec fn wf(&self) -> bool {
        &&& self.globals.wf()
        &&& self.shm.wf()
        &&& self.seats.ids_below(self.globals.next())
    }

    /// Adds a global and announces it to every registry object of every
    /// client; `None`, with nothing changed, when no global name is left.
    pub fn register_global(&mut self, interface_index: InterfaceIndex, clients: &mut Vec<Client>) -> (r: Option<GlobalId>)
        requires
            old(self).wf(),
            forall|i: int| 0 <= i < old(clients)@.len() ==> (#[trigger] old(clients)@[i]).wf(),
        ensures
            final(self).wf(),
            final(self).shm == old(self).shm,
            final(self).surfaces == old(self).surfaces,
            final(self).seats == old(self).seats,
            final(clients)@.len() == old(clients)@.len(),
            forall|i: int| 0 <= i < final(clients)@.len() ==> (#[trigger] final(clients)@[i]).wf(),
            old(self).globals.next() <= u32::MAX ==> {
                let g = Global { id: old(self).globals.next() as u32, interface_index };
                &&& r == Some(g.id)
                &&& final(self).globals.entries() == old(self).globals.entries().push(g)
                &&& forall|i: int| 0 <= i < old(clients)@.len() ==> heard_of(#[trigger] old(clients)@[i], final(clients)@[i], g)
            },
            old(self).globals.next() > u32::MAX ==> r is None && final(self).globals.entries() == old(self).globals.entries()
                && final(clients)@ == old(clients)@,
    {
        let id = match self.globals.register(interface_index) {
            Some(id) => id,
            None => {
                return None;
            },
        };
        let g = Global { id, interface_index };
        broadcast_to_clients(clients, g);
        Some(id)
    }

    /// Adds a seat unless one of that name is known; a new seat's `wl_seat`
    /// global is announced to every client.
    pub fn activate_seat(&mut self, seat_name: String, clients: &mut Vec<Client>) -> (r: Option<GlobalId>)
        requires
            old(self).wf(),
            forall|i: int| 0 <= i < old(clients)@.len() ==> (#[trigger] old(clients)@[i]).wf(),
        ensures
            final(self).wf(),
            final(self).shm == old(self).shm,
            final(self).surfaces == old(self).surfaces,
            final(clients)@.len() == old(clients)@.len(),
            forall|i: int| 0 <= i < final(clients)@.len() ==> (#[trigger] final(clients)@[i]).wf(),
            old(self).seats.knows(seat_name@) ==> r is None && final(self).globals == old(self).globals
                && final(self).seats.seats() == old(self).seats.seats() && final(clients)@ == old(clients)@,
            !old(self).seats.knows(seat_name@) && old(self).globals.next() <= u32::MAX ==> {
                let g = Global { id: old(self).globals.next() as u32, interface_index: InterfaceIndex::WlSeat };
                &&& r == Some(g.id)
                &&& final(self).globals.entries() == old(self).globals.entries().push(g)
                &&& final(self).seats.name_of_global(g.id) == Some(seat_name@)
                &&& forall|i: int| 0 <= i < old(clients)@.len() ==> heard_of(#[trigger] old(clients)@[i], final(clients)@[i], g)
            },
    {
        match self.seats.add_seat(seat_name, &mut self.globals) {
            Some(id) => {
                broadcast_to_clients(clients, Global { id, interface_index: InterfaceIndex::WlSeat });
                Some(id)
            },
            None => None,
        }
    }

    /// A server with the compositor and shared-memory globals, and nothing else.
    pub fn new() -> (d: DisplayState)
        ensures
            d.wf(),
            d.globals.entries() == seq![
                Global { id: 1, interface_index: InterfaceIndex::WlCompositor },
                Global { id: 2, interface_index: InterfaceIndex::WlShm },
            ],
    {
        DisplayState {
            globals: Globals::new(),
            shm: ShmManager::new(),
            surfaces: SurfaceManager::new(),
            seats: SeatManager::new(),
        }
    }

    /// `wl_display.get_registry`: registers the registry object, then
    /// announces every live global to it.
    pub fn handle_get_registry(&self, registry: &mut Registry, writer: &mut Writer, registry_id: u32) -> (r: Step)
        requires
            old(registry).wf(),
        ensures
            final(registry).wf(),
            r == Step::Disconnect || r == Step::Handled(Effect::Nothing),
            r == Step::Handled(Effect::Nothing) <==> (registry_id != 0 && !is_server_id(registry_id)
                && !old(registry).objects().contains_key(registry_id)),
            r == Step::Handled(Effect::Nothing) ==> final(registry).objects() == old(registry).objects().insert(
                registry_id,
                InterfaceIndex::WlRegistry,
            ) && wrote_all(*old(writer), *final(writer), global_events(registry_id, self.globals.entries())),
            r == Step::Disconnect ==> final(registry).objects() == old(registry).objects(),
    {
        if !register_new(registry, writer, registry_id, InterfaceIndex::WlRegistry) {
            return Step::Disconnect;
        }
        announce_globals(writer, registry_id, self.globals.iter());
        Step::Handled(Effect::Nothing)
    }

    /// `wl_registry.bind`: a global the server does not have, or an interface
    /// it does not know, is ignored. Otherwise the new object is registered
    /// with the interface the client names; binding `wl_shm` announces the
    /// two pixel formats, binding `wl_seat` the seat's name and capabilities.
    pub fn handle_bind(
        &self,
        registry: &mut Registry,
        writer: &mut Writer,
        name: GlobalId,
        interface: &[u8],
        version: u32,
        new_id: u32,
    ) -> (r: Step)
        requires
            old(registry).wf(),
        ensures
            (exists|k: int| 0 <= k < self.globals.entries().len() && self.globals.entries()[k].id == name)
                && (forall|k: int| 0 <= k < all_interfaces().len() ==> encode_utf8(name_of(#[trigger] all_interfaces()[k])) != interface@)
                ==> r == Step::Handled(Effect::Nothing) && final(registry).objects() == old(registry).objects()
                && *final(writer) == *old(writer),
            (exists|k: int| 0 <= k < self.globals.entries().len() && self.globals.entries()[k].id == name)
                && (exists|k: int| 0 <= k < all_interfaces().len() && encode_utf8(name_of(#[trigger] all_interfaces()[k])) == interface@)
                ==> ({
                &&& new_id_ok(*old(registry), new_id) ==> r == Step::Handled(Effect::Nothing) && exists|i: InterfaceIndex|
                    encode_utf8(name_of(i)) == interface@ && #[trigger] final(registry).objects() == old(registry).objects().insert(new_id, i)
                &&& !new_id_ok(*old(registry), new_id) ==> r == Step::Disconnect && final(registry).objects() == old(registry).objects()
                    && wrote_all(*old(writer), *final(writer), seq![error_event(new_id, WL_DISPLAY_ERROR_INVALID_OBJECT, "invalid new object id"@)])
            }),
            final(registry).wf(),
            r != Step::Idle,
            r == Step::Disconnect ==> final(registry).objects() == old(registry).objects(),
            r is Handled ==> r == Step::Handled(Effect::Nothing),
            (forall|k: int| 0 <= k < self.globals.entries().len() ==> self.globals.entries()[k].id != name)
                ==> r == Step::Handled(Effect::Nothing) && final(registry).objects() == old(registry).objects()
                && *final(writer) == *old(writer),
            (exists|k: int| 0 <= k < self.globals.entries().len() && self.globals.entries()[k].id == name)
                && new_id != 0 && !is_server_id(new_id) && !old(registry).objects().contains_key(new_id)
                && encode_utf8(name_of(InterfaceIndex::WlShm)) == interface@
                ==> r == Step::Handled(Effect::Nothing) && final(registry).objects() == old(registry).objects().insert(
                new_id,
                InterfaceIndex::WlShm,
            ) && wrote_all(*old(writer), *final(writer), shm_bind_events(new_id)),
            (exists|k: int| 0 <= k < self.globals.entries().len() && self.globals.entries()[k].id == name)
                && new_id != 0 && !is_server_id(new_id) && !old(registry).objects().contains_key(new_id)
                && encode_utf8(name_of(InterfaceIndex::WlSeat)) == interface@
                ==> r == Step::Handled(Effect::Nothing) && final(registry).objects() == old(registry).objects().insert(
                new_id,
                InterfaceIndex::WlSeat,
            ) && wrote_all(*old(writer), *final(writer), seat_bind_events(new_id, self.seats.name_of_global(name))),
    {
        if self.globals.get(name).is_none() {
            return Step::Handled(Effect::Nothing);
        }
        let iface = match InterfaceIndex::from_name(interface) {
            Some(i) => i,
            None => {
                proof {
                    assert(crate::interface::all_interfaces()[4] == InterfaceIndex::WlShm);
                }
                return Step::Handled(Effect::Nothing);
            },
        };
        proof {
            if encode_utf8(name_of(InterfaceIndex::WlShm)) == interface@ {
                lemma_interface_names_differ(iface, InterfaceIndex::WlShm);
            }
            if encode_utf8(name_of(InterfaceIndex::WlSeat)) == interface@ {
                lemma_interface_names_differ(iface, InterfaceIndex::WlSeat);
            }
        }
        if !register_new(registry, writer, new_id, iface) {
            return Step::Disconnect;
        }
        match iface {
            InterfaceIndex::WlShm => announce_shm_formats(writer, new_id),
            InterfaceIndex::WlSeat => self.announce_seat(writer, new_id, name),
            _ => {},
        }
        Step::Handled(Effect::Nothing)
    }

    /// Sends a newly bound seat object its name, when its global has one,
    /// and its capabilities.
    fn announce_seat(&self, writer: &mut Writer, seat_id: u32, name: GlobalId)
        ensures
            wrote_all(*old(writer), *final(writer), seat_bind_events(seat_id, self.seats.name_of_global(name))),
    {
        let ghost w0 = *writer;
        let ghost caps = (seat_id, WL_SEAT_CAPABILITIES, seq![ArgValue::Uint(WL_SEAT_CAPABILITY_POINTER | WL_SEAT_CAPABILITY_KEYBOARD)]);
        match self.seats.get_name(name) {
            Some(seat_name) => {
                writer.wl_seat_name(seat_id, seat_name.as_bytes());
                let ghost w1 = *writer;
                writer.wl_seat_capabilities(seat_id, WL_SEAT_CAPABILITY_POINTER | WL_SEAT_CAPABILITY_KEYBOARD);
                proof {
                    let m0 = (seat_id, WL_SEAT_NAME, seq![ArgValue::Str(Some(encode_utf8(seat_name@)))]);
                    lemma_wrote_all_one(w0, w1, m0);
                    lemma_wrote_all_push(w0, w1, *writer, seq![m0], caps);
                    assert(seq![m0].push(caps) =~= seat_bind_events(seat_id, self.seats.name_of_global(name)));
                }
            },
            None => {
                writer.wl_seat_capabilities(seat_id, WL_SEAT_CAPABILITY_POINTER | WL_SEAT_CAPABILITY_KEYBOARD);
                proof {
                    lemma_wrote_all_one(w0, *writer, caps);
                    assert(seq![caps] =~= seat_bind_events(seat_id, self.seats.name_of_global(name)));
                }
            },
        }
    }

    /// `wl_compositor.create_surface`.
    pub fn handle_create_surface(&mut self, client_id: u32, registry: &mut Registry, writer: &mut Writer, new_id: u32) -> (r: Step)
        requires
            old(registry).wf(),
        ensures
            final(self).seats == old(self).seats,
            final(registry).wf(),
            final(self).globals == old(self).globals,
            final(self).shm == old(self).shm,
            r == Step::Disconnect || r == Step::Handled(Effect::Nothing),
            r == Step::Handled(Effect::Nothing) <==> (new_id != 0 && !is_server_id(new_id) && !old(registry).objects().contains_key(new_id)),
            r == Step::Handled(Effect::Nothing) ==> final(registry).objects() == old(registry).objects().insert(new_id, InterfaceIndex::WlSurface)
                && final(self).surfaces.surfaces().contains_key(object_key(client_id, new_id)) && *final(writer) == *old(writer),
            r == Step::Disconnect ==> final(registry).objects() == old(registry).objects(),
    {
        if !register_new(registry, writer, new_id, InterfaceIndex::WlSurface) {
            return Step::Disconnect;
        }
        self.surfaces.create_surface(client_id, new_id);
        Step::Handled(Effect::Nothing)
    }

    /// `wl_shm.create_pool`: registers the pool object and asks the caller to
    /// map the memory; a size that is not positive cannot be mapped.
    pub fn handle_create_pool(&self, registry: &mut Registry, writer: &mut Writer, new_id: u32, fd: i32, size: i32) -> (r: Step)
        requires
            old(registry).wf(),
        ensures
            final(registry).wf(),
            !(new_id != 0 && !is_server_id(new_id) && !old(registry).objects().contains_key(new_id)) ==> r == Step::Disconnect
                && final(registry).objects() == old(registry).objects(),
            new_id != 0 && !is_server_id(new_id) && !old(registry).objects().contains_key(new_id) ==> {
                &&& final(registry).objects() == old(registry).objects().insert(new_id, InterfaceIndex::WlShmPool)
                &&& size > 0 ==> r == Step::Handled(Effect::MapPool { pool_id: new_id, fd, size: size as usize }) && *final(writer) == *old(writer)
                &&& size <= 0 ==> r == Step::Disconnect && wrote_all(*old(writer), *final(writer), seq![error_event(new_id, WL_SHM_ERROR_INVALID_FD, "invalid pool size"@)])
            },
    {
        if !register_new(registry, writer, new_id, InterfaceIndex::WlShmPool) {
            return Step::Disconnect;
        }
        if size <= 0 {
            return fail(writer, new_id, WL_SHM_ERROR_INVALID_FD, "invalid pool size");
        }
        Step::Handled(Effect::MapPool { pool_id: new_id, fd, size: size as usize })
    }

    /// Completes `wl_shm.create_pool` once the caller has tried to map it:
    /// a failed mapping is reported as `invalid_fd` on the pool.
    pub fn finish_create_pool(&mut self, client_id: u32, writer: &mut Writer, pool_id: u32, fd: i32, size: usize, mapped: Option<usize>) -> (r: Step)
        requires
            old(self).wf(),
        ensures
            final(self).seats == old(self).seats,
            final(self).wf(),
            r == Step::Disconnect || r == Step::Handled(Effect::Nothing),
            r == Step::Handled(Effect::Nothing) <==> (mapped is Some && !old(self).shm.pool_keys().contains_key(object_key(client_id, pool_id))),
            r == Step::Handled(Effect::Nothing) ==> *final(writer) == *old(writer)
                && final(self).shm.pool_keys().contains_key(object_key(client_id, pool_id))
                && final(self).shm.pools()[final(self).shm.pool_keys()[object_key(client_id, pool_id)] as int]
                == (ShmPool { fd, size, address: mapped, ref_count: 1 }),
            r == Step::Disconnect ==> wrote_all(*old(writer), *final(writer), seq![error_event(pool_id, WL_SHM_ERROR_INVALID_FD, "cannot map pool"@)]),
            r == Step::Disconnect ==> final(self).shm.pool_keys() == old(self).shm.pool_keys()
                && final(self).shm.pools() == old(self).shm.pools()
                && final(self).shm.buffers() == old(self).shm.buffers()
                && final(self).shm.buffer_keys() == old(self).shm.buffer_keys(),
            final(self).globals == old(self).globals,
            final(self).surfaces == old(self).surfaces,
    {
        match self.shm.create_pool(client_id, pool_id, fd, size, mapped) {
            Ok(()) => Step::Handled(Effect::Nothing),
            Err(_) => fail(writer, pool_id, WL_SHM_ERROR_INVALID_FD, "cannot map pool"),
        }
    }

    /// `wl_shm_pool.create_buffer`: registers the buffer and cuts it from the
    /// pool; a failure is reported as `invalid_format` on the buffer.
    pub fn handle_create_buffer(
        &mut self,
        client_id: u32,
        registry: &mut Registry,
        writer: &mut Writer,
        pool_id: u32,
        new_id: u32,
        offset: i32,
        width: i32,
        height: i32,
        stride: i32,
        format: u32,
    ) -> (r: Step)
        requires
            old(registry).wf(),
            old(self).wf(),
        ensures
            final(self).globals == old(self).globals,
            final(self).seats == old(self).seats,
            final(registry).wf(),
            final(self).wf(),
            r == Step::Disconnect || r == Step::Handled(Effect::Nothing),
            r == Step::Handled(Effect::Nothing) ==> final(registry).objects() == old(registry).objects().insert(new_id, InterfaceIndex::WlBuffer)
                && final(self).shm.buffer_keys().contains_key(object_key(client_id, new_id)) && *final(writer) == *old(writer),
            new_id != 0 && !is_server_id(new_id) && !old(registry).objects().contains_key(new_id) && offset >= 0
                && old(self).shm.pool_keys().contains_key(object_key(client_id, pool_id))
                && !old(self).shm.buffer_keys().contains_key(object_key(client_id, new_id))
                && old(self).shm.pools()[old(self).shm.pool_keys()[object_key(client_id, pool_id)] as int].ref_count < usize::MAX
                ==> r == Step::Handled(Effect::Nothing),
            !new_id_ok(*old(registry), new_id) ==> r == Step::Disconnect && final(registry).objects() == old(registry).objects()
                && wrote_all(*old(writer), *final(writer), seq![error_event(new_id, WL_DISPLAY_ERROR_INVALID_OBJECT, "invalid new object id"@)]),
            new_id_ok(*old(registry), new_id) && r == Step::Disconnect ==> final(registry).objects() == old(registry).objects().insert(new_id, InterfaceIndex::WlBuffer)
                && wrote_all(*old(writer), *final(writer), seq![error_event(new_id, WL_SHM_ERROR_INVALID_FORMAT, "cannot create buffer"@)]),
    {
        if !register_new(registry, writer, new_id, InterfaceIndex::WlBuffer) {
            return Step::Disconnect;
        }
        if offset < 0 {
            return fail(writer, new_id, WL_SHM_ERROR_INVALID_FORMAT, "cannot create buffer");
        }
        match self.shm.create_buffer(client_id, pool_id, new_id, offset as usize, width, height, stride, format) {
            Ok(()) => Step::Handled(Effect::Nothing),
            Err(_) => fail(writer, new_id, WL_SHM_ERROR_INVALID_FORMAT, "cannot create buffer"),
        }
    }

    /// `wl_shm_pool.destroy`: frees the pool object (announcing its id) and
    /// drops its reference on the pool; the caller releases the mapping when
    /// that was the last one.
    pub fn handle_destroy_pool(&mut self, client_id: u32, registry: &mut Registry, writer: &mut Writer, pool_id: u32) -> (r: Step)
        requires
            old(registry).wf(),
            old(self).wf(),
        ensures
            final(self).seats == old(self).seats,
            final(registry).wf(),
            final(self).wf(),
            r is Handled,
            final(self).shm.pool_keys() == old(self).shm.pool_keys().remove(object_key(client_id, pool_id)),
            final(self).shm.buffer_keys() == old(self).shm.buffer_keys(),
            final(self).shm.buffers() == old(self).shm.buffers(),
            final(self).shm.pools().len() == old(self).shm.pools().len(),
            final(self).globals == old(self).globals,
            final(self).surfaces == old(self).surfaces,
            !old(self).shm.pool_keys().contains_key(object_key(client_id, pool_id)) ==> r == Step::Handled(Effect::Nothing)
                && final(self).shm.pools() == old(self).shm.pools(),
            old(self).shm.pool_keys().contains_key(object_key(client_id, pool_id)) ==> ({
                let p = old(self).shm.pool_keys()[object_key(client_id, pool_id)] as int;
                let pool = old(self).shm.pools()[p];
                &&& final(self).shm.pools()[p] == (ShmPool {
                    ref_count: (pool.ref_count - 1) as usize,
                    address: if pool.ref_count == 1 { None } else { pool.address },
                    ..pool
                })
                &&& forall|q: int| 0 <= q < old(self).shm.pools().len() && q != p ==> #[trigger] final(self).shm.pools()[q] == old(self).shm.pools()[q]
                &&& pool.ref_count == 1 ==> r == Step::Handled(Effect::Unmap(Mapping { address: pool.address->Some_0, size: pool.size }))
                &&& pool.ref_count > 1 ==> r == Step::Handled(Effect::Nothing)
            }),
            old(registry).objects().contains_key(pool_id) && pool_id != DISPLAY_ID && !is_server_id(pool_id) ==> final(registry).objects()
                == old(registry).objects().remove(pool_id) && wrote_all(*old(writer), *final(writer), seq![(DISPLAY_ID, WL_DISPLAY_DELETE_ID, seq![ArgValue::Uint(pool_id)])]),
    {
        let ghost w0 = *writer;
        let freed = registry.free_object(pool_id, writer);
        proof {
            if freed && !is_server_id(pool_id) {
                lemma_wrote_all_one(w0, *writer, (DISPLAY_ID, WL_DISPLAY_DELETE_ID, seq![ArgValue::Uint(pool_id)]));
            }
        }
        match self.shm.delete_pool(client_id, pool_id) {
            Some(m) => Step::Handled(Effect::Unmap(m)),
            None => Step::Handled(Effect::Nothing),
        }
    }

    /// `wl_shm_pool.resize`: a pool may only grow; when it does, the caller
    /// maps it at the new size.
    pub fn handle_resize_pool(&self, client_id: u32, writer: &mut Writer, pool_id: u32, size: i32) -> (r: Step)
        requires
            self.wf(),
        ensures
            r == Step::Disconnect || r is Handled,
            r is Handled ==> *final(writer) == *old(writer) && self.shm.pool_keys().contains_key(object_key(client_id, pool_id)) && ({
                let pool = self.shm.pools()[self.shm.pool_keys()[object_key(client_id, pool_id)] as int];
                r == Step::Handled(Effect::RemapPool { pool_id, fd: pool.fd, size: size as usize }) && size > 0 && size as usize > pool.size
            }),
            r == Step::Disconnect ==> wrote_all(*old(writer), *final(writer), seq![error_event(pool_id, WL_SHM_ERROR_INVALID_FD, "invalid pool resize"@)]),
            self.shm.pool_keys().contains_key(object_key(client_id, pool_id)) && size > 0 && size as usize
                > self.shm.pools()[self.shm.pool_keys()[object_key(client_id, pool_id)] as int].size ==> r is Handled,
    {
        match self.shm.pool(client_id, pool_id) {
            Some(pool) => {
                if size <= 0 || size as usize <= pool.size {
                    return fail(writer, pool_id, WL_SHM_ERROR_INVALID_FD, "invalid pool resize");
                }
                Step::Handled(Effect::RemapPool { pool_id, fd: pool.fd, size: size as usize })
            },
            None => fail(writer, pool_id, WL_SHM_ERROR_INVALID_FD, "invalid pool resize"),
        }
    }

    /// Completes `wl_shm_pool.resize` once the caller has tried to map the
    /// pool at its new size: on success the old mapping is to be released;
    /// a failure is reported as `invalid_fd`, and the pool keeps its old mapping.
    pub fn finish_resize_pool(&mut self, client_id: u32, writer: &mut Writer, pool_id: u32, size: usize, mapped: Option<usize>) -> (r: Step)
        requires
            old(self).wf(),
        ensures
            final(self).seats == old(self).seats,
            final(self).wf(),
            r == Step::Disconnect || r is Handled,
            r is Handled ==> *final(writer) == *old(writer) && old(self).shm.pool_keys().contains_key(object_key(client_id, pool_id)) && ({
                let pool = old(self).shm.pools()[old(self).shm.pool_keys()[object_key(client_id, pool_id)] as int];
                r == Step::Handled(Effect::Unmap(Mapping { address: pool.address->Some_0, size: pool.size }))
            }),
            r == Step::Disconnect ==> wrote_all(*old(writer), *final(writer), seq![error_event(pool_id, WL_SHM_ERROR_INVALID_FD, "cannot map pool"@)]),
            r == Step::Disconnect ==> final(self).shm.pools() == old(self).shm.pools() && final(self).shm.buffers()
                == old(self).shm.buffers(),
            final(self).shm.pool_keys() == old(self).shm.pool_keys(),
            final(self).shm.buffer_keys() == old(self).shm.buffer_keys(),
            final(self).shm.pools().len() == old(self).shm.pools().len(),
            final(self).shm.buffers().len() == old(self).shm.buffers().len(),
            final(self).globals == old(self).globals,
            final(self).surfaces == old(self).surfaces,
            old(self).shm.pool_keys().contains_key(object_key(client_id, pool_id)) ==> ({
                let p = old(self).shm.pool_keys()[object_key(client_id, pool_id)] as int;
                let pool = old(self).shm.pools()[p];
                &&& size > pool.size && mapped is Some ==> {
                    &&& r == Step::Handled(Effect::Unmap(Mapping { address: pool.address->Some_0, size: pool.size }))
                    &&& final(self).shm.pools()[p] == (ShmPool { size, address: mapped, ..pool })
                    &&& forall|q: int| 0 <= q < old(self).shm.pools().len() && q != p ==> #[trigger] final(self).shm.pools()[q] == old(self).shm.pools()[q]
                    &&& forall|i: int| 0 <= i < final(self).shm.buffers().len() ==> {
                        let b = old(self).shm.buffers()[i];
                        #[trigger] final(self).shm.buffers()[i] == if b.alive && b.pool_index == p {
                            ShmBuffer {
                                address: if mapped->Some_0 + b.offset <= usize::MAX { Some((mapped->Some_0 + b.offset) as usize) } else { None },
                                ..b
                            }
                        } else {
                            b
                        }
                    }
                }
                &&& !(size > pool.size && mapped is Some) ==> r == Step::Disconnect
            }),
            !old(self).shm.pool_keys().contains_key(object_key(client_id, pool_id)) ==> r == Step::Disconnect,
    {
        match self.shm.resize_pool(client_id, pool_id, size, mapped) {
            Ok(old_mapping) => Step::Handled(Effect::Unmap(old_mapping)),
            Err(_) => fail(writer, pool_id, WL_SHM_ERROR_INVALID_FD, "cannot map pool"),
        }
    }

    /// `wl_buffer.destroy`: frees the buffer object (announcing its id) and
    /// deletes the buffer; the caller releases the pool's mapping when that
    /// was its last reference.
    pub fn handle_destroy_buffer(&mut self, client_id: u32, registry: &mut Registry, writer: &mut Writer, buffer_id: u32) -> (r: Step)
        requires
            old(registry).wf(),
            old(self).wf(),
        ensures
            final(self).seats == old(self).seats,
            final(registry).wf(),
            final(self).wf(),
            r is Handled,
            final(self).shm.buffer_keys() == old(self).shm.buffer_keys().remove(object_key(client_id, buffer_id)),
            final(self).shm.pool_keys() == old(self).shm.pool_keys(),
            final(self).shm.pools().len() == old(self).shm.pools().len(),
            final(self).shm.buffers().len() == old(self).shm.buffers().len(),
            final(self).globals == old(self).globals,
            final(self).surfaces == old(self).surfaces,
            !old(self).shm.buffer_keys().contains_key(object_key(client_id, buffer_id)) ==> r == Step::Handled(Effect::Nothing)
                && final(self).shm.pools() == old(self).shm.pools() && final(self).shm.buffers() == old(self).shm.buffers(),
            old(self).shm.buffer_keys().contains_key(object_key(client_id, buffer_id)) ==> ({
                let i = old(self).shm.buffer_keys()[object_key(client_id, buffer_id)] as int;
                let p = old(self).shm.buffers()[i].pool_index as int;
                let pool = old(self).shm.pools()[p];
                &&& final(self).shm.buffers()[i] == (ShmBuffer { alive: false, ..old(self).shm.buffers()[i] })
                &&& forall|j: int| 0 <= j < old(self).shm.buffers().len() && j != i ==> #[trigger] final(self).shm.buffers()[j] == old(self).shm.buffers()[j]
                &&& final(self).shm.pools()[p] == (ShmPool {
                    ref_count: (pool.ref_count - 1) as usize,
                    address: if pool.ref_count == 1 { None } else { pool.address },
                    ..pool
                })
                &&& forall|q: int| 0 <= q < old(self).shm.pools().len() && q != p ==> #[trigger] final(self).shm.pools()[q] == old(self).shm.pools()[q]
                &&& pool.ref_count == 1 ==> r == Step::Handled(Effect::Unmap(Mapping { address: pool.address->Some_0, size: pool.size }))
                &&& pool.ref_count > 1 ==> r == Step::Handled(Effect::Nothing)
            }),
            old(registry).objects().contains_key(buffer_id) && buffer_id != DISPLAY_ID && !is_server_id(buffer_id) ==> final(registry).objects()
                == old(registry).objects().remove(buffer_id) && wrote_all(*old(writer), *final(writer), seq![(DISPLAY_ID, WL_DISPLAY_DELETE_ID, seq![ArgValue::Uint(buffer_id)])]),
    {
        let ghost w0 = *writer;
        let freed = registry.free_object(buffer_id, writer);
        proof {
            if freed && !is_server_id(buffer_id) {
                lemma_wrote_all_one(w0, *writer, (DISPLAY_ID, WL_DISPLAY_DELETE_ID, seq![ArgValue::Uint(buffer_id)]));
            }
        }
        match self.shm.delete_buffer(client_id, buffer_id) {
            Some(m) => Step::Handled(Effect::Unmap(m)),
            None => Step::Handled(Effect::Nothing),
        }
    }

    /// `wl_surface.attach`: a buffer that is not null must be a live
    /// `wl_buffer`, else it is reported as an invalid object.
    pub fn handle_attach(&mut self, client_id: u32, registry: &Registry, writer: &mut Writer, surface_id: u32, buffer: u32, dx: i32, dy: i32) -> (r: Step)
        ensures
            final(self).seats == old(self).seats,
            final(self).globals == old(self).globals,
            final(self).shm == old(self).shm,
            r == Step::Disconnect || r == Step::Handled(Effect::Nothing),
            r == Step::Disconnect <==> (buffer != 0 && !(registry.objects().contains_key(buffer) && registry.objects()[buffer] == InterfaceIndex::WlBuffer)),
            r == Step::Disconnect ==> wrote_all(*old(writer), *final(writer), seq![error_event(buffer, WL_DISPLAY_ERROR_INVALID_OBJECT, "invalid buffer"@)])
                && final(self).surfaces == old(self).surfaces,
            r == Step::Handled(Effect::Nothing) ==> *final(writer) == *old(writer) && final(self).surfaces.surfaces() == attached(
                old(self).surfaces.surfaces(),
                object_key(client_id, surface_id),
                buffer,
                dx,
                dy,
            ),
    {
        if buffer != 0 {
            match registry.interface_index(buffer) {
                Some(InterfaceIndex::WlBuffer) => {},
                _ => {
                    return fail(writer, buffer, WL_DISPLAY_ERROR_INVALID_OBJECT, "invalid buffer");
                },
            }
        }
        let attached = if buffer == 0 { None } else { Some(buffer) };
        let _ = self.surfaces.attach(client_id, surface_id, attached, dx, dy);
        Step::Handled(Effect::Nothing)
    }
}

impl DisplayState {
    /// `wl_surface.destroy`: frees the surface object and forgets the surface.
    pub fn handle_destroy_surface(&mut self, client_id: u32, registry: &mut Registry, writer: &mut Writer, surface_id: u32) -> (r: Step)
        requires
            old(registry).wf(),
        ensures
            final(self).seats == old(self).seats,
            final(registry).wf(),
            final(self).globals == old(self).globals,
            final(self).shm == old(self).shm,
            r == Step::Handled(Effect::Nothing),
            final(self).surfaces.surfaces() == old(self).surfaces.surfaces().remove(object_key(client_id, surface_id)),
            old(registry).objects().contains_key(surface_id) && surface_id != DISPLAY_ID && !is_server_id(surface_id) ==> final(registry).objects()
                == old(registry).objects().remove(surface_id) && wrote_all(*old(writer), *final(writer), seq![(DISPLAY_ID, WL_DISPLAY_DELETE_ID, seq![ArgValue::Uint(surface_id)])]),
    {
        let ghost w0 = *writer;
        let freed = registry.free_object(surface_id, writer);
        proof {
            if freed && !is_server_id(surface_id) {
                lemma_wrote_all_one(w0, *writer, (DISPLAY_ID, WL_DISPLAY_DELETE_ID, seq![ArgValue::Uint(surface_id)]));
            }
        }
        self.surfaces.destroy_surface(client_id, surface_id);
        Step::Handled(Effect::Nothing)
    }

    /// Routes one decoded request to its handler. A request the server does
    /// not handle is reported as `invalid_method` on its object.
    pub fn dispatch(
        &mut self,
        client_id: u32,
        registry: &mut Registry,
        writer: &mut Writer,
        iface: InterfaceIndex,
        object_id: u32,
        opcode: u16,
        args: &Vec<Arg>,
    ) -> (r: Step)
        requires
            old(registry).wf(),
            old(self).wf(),
        ensures
            final(registry).wf(),
            final(self).wf(),
            r != Step::Idle,
            dispatched(
                *old(self),
                *final(self),
                *old(registry),
                *final(registry),
                *old(writer),
                *final(writer),
                client_id,
                iface,
                object_id,
                opcode,
                arg_values(args@),
                r,
            ),
    {
        match (iface, opcode) {
            (InterfaceIndex::WlDisplay, WL_DISPLAY_SYNC) => handle_sync(writer, arg_u32(args, 0)),
            (InterfaceIndex::WlDisplay, WL_DISPLAY_GET_REGISTRY) => self.handle_get_registry(registry, writer, arg_u32(args, 0)),
            (InterfaceIndex::WlRegistry, WL_REGISTRY_BIND) => {
                let interface = arg_bytes(args, 1);
                self.handle_bind(registry, writer, arg_u32(args, 0), interface.as_slice(), arg_u32(args, 2), arg_u32(args, 3))
            },
            (InterfaceIndex::WlCompositor, WL_COMPOSITOR_CREATE_SURFACE) => self.handle_create_surface(client_id, registry, writer, arg_u32(args, 0)),
            (InterfaceIndex::WlShm, WL_SHM_CREATE_POOL) => self.handle_create_pool(registry, writer, arg_u32(args, 0), arg_i32(args, 1), arg_i32(args, 2)),
            (InterfaceIndex::WlShm, WL_SHM_RELEASE) => {
                registry.free_object(object_id, writer);
                Step::Handled(Effect::Nothing)
            },
            (InterfaceIndex::WlShmPool, WL_SHM_POOL_CREATE_BUFFER) => self.handle_create_buffer(
                client_id,
                registry,
                writer,
                object_id,
                arg_u32(args, 0),
                arg_i32(args, 1),
                arg_i32(args, 2),
                arg_i32(args, 3),
                arg_i32(args, 4),
                arg_u32(args, 5),
            ),
            (InterfaceIndex::WlShmPool, WL_SHM_POOL_DESTROY) => self.handle_destroy_pool(client_id, registry, writer, object_id),
            (InterfaceIndex::WlShmPool, WL_SHM_POOL_RESIZE) => self.handle_resize_pool(client_id, writer, object_id, arg_i32(args, 0)),
            (InterfaceIndex::WlBuffer, WL_BUFFER_DESTROY) => self.handle_destroy_buffer(client_id, registry, writer, object_id),
            (InterfaceIndex::WlSurface, WL_SURFACE_DESTROY) => self.handle_destroy_surface(client_id, registry, writer, object_id),
            (InterfaceIndex::WlSurface, WL_SURFACE_ATTACH) => self.handle_attach(client_id, registry, writer, object_id, arg_u32(args, 0), arg_i32(args, 1), arg_i32(args, 2)),
            (InterfaceIndex::WlSurface, WL_SURFACE_COMMIT) => {
                let _ = self.surfaces.commit(client_id, object_id);
                Step::Handled(Effect::Nothing)
            },
            _ => fail(writer, object_id, WL_DISPLAY_ERROR_INVALID_METHOD, "invalid method"),
        }
    }
}

/// The unsigned value of argument `i`: a `uint`, an object or a new id; zero
/// for any other argument.
pub fn arg_u32(args: &Vec<Arg>, i: usize) -> (r: u32)
    ensures
        i < args@.len() && args@[i as int]@ is Uint ==> r == args@[i as int]@->Uint_0,
        i < args@.len() && args@[i as int]@ is Object ==> r == args@[i as int]@->Object_0,
        i < args@.len() && args@[i as int]@ is NewId ==> r == args@[i as int]@->NewId_0,
{
    if i >= args.len() {
        return 0;
    }
    match &args[i] {
        Arg::Uint(v) => *v,
        Arg::Object(v) => *v,
        Arg::NewId(v) => *v,
        _ => 0,
    }
}

/// The signed value of argument `i`: an `int`, a `fixed` or a descriptor;
/// zero for any other argument.
pub fn arg_i32(args: &Vec<Arg>, i: usize) -> (r: i32)
    ensures
        i < args@.len() && args@[i as int]@ is Int ==> r == args@[i as int]@->Int_0,
        i < args@.len() && args@[i as int]@ is Fixed ==> r == args@[i as int]@->Fixed_0,
        i < args@.len() && args@[i as int]@ is Fd ==> r == args@[i as int]@->Fd_0,
{
    if i >= args.len() {
        return 0;
    }
    match &args[i] {
        Arg::Int(v) => *v,
        Arg::Fixed(v) => *v,
        Arg::Fd(v) => *v,
        _ => 0,
    }
}

/// The bytes of argument `i`: a string or an array; empty for any other
/// argument or a null string.
pub fn arg_bytes(args: &Vec<Arg>, i: usize) -> (r: Vec<u8>)
    ensures
        i < args@.len() && args@[i as int]@ is Str && args@[i as int]@->Str_0 is Some ==> r@ == args@[i as int]@->Str_0->Some_0,
        i < args@.len() && args@[i as int]@ is Array ==> r@ == args@[i as int]@->Array_0,
{
    if i >= args.len() {
        return Vec::new();
    }
    match &args[i] {
        Arg::Str(Some(s)) => crate::wire::copy_range(s.as_slice(), 0, s.len()),
        Arg::Array(a) => crate::wire::copy_range(a.as_slice(), 0, a.len()),
        _ => Vec::new(),
    }
}

/// What handling one decoded request does, for the requests whose outcome
/// the server fixes: `d0`, `g0` and `w0` are the display state, the client's
/// registry and its writer before; `d1`, `g1` and `w1` after; `a` the
/// decoded arguments and `r` the outcome.
pub open spec fn dispatched(
    d0: DisplayState,
    d1: DisplayState,
    g0: Registry,
    g1: Registry,
    w0: Writer,
    w1: Writer,
    client_id: u32,
    iface: InterfaceIndex,
    object_id: u32,
    opcode: u16,
    a: Seq<ArgValue>,
    r: Step,
) -> bool {
    &&& signature_of(iface, opcode) is None ==> r == Step::Disconnect && wrote_all(
                    w0,
                    w1,
                    seq![error_event(object_id, WL_DISPLAY_ERROR_INVALID_METHOD, "invalid method"@)]
    )
    &&& iface == InterfaceIndex::WlDisplay && opcode == WL_DISPLAY_SYNC && a.len() == 1 && a[0] is NewId
                    ==> r == Step::Handled(Effect::Nothing) && wrote_all(w0, w1, sync_events(a[0]->NewId_0))
                    && g1 == g0 && d1 == d0
    &&& iface == InterfaceIndex::WlDisplay && opcode == WL_DISPLAY_GET_REGISTRY && a.len() == 1 && a[0] is NewId
                    ==> ({
                    let id = a[0]->NewId_0;
                    &&& new_id_ok(g0, id) ==> r == Step::Handled(Effect::Nothing)
                        && g1.objects() == g0.objects().insert(id, InterfaceIndex::WlRegistry)
                        && wrote_all(w0, w1, global_events(id, d0.globals.entries()))
                    &&& !new_id_ok(g0, id) ==> r == Step::Disconnect
    })
    &&& iface == InterfaceIndex::WlCompositor && opcode == WL_COMPOSITOR_CREATE_SURFACE && a.len() == 1 && a[0] is NewId
                    ==> ({
                    let id = a[0]->NewId_0;
                    &&& new_id_ok(g0, id) ==> r == Step::Handled(Effect::Nothing)
                        && g1.objects() == g0.objects().insert(id, InterfaceIndex::WlSurface)
                        && d1.surfaces.surfaces().contains_key(object_key(client_id, id))
                    &&& !new_id_ok(g0, id) ==> r == Step::Disconnect
    })
    &&& iface == InterfaceIndex::WlShm && opcode == WL_SHM_CREATE_POOL && a.len() == 3 && a[0] is NewId
                    && a[1] is Fd && a[2] is Int ==> ({
                    let id = a[0]->NewId_0;
                    let size = a[2]->Int_0;
                    &&& new_id_ok(g0, id) && size > 0 ==> r == Step::Handled(
                        Effect::MapPool { pool_id: id, fd: a[1]->Fd_0, size: size as usize },
                    ) && g1.objects() == g0.objects().insert(id, InterfaceIndex::WlShmPool)
                    &&& !(new_id_ok(g0, id) && size > 0) ==> r == Step::Disconnect
    })
    &&& iface == InterfaceIndex::WlSurface && opcode == WL_SURFACE_COMMIT ==> r == Step::Handled(Effect::Nothing)
                    && d1.surfaces.surfaces() == (if d0.surfaces.surfaces().contains_key(object_key(client_id, object_id)) {
                        d0.surfaces.surfaces().insert(
                            object_key(client_id, object_id),
                            Surface {
                                committed: d0.surfaces.surfaces()[object_key(client_id, object_id)].pending,
                                pending: empty_state(),
                                ..d0.surfaces.surfaces()[object_key(client_id, object_id)]
                            },
                        )
                    } else {
                        d0.surfaces.surfaces()
                    })
    &&& iface == InterfaceIndex::WlSurface && opcode == WL_SURFACE_DESTROY ==> r == Step::Handled(Effect::Nothing)
                    && d1.surfaces.surfaces() == d0.surfaces.surfaces().remove(object_key(client_id, object_id))
    &&& iface == InterfaceIndex::WlSurface && opcode == WL_SURFACE_ATTACH && a.len() == 3 && a[0] is Object
                    && a[1] is Int && a[2] is Int ==> (r == Step::Disconnect <==> (a[0]->Object_0 != 0 && !(
                    g0.objects().contains_key(a[0]->Object_0) && g0.objects()[a[0]->Object_0]
                    == InterfaceIndex::WlBuffer)))
    &&& iface == InterfaceIndex::WlShmPool && opcode == WL_SHM_POOL_CREATE_BUFFER && a.len() == 6 && a[0] is NewId
                    && a[1] is Int && a[2] is Int && a[3] is Int && a[4] is Int && a[5] is Uint
                    && new_id_ok(g0, a[0]->NewId_0) && a[1]->Int_0 >= 0
                    && d0.shm.pool_keys().contains_key(object_key(client_id, object_id))
                    && !d0.shm.buffer_keys().contains_key(object_key(client_id, a[0]->NewId_0))
                    && d0.shm.pools()[d0.shm.pool_keys()[object_key(client_id, object_id)] as int].ref_count < usize::MAX
                    ==> r == Step::Handled(Effect::Nothing) && g1.objects() == g0.objects().insert(
                    a[0]->NewId_0,
                    InterfaceIndex::WlBuffer
    )
    &&& iface == InterfaceIndex::WlShmPool && opcode == WL_SHM_POOL_DESTROY ==> r is Handled
                    && d1.shm.pool_keys() == d0.shm.pool_keys().remove(object_key(client_id, object_id))
    &&& iface == InterfaceIndex::WlBuffer && opcode == WL_BUFFER_DESTROY ==> r is Handled
                    && d1.shm.buffer_keys() == d0.shm.buffer_keys().remove(object_key(client_id, object_id))
    &&& iface == InterfaceIndex::WlShmPool && opcode == WL_SHM_POOL_RESIZE && a.len() == 1 && a[0] is Int
                    && r is Handled ==> d0.shm.pool_keys().contains_key(object_key(client_id, object_id)) && r
                    == Step::Handled(Effect::RemapPool {
                        pool_id: object_id,
                        fd: d0.shm.pools()[d0.shm.pool_keys()[object_key(client_id, object_id)] as int].fd,
                        size: a[0]->Int_0 as usize,
                    })
    &&& iface == InterfaceIndex::WlShm && opcode == WL_SHM_RELEASE ==> r == Step::Handled(Effect::Nothing) && d1 == d0
        && g1.objects() == (if g0.objects().contains_key(object_id) && object_id != DISPLAY_ID {
            g0.objects().remove(object_id)
        } else {
            g0.objects()
        })
    &&& iface == InterfaceIndex::WlSurface && opcode == WL_SURFACE_ATTACH && a.len() == 3 && a[0] is Object && a[1] is Int
        && a[2] is Int && r != Step::Disconnect ==> w1 == w0 && d1.surfaces.surfaces() == attached(
        d0.surfaces.surfaces(),
        object_key(client_id, object_id),
        a[0]->Object_0,
        a[1]->Int_0,
        a[2]->Int_0,
    )
    &&& iface == InterfaceIndex::WlRegistry && opcode == WL_REGISTRY_BIND && a.len() == 4 && a[0] is Uint && a[1] is Str
        && a[1]->Str_0 is Some && a[2] is Uint && a[3] is NewId ==> ({
        let name = a[0]->Uint_0;
        let interface = a[1]->Str_0->Some_0;
        let new_id = a[3]->NewId_0;
        let known = exists|k: int| 0 <= k < d0.globals.entries().len() && d0.globals.entries()[k].id == name;
        &&& d1 == d0
        &&& !known ==> r == Step::Handled(Effect::Nothing) && g1.objects() == g0.objects() && w1 == w0
        &&& known && (forall|k: int| 0 <= k < all_interfaces().len() ==> encode_utf8(name_of(#[trigger] all_interfaces()[k])) != interface)
            ==> r == Step::Handled(Effect::Nothing) && g1.objects() == g0.objects() && w1 == w0
        &&& known && (exists|k: int| 0 <= k < all_interfaces().len() && encode_utf8(name_of(#[trigger] all_interfaces()[k])) == interface)
            && new_id_ok(g0, new_id) ==> r == Step::Handled(Effect::Nothing) && exists|i: InterfaceIndex|
            encode_utf8(name_of(i)) == interface && #[trigger] g1.objects() == g0.objects().insert(new_id, i)
        &&& known && (exists|k: int| 0 <= k < all_interfaces().len() && encode_utf8(name_of(#[trigger] all_interfaces()[k])) == interface)
            && !new_id_ok(g0, new_id) ==> r == Step::Disconnect && g1.objects() == g0.objects()
        &&& known && new_id_ok(g0, new_id) && encode_utf8(name_of(InterfaceIndex::WlShm)) == interface ==> r == Step::Handled(Effect::Nothing)
            && g1.objects() == g0.objects().insert(new_id, InterfaceIndex::WlShm) && wrote_all(w0, w1, shm_bind_events(new_id))
    })
}

/// Announces a global to every client.
fn broadcast_to_clients(clients: &mut Vec<Client>, g: Global)
    requires
        forall|i: int| 0 <= i < old(clients)@.len() ==> (#[trigger] old(clients)@[i]).wf(),
    ensures
        final(clients)@.len() == old(clients)@.len(),
        forall|i: int| 0 <= i < final(clients)@.len() ==> (#[trigger] final(clients)@[i]).wf(),
        forall|i: int| 0 <= i < old(clients)@.len() ==> heard_of(#[trigger] old(clients)@[i], final(clients)@[i], g),
{
    let mut k: usize = 0;
    while k < clients.len()
        invariant
            k <= clients@.len(),
            clients@.len() == old(clients)@.len(),
            forall|i: int| 0 <= i < clients@.len() ==> (#[trigger] clients@[i]).wf(),
            forall|i: int| k <= i < clients@.len() ==> #[trigger] clients@[i] == old(clients)@[i],
            forall|i: int| 0 <= i < k ==> heard_of(#[trigger] old(clients)@[i], clients@[i], g),
        decreases clients@.len() - k,
    {
        let mut c = clients.remove(k);
        c.broadcast_global(g);
        clients.insert(k, c);
        k = k + 1;
    }
}

/// Two interfaces with the same name are the same interface.
proof fn lemma_interface_names_differ(i: InterfaceIndex, j: InterfaceIndex)
    requires
        j == InterfaceIndex::WlShm || j == InterfaceIndex::WlSeat,
        encode_utf8(name_of(i)) == encode_utf8(name_of(j)),
    ensures
        i == j,
{
    vstd::utf8::encode_utf8_decode_utf8(name_of(i));
    vstd::utf8::encode_utf8_decode_utf8(name_of(j));
    assert(name_of(i) == name_of(j));
    reveal_strlit("wl_shm");
    reveal_strlit("wl_seat");
    match i {
        InterfaceIndex::WlShm => {},
        InterfaceIndex::WlDisplay => { reveal_strlit("wl_display"); },
        InterfaceIndex::WlRegistry => { reveal_strlit("wl_registry"); },
        InterfaceIndex::WlCallback => { reveal_strlit("wl_callback"); },
        InterfaceIndex::WlCompositor => { reveal_strlit("wl_compositor"); },
        InterfaceIndex::WlShmPool => { reveal_strlit("wl_shm_pool"); },
        InterfaceIndex::WlBuffer => { reveal_strlit("wl_buffer"); },
        InterfaceIndex::WlSurface => { reveal_strlit("wl_surface"); },
        InterfaceIndex::WlRegion => { reveal_strlit("wl_region"); },
        InterfaceIndex::WlSeat => { reveal_strlit("wl_seat"); },
        InterfaceIndex::WlPointer => { reveal_strlit("wl_pointer"); },
        InterfaceIndex::WlKeyboard => { reveal_strlit("wl_keyboard"); },
        InterfaceIndex::WlTouch => { reveal_strlit("wl_touch"); },
        InterfaceIndex::WlOutput => { reveal_strlit("wl_output"); },
        InterfaceIndex::WlSubcompositor => { reveal_strlit("wl_subcompositor"); },
        InterfaceIndex::WlSubsurface => { reveal_strlit("wl_subsurface"); },
        InterfaceIndex::WlDataDeviceManager => { reveal_strlit("wl_data_device_manager"); },
        InterfaceIndex::WlDataDevice => { reveal_strlit("wl_data_device"); },
        InterfaceIndex::WlDataSource => { reveal_strlit("wl_data_source"); },
        InterfaceIndex::WlDataOffer => { reveal_strlit("wl_data_offer"); },
        InterfaceIndex::WlShell => { reveal_strlit("wl_shell"); },
        InterfaceIndex::WlShellSurface => { reveal_strlit("wl_shell_surface"); },
        InterfaceIndex::WlFixes => { reveal_strlit("wl_fixes"); },
    }
}

} // verus!
