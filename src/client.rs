//! One client connection's protocol state: its objects, its incoming and
//! outgoing buffers, and the handling of one request at a time.
use crate::display::{broadcast_events, dispatched, error_event, fail, sync_events, DisplayState, Effect, Step};
use crate::events::DISPLAY_ID;
use crate::protocol::WL_DISPLAY_SYNC;
use crate::events::WL_DISPLAY_ERROR_INVALID_METHOD;
use crate::events::WL_DISPLAY_ERROR_INVALID_OBJECT;
use crate::globals::Global;
use crate::interface::InterfaceIndex;
use crate::message::{arg_values, decode_args, drop_fds, fd_count, lemma_decode_new_id, take_fds};
use crate::protocol::{request_signature, signature_of};
use crate::reader::{ReadError, Reader};
use crate::registry::Registry;
use crate::wire::{parse_frame, u32_at, Framed};
use crate::writer::{wrote_all, Writer};
use vstd::prelude::*;

verus! {

/// A client id, handed out by the listener.
pub type ClientId = u32;

/// The protocol state of one connection.
pub struct Client {
    pub client_id: ClientId,
    pub registry: Registry,
    pub reader: Reader,
    pub writer: Writer,
}

impl Client {
    pub open spec fn wf(&self) -> bool {
        self.registry.wf() && self.reader.wf()
    }

    /// A new connection, which knows only the display object.
    pub fn new(client_id: ClientId) -> (c: Client)
        ensures
            c.wf(),
            c.client_id == client_id,
            c.reader.pending() == Seq::<u8>::empty(),
            c.reader.fd_queue() == Seq::<i32>::empty(),
            c.reader.free() == crate::reader::BUFFER_SIZE,
            c.registry.objects() == Map::<u32, InterfaceIndex>::empty().insert(1, InterfaceIndex::WlDisplay),
            c.registry.free_list() == Seq::<u32>::empty(),
            c.writer.fd_queue() == Seq::<i32>::empty(),
            c.writer.open_message() is None,
            c.writer.bytes() == Seq::<u8>::empty(),
            c.writer.error() is None,
    {
        Client { client_id, registry: Registry::new(), reader: Reader::new(), writer: Writer::new() }
    }

    /// Handles the first buffered message, if a whole one has arrived. A
    /// message for an object the client does not have is reported as
    /// `invalid_object`, one the server does not handle as
    /// `invalid_method`; either way the connection is to be dropped. A
    /// handled message leaves the buffer, and so do exactly as many
    /// descriptors as its request has fd-typed arguments.
    pub fn process_next(&mut self, display: &mut DisplayState) -> (r: Step)
        requires
            old(self).wf(),
            old(display).wf(),
        ensures
            final(self).wf(),
            final(display).wf(),
            final(self).client_id == old(self).client_id,
            match parse_frame(old(self).reader.pending()) {
                Framed::Incomplete => r == Step::Idle && *final(self) == *old(self) && *final(display) == *old(display),
                Framed::Invalid => r == Step::Disconnect && wrote_all(
                    old(self).writer,
                    final(self).writer,
                    seq![error_event(0, WL_DISPLAY_ERROR_INVALID_OBJECT, "invalid object"@)],
                ) && *final(display) == *old(display) && final(self).registry == old(self).registry
                    && final(self).reader == old(self).reader,
                Framed::Message(h, body) => {
                    &&& !old(self).registry.objects().contains_key(h.object_id) ==> r == Step::Disconnect
                        && wrote_all(
                        old(self).writer,
                        final(self).writer,
                        seq![error_event(h.object_id, WL_DISPLAY_ERROR_INVALID_OBJECT, "invalid object"@)],
                    ) && *final(display) == *old(display) && final(self).registry == old(self).registry
                        && final(self).reader == old(self).reader
                    &&& old(self).registry.objects().contains_key(h.object_id) ==> {
                        let iface = old(self).registry.objects()[h.object_id];
                        &&& r != Step::Idle
                        &&& final(self).reader.pending() == old(self).reader.pending().skip(h.size as int)
                        &&& signature_of(iface, h.opcode) is None ==> r == Step::Disconnect
                            && *final(display) == *old(display) && final(self).registry == old(self).registry
                            && wrote_all(
                            old(self).writer,
                            final(self).writer,
                            seq![error_event(h.object_id, WL_DISPLAY_ERROR_INVALID_METHOD, "invalid method"@)],
                        )
                        &&& signature_of(iface, h.opcode) is Some ==> {
                            let sig = signature_of(iface, h.opcode)->Some_0;
                            &&& final(self).reader.fd_queue() == drop_fds(old(self).reader.fd_queue(), fd_count(sig))
                            &&& dispatched(
                                *old(display),
                                *final(display),
                                old(self).registry,
                                final(self).registry,
                                old(self).writer,
                                final(self).writer,
                                old(self).client_id,
                                iface,
                                h.object_id,
                                h.opcode,
                                decode_args(sig, body, take_fds(old(self).reader.fd_queue(), fd_count(sig))),
                                r,
                            )
                        }
                    }
                    &&& h.object_id == DISPLAY_ID && h.opcode == WL_DISPLAY_SYNC && body.len() >= 4 ==> r
                        == Step::Handled(Effect::Nothing) && wrote_all(
                        old(self).writer,
                        final(self).writer,
                        sync_events(u32_at(body, 0)),
                    ) && final(self).registry == old(self).registry
                },
            },
    {
        proof {
            self.registry.lemma_display_present();
        }
        let (header, body) = match self.reader.next() {
            Ok(Some(m)) => m,
            Ok(None) => {
                return Step::Idle;
            },
            Err(ReadError::InvalidHeader) => {
                return fail(&mut self.writer, 0, WL_DISPLAY_ERROR_INVALID_OBJECT, "invalid object");
            },
        };
        let iface = match self.registry.interface_index(header.object_id) {
            Some(i) => i,
            None => {
                return fail(&mut self.writer, header.object_id, WL_DISPLAY_ERROR_INVALID_OBJECT, "invalid object");
            },
        };
        let sig = match request_signature(iface, header.opcode) {
            Some(sig) => sig,
            None => {
                self.reader.message_handled(header.size as usize);
                return fail(&mut self.writer, header.object_id, WL_DISPLAY_ERROR_INVALID_METHOD, "invalid method");
            },
        };
        let ghost q = self.reader.fd_queue();
        let decoded = self.reader.decode_args(sig.as_slice(), body.as_slice());
        self.reader.message_handled(header.size as usize);
        proof {
            self.registry.lemma_display_present();
            if header.object_id == DISPLAY_ID && header.opcode == WL_DISPLAY_SYNC && body@.len() >= 4 {
                lemma_decode_new_id(body@, take_fds(q, fd_count(sig@)));
                assert(arg_values(decoded@)[0] == decoded@[0]@);
            }
        }
        display.dispatch(
            self.client_id,
            &mut self.registry,
            &mut self.writer,
            iface,
            header.object_id,
            header.opcode,
            &decoded,
        )
    }

    /// Announces a new global to every registry object of this client.
    pub fn broadcast_global(&mut self, global: Global)
        requires
            old(self).wf(),
        ensures
            final(self).wf(),
            heard_of(*old(self), *final(self), global),
    {
        let ids = self.registry.iter_object_ids_of_interface(InterfaceIndex::WlRegistry);
        crate::display::broadcast_global(&mut self.writer, ids.as_slice(), global);
        assert(wrote_all(old(self).writer, self.writer, broadcast_events(ids@, global)));
    }
}

/// A client after hearing of a new global: its objects and incoming data
/// are as before, and its writer holds one `wl_registry.global` for each of
/// its registry objects.
pub open spec fn heard_of(before: Client, after: Client, global: Global) -> bool {
    &&& after.client_id == before.client_id
    &&& after.registry == before.registry
    &&& after.reader == before.reader
    &&& exists|ids: Seq<u32>|
        #![trigger broadcast_events(ids, global)]
        ids.no_duplicates() && (forall|id: u32| #[trigger] ids.contains(id) <==> before.registry.objects().contains_key(id)
            && before.registry.objects()[id] == InterfaceIndex::WlRegistry)
        && wrote_all(before.writer, after.writer, broadcast_events(ids, global))
}

/// Hands out client ids: non-zero, increasing, never reused.
pub struct ClientIds {
    next_client_id: u32,
}

impl ClientIds {
    pub closed spec fn next(&self) -> nat {
        self.next_client_id as nat
    }

    /// Ids are never zero.
    pub closed spec fn wf(&self) -> bool {
        self.next_client_id >= 1
    }

    pub fn new() -> (c: ClientIds)
        ensures
            c.wf(),
            c.next() == 1,
    {
        ClientIds { next_client_id: 1 }
    }

    /// The next id; `None` once every id has been used.
    pub fn allocate(&mut self) -> (r: Option<ClientId>)
        requires
            old(self).wf(),
        ensures
            final(self).wf(),
            old(self).next() < u32::MAX ==> r == Some(old(self).next() as u32) && final(self).next()
                == old(self).next() + 1,
            old(self).next() == u32::MAX ==> r is None && final(self).next() == old(self).next(),
            r is Some ==> r->Some_0 != 0,
    {
        if self.next_client_id == u32::MAX {
            return None;
        }
        let id = self.next_client_id;
        self.next_client_id = self.next_client_id + 1;
        Some(id)
    }
}

} // verus!
