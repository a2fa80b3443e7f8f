//! The events that the server emits, each as one call on a writer, and the
//! protocol's numbers for them.
use crate::interface::{name_of, InterfaceIndex};
use crate::message::{arg_values, Arg, ArgValue};
use crate::writer::{wrote, Writer};
use vstd::prelude::*;
use vstd::slice::slice_to_vec;
use vstd::string::StringSliceAdditionalSpecFns;
use vstd::utf8::encode_utf8;

verus! {

/// The display singleton's object id on every connection.
pub const DISPLAY_ID: u32 = 1;

pub const WL_DISPLAY_ERROR: u16 = 0;
pub const WL_DISPLAY_DELETE_ID: u16 = 1;
pub const WL_REGISTRY_GLOBAL: u16 = 0;
pub const WL_CALLBACK_DONE: u16 = 0;
pub const WL_SHM_FORMAT: u16 = 0;
pub const WL_SEAT_CAPABILITIES: u16 = 0;
pub const WL_SEAT_NAME: u16 = 1;

pub const WL_DISPLAY_ERROR_INVALID_OBJECT: u32 = 0;
pub const WL_DISPLAY_ERROR_INVALID_METHOD: u32 = 1;
pub const WL_DISPLAY_ERROR_NO_MEMORY: u32 = 2;
pub const WL_DISPLAY_ERROR_IMPLEMENTATION: u32 = 3;
pub const WL_SHM_ERROR_INVALID_FORMAT: u32 = 0;
pub const WL_SHM_ERROR_INVALID_STRIDE: u32 = 1;
pub const WL_SHM_ERROR_INVALID_FD: u32 = 2;
pub const WL_SHM_FORMAT_XRGB8888: u32 = 1;
pub const WL_SHM_FORMAT_RGBA8888: u32 = 0x41424752;
pub const WL_SEAT_CAPABILITY_POINTER: u32 = 1;
pub const WL_SEAT_CAPABILITY_KEYBOARD: u32 = 2;

impl Writer {
    /// `wl_display.error`: a fatal error on `object_id`, sent on the display.
    pub fn wl_display_error(&mut self, object_id: u32, code: u32, message: &str)
        ensures
            wrote(
                *old(self),
                *final(self),
                DISPLAY_ID,
                WL_DISPLAY_ERROR,
                seq![
                    ArgValue::Object(object_id),
                    ArgValue::Uint(code),
                    ArgValue::Str(Some(message.spec_bytes())),
                ],
            ),
    {
        let text = slice_to_vec(message.as_bytes());
        let args = vec![Arg::Object(object_id), Arg::Uint(code), Arg::Str(Some(text))];
        assert(arg_values(args@) =~= seq![
            ArgValue::Object(object_id),
            ArgValue::Uint(code),
            ArgValue::Str(Some(message.spec_bytes())),
        ]);
        self.write_message(DISPLAY_ID, WL_DISPLAY_ERROR, &args);
    }

    /// `wl_display.delete_id`: the client may reuse `id`.
    pub fn wl_display_delete_id(&mut self, id: u32)
        ensures
            wrote(*old(self), *final(self), DISPLAY_ID, WL_DISPLAY_DELETE_ID, seq![ArgValue::Uint(id)]),
    {
        let args = vec![Arg::Uint(id)];
        assert(arg_values(args@) =~= seq![ArgValue::Uint(id)]);
        self.write_message(DISPLAY_ID, WL_DISPLAY_DELETE_ID, &args);
    }

    /// `wl_registry.global`: announces a global to one registry object.
    pub fn wl_registry_global(&mut self, registry_id: u32, name: u32, interface: InterfaceIndex, version: u32)
        ensures
            wrote(
                *old(self),
                *final(self),
                registry_id,
                WL_REGISTRY_GLOBAL,
                seq![
                    ArgValue::Uint(name),
                    ArgValue::Str(Some(encode_utf8(name_of(interface)))),
                    ArgValue::Uint(version),
                ],
            ),
    {
        let text = slice_to_vec(interface.name_bytes());
        let args = vec![Arg::Uint(name), Arg::Str(Some(text)), Arg::Uint(version)];
        assert(arg_values(args@) =~= seq![
            ArgValue::Uint(name),
            ArgValue::Str(Some(encode_utf8(name_of(interface)))),
            ArgValue::Uint(version),
        ]);
        self.write_message(registry_id, WL_REGISTRY_GLOBAL, &args);
    }

    /// `wl_callback.done`.
    pub fn wl_callback_done(&mut self, callback_id: u32, data: u32)
        ensures
            wrote(*old(self), *final(self), callback_id, WL_CALLBACK_DONE, seq![ArgValue::Uint(data)]),
    {
        let args = vec![Arg::Uint(data)];
        assert(arg_values(args@) =~= seq![ArgValue::Uint(data)]);
        self.write_message(callback_id, WL_CALLBACK_DONE, &args);
    }

    /// `wl_shm.format`: one pixel format that buffers may use.
    pub fn wl_shm_format(&mut self, shm_id: u32, format: u32)
        ensures
            wrote(*old(self), *final(self), shm_id, WL_SHM_FORMAT, seq![ArgValue::Uint(format)]),
    {
        let args = vec![Arg::Uint(format)];
        assert(arg_values(args@) =~= seq![ArgValue::Uint(format)]);
        self.write_message(shm_id, WL_SHM_FORMAT, &args);
    }

    /// `wl_seat.capabilities`.
    pub fn wl_seat_capabilities(&mut self, seat_id: u32, capabilities: u32)
        ensures
            wrote(
                *old(self),
                *final(self),
                seat_id,
                WL_SEAT_CAPABILITIES,
                seq![ArgValue::Uint(capabilities)],
            ),
    {
        let args = vec![Arg::Uint(capabilities)];
        assert(arg_values(args@) =~= seq![ArgValue::Uint(capabilities)]);
        self.write_message(seat_id, WL_SEAT_CAPABILITIES, &args);
    }

    /// `wl_seat.name`.
    pub fn wl_seat_name(&mut self, seat_id: u32, name: &[u8])
        ensures
            wrote(*old(self), *final(self), seat_id, WL_SEAT_NAME, seq![ArgValue::Str(Some(name@))]),
    {
        let args = vec![Arg::Str(Some(slice_to_vec(name)))];
        assert(arg_values(args@) =~= seq![ArgValue::Str(Some(name@))]);
        self.write_message(seat_id, WL_SEAT_NAME, &args);
    }
}

} // verus!
