//! Surfaces and their double-buffered state.
use crate::shm::object_key;
use std::collections::HashMap;
use vstd::prelude::*;

verus! {

broadcast use vstd::std_specs::hash::group_hash_axioms;

/// What a surface shows: a buffer, by object id, and its offset.
#[derive(Clone, Copy, Debug, PartialEq, Eq, Structural)]
pub struct SurfaceState {
    pub buffer: Option<u32>,
    pub dx: i32,
    pub dy: i32,
}

/// The part a surface plays; given once.
#[derive(Clone, Copy, Debug, PartialEq, Eq, Structural)]
pub enum SurfaceRole {
    ShellSurface,
    Subsurface,
    Cursor,
}

/// One client surface.
#[derive(Clone, Copy, Debug, PartialEq, Eq, Structural)]
pub struct Surface {
    pub id: u32,
    pub client_id: u32,
    pub role: Option<SurfaceRole>,
    pub committed: SurfaceState,
    pub pending: SurfaceState,
}

/// An empty surface state: no buffer, no offset.
pub open spec fn empty_state() -> SurfaceState {
    SurfaceState { buffer: None, dx: 0, dy: 0 }
}

/// Why a surface request failed.
#[derive(Clone, Copy, Debug, PartialEq, Eq, Structural)]
pub enum SurfaceError {
    UnknownSurface,
    RoleAlreadySet,
}

/// Every surface of every client, by client and object id.
#[derive(Default)]
pub struct SurfaceManager {
    surfaces: HashMap<u64, Surface>,
}

impl SurfaceManager {
    pub closed spec fn surfaces(&self) -> Map<u64, Surface> {
        self.surfaces@
    }

    pub fn new() -> (r: SurfaceManager)
        ensures
            r.surfaces() == Map::<u64, Surface>::empty(),
    {
        SurfaceManager { surfaces: HashMap::new() }
    }

    /// Creates a surface with no role and empty states.
    pub fn create_surface(&mut self, client_id: u32, id: u32)
        ensures
            final(self).surfaces() == old(self).surfaces().insert(
                object_key(client_id, id),
                Surface { id, client_id, role: None, committed: empty_state(), pending: empty_state() },
            ),
    {
        let empty = SurfaceState { buffer: None, dx: 0, dy: 0 };
        self.surfaces.insert(
            client_id as u64 * 0x1_0000_0000 + id as u64,
            Surface { id, client_id, role: None, committed: empty, pending: empty },
        );
    }

    /// A client's surface.
    pub fn get(&self, client_id: u32, id: u32) -> (r: Option<Surface>)
        ensures
            r == (if self.surfaces().contains_key(object_key(client_id, id)) {
                Some(self.surfaces()[object_key(client_id, id)])
            } else {
                None::<Surface>
            }),
    {
        match self.surfaces.get(&(client_id as u64 * 0x1_0000_0000 + id as u64)) {
            Some(s) => Some(*s),
            None => None,
        }
    }

    /// Replaces a surface's pending buffer and offset.
    pub fn attach(&mut self, client_id: u32, id: u32, buffer: Option<u32>, dx: i32, dy: i32) -> (r: Result<(), SurfaceError>)
        ensures
            !old(self).surfaces().contains_key(object_key(client_id, id)) ==> r == Err::<(), SurfaceError>(SurfaceError::UnknownSurface)
                && final(self).surfaces() == old(self).surfaces(),
            old(self).surfaces().contains_key(object_key(client_id, id)) ==> r is Ok && final(self).surfaces()
                == old(self).surfaces().insert(
                object_key(client_id, id),
                Surface { pending: SurfaceState { buffer, dx, dy }, ..old(self).surfaces()[object_key(client_id, id)] },
            ),
    {
        let key = client_id as u64 * 0x1_0000_0000 + id as u64;
        match self.surfaces.get(&key) {
            Some(s) => {
                let mut t = *s;
                t.pending = SurfaceState { buffer, dx, dy };
                self.surfaces.insert(key, t);
                Ok(())
            },
            None => Err(SurfaceError::UnknownSurface),
        }
    }

    /// Makes the pending state the committed one, and empties the pending state.
    pub fn commit(&mut self, client_id: u32, id: u32) -> (r: Result<(), SurfaceError>)
        ensures
            !old(self).surfaces().contains_key(object_key(client_id, id)) ==> r == Err::<(), SurfaceError>(SurfaceError::UnknownSurface)
                && final(self).surfaces() == old(self).surfaces(),
            old(self).surfaces().contains_key(object_key(client_id, id)) ==> r is Ok && final(self).surfaces()
                == old(self).surfaces().insert(
                object_key(client_id, id),
                Surface {
                    committed: old(self).surfaces()[object_key(client_id, id)].pending,
                    pending: empty_state(),
                    ..old(self).surfaces()[object_key(client_id, id)]
                },
            ),
    {
        let key = client_id as u64 * 0x1_0000_0000 + id as u64;
        match self.surfaces.get(&key) {
            Some(s) => {
                let mut t = *s;
                t.committed = t.pending;
                t.pending = SurfaceState { buffer: None, dx: 0, dy: 0 };
                self.surfaces.insert(key, t);
                Ok(())
            },
            None => Err(SurfaceError::UnknownSurface),
        }
    }

    /// Gives a surface its role; a role is given once.
    pub fn set_role(&mut self, client_id: u32, id: u32, role: SurfaceRole) -> (r: Result<(), SurfaceError>)
        ensures
            !old(self).surfaces().contains_key(object_key(client_id, id)) ==> r == Err::<(), SurfaceError>(SurfaceError::UnknownSurface),
            old(self).surfaces().contains_key(object_key(client_id, id)) && old(self).surfaces()[object_key(client_id, id)].role is Some
                ==> r == Err::<(), SurfaceError>(SurfaceError::RoleAlreadySet),
            r is Err ==> final(self).surfaces() == old(self).surfaces(),
            old(self).surfaces().contains_key(object_key(client_id, id)) && old(self).surfaces()[object_key(client_id, id)].role is None
                ==> r is Ok && final(self).surfaces() == old(self).surfaces().insert(
                object_key(client_id, id),
                Surface { role: Some(role), ..old(self).surfaces()[object_key(client_id, id)] },
            ),
    {
        let key = client_id as u64 * 0x1_0000_0000 + id as u64;
        match self.surfaces.get(&key) {
            Some(s) => {
                if s.role.is_some() {
                    return Err(SurfaceError::RoleAlreadySet);
                }
                let mut t = *s;
                t.role = Some(role);
                self.surfaces.insert(key, t);
                Ok(())
            },
            None => Err(SurfaceError::UnknownSurface),
        }
    }

    /// Forgets a surface; returns whether it existed.
    pub fn destroy_surface(&mut self, client_id: u32, id: u32) -> (r: bool)
        ensures
            r == old(self).surfaces().contains_key(object_key(client_id, id)),
            final(self).surfaces() == old(self).surfaces().remove(object_key(client_id, id)),
    {
        self.surfaces.remove(&(client_id as u64 * 0x1_0000_0000 + id as u64)).is_some()
    }
}

} // verus!
