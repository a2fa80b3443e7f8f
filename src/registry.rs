//! The objects one client has, by id, and the server's id allocator.
use crate::events::DISPLAY_ID;
use crate::interface::InterfaceIndex;
use crate::message::ArgValue;
use crate::writer::{wrote, Writer};
use crate::events::WL_DISPLAY_DELETE_ID;
use std::collections::HashMap;
use vstd::prelude::*;
use vstd::std_specs::iter::IteratorSpec;

verus! {

broadcast use vstd::std_specs::hash::group_hash_axioms;

/// The first id that the server mints; ids below it are the client's.
pub const MIN_SERVER_OBJECT_ID: u32 = 0xFF000000;

/// An id the server mints, as opposed to one the client picks.
pub open spec fn is_server_id(id: u32) -> bool {
    id >= MIN_SERVER_OBJECT_ID
}

/// Why a registry refused a request.
#[derive(Clone, Copy, Debug, PartialEq, Eq, Structural)]
pub enum RegistryError {
    /// The id is zero or lies in the server's range.
    InvalidId,
    /// The id already names a live object.
    AlreadyLive,
    /// Every server id is in use.
    Exhausted,
}

/// The live objects of one client, each with its interface, and the
/// allocator of server ids: a counter and a stack of freed ids.
#[derive(Debug)]
pub struct Registry {
    objects: HashMap<u32, InterfaceIndex>,
    next_object_id: u64,
    freed_object_ids: Vec<u32>,
}

impl Registry {
    /// The live objects and their interfaces.
    pub closed spec fn objects(&self) -> Map<u32, InterfaceIndex> {
        self.objects@
    }

    /// Freed server ids, the next to be reused last.
    pub closed spec fn free_list(&self) -> Seq<u32> {
        self.freed_object_ids@
    }

    /// The server id the counter mints next.
    pub closed spec fn next_id(&self) -> nat {
        self.next_object_id as nat
    }

    /// No id is both live and free, and no id is free twice.
    pub open spec fn ids_disjoint(&self) -> bool {
        &&& forall|i: int| 0 <= i < self.free_list().len() ==> !self.objects().contains_key(#[trigger] self.free_list()[i])
        &&& self.free_list().no_duplicates()
    }

    /// The display is always object 1; every server id that is live or free
    /// was minted before; and no id is both live and free.
    pub closed spec fn wf(&self) -> bool {
        &&& self.objects@.contains_key(DISPLAY_ID)
        &&& self.objects@[DISPLAY_ID] == InterfaceIndex::WlDisplay
        &&& MIN_SERVER_OBJECT_ID <= self.next_object_id <= 0x1_0000_0000
        &&& forall|id: u32| #[trigger]
            self.objects@.contains_key(id) && is_server_id(id) ==> id < self.next_object_id
        &&& forall|i: int|
            0 <= i < self.freed_object_ids@.len() ==> is_server_id(#[trigger] self.freed_object_ids@[i])
                && self.freed_object_ids@[i] < self.next_object_id
                && !self.objects@.contains_key(self.freed_object_ids@[i])
        &&& self.freed_object_ids@.no_duplicates()
    }

    /// A registry that holds only the display.
    pub fn new() -> (r: Registry)
        ensures
            r.ids_disjoint(),
            r.wf(),
            r.objects() == Map::<u32, InterfaceIndex>::empty().insert(
                DISPLAY_ID,
                InterfaceIndex::WlDisplay,
            ),
            r.free_list() == Seq::<u32>::empty(),
            r.next_id() == MIN_SERVER_OBJECT_ID,
    {
        let mut objects: HashMap<u32, InterfaceIndex> = HashMap::new();
        objects.insert(DISPLAY_ID, InterfaceIndex::WlDisplay);
        let r = Registry {
            objects,
            next_object_id: MIN_SERVER_OBJECT_ID as u64,
            freed_object_ids: Vec::new(),
        };
        assert(r.objects@ =~= Map::<u32, InterfaceIndex>::empty().insert(
            DISPLAY_ID,
            InterfaceIndex::WlDisplay,
        ));
        r
    }

    /// The interface of a live object; `None` when the id names none.
    pub fn interface_index(&self, object_id: u32) -> (r: Option<InterfaceIndex>)
        ensures
            r == (if self.objects().contains_key(object_id) {
                Some(self.objects()[object_id])
            } else {
                None::<InterfaceIndex>
            }),
    {
        match self.objects.get(&object_id) {
            Some(i) => Some(*i),
            None => None,
        }
    }

    /// Registers an object whose id the client chose.
    pub fn register_object(&mut self, object_id: u32, interface_index: InterfaceIndex) -> (r: Result<(), RegistryError>)
        requires
            old(self).wf(),
        ensures
            final(self).ids_disjoint(),
            final(self).wf(),
            final(self).free_list() == old(self).free_list(),
            final(self).next_id() == old(self).next_id(),
            object_id == 0 || is_server_id(object_id) ==> r == Err::<(), RegistryError>(
                RegistryError::InvalidId,
            ) && final(self).objects() == old(self).objects(),
            object_id != 0 && !is_server_id(object_id) && old(self).objects().contains_key(object_id)
                ==> r == Err::<(), RegistryError>(RegistryError::AlreadyLive) && final(self).objects()
                == old(self).objects(),
            object_id != 0 && !is_server_id(object_id) && !old(self).objects().contains_key(
                object_id,
            ) ==> r is Ok && final(self).objects() == old(self).objects().insert(
                object_id,
                interface_index,
            ),
    {
        if object_id == 0 || object_id >= MIN_SERVER_OBJECT_ID {
            return Err(RegistryError::InvalidId);
        }
        if self.objects.contains_key(&object_id) {
            return Err(RegistryError::AlreadyLive);
        }
        self.objects.insert(object_id, interface_index);
        Ok(())
    }

    /// Registers an object under a server id: the most recently freed one, or
    /// else the counter's next, which is above every server id minted before.
    pub fn create_object(&mut self, interface_index: InterfaceIndex) -> (r: Result<u32, RegistryError>)
        requires
            old(self).wf(),
        ensures
            final(self).ids_disjoint(),
            final(self).wf(),
            old(self).free_list().len() > 0 ==> {
                &&& r == Ok::<u32, RegistryError>(old(self).free_list().last())
                &&& final(self).free_list() == old(self).free_list().drop_last()
                &&& final(self).next_id() == old(self).next_id()
            },
            old(self).free_list().len() == 0 && old(self).next_id() <= u32::MAX ==> {
                &&& r == Ok::<u32, RegistryError>(old(self).next_id() as u32)
                &&& final(self).next_id() == old(self).next_id() + 1
                &&& final(self).free_list() == old(self).free_list()
            },
            old(self).free_list().len() == 0 && old(self).next_id() > u32::MAX ==> {
                &&& r == Err::<u32, RegistryError>(RegistryError::Exhausted)
                &&& final(self).objects() == old(self).objects()
                &&& final(self).free_list() == old(self).free_list()
                &&& final(self).next_id() == old(self).next_id()
            },
            old(self).free_list().len() == 0 && r is Ok ==> forall|id: u32|
                #[trigger] old(self).objects().contains_key(id) && is_server_id(id) ==> id < r->Ok_0,
            r is Ok ==> {
                &&& is_server_id(r->Ok_0)
                &&& !old(self).objects().contains_key(r->Ok_0)
                &&& final(self).objects() == old(self).objects().insert(r->Ok_0, interface_index)
            },
    {
        let id = match self.freed_object_ids.pop() {
            Some(id) => {
                assert(old(self).freed_object_ids@[old(self).freed_object_ids@.len() - 1] == id);
                id
            },
            None => {
                if self.next_object_id > u32::MAX as u64 {
                    return Err(RegistryError::Exhausted);
                }
                let id = self.next_object_id as u32;
                self.next_object_id = self.next_object_id + 1;
                id
            },
        };
        self.objects.insert(id, interface_index);
        proof {
            let f = self.freed_object_ids@;
            let of = old(self).freed_object_ids@;
            assert forall|i: int| 0 <= i < f.len() implies f[i] != id by {
                if of.len() > 0 {
                    assert(f[i] == of[i]);
                    assert(of.no_duplicates());
                }
            }
        }
        Ok(id)
    }

    /// Removes a live object other than the display. A client id is announced
    /// to the client with `wl_display.delete_id`, so that it may reuse it; a
    /// server id goes onto the free list. Returns whether an object was removed.
    pub fn free_object(&mut self, object_id: u32, writer: &mut Writer) -> (r: bool)
        requires
            old(self).wf(),
        ensures
            final(self).ids_disjoint(),
            final(self).wf(),
            final(self).next_id() == old(self).next_id(),
            r == (old(self).objects().contains_key(object_id) && object_id != DISPLAY_ID),
            !r ==> *final(self) == *old(self) && *final(writer) == *old(writer),
            r ==> final(self).objects() == old(self).objects().remove(object_id),
            r && !is_server_id(object_id) ==> {
                &&& final(self).free_list() == old(self).free_list()
                &&& wrote(
                    *old(writer),
                    *final(writer),
                    DISPLAY_ID,
                    WL_DISPLAY_DELETE_ID,
                    seq![ArgValue::Uint(object_id)],
                )
            },
            r && is_server_id(object_id) ==> {
                &&& final(self).free_list() == old(self).free_list().push(object_id)
                &&& *final(writer) == *old(writer)
            },
    {
        if object_id == DISPLAY_ID || !self.objects.contains_key(&object_id) {
            return false;
        }
        self.objects.remove(&object_id);
        if object_id >= MIN_SERVER_OBJECT_ID {
            self.freed_object_ids.push(object_id);
            proof {
                let f = self.freed_object_ids@;
                let of = old(self).freed_object_ids@;
                assert forall|i: int, j: int| 0 <= i < j < f.len() implies f[i] != f[j] by {
                    if j == f.len() - 1 {
                        assert(f[i] == of[i]);
                    }
                }
            }
        } else {
            writer.wl_display_delete_id(object_id);
        }
        true
    }

    /// The live objects of one interface.
    pub fn iter_object_ids_of_interface(&self, interface_index: InterfaceIndex) -> (r: Vec<u32>)
        ensures
            forall|id: u32| #[trigger] r@.contains(id) <==> self.objects().contains_key(id)
                && self.objects()[id] == interface_index,
            r@.no_duplicates(),
    {
        let mut r: Vec<u32> = Vec::new();
        let ghost m = self.objects@;
        let ghost s = vstd::std_specs::hash::spec_hash_map_iter(&self.objects).remaining();
        proof {
            vstd::std_specs::hash::axiom_spec_hash_map_iter(&self.objects);
        }
        for pair in it: self.objects.iter()
            invariant
                m == self.objects@,
                it.seq() == s,
                forall|id: u32| #[trigger] r@.contains(id) ==> m.contains_key(id) && m[id]
                    == interface_index,
                r@.no_duplicates(),
                forall|k: int|
                    0 <= k < it.index() && *(#[trigger] s[k]).1 == interface_index
                        ==> r@.contains(*s[k].0),
            ensures
                forall|k: int|
                    0 <= k < s.len() && *(#[trigger] s[k]).1 == interface_index
                        ==> r@.contains(*s[k].0),
        {
            let (id, i) = pair;
            assert(s[it.index()] == (id, i));
            assert(m.contains_key(*s[it.index()].0) && m[*s[it.index()].0] == *s[it.index()].1);
            let ghost old_r = r@;
            if *i == interface_index && !contains_id(&r, *id) {
                r.push(*id);
                proof {
                    assert forall|x: u32| old_r.contains(x) implies #[trigger] r@.contains(x) by {
                        let j = choose|j: int| 0 <= j < old_r.len() && old_r[j] == x;
                        assert(r@[j] == x);
                    }
                    assert(r@[r@.len() - 1] == *id);
                    assert forall|a: int, b: int| 0 <= a < b < r@.len() implies r@[a] != r@[b] by {
                        if b == r@.len() - 1 {
                            assert(old_r[a] == r@[a]);
                            assert(old_r.contains(r@[a]));
                        }
                    }
                    assert forall|x: u32| #[trigger] r@.contains(x) implies m.contains_key(x) && m[x]
                        == interface_index by {
                        let j = choose|j: int| 0 <= j < r@.len() && r@[j] == x;
                        if j < old_r.len() {
                            assert(old_r[j] == x);
                            assert(old_r.contains(x));
                        }
                    }
                }
            }
        }
        proof {
            assert forall|id: u32| m.contains_key(id) && m[id] == interface_index implies #[trigger] r@.contains(id) by {
                assert(s.contains((&id, &m[id])));
                let k = choose|k: int| 0 <= k < s.len() && s[k] == (&id, &m[id]);
                assert(*s[k].1 == interface_index);
            }
        }
        r
    }

    /// The display is object 1.
    pub proof fn lemma_display_present(&self)
        requires
            self.wf(),
        ensures
            self.objects().contains_key(DISPLAY_ID),
            self.objects()[DISPLAY_ID] == InterfaceIndex::WlDisplay,
    {
    }

    /// No id is both live and on the free list.
    pub proof fn lemma_live_ids_not_free(&self)
        requires
            self.wf(),
        ensures
            forall|i: int| 0 <= i < self.free_list().len() ==> !self.objects().contains_key(#[trigger] self.free_list()[i]),
            self.free_list().no_duplicates(),
    {
    }

    /// Every server id that is live or free was minted before: it lies below
    /// the counter.
    pub proof fn lemma_minted_below_next(&self)
        requires
            self.wf(),
        ensures
            forall|id: u32| #[trigger] self.objects().contains_key(id) && is_server_id(id) ==> id < self.next_id(),
            forall|i: int| 0 <= i < self.free_list().len() ==> #[trigger] self.free_list()[i] < self.next_id() && is_server_id(self.free_list()[i]),
    {
    }
}

/// Registering a client id, freeing it and registering it again is legal,
/// and the id then names the second interface: each step below is what
/// `register_object`, `free_object` and `register_object` promise.
pub proof fn lemma_register_free_register(
    r0: Registry,
    r1: Registry,
    r2: Registry,
    r3: Registry,
    id: u32,
    first: InterfaceIndex,
    second: InterfaceIndex,
)
    requires
        r0.wf(),
        id != 0,
        !is_server_id(id),
        !r0.objects().contains_key(id),
        r1.objects() == r0.objects().insert(id, first),
        r2.objects() == r1.objects().remove(id),
        r3.objects() == r2.objects().insert(id, second),
    ensures
        r1.objects().contains_key(id) && id != DISPLAY_ID,
        !r2.objects().contains_key(id),
        r3.objects().contains_key(id) && r3.objects()[id] == second,
{
}

/// Whether `id` is among `ids`.
fn contains_id(ids: &Vec<u32>, id: u32) -> (r: bool)
    ensures
        r == ids@.contains(id),
{
    let mut k: usize = 0;
    while k < ids.len()
        invariant
            k <= ids@.len(),
            forall|j: int| 0 <= j < k ==> ids@[j] != id,
        decreases ids@.len() - k,
    {
        if ids[k] == id {
            assert(ids@[k as int] == id);
            return true;
        }
        k = k + 1;
    }
    false
}

} // verus!
