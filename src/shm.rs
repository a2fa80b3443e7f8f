//! Shared-memory pools that clients hand over, and the buffers cut from them.
//!
//! Pools and buffers live in two slabs with stacks of free slots. A buffer
//! names its pool by slot. A pool's reference count is one for the pool
//! object while it lives plus one for each live buffer cut from it; the pool
//! is unmapped when the count reaches zero. Mapping and unmapping memory is
//! the caller's part: the manager takes the address a mapping gave, and hands
//! back each mapping that is to be released.
use std::collections::HashMap;
use vstd::prelude::*;

verus! {

broadcast use vstd::std_specs::hash::group_hash_axioms;

/// The key of an object of one client.
pub open spec fn object_key(client_id: u32, object_id: u32) -> u64 {
    (client_id as int * 0x1_0000_0000 + object_id as int) as u64
}

fn key_of(client_id: u32, object_id: u32) -> (k: u64)
    ensures
        k == object_key(client_id, object_id),
{
    client_id as u64 * 0x1_0000_0000 + object_id as u64
}

/// A mapped region of memory.
#[derive(Clone, Copy, Debug, PartialEq, Eq, Structural)]
pub struct Mapping {
    pub address: usize,
    pub size: usize,
}

/// Why a pool or buffer request failed.
#[derive(Clone, Copy, Debug, PartialEq, Eq, Structural)]
pub enum ShmError {
    /// No pool of that client has that id.
    UnknownPool,
    /// The client already has a pool with that id.
    PoolExists,
    /// The client already has a buffer with that id.
    BufferExists,
    /// Mapping the pool's memory failed.
    MapFailed,
    /// A pool may only grow.
    NotLarger,
    /// The pool's reference count is at its limit.
    TooManyBuffers,
}

/// A client's pool of shared memory.
#[derive(Clone, Copy, Debug)]
pub struct ShmPool {
    pub fd: i32,
    pub size: usize,
    /// Where the pool is mapped; `None` once it is unmapped.
    pub address: Option<usize>,
    pub ref_count: usize,
}

/// A view of part of a pool as a pixel buffer.
#[derive(Clone, Copy, Debug)]
pub struct ShmBuffer {
    pub pool_index: usize,
    pub offset: usize,
    pub width: i32,
    pub height: i32,
    pub stride: i32,
    pub format: u32,
    pub alive: bool,
    /// The pool's address plus the offset; `None` where that does not exist.
    pub address: Option<usize>,
}

/// Whether a buffer is a live view of pool slot `p`.
pub open spec fn holds(b: ShmBuffer, p: usize) -> nat {
    if b.alive && b.pool_index == p {
        1
    } else {
        0
    }
}

/// The number of live buffers that are views of pool slot `p`.
pub open spec fn count_alive(s: Seq<ShmBuffer>, p: usize) -> nat
    decreases s.len(),
{
    if s.len() == 0 {
        0
    } else {
        count_alive(s.drop_last(), p) + holds(s.last(), p)
    }
}

/// Whether some key of the map names slot `p`.
pub open spec fn named(m: Map<u64, usize>, p: usize) -> bool {
    exists|k: u64| m.contains_key(k) && m[k] == p
}

/// Different keys name different slots.
pub open spec fn injective(m: Map<u64, usize>) -> bool {
    forall|k1: u64, k2: u64|
        m.contains_key(k1) && m.contains_key(k2) && m[k1] == m[k2] ==> k1 == k2
}

proof fn lemma_count_push(s: Seq<ShmBuffer>, x: ShmBuffer, p: usize)
    ensures
        count_alive(s.push(x), p) == count_alive(s, p) + holds(x, p),
{
    assert(s.push(x).drop_last() =~= s);
}

proof fn lemma_count_update(s: Seq<ShmBuffer>, i: int, x: ShmBuffer, p: usize)
    requires
        0 <= i < s.len(),
    ensures
        count_alive(s.update(i, x), p) + holds(s[i], p) == count_alive(s, p) + holds(x, p),
    decreases s.len(),
{
    let t = s.update(i, x);
    if i == s.len() - 1 {
        assert(t.drop_last() =~= s.drop_last());
    } else {
        assert(t.drop_last() =~= s.drop_last().update(i, x));
        lemma_count_update(s.drop_last(), i, x, p);
    }
}

proof fn lemma_count_zero(s: Seq<ShmBuffer>, p: usize)
    requires
        forall|i: int| 0 <= i < s.len() && s[i].alive ==> s[i].pool_index != p,
    ensures
        count_alive(s, p) == 0,
    decreases s.len(),
{
    if s.len() > 0 {
        lemma_count_zero(s.drop_last(), p);
    }
}

proof fn lemma_count_positive(s: Seq<ShmBuffer>, i: int, p: usize)
    requires
        0 <= i < s.len(),
        s[i].alive,
        s[i].pool_index == p,
    ensures
        count_alive(s, p) >= 1,
    decreases s.len(),
{
    if i < s.len() - 1 {
        lemma_count_positive(s.drop_last(), i, p);
    }
}

proof fn lemma_count_bound(s: Seq<ShmBuffer>, p: usize)
    ensures
        count_alive(s, p) <= s.len(),
    decreases s.len(),
{
    if s.len() > 0 {
        lemma_count_bound(s.drop_last(), p);
    }
}

/// Every pool and buffer of every client, by client and object id.
#[derive(Debug)]
pub struct ShmManager {
    shm_pool_index: HashMap<u64, usize>,
    shm_pools: Vec<ShmPool>,
    free_shm_pool_indexes: Vec<usize>,
    buffer_index: HashMap<u64, usize>,
    buffers: Vec<ShmBuffer>,
    free_buffer_indexes: Vec<usize>,
}

impl ShmManager {
    /// Pool slots by client and object key.
    pub closed spec fn pool_keys(&self) -> Map<u64, usize> {
        self.shm_pool_index@
    }

    /// The pool slab.
    pub closed spec fn pools(&self) -> Seq<ShmPool> {
        self.shm_pools@
    }

    /// Buffer slots by client and object key.
    pub closed spec fn buffer_keys(&self) -> Map<u64, usize> {
        self.buffer_index@
    }

    /// The buffer slab.
    pub closed spec fn buffers(&self) -> Seq<ShmBuffer> {
        self.buffers@
    }

    /// Pool slots free for reuse, the next to be reused last.
    pub closed spec fn free_pool_slots(&self) -> Seq<usize> {
        self.free_shm_pool_indexes@
    }

    /// Buffer slots free for reuse, the next to be reused last.
    pub closed spec fn free_buffer_slots(&self) -> Seq<usize> {
        self.free_buffer_indexes@
    }

    pub closed spec fn wf(&self) -> bool {
        let pools = self.shm_pools@;
        let bufs = self.buffers@;
        &&& forall|k: u64| #[trigger]
            self.shm_pool_index@.contains_key(k) ==> self.shm_pool_index@[k] < pools.len()
        &&& injective(self.shm_pool_index@)
        &&& forall|p: usize|
            p < pools.len() ==> #[trigger] pools[p as int].ref_count == (if named(
                self.shm_pool_index@,
                p,
            ) {
                1nat
            } else {
                0nat
            }) + count_alive(bufs, p)
        &&& forall|i: int|
            0 <= i < bufs.len() && #[trigger] bufs[i].alive ==> bufs[i].pool_index < pools.len()
        &&& forall|i: int|
            0 <= i < self.free_shm_pool_indexes@.len() ==> #[trigger] self.free_shm_pool_indexes@[i]
                < pools.len() && pools[self.free_shm_pool_indexes@[i] as int].ref_count == 0
        &&& self.free_shm_pool_indexes@.no_duplicates()
        &&& forall|k: u64| #[trigger]
            self.buffer_index@.contains_key(k) ==> self.buffer_index@[k] < bufs.len()
                && bufs[self.buffer_index@[k] as int].alive
        &&& injective(self.buffer_index@)
        &&& forall|i: int|
            0 <= i < self.free_buffer_indexes@.len() ==> #[trigger] self.free_buffer_indexes@[i]
                < bufs.len() && !bufs[self.free_buffer_indexes@[i] as int].alive
        &&& self.free_buffer_indexes@.no_duplicates()
        &&& forall|p: int|
            0 <= p < pools.len() && #[trigger] pools[p].ref_count > 0 ==> pools[p].address is Some
    }

    /// A pool with references is mapped.
    pub proof fn lemma_referenced_pool_is_mapped(&self, p: int)
        requires
            self.wf(),
            0 <= p < self.pools().len(),
            self.pools()[p].ref_count > 0,
        ensures
            self.pools()[p].address is Some,
    {
    }

    /// A live buffer's pool has references.
    pub proof fn lemma_live_buffer_pool_referenced(&self, i: int)
        requires
            self.wf(),
            0 <= i < self.buffers().len(),
            self.buffers()[i].alive,
        ensures
            self.buffers()[i].pool_index < self.pools().len(),
            self.pools()[self.buffers()[i].pool_index as int].ref_count >= 1,
    {
        let p = self.buffers@[i].pool_index;
        lemma_count_positive(self.buffers@, i, p);
        assert(self.shm_pools@[p as int].ref_count == (if named(self.shm_pool_index@, p) {
            1nat
        } else {
            0nat
        }) + count_alive(self.buffers@, p));
    }

    pub fn new() -> (r: ShmManager)
        ensures
            r.wf(),
            r.pool_keys() == Map::<u64, usize>::empty(),
            r.buffer_keys() == Map::<u64, usize>::empty(),
    {
        let r = ShmManager {
            shm_pool_index: HashMap::new(),
            shm_pools: Vec::new(),
            free_shm_pool_indexes: Vec::new(),
            buffer_index: HashMap::new(),
            buffers: Vec::new(),
            free_buffer_indexes: Vec::new(),
        };
        r
    }

    /// Records a pool that the client created and that was mapped at
    /// `mapped`, or whose mapping failed (`None`). The pool starts with one
    /// reference, held by the pool object. Nothing changes on an error.
    pub fn create_pool(&mut self, client_id: u32, object_id: u32, fd: i32, size: usize, mapped: Option<usize>) -> (r: Result<(), ShmError>)
        requires
            old(self).wf(),
        ensures
            final(self).wf(),
            r is Ok ==> ({
                let p = final(self).pool_keys()[object_key(client_id, object_id)] as int;
                &&& final(self).pool_keys() == old(self).pool_keys().insert(object_key(client_id, object_id), p as usize)
                &&& p == old(self).pools().len() && final(self).pools().len() == old(self).pools().len() + 1
                    || p < old(self).pools().len() && old(self).pools()[p].ref_count == 0 && final(self).pools().len() == old(self).pools().len()
                &&& old(self).free_pool_slots().len() > 0 ==> p == old(self).free_pool_slots().last()
                    && final(self).free_pool_slots() == old(self).free_pool_slots().drop_last()
                &&& old(self).free_pool_slots().len() == 0 ==> p == old(self).pools().len()
                    && final(self).free_pool_slots() == old(self).free_pool_slots()
                &&& final(self).free_buffer_slots() == old(self).free_buffer_slots()
                &&& forall|q: int| 0 <= q < old(self).pools().len() && q != p ==> #[trigger] final(self).pools()[q] == old(self).pools()[q]
            }),
            old(self).pool_keys().contains_key(object_key(client_id, object_id)) ==> r == Err::<(), ShmError>(ShmError::PoolExists),
            !old(self).pool_keys().contains_key(object_key(client_id, object_id)) && mapped is None ==> r == Err::<(), ShmError>(ShmError::MapFailed),
            r is Err ==> final(self).pool_keys() == old(self).pool_keys() && final(self).pools() == old(self).pools() && final(self).buffers() == old(self).buffers() && final(self).buffer_keys() == old(self).buffer_keys(),
            !old(self).pool_keys().contains_key(object_key(client_id, object_id)) && mapped is Some ==> {
                &&& r is Ok
                &&& final(self).pool_keys().dom() == old(self).pool_keys().dom().insert(object_key(client_id, object_id))
                &&& final(self).pools()[final(self).pool_keys()[object_key(client_id, object_id)] as int] == (ShmPool { fd, size, address: mapped, ref_count: 1 })
                &&& final(self).buffers() == old(self).buffers()
                &&& final(self).buffer_keys() == old(self).buffer_keys()
            },
    {
        let key = key_of(client_id, object_id);
        if self.shm_pool_index.contains_key(&key) {
            return Err(ShmError::PoolExists);
        }
        if mapped.is_none() {
            return Err(ShmError::MapFailed);
        }
        let pool = ShmPool { fd, size, address: mapped, ref_count: 1 };
        let ghost old_pools = self.shm_pools@;
        let ghost m = self.shm_pool_index@;
        let index = match self.free_shm_pool_indexes.pop() {
            Some(index) => {
                proof {
                    let of = old(self).free_shm_pool_indexes@;
                    assert(of[of.len() - 1] == index);
                    assert forall|i: int| 0 <= i < self.free_shm_pool_indexes@.len() implies #[trigger] self.free_shm_pool_indexes@[i] != index by {
                        assert(self.free_shm_pool_indexes@[i] == of[i]);
                    }
                }
                self.shm_pools[index] = pool;
                index
            },
            None => {
                self.shm_pools.push(pool);
                self.shm_pools.len() - 1
            },
        };
        proof {
            // The slot held no references, so no key and no live buffer names it.
            if index < old_pools.len() {
                assert(old_pools[index as int].ref_count == 0);
            } else {
                assert forall|i: int| 0 <= i < self.buffers@.len() && self.buffers@[i].alive implies self.buffers@[i].pool_index != index by {}
                assert(count_alive(self.buffers@, index) == 0) by {
                    lemma_count_zero(self.buffers@, index);
                }
            }
            assert(!named(m, index));
        }
        self.shm_pool_index.insert(key, index);
        proof {
            let nm = self.shm_pool_index@;
            assert(named(nm, index));
            assert forall|p: usize| p < self.shm_pools@.len() && p != index implies named(nm, p) == named(m, p) by {
                if named(nm, p) {
                    let k = choose|k: u64| nm.contains_key(k) && nm[k] == p;
                    assert(m.contains_key(k) && m[k] == p);
                }
                if named(m, p) {
                    let k = choose|k: u64| m.contains_key(k) && m[k] == p;
                    assert(nm.contains_key(k) && nm[k] == p);
                }
            }
            assert forall|p: usize| p < self.shm_pools@.len() implies #[trigger] self.shm_pools@[p as int].ref_count == (if named(nm, p) { 1nat } else { 0nat }) + count_alive(self.buffers@, p) by {
                if p != index {
                    assert(self.shm_pools@[p as int] == old_pools[p as int]);
                }
            }
            assert(nm.dom() =~= m.dom().insert(key));
        }
        Ok(())
    }

    /// The pool a client has under `object_id`.
    pub fn pool(&self, client_id: u32, object_id: u32) -> (r: Option<ShmPool>)
        requires
            self.wf(),
        ensures
            match r {
                Some(p) => self.pool_keys().contains_key(object_key(client_id, object_id))
                    && p == self.pools()[self.pool_keys()[object_key(client_id, object_id)] as int],
                None => !self.pool_keys().contains_key(object_key(client_id, object_id)),
            },
    {
        match self.shm_pool_index.get(&key_of(client_id, object_id)) {
            Some(index) => Some(self.shm_pools[*index]),
            None => None,
        }
    }

    /// The buffer a client has under `buffer_id`.
    pub fn buffer(&self, client_id: u32, buffer_id: u32) -> (r: Option<ShmBuffer>)
        requires
            self.wf(),
        ensures
            match r {
                Some(b) => self.buffer_keys().contains_key(object_key(client_id, buffer_id))
                    && b == self.buffers()[self.buffer_keys()[object_key(client_id, buffer_id)] as int],
                None => !self.buffer_keys().contains_key(object_key(client_id, buffer_id)),
            },
    {
        match self.buffer_index.get(&key_of(client_id, buffer_id)) {
            Some(index) => Some(self.buffers[*index]),
            None => None,
        }
    }

    /// Drops one reference from pool slot `p`, which the caller has just
    /// stopped holding; at zero the slot is freed and its mapping returned.
    fn reduce_pool_ref_count(&mut self, p: usize) -> (r: Option<Mapping>)
        requires
            p < old(self).shm_pools@.len(),
            old(self).shm_pools@[p as int].ref_count >= 1,
            old(self).shm_pools@[p as int].address is Some,
            old(self).free_shm_pool_indexes@.no_duplicates(),
            forall|i: int| 0 <= i < old(self).free_shm_pool_indexes@.len() ==> #[trigger] old(self).free_shm_pool_indexes@[i]
                < old(self).shm_pools@.len() && old(self).shm_pools@[old(self).free_shm_pool_indexes@[i] as int].ref_count == 0,
        ensures
            final(self).shm_pool_index@ == old(self).shm_pool_index@,
            final(self).buffers@ == old(self).buffers@,
            final(self).buffer_index@ == old(self).buffer_index@,
            final(self).free_buffer_indexes@ == old(self).free_buffer_indexes@,
            final(self).free_shm_pool_indexes@ == if old(self).shm_pools@[p as int].ref_count == 1 {
                old(self).free_shm_pool_indexes@.push(p)
            } else {
                old(self).free_shm_pool_indexes@
            },
            final(self).shm_pools@.len() == old(self).shm_pools@.len(),
            forall|q: int| 0 <= q < old(self).shm_pools@.len() && q != p ==> final(self).shm_pools@[q] == old(self).shm_pools@[q],
            final(self).shm_pools@[p as int].ref_count == old(self).shm_pools@[p as int].ref_count - 1,
            final(self).shm_pools@[p as int] == (ShmPool {
                ref_count: (old(self).shm_pools@[p as int].ref_count - 1) as usize,
                address: if old(self).shm_pools@[p as int].ref_count == 1 { None } else { old(self).shm_pools@[p as int].address },
                ..old(self).shm_pools@[p as int]
            }),
            final(self).shm_pools@[p as int].ref_count > 0 ==> final(self).shm_pools@[p as int].address is Some,
            final(self).free_shm_pool_indexes@.no_duplicates(),
            forall|i: int| 0 <= i < final(self).free_shm_pool_indexes@.len() ==> #[trigger] final(self).free_shm_pool_indexes@[i]
                < final(self).shm_pools@.len() && final(self).shm_pools@[final(self).free_shm_pool_indexes@[i] as int].ref_count == 0,
            old(self).shm_pools@[p as int].ref_count == 1 ==> r == Some(Mapping {
                address: old(self).shm_pools@[p as int].address->Some_0,
                size: old(self).shm_pools@[p as int].size,
            }),
            old(self).shm_pools@[p as int].ref_count > 1 ==> r is None,
    {
        let mut pool = self.shm_pools[p];
        pool.ref_count = pool.ref_count - 1;
        if pool.ref_count == 0 {
            let mapping = Mapping { address: pool.address.unwrap(), size: pool.size };
            pool.address = None;
            self.shm_pools[p] = pool;
            proof {
                let of = old(self).free_shm_pool_indexes@;
                assert forall|i: int| 0 <= i < of.len() implies of[i] != p by {}
            }
            self.free_shm_pool_indexes.push(p);
            proof {
                let f = self.free_shm_pool_indexes@;
                let of = old(self).free_shm_pool_indexes@;
                assert forall|i: int, j: int| 0 <= i < j < f.len() implies f[i] != f[j] by {
                    if j == f.len() - 1 {
                        assert(f[i] == of[i]);
                    }
                }
                assert forall|i: int| 0 <= i < f.len() implies #[trigger] f[i] < self.shm_pools@.len() && self.shm_pools@[f[i] as int].ref_count == 0 by {
                    if i < of.len() {
                        assert(f[i] == of[i]);
                    }
                }
            }
            Some(mapping)
        } else {
            self.shm_pools[p] = pool;
            None
        }
    }

    /// Destroys a client's pool object. Buffers cut from the pool keep it
    /// mapped until they are deleted; returns the mapping to release when no
    /// reference is left.
    pub fn delete_pool(&mut self, client_id: u32, object_id: u32) -> (r: Option<Mapping>)
        requires
            old(self).wf(),
        ensures
            final(self).wf(),
            final(self).pools().len() == old(self).pools().len(),
            old(self).pool_keys().contains_key(object_key(client_id, object_id)) ==> ({
                let p = old(self).pool_keys()[object_key(client_id, object_id)] as int;
                let pool = old(self).pools()[p];
                &&& final(self).pools()[p] == (ShmPool {
                    ref_count: (pool.ref_count - 1) as usize,
                    address: if pool.ref_count == 1 { None } else { pool.address },
                    ..pool
                })
                &&& forall|q: int| 0 <= q < old(self).pools().len() && q != p ==> #[trigger] final(self).pools()[q] == old(self).pools()[q]
                &&& final(self).free_pool_slots() == if pool.ref_count == 1 {
                    old(self).free_pool_slots().push(p as usize)
                } else {
                    old(self).free_pool_slots()
                }
            }),
            final(self).pool_keys() == old(self).pool_keys().remove(object_key(client_id, object_id)),
            final(self).buffers() == old(self).buffers(),
            final(self).buffer_keys() == old(self).buffer_keys(),
            !old(self).pool_keys().contains_key(object_key(client_id, object_id)) ==> r is None
                && final(self).pools() == old(self).pools()
                && final(self).free_pool_slots() == old(self).free_pool_slots(),
            final(self).free_buffer_slots() == old(self).free_buffer_slots(),
            old(self).pool_keys().contains_key(object_key(client_id, object_id)) ==> ({
                let p = old(self).pool_keys()[object_key(client_id, object_id)] as int;
                &&& final(self).pools()[p].ref_count == old(self).pools()[p].ref_count - 1
                &&& old(self).pools()[p].ref_count == 1 ==> r == Some(Mapping {
                    address: old(self).pools()[p].address->Some_0,
                    size: old(self).pools()[p].size,
                })
                &&& old(self).pools()[p].ref_count > 1 ==> r is None
            }),
    {
        let key = key_of(client_id, object_id);
        let ghost m = self.shm_pool_index@;
        match self.shm_pool_index.remove(&key) {
            None => {
                assert(m.remove(key) =~= m);
                None
            },
            Some(index) => {
                proof {
                    assert(named(m, index));
                    assert(self.shm_pools@[index as int].ref_count >= 1);
                }
                let r = self.reduce_pool_ref_count(index);
                proof {
                    let nm = self.shm_pool_index@;
                    assert(!named(nm, index));
                    assert forall|p: usize| p < self.shm_pools@.len() && p != index implies named(nm, p) == named(m, p) by {
                        if named(m, p) {
                            let k = choose|k: u64| m.contains_key(k) && m[k] == p;
                            assert(nm.contains_key(k) && nm[k] == p);
                        }
                    }
                    assert forall|p: usize| p < self.shm_pools@.len() implies #[trigger] self.shm_pools@[p as int].ref_count == (if named(nm, p) { 1nat } else { 0nat }) + count_alive(self.buffers@, p) by {
                        if p != index {
                            assert(self.shm_pools@[p as int] == old(self).shm_pools@[p as int]);
                        }
                    }
                    assert forall|q: int| 0 <= q < self.shm_pools@.len() && #[trigger] self.shm_pools@[q].ref_count > 0 implies self.shm_pools@[q].address is Some by {
                        if q != index {
                            assert(self.shm_pools@[q] == old(self).shm_pools@[q]);
                        }
                    }
                }
                r
            },
        }
    }

    /// Cuts a buffer from a client's pool: its address is the pool's address
    /// plus `offset`, and it takes one reference on the pool.
    pub fn create_buffer(
        &mut self,
        client_id: u32,
        pool_id: u32,
        buffer_id: u32,
        offset: usize,
        width: i32,
        height: i32,
        stride: i32,
        format: u32,
    ) -> (r: Result<(), ShmError>)
        requires
            old(self).wf(),
        ensures
            final(self).wf(),
            final(self).pools().len() == old(self).pools().len(),
            r is Ok ==> ({
                let p = old(self).pool_keys()[object_key(client_id, pool_id)] as int;
                let pool = old(self).pools()[p];
                let i = final(self).buffer_keys()[object_key(client_id, buffer_id)] as int;
                &&& final(self).pools()[p] == (ShmPool { ref_count: (pool.ref_count + 1) as usize, ..pool })
                &&& forall|q: int| 0 <= q < old(self).pools().len() && q != p ==> #[trigger] final(self).pools()[q] == old(self).pools()[q]
                &&& final(self).buffer_keys() == old(self).buffer_keys().insert(object_key(client_id, buffer_id), i as usize)
                &&& i == old(self).buffers().len() && final(self).buffers().len() == old(self).buffers().len() + 1
                    || i < old(self).buffers().len() && !old(self).buffers()[i].alive && final(self).buffers().len() == old(self).buffers().len()
                &&& old(self).free_buffer_slots().len() > 0 ==> i == old(self).free_buffer_slots().last()
                    && final(self).free_buffer_slots() == old(self).free_buffer_slots().drop_last()
                &&& old(self).free_buffer_slots().len() == 0 ==> i == old(self).buffers().len()
                    && final(self).free_buffer_slots() == old(self).free_buffer_slots()
                &&& final(self).free_pool_slots() == old(self).free_pool_slots()
                &&& forall|j: int| 0 <= j < old(self).buffers().len() && j != i ==> #[trigger] final(self).buffers()[j] == old(self).buffers()[j]
            }),
            final(self).pool_keys() == old(self).pool_keys(),
            !old(self).pool_keys().contains_key(object_key(client_id, pool_id)) ==> r == Err::<(), ShmError>(ShmError::UnknownPool),
            old(self).pool_keys().contains_key(object_key(client_id, pool_id)) && old(self).buffer_keys().contains_key(object_key(client_id, buffer_id))
                ==> r == Err::<(), ShmError>(ShmError::BufferExists),
            r is Err ==> final(self).pools() == old(self).pools() && final(self).buffers() == old(self).buffers() && final(self).buffer_keys() == old(self).buffer_keys(),
            old(self).pool_keys().contains_key(object_key(client_id, pool_id)) && !old(self).buffer_keys().contains_key(object_key(client_id, buffer_id))
                ==> r is Ok ==> ({
                let p = old(self).pool_keys()[object_key(client_id, pool_id)];
                let pool = old(self).pools()[p as int];
                &&& final(self).buffer_keys().dom() == old(self).buffer_keys().dom().insert(object_key(client_id, buffer_id))
                &&& final(self).buffers()[final(self).buffer_keys()[object_key(client_id, buffer_id)] as int] == (ShmBuffer {
                    pool_index: p,
                    offset,
                    width,
                    height,
                    stride,
                    format,
                    alive: true,
                    address: if pool.address->Some_0 + offset <= usize::MAX { Some((pool.address->Some_0 + offset) as usize) } else { None },
                })
                &&& final(self).pools()[p as int].ref_count == pool.ref_count + 1
            }),
            old(self).pool_keys().contains_key(object_key(client_id, pool_id)) && !old(self).buffer_keys().contains_key(object_key(client_id, buffer_id))
                && old(self).pools()[old(self).pool_keys()[object_key(client_id, pool_id)] as int].ref_count < usize::MAX ==> r is Ok,
    {
        let key = key_of(client_id, buffer_id);
        let p = match self.shm_pool_index.get(&key_of(client_id, pool_id)) {
            Some(p) => *p,
            None => {
                return Err(ShmError::UnknownPool);
            },
        };
        if self.buffer_index.contains_key(&key) {
            return Err(ShmError::BufferExists);
        }
        let mut pool = self.shm_pools[p];
        if pool.ref_count == usize::MAX {
            return Err(ShmError::TooManyBuffers);
        }
        proof {
            assert(named(self.shm_pool_index@, p));
        }
        let base = pool.address.unwrap();
        let buffer = ShmBuffer {
            pool_index: p,
            offset,
            width,
            height,
            stride,
            format,
            alive: true,
            address: base.checked_add(offset),
        };
        pool.ref_count = pool.ref_count + 1;
        self.shm_pools[p] = pool;
        let ghost old_bufs = self.buffers@;
        let index = match self.free_buffer_indexes.pop() {
            Some(index) => {
                proof {
                    let of = old(self).free_buffer_indexes@;
                    assert(of[of.len() - 1] == index);
                    assert forall|i: int| 0 <= i < self.free_buffer_indexes@.len() implies #[trigger] self.free_buffer_indexes@[i] != index by {
                        assert(self.free_buffer_indexes@[i] == of[i]);
                    }
                    assert(!old_bufs[index as int].alive);
                    assert forall|q: usize| #[trigger] count_alive(old_bufs.update(index as int, buffer), q) == count_alive(old_bufs, q) + holds(buffer, q) by {
                        lemma_count_update(old_bufs, index as int, buffer, q);
                    }
                }
                self.buffers[index] = buffer;
                index
            },
            None => {
                proof {
                    assert forall|q: usize| #[trigger] count_alive(old_bufs.push(buffer), q) == count_alive(old_bufs, q) + holds(buffer, q) by {
                        lemma_count_push(old_bufs, buffer, q);
                    }
                }
                self.buffers.push(buffer);
                self.buffers.len() - 1
            },
        };
        let ghost bm = self.buffer_index@;
        self.buffer_index.insert(key, index);
        proof {
            let nb = self.buffers@;
            assert forall|k: u64| #[trigger] self.buffer_index@.contains_key(k) implies self.buffer_index@[k] < nb.len() && nb[self.buffer_index@[k] as int].alive by {
                if k != key {
                    assert(bm.contains_key(k));
                    assert(bm[k] != index);
                    if (bm[k] as int) < old_bufs.len() {
                        assert(nb[bm[k] as int] == old_bufs[bm[k] as int]);
                    }
                }
            }
            assert forall|k1: u64, k2: u64| self.buffer_index@.contains_key(k1) && self.buffer_index@.contains_key(k2) && self.buffer_index@[k1] == self.buffer_index@[k2] implies k1 == k2 by {
                if k1 != key && k2 != key {
                    assert(bm.contains_key(k1) && bm.contains_key(k2));
                } else if k1 == key && k2 != key {
                    assert(bm[k2] < old_bufs.len() && old_bufs[bm[k2] as int].alive);
                } else if k2 == key && k1 != key {
                    assert(bm[k1] < old_bufs.len() && old_bufs[bm[k1] as int].alive);
                }
            }
            assert forall|i: int| 0 <= i < self.free_buffer_indexes@.len() implies #[trigger] self.free_buffer_indexes@[i] < nb.len() && !nb[self.free_buffer_indexes@[i] as int].alive by {
                let of = old(self).free_buffer_indexes@;
                assert(self.free_buffer_indexes@[i] == of[i]);
                assert(self.free_buffer_indexes@[i] != index);
            }
            assert forall|i: int| 0 <= i < nb.len() && #[trigger] nb[i].alive implies nb[i].pool_index < self.shm_pools@.len() by {
                if i != index {
                    assert(nb[i] == old_bufs[i]);
                }
            }
            assert forall|q: usize| q < self.shm_pools@.len() implies #[trigger] self.shm_pools@[q as int].ref_count == (if named(self.shm_pool_index@, q) { 1nat } else { 0nat }) + count_alive(nb, q) by {
                if q != p {
                    assert(self.shm_pools@[q as int] == old(self).shm_pools@[q as int]);
                }
            }
            assert forall|q: int| 0 <= q < self.shm_pools@.len() && #[trigger] self.shm_pools@[q].ref_count > 0 implies self.shm_pools@[q].address is Some by {
                if q != p {
                    assert(self.shm_pools@[q] == old(self).shm_pools@[q]);
                }
            }
            assert(self.buffer_index@.dom() =~= bm.dom().insert(key));
        }
        Ok(())
    }

    /// Deletes a client's buffer and drops its reference on its pool; returns
    /// the pool's mapping to release when that was the last reference.
    pub fn delete_buffer(&mut self, client_id: u32, buffer_id: u32) -> (r: Option<Mapping>)
        requires
            old(self).wf(),
        ensures
            final(self).wf(),
            final(self).pools().len() == old(self).pools().len(),
            final(self).buffers().len() == old(self).buffers().len(),
            !old(self).buffer_keys().contains_key(object_key(client_id, buffer_id)) ==> final(self).pool_keys()
                == old(self).pool_keys() && final(self).free_buffer_slots() == old(self).free_buffer_slots()
                && final(self).free_pool_slots() == old(self).free_pool_slots(),
            old(self).buffer_keys().contains_key(object_key(client_id, buffer_id)) ==> ({
                let i = old(self).buffer_keys()[object_key(client_id, buffer_id)] as int;
                let p = old(self).buffers()[i].pool_index as int;
                let pool = old(self).pools()[p];
                &&& final(self).buffers()[i] == (ShmBuffer { alive: false, ..old(self).buffers()[i] })
                &&& forall|j: int| 0 <= j < old(self).buffers().len() && j != i ==> #[trigger] final(self).buffers()[j] == old(self).buffers()[j]
                &&& final(self).pools()[p] == (ShmPool {
                    ref_count: (pool.ref_count - 1) as usize,
                    address: if pool.ref_count == 1 { None } else { pool.address },
                    ..pool
                })
                &&& forall|q: int| 0 <= q < old(self).pools().len() && q != p ==> #[trigger] final(self).pools()[q] == old(self).pools()[q]
                &&& final(self).free_buffer_slots() == old(self).free_buffer_slots().push(i as usize)
                &&& final(self).free_pool_slots() == if pool.ref_count == 1 {
                    old(self).free_pool_slots().push(p as usize)
                } else {
                    old(self).free_pool_slots()
                }
            }),
            final(self).pool_keys() == old(self).pool_keys(),
            final(self).buffer_keys() == old(self).buffer_keys().remove(object_key(client_id, buffer_id)),
            !old(self).buffer_keys().contains_key(object_key(client_id, buffer_id)) ==> r is None
                && final(self).pools() == old(self).pools() && final(self).buffers() == old(self).buffers(),
            old(self).buffer_keys().contains_key(object_key(client_id, buffer_id)) ==> ({
                let i = old(self).buffer_keys()[object_key(client_id, buffer_id)] as int;
                let p = old(self).buffers()[i].pool_index as int;
                &&& !final(self).buffers()[i].alive
                &&& final(self).pools()[p].ref_count == old(self).pools()[p].ref_count - 1
                &&& old(self).pools()[p].ref_count == 1 ==> r == Some(Mapping {
                    address: old(self).pools()[p].address->Some_0,
                    size: old(self).pools()[p].size,
                })
                &&& old(self).pools()[p].ref_count > 1 ==> r is None
            }),
    {
        let key = key_of(client_id, buffer_id);
        let ghost bm = self.buffer_index@;
        let index = match self.buffer_index.remove(&key) {
            None => {
                assert(bm.remove(key) =~= bm);
                return None;
            },
            Some(index) => index,
        };
        let ghost old_bufs = self.buffers@;
        let mut buffer = self.buffers[index];
        let p = buffer.pool_index;
        proof {
            lemma_count_positive(old_bufs, index as int, p);
            assert(self.shm_pools@[p as int].ref_count >= 1);
        }
        buffer.alive = false;
        proof {
            assert forall|q: usize| #[trigger] count_alive(old_bufs.update(index as int, buffer), q) + holds(old_bufs[index as int], q) == count_alive(old_bufs, q) by {
                lemma_count_update(old_bufs, index as int, buffer, q);
            }
        }
        self.buffers[index] = buffer;
        proof {
            let of = old(self).free_buffer_indexes@;
            assert forall|i: int| 0 <= i < of.len() implies of[i] != index by {}
        }
        self.free_buffer_indexes.push(index);
        proof {
            let f = self.free_buffer_indexes@;
            let of = old(self).free_buffer_indexes@;
            let nb = self.buffers@;
            assert forall|i: int, j: int| 0 <= i < j < f.len() implies f[i] != f[j] by {
                if j == f.len() - 1 {
                    assert(f[i] == of[i]);
                }
            }
            assert forall|i: int| 0 <= i < f.len() implies #[trigger] f[i] < nb.len() && !nb[f[i] as int].alive by {
                if i < of.len() {
                    assert(f[i] == of[i]);
                }
            }
            assert forall|k: u64| #[trigger] self.buffer_index@.contains_key(k) implies self.buffer_index@[k] < nb.len() && nb[self.buffer_index@[k] as int].alive by {
                assert(bm.contains_key(k) && bm[k] != index);
            }
            assert forall|i: int| 0 <= i < nb.len() && #[trigger] nb[i].alive implies nb[i].pool_index < self.shm_pools@.len() by {
                assert(nb[i] == old_bufs[i]);
            }
        }
        let r = self.reduce_pool_ref_count(p);
        proof {
            let nb = self.buffers@;
            assert forall|q: usize| q < self.shm_pools@.len() implies #[trigger] self.shm_pools@[q as int].ref_count == (if named(self.shm_pool_index@, q) { 1nat } else { 0nat }) + count_alive(nb, q) by {
                if q != p {
                    assert(self.shm_pools@[q as int] == old(self).shm_pools@[q as int]);
                }
            }
            assert forall|q: int| 0 <= q < self.shm_pools@.len() && #[trigger] self.shm_pools@[q].ref_count > 0 implies self.shm_pools@[q].address is Some by {
                if q != p {
                    assert(self.shm_pools@[q] == old(self).shm_pools@[q]);
                }
            }
        }
        r
    }

    /// Grows a client's pool, now mapped at `mapped` (or not, if mapping failed),
    /// and moves every live buffer cut from it to the new address. Returns the
    /// old mapping, which the caller releases. On an error nothing changes, so
    /// a pool with references stays mapped.
    pub fn resize_pool(&mut self, client_id: u32, object_id: u32, size: usize, mapped: Option<usize>) -> (r: Result<Mapping, ShmError>)
        requires
            old(self).wf(),
        ensures
            final(self).wf(),
            final(self).pools().len() == old(self).pools().len(),
            final(self).free_pool_slots() == old(self).free_pool_slots(),
            final(self).free_buffer_slots() == old(self).free_buffer_slots(),
            old(self).pool_keys().contains_key(object_key(client_id, object_id)) ==> forall|q: int|
                0 <= q < old(self).pools().len() && q != old(self).pool_keys()[object_key(client_id, object_id)] as int
                ==> #[trigger] final(self).pools()[q] == old(self).pools()[q],
            final(self).pool_keys() == old(self).pool_keys(),
            final(self).buffer_keys() == old(self).buffer_keys(),
            final(self).buffers().len() == old(self).buffers().len(),
            !old(self).pool_keys().contains_key(object_key(client_id, object_id)) ==> r == Err::<Mapping, ShmError>(ShmError::UnknownPool),
            r is Err ==> final(self).pools() == old(self).pools() && final(self).buffers() == old(self).buffers(),
            old(self).pool_keys().contains_key(object_key(client_id, object_id)) ==> ({
                let p = old(self).pool_keys()[object_key(client_id, object_id)] as int;
                let pool = old(self).pools()[p];
                &&& size <= pool.size ==> r == Err::<Mapping, ShmError>(ShmError::NotLarger)
                &&& size > pool.size && mapped is None ==> r == Err::<Mapping, ShmError>(ShmError::MapFailed)
                &&& size > pool.size && mapped is Some ==> {
                    &&& r == Ok::<Mapping, ShmError>(Mapping { address: pool.address->Some_0, size: pool.size })
                    &&& final(self).pools()[p] == (ShmPool { size, address: mapped, ..pool })
                    &&& forall|i: int| 0 <= i < final(self).buffers().len() ==> {
                        let b = old(self).buffers()[i];
                        #[trigger] final(self).buffers()[i] == if b.alive && b.pool_index == p {
                            ShmBuffer {
                                address: if mapped->Some_0 + b.offset <= usize::MAX { Some((mapped->Some_0 + b.offset) as usize) } else { None },
                                ..b
                            }
                        } else {
                            b
                        }
                    }
                }
            }),
    {
        let p = match self.shm_pool_index.get(&key_of(client_id, object_id)) {
            Some(p) => *p,
            None => {
                return Err(ShmError::UnknownPool);
            },
        };
        let mut pool = self.shm_pools[p];
        if size <= pool.size {
            return Err(ShmError::NotLarger);
        }
        let new_base = match mapped {
            Some(a) => a,
            None => {
                return Err(ShmError::MapFailed);
            },
        };
        proof {
            assert(named(self.shm_pool_index@, p));
        }
        let old_mapping = Mapping { address: pool.address.unwrap(), size: pool.size };
        pool.size = size;
        pool.address = mapped;
        self.shm_pools[p] = pool;
        let ghost old_bufs = self.buffers@;
        let mut i: usize = 0;
        while i < self.buffers.len()
            invariant
                i <= self.buffers@.len(),
                self.buffers@.len() == old_bufs.len(),
                self.shm_pools@ == old(self).shm_pools@.update(p as int, pool),
                self.shm_pool_index@ == old(self).shm_pool_index@,
                self.buffer_index@ == old(self).buffer_index@,
                self.free_buffer_indexes@ == old(self).free_buffer_indexes@,
                self.free_shm_pool_indexes@ == old(self).free_shm_pool_indexes@,
                forall|j: int| 0 <= j < old_bufs.len() ==> (#[trigger] self.buffers@[j]).alive == old_bufs[j].alive && self.buffers@[j].pool_index == old_bufs[j].pool_index,
                forall|q: usize| #[trigger] count_alive(self.buffers@, q) == count_alive(old_bufs, q),
                forall|j: int| i <= j < old_bufs.len() ==> #[trigger] self.buffers@[j] == old_bufs[j],
                forall|j: int| 0 <= j < i ==> {
                    let b = old_bufs[j];
                    #[trigger] self.buffers@[j] == if b.alive && b.pool_index == p {
                        ShmBuffer {
                            address: if new_base + b.offset <= usize::MAX { Some((new_base + b.offset) as usize) } else { None },
                            ..b
                        }
                    } else {
                        b
                    }
                },
            decreases old_bufs.len() - i,
        {
            let mut b = self.buffers[i];
            if b.alive && b.pool_index == p {
                b.address = new_base.checked_add(b.offset);
                let ghost before = self.buffers@;
                proof {
                    assert forall|q: usize| #[trigger] count_alive(before.update(i as int, b), q) + holds(before[i as int], q) == count_alive(before, q) + holds(b, q) by {
                        lemma_count_update(before, i as int, b, q);
                    }
                }
                self.buffers[i] = b;
            }
            i = i + 1;
        }
        proof {
            let nb = self.buffers@;
            assert forall|k: u64| #[trigger] self.buffer_index@.contains_key(k) implies self.buffer_index@[k] < nb.len() && nb[self.buffer_index@[k] as int].alive by {
                assert(old_bufs[self.buffer_index@[k] as int].alive);
                assert(nb[self.buffer_index@[k] as int].alive == old_bufs[self.buffer_index@[k] as int].alive);
            }
            assert forall|j: int| 0 <= j < self.free_buffer_indexes@.len() implies #[trigger] self.free_buffer_indexes@[j] < nb.len() && !nb[self.free_buffer_indexes@[j] as int].alive by {
                assert(nb[self.free_buffer_indexes@[j] as int].alive == old_bufs[self.free_buffer_indexes@[j] as int].alive);
            }
            assert forall|j: int| 0 <= j < nb.len() && #[trigger] nb[j].alive implies nb[j].pool_index < self.shm_pools@.len() by {
                assert(nb[j].alive == old_bufs[j].alive);
            }
            assert forall|q: usize| q < self.shm_pools@.len() implies #[trigger] self.shm_pools@[q as int].ref_count == (if named(self.shm_pool_index@, q) { 1nat } else { 0nat }) + count_alive(nb, q) by {
                if q != p {
                    assert(self.shm_pools@[q as int] == old(self).shm_pools@[q as int]);
                }
            }
            assert forall|q: int| 0 <= q < self.shm_pools@.len() && #[trigger] self.shm_pools@[q].ref_count > 0 implies self.shm_pools@[q].address is Some by {
                if q != p {
                    assert(self.shm_pools@[q] == old(self).shm_pools@[q]);
                }
            }
            assert forall|j: int| 0 <= j < self.free_shm_pool_indexes@.len() implies #[trigger] self.free_shm_pool_indexes@[j] < self.shm_pools@.len() && self.shm_pools@[self.free_shm_pool_indexes@[j] as int].ref_count == 0 by {
                let f = self.free_shm_pool_indexes@[j];
                if f != p {
                    assert(self.shm_pools@[f as int] == old(self).shm_pools@[f as int]);
                }
            }
        }
        Ok(old_mapping)
    }

    /// The pool in slot `index`.
    pub fn pool_at(&self, index: usize) -> (r: Option<ShmPool>)
        ensures
            index < self.pools().len() ==> r == Some(self.pools()[index as int]),
            index >= self.pools().len() ==> r is None,
    {
        if index < self.shm_pools.len() {
            Some(self.shm_pools[index])
        } else {
            None
        }
    }

    /// Every key names a slot in range: a pool slot with references, a live
    /// buffer slot.
    pub proof fn lemma_keys_in_range(&self)
        requires
            self.wf(),
        ensures
            forall|k: u64| #[trigger] self.pool_keys().contains_key(k) ==> self.pool_keys()[k] < self.pools().len()
                && self.pools()[self.pool_keys()[k] as int].ref_count >= 1,
            forall|k: u64| #[trigger] self.buffer_keys().contains_key(k) ==> self.buffer_keys()[k] < self.buffers().len()
                && self.buffers()[self.buffer_keys()[k] as int].alive,
    {
        assert forall|k: u64| #[trigger] self.pool_keys().contains_key(k) implies self.pool_keys()[k] < self.pools().len()
            && self.pools()[self.pool_keys()[k] as int].ref_count >= 1 by {
            let p = self.shm_pool_index@[k];
            assert(named(self.shm_pool_index@, p));
            assert(self.shm_pools@[p as int].ref_count == (if named(self.shm_pool_index@, p) { 1nat } else { 0nat }) + count_alive(self.buffers@, p));
        }
    }

    /// Every pool with references is mapped, and every live buffer's pool has
    /// references; every method keeps `wf`, so these hold in every state.
    pub proof fn lemma_reference_invariants(&self)
        requires
            self.wf(),
        ensures
            forall|p: int| 0 <= p < self.pools().len() && #[trigger] self.pools()[p].ref_count > 0
                ==> self.pools()[p].address is Some,
            forall|i: int| 0 <= i < self.buffers().len() && (#[trigger] self.buffers()[i]).alive
                ==> self.buffers()[i].pool_index < self.pools().len()
                && self.pools()[self.buffers()[i].pool_index as int].ref_count >= 1,
    {
        assert forall|i: int| 0 <= i < self.buffers().len() && (#[trigger] self.buffers()[i]).alive implies self.buffers()[i].pool_index
            < self.pools().len() && self.pools()[self.buffers()[i].pool_index as int].ref_count >= 1 by {
            self.lemma_live_buffer_pool_referenced(i);
        }
    }
}

} // verus!
