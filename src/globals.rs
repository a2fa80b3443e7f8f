//! The catalog of globals that the server advertises, and the seats among them.
use crate::interface::InterfaceIndex;
use vstd::prelude::*;

verus! {

/// A global's name, as clients see it.
pub type GlobalId = u32;

/// One advertised global.
#[derive(Clone, Copy, Debug, PartialEq, Eq, Structural)]
pub struct Global {
    pub id: GlobalId,
    pub interface_index: InterfaceIndex,
}

/// The live globals, in the order they appeared, and the next name to hand out.
#[derive(Debug)]
pub struct Globals {
    globals: Vec<Global>,
    next_id: u64,
}

impl Globals {
    /// The live globals, oldest first.
    pub closed spec fn entries(&self) -> Seq<Global> {
        self.globals@
    }

    /// The name the next global gets.
    pub closed spec fn next(&self) -> nat {
        self.next_id as nat
    }

    /// Names are given out in increasing order and stay below the counter.
    pub closed spec fn wf(&self) -> bool {
        &&& 1 <= self.next_id <= 0x1_0000_0000
        &&& forall|i: int, j: int|
            0 <= i < j < self.globals@.len() ==> #[trigger] self.globals@[i].id < #[trigger] self.globals@[j].id
        &&& forall|i: int| 0 <= i < self.globals@.len() ==> #[trigger] self.globals@[i].id < self.next_id
    }

    /// The globals every server starts with: the compositor, then shared memory.
    pub fn new() -> (g: Globals)
        ensures
            g.wf(),
            g.entries() == seq![
                Global { id: 1, interface_index: InterfaceIndex::WlCompositor },
                Global { id: 2, interface_index: InterfaceIndex::WlShm },
            ],
            g.next() == 3,
    {
        let g = Globals {
            globals: vec![
                Global { id: 1, interface_index: InterfaceIndex::WlCompositor },
                Global { id: 2, interface_index: InterfaceIndex::WlShm },
            ],
            next_id: 3,
        };
        assert(g.globals@ =~= seq![
            Global { id: 1, interface_index: InterfaceIndex::WlCompositor },
            Global { id: 2, interface_index: InterfaceIndex::WlShm },
        ]);
        g
    }

    /// Adds a global under the next name; `None` when every name is used.
    /// Each client's registries must then hear of it.
    pub fn register(&mut self, interface_index: InterfaceIndex) -> (r: Option<GlobalId>)
        requires
            old(self).wf(),
        ensures
            final(self).wf(),
            old(self).next() <= u32::MAX ==> r == Some(old(self).next() as u32) && final(self).entries()
                == old(self).entries().push(Global { id: old(self).next() as u32, interface_index })
                && final(self).next() == old(self).next() + 1,
            old(self).next() > u32::MAX ==> r is None && final(self).entries() == old(self).entries()
                && final(self).next() == old(self).next(),
    {
        if self.next_id > u32::MAX as u64 {
            return None;
        }
        let id = self.next_id as u32;
        self.globals.push(Global { id, interface_index });
        self.next_id = self.next_id + 1;
        Some(id)
    }

    /// Removes a global; returns whether it was live.
    pub fn remove(&mut self, id: GlobalId) -> (r: bool)
        requires
            old(self).wf(),
        ensures
            final(self).wf(),
            r == exists|i: int| 0 <= i < old(self).entries().len() && old(self).entries()[i].id == id,
            final(self).entries() == old(self).entries().filter(|g: Global| g.id != id),
            final(self).next() == old(self).next(),
    {
        let ghost old_g = self.globals@;
        let mut kept: Vec<Global> = Vec::new();
        let mut found = false;
        let mut i: usize = 0;
        while i < self.globals.len()
            invariant
                i <= old_g.len(),
                self.globals@ == old_g,
                kept@ == old_g.take(i as int).filter(|g: Global| g.id != id),
                found == exists|j: int| 0 <= j < i && old_g[j].id == id,
                forall|a: int, b: int| 0 <= a < b < kept@.len() ==> #[trigger] kept@[a].id < #[trigger] kept@[b].id,
                forall|a: int| 0 <= a < kept@.len() ==> exists|j: int| 0 <= j < i && old_g[j] == #[trigger] kept@[a],
                forall|a: int, j: int| 0 <= a < kept@.len() && i <= j < old_g.len() ==> #[trigger] kept@[a].id < #[trigger] old_g[j].id,
                self.wf(),
            decreases old_g.len() - i,
        {
            let g = self.globals[i];
            proof {
                let pred = |x: Global| x.id != id;
                assert(old_g.take(i + 1) =~= old_g.take(i as int) + seq![g]);
                Seq::filter_distributes_over_add(old_g.take(i as int), seq![g], pred);
                reveal(Seq::filter);
                assert(seq![g].drop_last() =~= Seq::<Global>::empty());
                assert(Seq::<Global>::empty().filter(pred) =~= Seq::<Global>::empty());
                if pred(g) {
                    assert(seq![g].filter(pred) =~= seq![g]);
                } else {
                    assert(seq![g].filter(pred) =~= Seq::<Global>::empty());
                }
            }
            if g.id != id {
                kept.push(g);
            } else {
                found = true;
            }
            i = i + 1;
        }
        assert(old_g.take(i as int) =~= old_g);
        self.globals = kept;
        found
    }

    /// The interface of a live global.
    pub fn get(&self, id: GlobalId) -> (r: Option<InterfaceIndex>)
        ensures
            match r {
                Some(i) => exists|k: int| 0 <= k < self.entries().len() && self.entries()[k] == (Global { id, interface_index: i }),
                None => forall|k: int| 0 <= k < self.entries().len() ==> self.entries()[k].id != id,
            },
    {
        let mut k: usize = 0;
        while k < self.globals.len()
            invariant
                k <= self.globals@.len(),
                forall|j: int| 0 <= j < k ==> self.globals@[j].id != id,
            decreases self.globals@.len() - k,
        {
            if self.globals[k].id == id {
                return Some(self.globals[k].interface_index);
            }
            k = k + 1;
        }
        None
    }

    /// The live globals, oldest first.
    pub fn iter(&self) -> (r: &[Global])
        ensures
            r@ == self.entries(),
    {
        self.globals.as_slice()
    }
}

} // verus!
