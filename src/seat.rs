//! Known seats, each advertised as a `wl_seat` global.
use crate::globals::{Global, GlobalId, Globals};
use crate::interface::InterfaceIndex;
use vstd::prelude::*;

verus! {

/// The seats the server knows, by name, with the global that advertises each.
pub struct SeatManager {
    seats: Vec<(GlobalId, String)>,
}

impl SeatManager {
    /// Each seat's global and name, oldest first.
    pub closed spec fn seats(&self) -> Seq<(GlobalId, Seq<char>)> {
        Seq::new(self.seats@.len(), |i: int| (self.seats@[i].0, self.seats@[i].1@))
    }

    /// The name of the first seat that global `id` advertises.
    pub open spec fn name_of_global(&self, id: GlobalId) -> Option<Seq<char>> {
        if exists|i: int| 0 <= i < self.seats().len() && self.seats()[i].0 == id {
            let i = choose|i: int| 0 <= i < self.seats().len() && self.seats()[i].0 == id && forall|j: int| 0 <= j < i ==> self.seats()[j].0 != id;
            Some(self.seats()[i].1)
        } else {
            None
        }
    }

    /// Every seat's global lies below `n`.
    pub open spec fn ids_below(&self, n: nat) -> bool {
        forall|i: int| 0 <= i < self.seats().len() ==> (#[trigger] self.seats()[i]).0 < n
    }

    /// Whether a seat of that name is known.
    pub open spec fn knows(&self, name: Seq<char>) -> bool {
        exists|i: int| 0 <= i < self.seats().len() && self.seats()[i].1 == name
    }

    pub fn new() -> (r: SeatManager)
        ensures
            r.seats() == Seq::<(GlobalId, Seq<char>)>::empty(),
    {
        let r = SeatManager { seats: Vec::new() };
        assert(r.seats() =~= Seq::<(GlobalId, Seq<char>)>::empty());
        r
    }

    /// Adds a seat unless one of that name is known, and registers a
    /// `wl_seat` global for it. Returns the new global, which every client's
    /// registries must then hear of; `None` when the seat was known or no
    /// global name is left.
    pub fn add_seat(&mut self, seat_name: String, globals: &mut Globals) -> (r: Option<GlobalId>)
        requires
            old(globals).wf(),
            old(self).ids_below(old(globals).next()),
        ensures
            final(globals).wf(),
            final(self).ids_below(final(globals).next()),
            r matches Some(id) ==> final(self).name_of_global(id) == Some(seat_name@),
            old(self).knows(seat_name@) ==> r is None && final(self).seats() == old(self).seats()
                && *final(globals) == *old(globals),
            !old(self).knows(seat_name@) && old(globals).next() <= u32::MAX ==> {
                &&& r == Some(old(globals).next() as u32)
                &&& final(globals).entries() == old(globals).entries().push(
                    Global { id: old(globals).next() as u32, interface_index: InterfaceIndex::WlSeat },
                )
                &&& final(self).seats() == old(self).seats().push((old(globals).next() as u32, seat_name@))
            },
            !old(self).knows(seat_name@) && old(globals).next() > u32::MAX ==> r is None
                && final(self).seats() == old(self).seats(),
    {
        if self.is_known(&seat_name) {
            return None;
        }
        match globals.register(InterfaceIndex::WlSeat) {
            Some(id) => {
                let ghost before = self.seats();
                let ghost name = seat_name@;
                self.seats.push((id, seat_name));
                assert(self.seats() =~= before.push((id, name)));
                proof {
                    let ss = self.seats();
                    let last = ss.len() - 1;
                    assert(ss[last] == (id, name));
                    assert(exists|i: int| 0 <= i < ss.len() && ss[i].0 == id);
                    let c = choose|c: int| 0 <= c < ss.len() && ss[c].0 == id && forall|j: int| 0 <= j < c ==> ss[j].0 != id;
                    if c < last {
                        assert(ss[c] == before[c]);
                    }
                    assert(c == last);
                }
                Some(id)
            },
            None => None,
        }
    }

    /// Whether a seat of that name is known.
    pub fn is_known(&self, name: &String) -> (r: bool)
        ensures
            r == self.knows(name@),
    {
        let mut i: usize = 0;
        while i < self.seats.len()
            invariant
                i <= self.seats@.len(),
                forall|j: int| 0 <= j < i ==> self.seats()[j].1 != name@,
            decreases self.seats@.len() - i,
        {
            if self.seats[i].1 == *name {
                assert(self.seats()[i as int].1 == name@);
                return true;
            }
            i = i + 1;
        }
        false
    }

    /// The name of the seat that global `id` advertises.
    pub fn get_name(&self, id: GlobalId) -> (r: Option<&str>)
        ensures
            match r {
                Some(n) => self.name_of_global(id) == Some(n@),
                None => self.name_of_global(id) is None,
            },
            match r {
                Some(n) => exists|i: int| 0 <= i < self.seats().len() && self.seats()[i] == (id, n@),
                None => forall|i: int| 0 <= i < self.seats().len() ==> self.seats()[i].0 != id,
            },
    {
        let mut i: usize = 0;
        while i < self.seats.len()
            invariant
                i <= self.seats@.len(),
                forall|j: int| 0 <= j < i ==> self.seats()[j].0 != id,
            decreases self.seats@.len() - i,
        {
            if self.seats[i].0 == id {
                let n = self.seats[i].1.as_str();
                assert(self.seats()[i as int] == (id, n@));
                proof {
                    let c = choose|c: int| 0 <= c < self.seats().len() && self.seats()[c].0 == id && forall|j: int| 0 <= j < c ==> self.seats()[j].0 != id;
                    assert(c == i as int) by {
                        if c < i {
                        } else if c > i {
                            assert(self.seats()[i as int].0 == id);
                        }
                    }
                }
                return Some(n);
            }
            i = i + 1;
        }
        None
    }
}

} // verus!
