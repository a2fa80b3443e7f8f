//! Script callbacks registered with the config thread, by numeric handle.
use crate::comms::CallbackRef;
use std::collections::HashMap;
use vstd::prelude::*;

verus! {

broadcast use vstd::std_specs::hash::group_hash_axioms;

/// Registered callbacks. Handles are handed out in increasing order from 1
/// and never reused; a callback stays until it is forgotten.
pub struct CallbackState<F> {
    callbacks: HashMap<usize, F>,
    callback_counter: usize,
}

impl<F> CallbackState<F> {
    pub closed spec fn callbacks(&self) -> Map<usize, F> {
        self.callbacks@
    }

    pub closed spec fn counter(&self) -> nat {
        self.callback_counter as nat
    }

    /// Every handle in use is below the counter.
    pub closed spec fn wf(&self) -> bool {
        &&& self.callback_counter >= 1
        &&& forall|k: usize| #[trigger] self.callbacks@.contains_key(k) ==> 1 <= k < self.callback_counter
    }

    pub fn new() -> (s: Self)
        ensures
            s.wf(),
            s.callbacks() == Map::<usize, F>::empty(),
            s.counter() == 1,
    {
        CallbackState { callbacks: HashMap::new(), callback_counter: 1 }
    }

    /// Registers a callback under the next handle; `None` when handles are
    /// exhausted.
    pub fn register_callback(&mut self, callback: F) -> (r: Option<CallbackRef>)
        requires
            old(self).wf(),
        ensures
            final(self).wf(),
            old(self).counter() < usize::MAX ==> r == Some(CallbackRef { callback_id: old(self).counter() as usize })
                && final(self).callbacks() == old(self).callbacks().insert(old(self).counter() as usize, callback)
                && final(self).counter() == old(self).counter() + 1
                && !old(self).callbacks().contains_key(old(self).counter() as usize),
            old(self).counter() == usize::MAX ==> r is None && final(self).callbacks() == old(self).callbacks(),
    {
        if self.callback_counter == usize::MAX {
            return None;
        }
        let id = self.callback_counter;
        self.callback_counter = self.callback_counter + 1;
        self.callbacks.insert(id, callback);
        Some(CallbackRef { callback_id: id })
    }

    /// The callback under a handle.
    pub fn get_callback(&self, callback_ref: CallbackRef) -> (r: Option<&F>)
        ensures
            match r {
                Some(f) => self.callbacks().contains_key(callback_ref.callback_id) && *f == self.callbacks()[callback_ref.callback_id],
                None => !self.callbacks().contains_key(callback_ref.callback_id),
            },
    {
        self.callbacks.get(&callback_ref.callback_id)
    }

    /// Forgets the callback under a handle.
    pub fn forget_callback(&mut self, callback_ref: CallbackRef)
        requires
            old(self).wf(),
        ensures
            final(self).wf(),
            final(self).callbacks() == old(self).callbacks().remove(callback_ref.callback_id),
            final(self).counter() == old(self).counter(),
    {
        self.callbacks.remove(&callback_ref.callback_id);
    }
}

/// Events that a native callback queued, to be handled on the owning thread's
/// next dispatch rather than inside the callback.
pub struct PendingEvents<E> {
    events: Vec<E>,
}

impl<E> PendingEvents<E> {
    pub closed spec fn queued(&self) -> Seq<E> {
        self.events@
    }

    pub fn new() -> (p: Self)
        ensures
            p.queued() == Seq::<E>::empty(),
    {
        PendingEvents { events: Vec::new() }
    }

    pub fn push(&mut self, event: E)
        ensures
            final(self).queued() == old(self).queued().push(event),
    {
        self.events.push(event);
    }

    /// Takes every queued event, oldest first.
    pub fn drain(&mut self) -> (r: Vec<E>)
        ensures
            r@ == old(self).queued(),
            final(self).queued() == Seq::<E>::empty(),
    {
        let mut taken: Vec<E> = Vec::new();
        std::mem::swap(&mut taken, &mut self.events);
        taken
    }
}

} // verus!
