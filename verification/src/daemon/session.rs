//! Request bookkeeping of a plugin-host session: every request gets the
//! next id and waits under it; a message from the host with id 0 is an
//! event, any other id answers the request waiting under it.
use vstd::prelude::*;
use std::collections::HashMap;

verus! {

broadcast use {
    vstd::std_specs::hash::axiom_u64_obeys_hash_table_key_model,
    vstd::std_specs::hash::axiom_random_state_builds_valid_hashers,
    vstd::std_specs::hash::axiom_maps_deref_key_to_value,
    vstd::std_specs::hash::axiom_contains_deref_key,
    vstd::std_specs::hash::axiom_deref_key_removed,
};

/// Where a message from the host goes.
pub enum Route<T> {
    /// An event (id 0) for the daemon.
    Event,
    /// The answer to the request that waited with this value.
    Reply(T),
    /// No request waits under the id.
    Unmatched,
}

/// Ids handed out so far and the requests waiting for an answer.
pub struct Dispatch<T> {
    next_id: u64,
    waiting: HashMap<u64, T>,
}

impl<T> Dispatch<T> {
    /// The id the next request gets.
    pub closed spec fn next(&self) -> u64 {
        self.next_id
    }

    /// The waiting requests by id.
    pub closed spec fn waiting(&self) -> Map<u64, T> {
        self.waiting@
    }

    /// No request yet; ids start at 1.
    pub fn new() -> (d: Dispatch<T>)
        ensures
            d.next() == 1,
            d.waiting() == Map::<u64, T>::empty(),
    {
        Dispatch { next_id: 1, waiting: HashMap::new() }
    }

    /// Registers a request: it gets the next id (ids wrap round after
    /// `u64::MAX`) and waits under it with `waiter`.
    pub fn register(&mut self, waiter: T) -> (id: u64)
        ensures
            id == old(self).next(),
            final(self).next() == (if old(self).next() == u64::MAX {
                0
            } else {
                old(self).next() + 1
            }),
            final(self).waiting() == old(self).waiting().insert(id, waiter),
    {
        let id = self.next_id;
        self.next_id = self.next_id.wrapping_add(1);
        self.waiting.insert(id, waiter);
        id
    }

    /// Routes a message with id `id` from the host: id 0 is an event;
    /// otherwise the request waiting under `id` is answered and stops
    /// waiting.
    pub fn route(&mut self, id: u64) -> (r: Route<T>)
        ensures
            final(self).next() == old(self).next(),
            id == 0 ==> r is Event && final(self).waiting() == old(self).waiting(),
            id != 0 && old(self).waiting().contains_key(id) ==> (r matches Route::Reply(w) && w
                == old(self).waiting()[id]) && final(self).waiting() == old(self).waiting().remove(
                id,
            ),
            id != 0 && !old(self).waiting().contains_key(id) ==> r is Unmatched
                && final(self).waiting() == old(self).waiting(),
    {
        if id == 0 {
            return Route::Event;
        }
        match self.waiting.remove(&id) {
            Some(w) => Route::Reply(w),
            None => {
                assert(self.waiting@ =~= old(self).waiting@);
                Route::Unmatched
            },
        }
    }
}

} // verus!
