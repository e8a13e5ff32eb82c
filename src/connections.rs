//! The registry of connected users: it names each user and keeps the sink
//! through which messages reach it.
use std::collections::HashMap;
use vstd::prelude::*;

use crate::ids::UserId;

verus! {

broadcast use vstd::std_specs::hash::group_hash_axioms;

/// Connected users, each with its outbound sink, and the counter from which
/// identifiers are drawn.
pub struct Connections<S> {
    next_id: u64,
    sinks: HashMap<u64, S>,
}

impl<S> View for Connections<S> {
    type V = Map<u64, S>;

    closed spec fn view(&self) -> Map<u64, S> {
        self.sinks@
    }
}

impl<S> Connections<S> {
    /// The identifier that the next user will get.
    pub closed spec fn next(&self) -> u64 {
        self.next_id
    }

    /// Identifiers start at one, and every registered one was handed out.
    pub closed spec fn wf(&self) -> bool {
        &&& self.next_id >= 1
        &&& forall|k: u64| #[trigger] self.sinks@.contains_key(k) ==> 1 <= k < self.next_id
    }

    /// An empty registry; the first user will be named `1`.
    pub fn new() -> (r: Self)
        ensures
            r.wf(),
            r@ == Map::<u64, S>::empty(),
            r.next() == 1,
    {
        Connections { next_id: 1, sinks: HashMap::new() }
    }

    /// Registers a sink under a fresh identifier, or gives `None` once every
    /// identifier has been handed out.
    pub fn register(&mut self, sink: S) -> (r: Option<UserId>)
        requires
            old(self).wf(),
        ensures
            final(self).wf(),
            old(self).next() < u64::MAX ==> r == Some(UserId(old(self).next())),
            match r {
                Some(u) => {
                    &&& final(self)@ == old(self)@.insert(u.0, sink)
                    &&& final(self).next() == old(self).next() + 1
                    &&& !old(self)@.contains_key(u.0)
                },
                None => old(self).next() == u64::MAX && final(self)@ == old(self)@ && final(self).next()
                    == old(self).next(),
            },
    {
        if self.next_id == u64::MAX {
            return None;
        }
        let id = self.next_id;
        self.sinks.insert(id, sink);
        self.next_id = id + 1;
        Some(UserId(id))
    }

    /// Registers a sink under an identifier chosen by the caller; refuses an
    /// identifier that is registered already, `0`, or `u64::MAX`. Later
    /// identifiers that this registry hands out are above it.
    pub fn register_as(&mut self, id: UserId, sink: S) -> (r: bool)
        requires
            old(self).wf(),
        ensures
            final(self).wf(),
            r == (1 <= id.0 < u64::MAX && !old(self)@.contains_key(id.0)),
            r ==> final(self)@ == old(self)@.insert(id.0, sink) && final(self).next() == if id.0
                >= old(self).next() {
                (id.0 + 1) as u64
            } else {
                old(self).next()
            },
            !r ==> final(self)@ == old(self)@ && final(self).next() == old(self).next(),
    {
        if id.0 == 0 || id.0 == u64::MAX || self.sinks.contains_key(&id.0) {
            return false;
        }
        self.sinks.insert(id.0, sink);
        if id.0 >= self.next_id {
            self.next_id = id.0 + 1;
        }
        true
    }

    /// Removes a user and gives back its sink, if it was registered.
    pub fn unregister(&mut self, id: UserId) -> (r: Option<S>)
        requires
            old(self).wf(),
        ensures
            final(self).wf(),
            final(self)@ == old(self)@.remove(id.0),
            final(self).next() == old(self).next(),
            r.is_some() == old(self)@.contains_key(id.0),
            r matches Some(s) ==> s == old(self)@[id.0],
    {
        self.sinks.remove(&id.0)
    }

    /// Whether the user is registered.
    pub fn contains(&self, id: UserId) -> (r: bool)
        ensures
            r == self@.contains_key(id.0),
    {
        self.sinks.contains_key(&id.0)
    }

    /// The sink of a registered user.
    pub fn get(&self, id: UserId) -> (r: Option<&S>)
        ensures
            r.is_some() == self@.contains_key(id.0),
            r matches Some(s) ==> *s == self@[id.0],
    {
        self.sinks.get(&id.0)
    }
}

} // verus!
