//! A table of sessions keyed by their identifier.
use vstd::prelude::*;

use crate::ids::SessionId;

verus! {

/// Sessions keyed by identifier, in the order they were created.
pub struct SessionTable<V> {
    ids: Vec<SessionId>,
    vals: Vec<V>,
    model: Ghost<Map<Seq<char>, V>>,
}

impl<V> View for SessionTable<V> {
    type V = Map<Seq<char>, V>;

    closed spec fn view(&self) -> Map<Seq<char>, V> {
        self.model@
    }
}

impl<V> SessionTable<V> {
    /// The identifiers stored, one per session, and the values beside them,
    /// agree with the table's map.
    pub closed spec fn wf(&self) -> bool {
        &&& self.ids@.len() == self.vals@.len()
        &&& forall|i: int, j: int|
            0 <= i < j < self.ids@.len() ==> #[trigger] self.ids@[i]@ != #[trigger] self.ids@[j]@
        &&& forall|i: int|
            0 <= i < self.ids@.len() ==> #[trigger] self.model@.contains_key(self.ids@[i]@)
                && self.model@[self.ids@[i]@] == self.vals@[i]
        &&& forall|k: Seq<char>|
            #[trigger] self.model@.contains_key(k) ==> exists|i: int|
                0 <= i < self.ids@.len() && #[trigger] self.ids@[i]@ == k
    }

    /// An empty table.
    pub fn new() -> (r: Self)
        ensures
            r.wf(),
            r@ == Map::<Seq<char>, V>::empty(),
    {
        SessionTable { ids: Vec::new(), vals: Vec::new(), model: Ghost(Map::empty()) }
    }

    fn find(&self, key: &SessionId) -> (r: Option<usize>)
        requires
            self.wf(),
        ensures
            r matches Some(i) ==> i < self.ids@.len() && self.ids@[i as int]@ == key@,
            r is None ==> !self@.contains_key(key@),
    {
        let mut i: usize = 0;
        while i < self.ids.len()
            invariant
                self.wf(),
                i <= self.ids@.len(),
                forall|j: int| 0 <= j < i ==> #[trigger] self.ids@[j]@ != key@,
            decreases self.ids@.len() - i,
        {
            if self.ids[i].same(key) {
                return Some(i);
            }
            i = i + 1;
        }
        None
    }

    /// Whether a session of that identifier exists.
    pub fn contains(&self, key: &SessionId) -> (r: bool)
        requires
            self.wf(),
        ensures
            r == self@.contains_key(key@),
    {
        self.find(key).is_some()
    }

    /// The session of that identifier.
    pub fn get(&self, key: &SessionId) -> (r: Option<&V>)
        requires
            self.wf(),
        ensures
            r.is_some() == self@.contains_key(key@),
            r matches Some(v) ==> *v == self@[key@],
    {
        match self.find(key) {
            Some(i) => {
                assert(self.model@.contains_key(self.ids@[i as int]@));
                Some(&self.vals[i])
            },
            None => None,
        }
    }

    /// Sets the session of that identifier, creating it where it is absent.
    pub fn insert(&mut self, key: SessionId, value: V)
        requires
            old(self).wf(),
        ensures
            final(self).wf(),
            final(self)@ == old(self)@.insert(key@, value),
    {
        let ghost k = key@;
        match self.find(&key) {
            Some(i) => {
                self.vals.set(i, value);
                self.model = Ghost(self.model@.insert(k, value));
                assert forall|j: int| 0 <= j < self.ids@.len() implies #[trigger] self.model@.contains_key(self.ids@[j]@)
                    && self.model@[self.ids@[j]@] == self.vals@[j] by {
                    if j != i {
                        assert(old(self).model@.contains_key(old(self).ids@[j]@));
                        assert(old(self).ids@[j]@ != old(self).ids@[i as int]@);
                    }
                }
                assert forall|c: Seq<char>| #[trigger] self.model@.contains_key(c) implies exists|
                    j: int,
                | 0 <= j < self.ids@.len() && #[trigger] self.ids@[j]@ == c by {
                    if c == k {
                        assert(self.ids@[i as int]@ == c);
                    } else {
                        assert(old(self).model@.contains_key(c));
                        let j = choose|j: int| 0 <= j < old(self).ids@.len() && #[trigger] old(self).ids@[j]@ == c;
                        assert(self.ids@[j]@ == c);
                    }
                }
            },
            None => {
                self.ids.push(key);
                self.vals.push(value);
                self.model = Ghost(self.model@.insert(k, value));
                let ghost n = self.ids@.len() - 1;
                assert forall|c: Seq<char>| #[trigger] self.model@.contains_key(c) implies exists|
                    j: int,
                | 0 <= j < self.ids@.len() && #[trigger] self.ids@[j]@ == c by {
                    if c == k {
                        assert(self.ids@[n]@ == c);
                    } else {
                        assert(old(self).model@.contains_key(c));
                        let j = choose|j: int| 0 <= j < old(self).ids@.len() && #[trigger] old(self).ids@[j]@ == c;
                        assert(self.ids@[j]@ == c);
                    }
                }
            },
        }
    }

    /// Takes the session of that identifier out of the table.
    pub fn remove(&mut self, key: &SessionId) -> (r: Option<V>)
        requires
            old(self).wf(),
        ensures
            final(self).wf(),
            final(self)@ == old(self)@.remove(key@),
            r.is_some() == old(self)@.contains_key(key@),
            r matches Some(v) ==> v == old(self)@[key@],
    {
        match self.find(key) {
            Some(i) => {
                let ghost k = key@;
                assert(self.model@.contains_key(self.ids@[i as int]@));
                self.ids.remove(i);
                let v = self.vals.remove(i);
                self.model = Ghost(self.model@.remove(k));
                assert forall|j: int| 0 <= j < self.ids@.len() implies #[trigger] self.model@.contains_key(self.ids@[j]@)
                    && self.model@[self.ids@[j]@] == self.vals@[j] by {
                    if j < i {
                        assert(self.ids@[j] == old(self).ids@[j]);
                        assert(old(self).ids@[j]@ != old(self).ids@[i as int]@);
                        assert(old(self).model@.contains_key(old(self).ids@[j]@));
                    } else {
                        assert(self.ids@[j] == old(self).ids@[j + 1]);
                        assert(old(self).ids@[i as int]@ != old(self).ids@[j + 1]@);
                        assert(old(self).model@.contains_key(old(self).ids@[j + 1]@));
                    }
                }
                assert forall|c: Seq<char>| #[trigger] self.model@.contains_key(c) implies exists|
                    j: int,
                | 0 <= j < self.ids@.len() && #[trigger] self.ids@[j]@ == c by {
                    assert(old(self).model@.contains_key(c));
                    let j = choose|j: int| 0 <= j < old(self).ids@.len() && #[trigger] old(self).ids@[j]@ == c;
                    if j < i {
                        assert(self.ids@[j]@ == c);
                    } else {
                        assert(j != i);
                        assert(self.ids@[j - 1]@ == c);
                    }
                }
                Some(v)
            },
            None => {
                assert(self.model@.remove(key@) =~= self.model@);
                None
            },
        }
    }

    /// The identifiers of all sessions, each once.
    pub fn keys(&self) -> (r: Vec<SessionId>)
        requires
            self.wf(),
        ensures
            forall|i: int, j: int| 0 <= i < j < r@.len() ==> #[trigger] r@[i]@ != #[trigger] r@[j]@,
            forall|i: int| 0 <= i < r@.len() ==> #[trigger] self@.contains_key(r@[i]@),
            forall|k: Seq<char>| #[trigger] self@.contains_key(k) ==> exists|i: int|
                0 <= i < r@.len() && #[trigger] r@[i]@ == k,
    {
        let mut r: Vec<SessionId> = Vec::new();
        let mut i: usize = 0;
        while i < self.ids.len()
            invariant
                self.wf(),
                i <= self.ids@.len(),
                r@.len() == i,
                forall|j: int| 0 <= j < i ==> #[trigger] r@[j]@ == self.ids@[j]@,
            decreases self.ids@.len() - i,
        {
            r.push(self.ids[i].duplicate());
            i = i + 1;
        }
        assert forall|k: Seq<char>| #[trigger] self@.contains_key(k) implies exists|j: int|
            0 <= j < r@.len() && #[trigger] r@[j]@ == k by {
            let j = choose|j: int| 0 <= j < self.ids@.len() && #[trigger] self.ids@[j]@ == k;
            assert(r@[j]@ == k);
        }
        assert forall|a: int, b: int| 0 <= a < b < r@.len() implies #[trigger] r@[a]@ != #[trigger] r@[b]@ by {
            assert(self.ids@[a]@ != self.ids@[b]@);
        }
        r
    }
}

} // verus!
