//! The negotiation state of each remote peer, keyed by user identifier.
use vstd::prelude::*;

use crate::ids::UserId;
use crate::peer::negotiation::PeerState;

verus! {

/// The state of `u` in `m`; a peer never heard of is idle.
pub open spec fn state_in(m: Map<u64, PeerState>, u: u64) -> PeerState {
    if m.contains_key(u) {
        m[u]
    } else {
        PeerState::Idle
    }
}

/// Remote peers and where the negotiation with each stands, in the order
/// they were first heard of.
pub struct PeerTable {
    ids: Vec<UserId>,
    states: Vec<PeerState>,
    model: Ghost<Map<u64, PeerState>>,
}

impl View for PeerTable {
    type V = Map<u64, PeerState>;

    closed spec fn view(&self) -> Map<u64, PeerState> {
        self.model@
    }
}

impl PeerTable {
    pub closed spec fn wf(&self) -> bool {
        &&& self.ids@.len() == self.states@.len()
        &&& forall|i: int, j: int| 0 <= i < j < self.ids@.len() ==> #[trigger] self.ids@[i] != #[trigger] self.ids@[j]
        &&& forall|i: int|
            0 <= i < self.ids@.len() ==> #[trigger] self.model@.contains_key(self.ids@[i].0)
                && self.model@[self.ids@[i].0] == self.states@[i]
        &&& forall|k: u64| #[trigger] self.model@.contains_key(k) ==> exists|i: int|
            0 <= i < self.ids@.len() && #[trigger] self.ids@[i].0 == k
    }

    pub fn new() -> (r: Self)
        ensures
            r.wf(),
            r@ == Map::<u64, PeerState>::empty(),
    {
        PeerTable { ids: Vec::new(), states: Vec::new(), model: Ghost(Map::empty()) }
    }

    fn find(&self, u: UserId) -> (r: Option<usize>)
        requires
            self.wf(),
        ensures
            r matches Some(i) ==> i < self.ids@.len() && self.ids@[i as int].0 == u.0,
            r is None ==> !self@.contains_key(u.0),
    {
        let mut i: usize = 0;
        while i < self.ids.len()
            invariant
                self.wf(),
                i <= self.ids@.len(),
                forall|j: int| 0 <= j < i ==> #[trigger] self.ids@[j].0 != u.0,
            decreases self.ids@.len() - i,
        {
            if self.ids[i].0 == u.0 {
                return Some(i);
            }
            i = i + 1;
        }
        None
    }

    /// Where the negotiation with `u` stands.
    pub fn state(&self, u: UserId) -> (r: PeerState)
        requires
            self.wf(),
        ensures
            r == state_in(self@, u.0),
    {
        match self.find(u) {
            Some(i) => {
                assert(self.model@.contains_key(self.ids@[i as int].0));
                self.states[i]
            },
            None => PeerState::Idle,
        }
    }

    /// Records where the negotiation with `u` stands.
    pub fn set(&mut self, u: UserId, s: PeerState)
        requires
            old(self).wf(),
        ensures
            final(self).wf(),
            final(self)@ == old(self)@.insert(u.0, s),
    {
        match self.find(u) {
            Some(i) => {
                self.states.set(i, s);
                self.model = Ghost(self.model@.insert(u.0, s));
                assert forall|j: int| 0 <= j < self.ids@.len() implies #[trigger] self.model@.contains_key(self.ids@[j].0)
                    && self.model@[self.ids@[j].0] == self.states@[j] by {
                    if j != i {
                        assert(old(self).model@.contains_key(old(self).ids@[j].0));
                        assert(old(self).ids@[j] != old(self).ids@[i as int]);
                    }
                }
                assert forall|k: u64| #[trigger] self.model@.contains_key(k) implies exists|j: int|
                    0 <= j < self.ids@.len() && #[trigger] self.ids@[j].0 == k by {
                    if k == u.0 {
                        assert(self.ids@[i as int].0 == k);
                    } else {
                        assert(old(self).model@.contains_key(k));
                        let j = choose|j: int| 0 <= j < old(self).ids@.len() && #[trigger] old(self).ids@[j].0 == k;
                        assert(self.ids@[j].0 == k);
                    }
                }
            },
            None => {
                self.ids.push(u);
                self.states.push(s);
                self.model = Ghost(self.model@.insert(u.0, s));
                let ghost n = self.ids@.len() - 1;
                assert forall|a: int, b: int| 0 <= a < b < self.ids@.len() implies #[trigger] self.ids@[a] != #[trigger] self.ids@[b] by {
                    if b == n {
                        assert(old(self).model@.contains_key(old(self).ids@[a].0));
                    }
                }
                assert forall|j: int| 0 <= j < self.ids@.len() implies #[trigger] self.model@.contains_key(self.ids@[j].0)
                    && self.model@[self.ids@[j].0] == self.states@[j] by {
                    if j < n {
                        assert(old(self).model@.contains_key(old(self).ids@[j].0));
                    }
                }
                assert forall|k: u64| #[trigger] self.model@.contains_key(k) implies exists|j: int|
                    0 <= j < self.ids@.len() && #[trigger] self.ids@[j].0 == k by {
                    if k == u.0 {
                        assert(self.ids@[n].0 == k);
                    } else {
                        assert(old(self).model@.contains_key(k));
                        let j = choose|j: int| 0 <= j < old(self).ids@.len() && #[trigger] old(self).ids@[j].0 == k;
                        assert(self.ids@[j].0 == k);
                    }
                }
            },
        }
    }

    /// The peers whose data channel is open, each once.
    pub fn open_peers(&self) -> (r: Vec<UserId>)
        requires
            self.wf(),
        ensures
            forall|i: int| 0 <= i < r@.len() ==> state_in(self@, (#[trigger] r@[i]).0) == PeerState::Open,
            forall|k: u64| state_in(self@, k) == PeerState::Open ==> r@.contains(UserId(k)),
            r@.no_duplicates(),
    {
        let mut r: Vec<UserId> = Vec::new();
        let mut i: usize = 0;
        while i < self.ids.len()
            invariant
                self.wf(),
                i <= self.ids@.len(),
                forall|j: int| 0 <= j < r@.len() ==> state_in(self@, (#[trigger] r@[j]).0) == PeerState::Open,
                forall|j: int| 0 <= j < i && self.states@[j] == PeerState::Open ==> r@.contains(#[trigger] self.ids@[j]),
                forall|j: int| 0 <= j < r@.len() ==> exists|a: int| 0 <= a < i && #[trigger] self.ids@[a] == #[trigger] r@[j],
                r@.no_duplicates(),
            decreases self.ids@.len() - i,
        {
            assert(self.model@.contains_key(self.ids@[i as int].0));
            if self.states[i] == PeerState::Open {
                let ghost before = r@;
                r.push(self.ids[i]);
                proof {
                    assert(r@[r@.len() - 1] == self.ids@[i as int]);
                    assert forall|j: int| 0 <= j < i + 1 && self.states@[j] == PeerState::Open implies r@.contains(
                        #[trigger] self.ids@[j],
                    ) by {
                        if j < i {
                            assert(before.contains(self.ids@[j]));
                            let a = choose|a: int| 0 <= a < before.len() && before[a] == self.ids@[j];
                            assert(r@[a] == self.ids@[j]);
                        } else {
                            assert(r@[r@.len() - 1] == self.ids@[j]);
                        }
                    }
                    assert forall|j: int| 0 <= j < r@.len() implies exists|a: int| 0 <= a < i + 1 && #[trigger] self.ids@[a] == #[trigger] r@[j] by {
                        if j < before.len() {
                            let a = choose|a: int| 0 <= a < i && #[trigger] self.ids@[a] == before[j];
                            assert(self.ids@[a] == r@[j]);
                        } else {
                            assert(self.ids@[i as int] == r@[j]);
                        }
                    }
                    assert forall|a: int, b: int| 0 <= a < r@.len() && 0 <= b < r@.len() && a != b implies r@[a] != r@[b] by {
                        if a < before.len() && b < before.len() {
                            assert(before[a] == r@[a] && before[b] == r@[b]);
                        } else if a < before.len() {
                            let x = choose|x: int| 0 <= x < i && #[trigger] self.ids@[x] == before[a];
                            assert(self.ids@[x] != self.ids@[i as int]);
                        } else {
                            let x = choose|x: int| 0 <= x < i && #[trigger] self.ids@[x] == before[b];
                            assert(self.ids@[x] != self.ids@[i as int]);
                        }
                    }
                }
            } else {
                assert forall|j: int| 0 <= j < i + 1 && self.states@[j] == PeerState::Open implies r@.contains(
                    #[trigger] self.ids@[j],
                ) by {}
                assert forall|j: int| 0 <= j < r@.len() implies exists|a: int| 0 <= a < i + 1 && #[trigger] self.ids@[a] == #[trigger] r@[j] by {
                    let a = choose|a: int| 0 <= a < i && #[trigger] self.ids@[a] == r@[j];
                }
            }
            i = i + 1;
        }
        assert forall|k: u64| state_in(self@, k) == PeerState::Open implies r@.contains(UserId(k)) by {
            assert(self.model@.contains_key(k));
            let j = choose|j: int| 0 <= j < self.ids@.len() && #[trigger] self.ids@[j].0 == k;
            assert(self.model@.contains_key(self.ids@[j].0));
            assert(self.ids@[j] == UserId(k));
        }
        r
    }
}

} // verus!
