//! The many-to-many topology: every pair of members negotiates once, and the
//! newcomer makes the offer to each member already present.
use vstd::prelude::*;

use crate::connections::Connections;
use crate::ids::{SessionId, UserId};
use crate::protocol::many_to_many::{frame, parse, SignalMessage, SignalView};
use crate::server::{
    has_user, lemma_filter_no_duplicates, not_user, without_user, Dropped, ALREADY_JOINED,
    RECIPIENT_NOT_MEMBER,
};
use crate::table::SessionTable;

verus! {

/// A many-to-many session: its members in order of arrival.
#[derive(Debug)]
pub struct Session {
    pub users: Vec<UserId>,
}

pub struct SessionView {
    pub users: Seq<UserId>,
}

impl View for Session {
    type V = SessionView;

    open spec fn view(&self) -> SessionView {
        SessionView { users: self.users@ }
    }
}

pub open spec fn is_member(s: SessionView, u: UserId) -> bool {
    s.users.contains(u)
}

pub open spec fn is_empty(s: SessionView) -> bool {
    s.users.len() == 0
}

/// Not empty, and no member twice.
pub open spec fn session_ok(s: SessionView) -> bool {
    &&& !is_empty(s)
    &&& s.users.no_duplicates()
}

pub open spec fn prune(s: SessionView, u: UserId) -> SessionView {
    SessionView { users: s.users.filter(not_user(u)) }
}

/// The sessions after `u` left: it is taken out of each, and sessions left
/// empty are deleted.
pub open spec fn sessions_without(m: Map<Seq<char>, SessionView>, u: UserId) -> Map<Seq<char>, SessionView> {
    Map::new(|k: Seq<char>| m.contains_key(k) && !is_empty(prune(m[k], u)), |k: Seq<char>| prune(m[k], u))
}

pub type Outcome = (Map<Seq<char>, SessionView>, Seq<(u64, SignalView)>);

/// The session of that identifier, or an empty one.
pub open spec fn session_or_new(m: Map<Seq<char>, SessionView>, sid: Seq<char>) -> SessionView {
    if m.contains_key(sid) {
        m[sid]
    } else {
        SessionView { users: seq![] }
    }
}

/// A newcomer is introduced to every member present, and then offers to each.
pub open spec fn join_outcome(m: Map<Seq<char>, SessionView>, u: UserId, sid: Seq<char>) -> Outcome {
    let s = session_or_new(m, sid);
    if is_member(s, u) {
        (m, seq![(u.0, SignalView::Error(sid, u.0, ALREADY_JOINED@))])
    } else {
        (
            m.insert(sid, SessionView { users: s.users.push(u) }),
            s.users.map_values(|c: UserId| (u.0, SignalView::SessionReady(sid, c.0))),
        )
    }
}

/// Passes `out` to `to` where `to` is in the session; the sender is named in
/// `out` by the server, whatever the client claimed.
pub open spec fn relay_outcome(
    m: Map<Seq<char>, SessionView>,
    u: UserId,
    sid: Seq<char>,
    to: u64,
    out: SignalView,
) -> Outcome {
    if !m.contains_key(sid) {
        (m, seq![])
    } else if !is_member(m[sid], UserId(to)) {
        (m, seq![(u.0, SignalView::Error(sid, to, RECIPIENT_NOT_MEMBER@))])
    } else {
        (m, seq![(to, out)])
    }
}

/// What a message from `u` does to the sessions, and what goes out to whom.
/// A relayed message names its sender where the recipient was named.
pub open spec fn outcome(m: Map<Seq<char>, SessionView>, registered: bool, u: UserId, msg: SignalView) -> Outcome {
    if !registered {
        (m, seq![])
    } else {
        match msg {
            SignalView::SessionJoin(sid) => join_outcome(m, u, sid),
            SignalView::SessionReady(sid, to) => relay_outcome(m, u, sid, to, SignalView::SessionReady(sid, u.0)),
            SignalView::SdpOffer(sid, to, sdp) => relay_outcome(m, u, sid, to, SignalView::SdpOffer(sid, u.0, sdp)),
            SignalView::SdpAnswer(sid, to, sdp) => relay_outcome(m, u, sid, to, SignalView::SdpAnswer(sid, u.0, sdp)),
            SignalView::IceCandidate(sid, to, c) => relay_outcome(
                m,
                u,
                sid,
                to,
                SignalView::IceCandidate(sid, u.0, c),
            ),
            SignalView::Error(sid, to, text) => relay_outcome(m, u, sid, to, SignalView::Error(sid, u.0, text)),
        }
    }
}

/// The session within which a message is to be relayed.
pub open spec fn relay_session(msg: SignalView) -> Option<Seq<char>> {
    match msg {
        SignalView::SessionReady(sid, _) => Some(sid),
        SignalView::SdpOffer(sid, _, _) => Some(sid),
        SignalView::SdpAnswer(sid, _, _) => Some(sid),
        SignalView::IceCandidate(sid, _, _) => Some(sid),
        SignalView::Error(sid, _, _) => Some(sid),
        _ => None,
    }
}

/// A message from a registered user that is to be relayed within a session
/// that does not exist: it is dropped, and the caller is told.
pub open spec fn unknown_session(m: Map<Seq<char>, SessionView>, registered: bool, msg: SignalView) -> bool {
    &&& registered
    &&& relay_session(msg) matches Some(sid) && !m.contains_key(sid)
}

pub open spec fn deliveries(v: Seq<(UserId, SignalMessage)>) -> Seq<(u64, SignalView)> {
    v.map_values(|d: (UserId, SignalMessage)| (d.0.0, d.1@))
}

/// The many-to-many signaling server.
pub struct ManyToManyServer<S> {
    connections: Connections<S>,
    sessions: SessionTable<Session>,
}

impl<S> ManyToManyServer<S> {
    pub closed spec fn users(&self) -> Map<u64, S> {
        self.connections@
    }

    pub closed spec fn next_user(&self) -> u64 {
        self.connections.next()
    }

    pub closed spec fn sessions(&self) -> Map<Seq<char>, SessionView> {
        self.sessions@.map_values(|s: Session| s@)
    }

    /// Every session is well formed and its members are registered users.
    pub closed spec fn wf(&self) -> bool {
        &&& self.connections.wf()
        &&& self.sessions.wf()
        &&& forall|k: Seq<char>| #[trigger] self.sessions@.contains_key(k) ==> {
            let s = self.sessions@[k]@;
            &&& session_ok(s)
            &&& forall|i: int| 0 <= i < s.users.len() ==> self.connections@.contains_key(#[trigger] s.users[i].0)
        }
    }

    /// No session holds a user twice, and all members are registered users.
    pub proof fn lemma_invariants(&self)
        requires
            self.wf(),
        ensures
            forall|k: Seq<char>| #[trigger] self.sessions().contains_key(k) ==> {
                let s = self.sessions()[k];
                &&& session_ok(s)
                &&& forall|i: int| 0 <= i < s.users.len() ==> self.users().contains_key(#[trigger] s.users[i].0)
            },
    {
        assert forall|k: Seq<char>| #[trigger] self.sessions().contains_key(k) implies {
            let s = self.sessions()[k];
            &&& session_ok(s)
            &&& forall|i: int| 0 <= i < s.users.len() ==> self.users().contains_key(#[trigger] s.users[i].0)
        } by {
            assert(self.sessions@.contains_key(k));
        }
    }

    /// A server with no users and no sessions.
    pub fn new() -> (r: Self)
        ensures
            r.wf(),
            r.users() == Map::<u64, S>::empty(),
            r.sessions() == Map::<Seq<char>, SessionView>::empty(),
            r.next_user() == 1,
    {
        let r = ManyToManyServer { connections: Connections::new(), sessions: SessionTable::new() };
        assert(r.sessions() =~= Map::<Seq<char>, SessionView>::empty());
        r
    }

    /// Registers a newly connected user under a fresh identifier.
    pub fn connect(&mut self, sink: S) -> (r: Option<UserId>)
        requires
            old(self).wf(),
        ensures
            final(self).wf(),
            final(self).sessions() == old(self).sessions(),
            old(self).next_user() < u64::MAX ==> r == Some(UserId(old(self).next_user())),
            match r {
                Some(u) => final(self).users() == old(self).users().insert(u.0, sink)
                    && !old(self).users().contains_key(u.0)
                    && final(self).next_user() == old(self).next_user() + 1,
                None => final(self).users() == old(self).users(),
            },
    {
        self.connections.register(sink)
    }

    /// Registers a newly connected user under an identifier chosen by the
    /// caller; refuses one that is registered already, `0`, or `u64::MAX`.
    pub fn connect_as(&mut self, u: UserId, sink: S) -> (r: bool)
        requires
            old(self).wf(),
        ensures
            final(self).wf(),
            final(self).sessions() == old(self).sessions(),
            r == (1 <= u.0 < u64::MAX && !old(self).users().contains_key(u.0)),
            r ==> final(self).users() == old(self).users().insert(u.0, sink),
            !r ==> final(self).users() == old(self).users(),
    {
        self.connections.register_as(u, sink)
    }

    /// The sink of a registered user.
    pub fn sink(&self, u: UserId) -> (r: Option<&S>)
        ensures
            r.is_some() == self.users().contains_key(u.0),
            r matches Some(s) ==> *s == self.users()[u.0],
    {
        self.connections.get(u)
    }

    /// The members of a session.
    pub fn session(&self, sid: &SessionId) -> (r: Option<Vec<UserId>>)
        requires
            self.wf(),
        ensures
            r.is_some() == self.sessions().contains_key(sid@),
            r matches Some(c) ==> c@ == self.sessions()[sid@].users,
    {
        match self.sessions.get(sid) {
            Some(s) => Some(s.users.clone()),
            None => None,
        }
    }

    fn join(&mut self, u: UserId, sid: SessionId) -> (r: Vec<(UserId, SignalMessage)>)
        requires
            old(self).wf(),
            old(self).users().contains_key(u.0),
        ensures
            final(self).wf(),
            final(self).users() == old(self).users(),
            final(self).next_user() == old(self).next_user(),
            (final(self).sessions(), deliveries(r@)) == join_outcome(old(self).sessions(), u, sid@),
    {
        let ghost m0 = old(self).sessions();
        let mut out: Vec<(UserId, SignalMessage)> = Vec::new();
        let users = match self.sessions.get(&sid) {
            Some(s) => s.users.clone(),
            None => Vec::new(),
        };
        let ghost s0 = session_or_new(m0, sid@);
        proof {
            if self.sessions@.contains_key(sid@) {
                assert(m0[sid@] == self.sessions@[sid@]@);
            }
        }
        assert(users@ == s0.users);
        if has_user(&users, u) {
            out.push((u, SignalMessage::Error(sid, u, ALREADY_JOINED.to_owned())));
        } else {
            let mut i: usize = 0;
            while i < users.len()
                invariant
                    i <= users@.len(),
                    deliveries(out@) =~= users@.subrange(0, i as int).map_values(
                        |c: UserId| (u.0, SignalView::SessionReady(sid@, c.0)),
                    ),
                decreases users@.len() - i,
            {
                let ghost before = out@;
                let c = users[i];
                out.push((u, SignalMessage::SessionReady(sid.duplicate(), c)));
                proof {
                    let f = |c: UserId| (u.0, SignalView::SessionReady(sid@, c.0));
                    assert(deliveries(out@) =~= deliveries(before).push(f(c)));
                    assert(users@.subrange(0, i + 1) =~= users@.subrange(0, i as int).push(c));
                    assert(users@.subrange(0, i + 1).map_values(f) =~= users@.subrange(0, i as int).map_values(f).push(f(c)));
                }
                i = i + 1;
            }
            assert(users@.subrange(0, users@.len() as int) =~= users@);
            let mut users = users;
            users.push(u);
            self.sessions.insert(sid, Session { users });
        }
        proof {
            let (m1, d1) = join_outcome(m0, u, sid@);
            assert(deliveries(out@) =~= d1);
            assert(self.sessions() =~= m1);
            assert forall|k: Seq<char>| #[trigger] self.sessions@.contains_key(k) implies {
                let s = self.sessions@[k]@;
                &&& session_ok(s)
                &&& forall|i: int| 0 <= i < s.users.len() ==> self.connections@.contains_key(#[trigger] s.users[i].0)
            } by {
                if k != sid@ {
                    assert(old(self).sessions@.contains_key(k));
                } else {
                    if old(self).sessions@.contains_key(k) {
                        assert(old(self).sessions@[k]@ == s0);
                    }
                    let s = self.sessions@[k]@;
                    if s.users.len() == s0.users.len() + 1 {
                        assert forall|i: int| 0 <= i < s.users.len() implies self.connections@.contains_key(#[trigger] s.users[i].0) by {
                            if i < s0.users.len() {
                                assert(s.users[i] == s0.users[i]);
                            }
                        }
                        assert forall|a: int, b: int| 0 <= a < b < s.users.len() implies s.users[a] != s.users[b] by {
                            if b == s0.users.len() {
                                assert(s0.users.contains(s.users[a]));
                            }
                        }
                    }
                }
            }
        }
        out
    }

    fn relay(&self, u: UserId, sid: SessionId, to: UserId, msg: SignalMessage) -> (r: Vec<(UserId, SignalMessage)>)
        requires
            self.wf(),
        ensures
            deliveries(r@) == relay_outcome(self.sessions(), u, sid@, to.0, msg@).1,
    {
        let mut out: Vec<(UserId, SignalMessage)> = Vec::new();
        match self.sessions.get(&sid) {
            None => {},
            Some(s) => {
                if !has_user(&s.users, to) {
                    out.push((u, SignalMessage::Error(sid, to, RECIPIENT_NOT_MEMBER.to_owned())));
                } else {
                    out.push((to, msg));
                }
            },
        }
        proof {
            if self.sessions@.contains_key(sid@) {
                assert(self.sessions()[sid@] == self.sessions@[sid@]@);
            }
        }
        assert(deliveries(out@) =~= relay_outcome(self.sessions(), u, sid@, to.0, msg@).1);
        out
    }

    /// Applies a message from `u` and returns what goes out to whom. A
    /// message to be relayed within an unknown session is reported.
    pub fn handle(&mut self, u: UserId, msg: SignalMessage) -> (r: Result<Vec<(UserId, SignalMessage)>, Dropped>)
        requires
            old(self).wf(),
        ensures
            final(self).wf(),
            final(self).users() == old(self).users(),
            final(self).next_user() == old(self).next_user(),
            final(self).sessions() == outcome(old(self).sessions(), old(self).users().contains_key(u.0), u, msg@).0,
            r is Err <==> unknown_session(old(self).sessions(), old(self).users().contains_key(u.0), msg@),
            r matches Err(d) ==> d == Dropped::UnknownSession,
            r matches Ok(v) ==> deliveries(v@) == outcome(
                old(self).sessions(),
                old(self).users().contains_key(u.0),
                u,
                msg@,
            ).1,
    {
        let known = match &msg {
            SignalMessage::SessionReady(sid, _) | SignalMessage::SdpOffer(sid, _, _) | SignalMessage::SdpAnswer(sid, _, _)
            | SignalMessage::IceCandidate(sid, _, _) | SignalMessage::Error(sid, _, _) => self.sessions.contains(sid),
            _ => true,
        };
        let registered = self.connections.contains(u);
        let out = self.dispatch(u, msg);
        if registered && !known {
            Err(Dropped::UnknownSession)
        } else {
            Ok(out)
        }
    }

    fn dispatch(&mut self, u: UserId, msg: SignalMessage) -> (r: Vec<(UserId, SignalMessage)>)
        requires
            old(self).wf(),
        ensures
            final(self).wf(),
            final(self).users() == old(self).users(),
            final(self).next_user() == old(self).next_user(),
            (final(self).sessions(), deliveries(r@)) == outcome(
                old(self).sessions(),
                old(self).users().contains_key(u.0),
                u,
                msg@,
            ),
    {
        if !self.connections.contains(u) {
            let out: Vec<(UserId, SignalMessage)> = Vec::new();
            assert(deliveries(out@) =~= seq![]);
            return out;
        }
        match msg {
            SignalMessage::SessionJoin(sid) => self.join(u, sid),
            SignalMessage::SessionReady(sid, to) => {
                let inner = sid.duplicate();
                self.relay(u, inner, to, SignalMessage::SessionReady(sid, u))
            },
            SignalMessage::SdpOffer(sid, to, sdp) => {
                let inner = sid.duplicate();
                self.relay(u, inner, to, SignalMessage::SdpOffer(sid, u, sdp))
            },
            SignalMessage::SdpAnswer(sid, to, sdp) => {
                let inner = sid.duplicate();
                self.relay(u, inner, to, SignalMessage::SdpAnswer(sid, u, sdp))
            },
            SignalMessage::IceCandidate(sid, to, c) => {
                let inner = sid.duplicate();
                self.relay(u, inner, to, SignalMessage::IceCandidate(sid, u, c))
            },
            SignalMessage::Error(sid, to, text) => {
                let inner = sid.duplicate();
                self.relay(u, inner, to, SignalMessage::Error(sid, u, text))
            },
        }
    }

    /// Removes a user: it is unregistered, taken out of every session, and
    /// sessions left empty are deleted.
    pub fn disconnect(&mut self, u: UserId)
        requires
            old(self).wf(),
        ensures
            final(self).wf(),
            final(self).users() == old(self).users().remove(u.0),
            final(self).next_user() == old(self).next_user(),
            final(self).sessions() == sessions_without(old(self).sessions(), u),
    {
        self.connections.unregister(u);
        let keys = self.sessions.keys();
        let ghost m0 = old(self).sessions@;
        let mut i: usize = 0;
        while i < keys.len()
            invariant
                self.sessions.wf(),
                self.connections.wf(),
                self.connections@ == old(self).connections@.remove(u.0),
                self.connections.next() == old(self).connections.next(),
                i <= keys@.len(),
                forall|a: int, b: int| 0 <= a < b < keys@.len() ==> #[trigger] keys@[a]@ != #[trigger] keys@[b]@,
                forall|a: int| 0 <= a < keys@.len() ==> #[trigger] m0.contains_key(keys@[a]@),
                forall|k: Seq<char>| #[trigger] m0.contains_key(k) ==> exists|a: int|
                    0 <= a < keys@.len() && #[trigger] keys@[a]@ == k,
                forall|a: int| 0 <= a < i ==> {
                    let k = #[trigger] keys@[a]@;
                    &&& self.sessions@.contains_key(k) == !is_empty(prune(m0[k]@, u))
                    &&& self.sessions@.contains_key(k) ==> self.sessions@[k]@ == prune(m0[k]@, u)
                },
                forall|a: int| i <= a < keys@.len() ==> {
                    let k = #[trigger] keys@[a]@;
                    &&& self.sessions@.contains_key(k)
                    &&& self.sessions@[k] == m0[k]
                },
                forall|k: Seq<char>| !m0.contains_key(k) ==> !#[trigger] self.sessions@.contains_key(k),
            decreases keys@.len() - i,
        {
            let key = &keys[i];
            match self.sessions.remove(key) {
                Some(s) => {
                    let users = without_user(&s.users, u);
                    if users.len() > 0 {
                        self.sessions.insert(key.duplicate(), Session { users });
                    }
                },
                None => {},
            }
            proof {
                assert forall|a: int| 0 <= a < i + 1 implies {
                    let k = #[trigger] keys@[a]@;
                    &&& self.sessions@.contains_key(k) == !is_empty(prune(m0[k]@, u))
                    &&& self.sessions@.contains_key(k) ==> self.sessions@[k]@ == prune(m0[k]@, u)
                } by {
                    if a < i {
                        assert(keys@[a]@ != keys@[i as int]@);
                    }
                }
                assert forall|a: int| i + 1 <= a < keys@.len() implies {
                    let k = #[trigger] keys@[a]@;
                    &&& self.sessions@.contains_key(k)
                    &&& self.sessions@[k] == m0[k]
                } by {
                    assert(keys@[a]@ != keys@[i as int]@);
                }
            }
            i = i + 1;
        }
        proof {
            let target = sessions_without(old(self).sessions(), u);
            assert forall|k: Seq<char>| #[trigger] self.sessions().contains_key(k) == target.contains_key(k)
                && (self.sessions().contains_key(k) ==> self.sessions()[k] == target[k]) by {
                if m0.contains_key(k) {
                    let a = choose|a: int| 0 <= a < keys@.len() && #[trigger] keys@[a]@ == k;
                    assert(keys@[a]@ == k);
                }
            }
            assert(self.sessions() =~= target);
            assert forall|k: Seq<char>| #[trigger] self.sessions@.contains_key(k) implies {
                let s = self.sessions@[k]@;
                &&& session_ok(s)
                &&& forall|i: int| 0 <= i < s.users.len() ==> self.connections@.contains_key(#[trigger] s.users[i].0)
            } by {
                assert(m0.contains_key(k));
                assert(old(self).sessions@.contains_key(k));
                let s0 = m0[k]@;
                let s = self.sessions@[k]@;
                lemma_filter_no_duplicates(s0.users, not_user(u));
                assert forall|i: int| 0 <= i < s.users.len() implies self.connections@.contains_key(#[trigger] s.users[i].0) by {
                    assert(s.users.contains(s.users[i]));
                    let j = choose|j: int| 0 <= j < s0.users.len() && s0.users[j] == s.users[i];
                    assert(old(self).connections@.contains_key(s0.users[j].0));
                }
            }
        }
    }

    /// Decodes a frame from `u`, applies it, and frames what goes out. A
    /// frame that holds no message changes nothing and is reported, as is a
    /// relay within an unknown session.
    pub fn user_message(&mut self, u: UserId, bytes: &[u8]) -> (r: Result<Vec<(UserId, Vec<u8>)>, Dropped>)
        requires
            old(self).wf(),
        ensures
            final(self).wf(),
            final(self).users() == old(self).users(),
            final(self).next_user() == old(self).next_user(),
            match parse(bytes@) {
                None => final(self).sessions() == old(self).sessions() && r == Err::<Vec<(UserId, Vec<u8>)>, Dropped>(
                    Dropped::Malformed,
                ),
                Some(msg) => {
                    let (m, d) = outcome(old(self).sessions(), old(self).users().contains_key(u.0), u, msg);
                    &&& final(self).sessions() == m
                    &&& (r is Err <==> unknown_session(old(self).sessions(), old(self).users().contains_key(u.0), msg))
                    &&& (r matches Err(e) ==> e == Dropped::UnknownSession)
                    &&& (r matches Ok(v) ==> v@.len() == d.len() && forall|i: int|
                        0 <= i < d.len() ==> (#[trigger] v@[i]).0.0 == d[i].0 && v@[i].1@ == frame(d[i].1))
                },
            },
    {
        let mut framed: Vec<(UserId, Vec<u8>)> = Vec::new();
        let msg = match SignalMessage::decode(bytes) {
            Some(m) => m,
            None => return Err(Dropped::Malformed),
        };
        let out = match self.handle(u, msg) {
            Ok(out) => out,
            Err(d) => return Err(d),
        };
        let ghost d = deliveries(out@);
        let mut i: usize = 0;
        while i < out.len()
            invariant
                i <= out@.len(),
                d == deliveries(out@),
                framed@.len() == i,
                forall|j: int| 0 <= j < i ==> (#[trigger] framed@[j]).0.0 == d[j].0 && framed@[j].1@ == frame(d[j].1),
            decreases out@.len() - i,
        {
            let (to, m) = (&out[i].0, &out[i].1);
            framed.push((*to, m.encode()));
            i = i + 1;
        }
        Ok(framed)
    }
}

/// A relayed message names its sender, and only a registered sender gets
/// anything relayed.
pub proof fn lemma_relay_names_sender(m: Map<Seq<char>, SessionView>, registered: bool, u: UserId, msg: SignalView)
    ensures
        ({
            let d = outcome(m, registered, u, msg).1;
            forall|i: int| 0 <= i < d.len() ==> match #[trigger] d[i].1 {
                SignalView::SdpOffer(_, from, _) => registered && from == u.0,
                SignalView::SdpAnswer(_, from, _) => registered && from == u.0,
                SignalView::IceCandidate(_, from, _) => registered && from == u.0,
                SignalView::SessionReady(_, from) => registered && (from == u.0 || msg is SessionJoin),
                SignalView::Error(_, _, _) => registered,
                _ => true,
            }
        }),
{
}

/// Once the last member of a session leaves, the session is gone.
pub proof fn lemma_last_member_leaves(m: Map<Seq<char>, SessionView>, u: UserId, sid: Seq<char>)
    requires
        m.contains_key(sid),
        is_empty(prune(m[sid], u)),
    ensures
        !sessions_without(m, u).contains_key(sid),
{
}

} // verus!
