//! The one-to-one topology: a session holds two users, and the first to
//! arrive makes the offer once the second is there.
use vstd::prelude::*;

use crate::connections::Connections;
use crate::ids::{SessionId, UserId};
use crate::protocol::one_to_one::{frame, parse, SignalMessage, SignalView};
use crate::server::{Dropped, ALREADY_JOINED, NOT_MEMBER, SESSION_FULL};
use crate::table::SessionTable;

verus! {

/// The two places of a one-to-one session, and whether an offer went through.
#[derive(Debug, Clone, Copy, PartialEq, Eq, Structural)]
pub struct Session {
    pub first: Option<UserId>,
    pub second: Option<UserId>,
    pub offer_received: bool,
}

pub open spec fn is_member(s: Session, u: UserId) -> bool {
    s.first == Some(u) || s.second == Some(u)
}

/// The member of the session other than `u`, if there is one.
pub open spec fn other(s: Session, u: UserId) -> Option<UserId> {
    if s.first == Some(u) {
        s.second
    } else if s.second == Some(u) {
        s.first
    } else {
        None
    }
}

pub open spec fn is_empty(s: Session) -> bool {
    s.first is None && s.second is None
}

/// At most two members, never the same user twice, never empty.
pub open spec fn session_ok(s: Session) -> bool {
    &&& !is_empty(s)
    &&& (s.first is Some && s.second is Some ==> s.first != s.second)
}

/// The sessions after `u` left: a one-to-one session ends with either of its
/// members, so every session that `u` was in is deleted.
pub open spec fn sessions_without(m: Map<Seq<char>, Session>, u: UserId) -> Map<Seq<char>, Session> {
    Map::new(|k: Seq<char>| m.contains_key(k) && !is_member(m[k], u), |k: Seq<char>| m[k])
}

pub type Outcome = (Map<Seq<char>, Session>, Seq<(u64, SignalView)>);

pub open spec fn join_outcome(m: Map<Seq<char>, Session>, u: UserId, sid: Seq<char>) -> Outcome {
    if !m.contains_key(sid) {
        (m.insert(sid, Session { first: Some(u), second: None, offer_received: false }), seq![])
    } else {
        let s = m[sid];
        if is_member(s, u) {
            (m, seq![(u.0, SignalView::Error(sid, ALREADY_JOINED@))])
        } else if s.first is Some && s.second is Some {
            (m, seq![(u.0, SignalView::Error(sid, SESSION_FULL@))])
        } else {
            let present = if s.first is Some { s.first.unwrap() } else { s.second.unwrap() };
            (
                m.insert(sid, Session { first: Some(present), second: Some(u), offer_received: false }),
                seq![(present.0, SignalView::SessionReady(sid, true)), (u.0, SignalView::SessionReady(sid, false))],
            )
        }
    }
}

/// Relays `out` to the other member; an offer goes through once per pairing.
pub open spec fn relay_outcome(
    m: Map<Seq<char>, Session>,
    u: UserId,
    sid: Seq<char>,
    out: SignalView,
    is_offer: bool,
) -> Outcome {
    if !m.contains_key(sid) {
        (m, seq![])
    } else {
        let s = m[sid];
        if !is_member(s, u) {
            (m, seq![(u.0, SignalView::Error(sid, NOT_MEMBER@))])
        } else {
            match other(s, u) {
                None => (m, seq![]),
                Some(o) => if is_offer && s.offer_received {
                    (m, seq![])
                } else if is_offer {
                    (m.insert(sid, Session { offer_received: true, ..s }), seq![(o.0, out)])
                } else {
                    (m, seq![(o.0, out)])
                },
            }
        }
    }
}

/// What a message from `u` does to the sessions, and what goes out to whom.
pub open spec fn outcome(m: Map<Seq<char>, Session>, registered: bool, u: UserId, msg: SignalView) -> Outcome {
    if !registered {
        (m, seq![])
    } else {
        match msg {
            SignalView::SessionJoin(sid) => join_outcome(m, u, sid),
            SignalView::SdpOffer(sid, sdp) => relay_outcome(m, u, sid, SignalView::SdpOffer(sid, sdp), true),
            SignalView::SdpAnswer(sid, sdp) => relay_outcome(m, u, sid, SignalView::SdpAnswer(sid, sdp), false),
            SignalView::IceCandidate(sid, c) => relay_outcome(m, u, sid, SignalView::IceCandidate(sid, c), false),
            _ => (m, seq![]),
        }
    }
}

/// The session within which a message is to be relayed.
pub open spec fn relay_session(msg: SignalView) -> Option<Seq<char>> {
    match msg {
        SignalView::SdpOffer(sid, _) => Some(sid),
        SignalView::SdpAnswer(sid, _) => Some(sid),
        SignalView::IceCandidate(sid, _) => Some(sid),
        _ => None,
    }
}

/// A message from a registered user that is to be relayed within a session
/// that does not exist: it is dropped, and the caller is told.
pub open spec fn unknown_session(m: Map<Seq<char>, Session>, registered: bool, msg: SignalView) -> bool {
    &&& registered
    &&& relay_session(msg) matches Some(sid) && !m.contains_key(sid)
}

pub open spec fn deliveries(v: Seq<(UserId, SignalMessage)>) -> Seq<(u64, SignalView)> {
    v.map_values(|d: (UserId, SignalMessage)| (d.0.0, d.1@))
}

/// The one-to-one signaling server.
pub struct OneToOneServer<S> {
    connections: Connections<S>,
    sessions: SessionTable<Session>,
}

impl<S> OneToOneServer<S> {
    pub closed spec fn users(&self) -> Map<u64, S> {
        self.connections@
    }

    pub closed spec fn next_user(&self) -> u64 {
        self.connections.next()
    }

    pub closed spec fn sessions(&self) -> Map<Seq<char>, Session> {
        self.sessions@
    }

    /// Every session is well formed and its members are registered users.
    pub closed spec fn wf(&self) -> bool {
        &&& self.connections.wf()
        &&& self.sessions.wf()
        &&& forall|k: Seq<char>| #[trigger] self.sessions@.contains_key(k) ==> {
            let s = self.sessions@[k];
            &&& session_ok(s)
            &&& (s.first matches Some(a) ==> self.connections@.contains_key(a.0))
            &&& (s.second matches Some(b) ==> self.connections@.contains_key(b.0))
        }
    }

    /// Every session holds one or two distinct users, all of them registered.
    pub proof fn lemma_invariants(&self)
        requires
            self.wf(),
        ensures
            forall|k: Seq<char>| #[trigger] self.sessions().contains_key(k) ==> {
                let s = self.sessions()[k];
                &&& session_ok(s)
                &&& (s.first matches Some(a) ==> self.users().contains_key(a.0))
                &&& (s.second matches Some(b) ==> self.users().contains_key(b.0))
            },
    {
    }

    /// A server with no users and no sessions.
    pub fn new() -> (r: Self)
        ensures
            r.wf(),
            r.users() == Map::<u64, S>::empty(),
            r.sessions() == Map::<Seq<char>, Session>::empty(),
            r.next_user() == 1,
    {
        OneToOneServer { connections: Connections::new(), sessions: SessionTable::new() }
    }

    /// Registers a newly connected user under a fresh identifier.
    pub fn connect(&mut self, sink: S) -> (r: Option<UserId>)
        requires
            old(self).wf(),
        ensures
            final(self).wf(),
            final(self).sessions() == old(self).sessions(),
            old(self).next_user() < u64::MAX ==> r == Some(UserId(old(self).next_user())),
            match r {
                Some(u) => final(self).users() == old(self).users().insert(u.0, sink)
                    && !old(self).users().contains_key(u.0)
                    && final(self).next_user() == old(self).next_user() + 1,
                None => final(self).users() == old(self).users(),
            },
    {
        self.connections.register(sink)
    }

    /// Registers a newly connected user under an identifier chosen by the
    /// caller; refuses one that is registered already, `0`, or `u64::MAX`.
    pub fn connect_as(&mut self, u: UserId, sink: S) -> (r: bool)
        requires
            old(self).wf(),
        ensures
            final(self).wf(),
            final(self).sessions() == old(self).sessions(),
            r == (1 <= u.0 < u64::MAX && !old(self).users().contains_key(u.0)),
            r ==> final(self).users() == old(self).users().insert(u.0, sink),
            !r ==> final(self).users() == old(self).users(),
    {
        self.connections.register_as(u, sink)
    }

    /// The sink of a registered user.
    pub fn sink(&self, u: UserId) -> (r: Option<&S>)
        ensures
            r.is_some() == self.users().contains_key(u.0),
            r matches Some(s) ==> *s == self.users()[u.0],
    {
        self.connections.get(u)
    }

    /// The session of that identifier.
    pub fn session(&self, sid: &SessionId) -> (r: Option<Session>)
        requires
            self.wf(),
        ensures
            r.is_some() == self.sessions().contains_key(sid@),
            r matches Some(s) ==> s == self.sessions()[sid@],
    {
        match self.sessions.get(sid) {
            Some(s) => Some(*s),
            None => None,
        }
    }

    fn join(&mut self, u: UserId, sid: SessionId) -> (r: Vec<(UserId, SignalMessage)>)
        requires
            old(self).wf(),
            old(self).users().contains_key(u.0),
        ensures
            final(self).wf(),
            final(self).users() == old(self).users(),
            final(self).next_user() == old(self).next_user(),
            (final(self).sessions(), deliveries(r@)) == join_outcome(old(self).sessions(), u, sid@),
    {
        let mut out: Vec<(UserId, SignalMessage)> = Vec::new();
        match self.sessions.get(&sid) {
            None => {
                self.sessions.insert(sid, Session { first: Some(u), second: None, offer_received: false });
            },
            Some(s) => {
                let s = *s;
                if s.first == Some(u) || s.second == Some(u) {
                    out.push((u, SignalMessage::Error(sid, ALREADY_JOINED.to_owned())));
                } else if s.first.is_some() && s.second.is_some() {
                    out.push((u, SignalMessage::Error(sid, SESSION_FULL.to_owned())));
                } else {
                    let present = match s.first {
                        Some(a) => a,
                        None => s.second.unwrap(),
                    };
                    self.sessions.insert(
                        sid.duplicate(),
                        Session { first: Some(present), second: Some(u), offer_received: false },
                    );
                    out.push((present, SignalMessage::SessionReady(sid.duplicate(), true)));
                    out.push((u, SignalMessage::SessionReady(sid, false)));
                }
            },
        }
        assert(deliveries(out@) =~= join_outcome(old(self).sessions(), u, sid@).1);
        out
    }

    fn relay(&mut self, u: UserId, sid: SessionId, msg: SignalMessage, is_offer: bool) -> (r: Vec<(UserId, SignalMessage)>)
        requires
            old(self).wf(),
            old(self).users().contains_key(u.0),
        ensures
            final(self).wf(),
            final(self).users() == old(self).users(),
            final(self).next_user() == old(self).next_user(),
            (final(self).sessions(), deliveries(r@)) == relay_outcome(old(self).sessions(), u, sid@, msg@, is_offer),
    {
        let mut out: Vec<(UserId, SignalMessage)> = Vec::new();
        let s = match self.sessions.get(&sid) {
            None => {
                assert(deliveries(out@) =~= seq![]);
                return out;
            },
            Some(s) => *s,
        };
        if !(s.first == Some(u) || s.second == Some(u)) {
            out.push((u, SignalMessage::Error(sid, NOT_MEMBER.to_owned())));
            assert(deliveries(out@) =~= relay_outcome(old(self).sessions(), u, sid@, msg@, is_offer).1);
            return out;
        }
        let o = if s.first == Some(u) { s.second } else { s.first };
        match o {
            None => {},
            Some(o) => {
                if is_offer && s.offer_received {
                } else {
                    if is_offer {
                        self.sessions.insert(sid, Session { offer_received: true, ..s });
                    }
                    out.push((o, msg));
                }
            },
        }
        assert(deliveries(out@) =~= relay_outcome(old(self).sessions(), u, sid@, msg@, is_offer).1);
        out
    }

    /// Removes a user: it is unregistered, taken out of every session, and
    /// sessions left empty are deleted.
    pub fn disconnect(&mut self, u: UserId)
        requires
            old(self).wf(),
        ensures
            final(self).wf(),
            final(self).users() == old(self).users().remove(u.0),
            final(self).next_user() == old(self).next_user(),
            final(self).sessions() == sessions_without(old(self).sessions(), u),
    {
        self.connections.unregister(u);
        let keys = self.sessions.keys();
        let ghost m0 = old(self).sessions@;
        let mut i: usize = 0;
        while i < keys.len()
            invariant
                self.sessions.wf(),
                self.connections.wf(),
                self.connections@ == old(self).connections@.remove(u.0),
                self.connections.next() == old(self).connections.next(),
                i <= keys@.len(),
                forall|a: int, b: int| 0 <= a < b < keys@.len() ==> #[trigger] keys@[a]@ != #[trigger] keys@[b]@,
                forall|a: int| 0 <= a < keys@.len() ==> #[trigger] m0.contains_key(keys@[a]@),
                forall|k: Seq<char>| #[trigger] m0.contains_key(k) ==> exists|a: int|
                    0 <= a < keys@.len() && #[trigger] keys@[a]@ == k,
                forall|a: int| 0 <= a < i ==> {
                    let k = #[trigger] keys@[a]@;
                    &&& self.sessions@.contains_key(k) == !is_member(m0[k], u)
                    &&& self.sessions@.contains_key(k) ==> self.sessions@[k] == m0[k]
                },
                forall|a: int| i <= a < keys@.len() ==> {
                    let k = #[trigger] keys@[a]@;
                    &&& self.sessions@.contains_key(k)
                    &&& self.sessions@[k] == m0[k]
                },
                forall|k: Seq<char>| !m0.contains_key(k) ==> !#[trigger] self.sessions@.contains_key(k),
            decreases keys@.len() - i,
        {
            let key = &keys[i];
            let ghost before = self.sessions@;
            match self.sessions.remove(key) {
                Some(s) => {
                    if !(s.first == Some(u) || s.second == Some(u)) {
                        self.sessions.insert(key.duplicate(), s);
                    }
                },
                None => {},
            }
            proof {
                assert forall|a: int| 0 <= a < i + 1 implies {
                    let k = #[trigger] keys@[a]@;
                    &&& self.sessions@.contains_key(k) == !is_member(m0[k], u)
                    &&& self.sessions@.contains_key(k) ==> self.sessions@[k] == m0[k]
                } by {
                    if a < i {
                        assert(keys@[a]@ != keys@[i as int]@);
                    }
                }
                assert forall|a: int| i + 1 <= a < keys@.len() implies {
                    let k = #[trigger] keys@[a]@;
                    &&& self.sessions@.contains_key(k)
                    &&& self.sessions@[k] == m0[k]
                } by {
                    assert(keys@[a]@ != keys@[i as int]@);
                }
            }
            i = i + 1;
        }
        proof {
            let target = sessions_without(m0, u);
            assert forall|k: Seq<char>| #[trigger] self.sessions@.contains_key(k) == target.contains_key(k)
                && (self.sessions@.contains_key(k) ==> self.sessions@[k] == target[k]) by {
                if m0.contains_key(k) {
                    let a = choose|a: int| 0 <= a < keys@.len() && #[trigger] keys@[a]@ == k;
                    assert(keys@[a]@ == k);
                }
            }
            assert(self.sessions@ =~= target);
            assert forall|k: Seq<char>| #[trigger] self.sessions@.contains_key(k) implies {
                let s = self.sessions@[k];
                &&& session_ok(s)
                &&& (s.first matches Some(a) ==> self.connections@.contains_key(a.0))
                &&& (s.second matches Some(b) ==> self.connections@.contains_key(b.0))
            } by {
                assert(m0.contains_key(k));
                assert(old(self).sessions@.contains_key(k));
            }
        }
    }

    /// Decodes a frame from `u`, applies it, and frames what goes out. A
    /// frame that holds no message changes nothing and is reported, as is a
    /// relay within an unknown session.
    pub fn user_message(&mut self, u: UserId, bytes: &[u8]) -> (r: Result<Vec<(UserId, Vec<u8>)>, Dropped>)
        requires
            old(self).wf(),
        ensures
            final(self).wf(),
            final(self).users() == old(self).users(),
            final(self).next_user() == old(self).next_user(),
            match parse(bytes@) {
                None => final(self).sessions() == old(self).sessions() && r == Err::<Vec<(UserId, Vec<u8>)>, Dropped>(
                    Dropped::Malformed,
                ),
                Some(msg) => {
                    let (m, d) = outcome(old(self).sessions(), old(self).users().contains_key(u.0), u, msg);
                    &&& final(self).sessions() == m
                    &&& (r is Err <==> unknown_session(old(self).sessions(), old(self).users().contains_key(u.0), msg))
                    &&& (r matches Err(e) ==> e == Dropped::UnknownSession)
                    &&& (r matches Ok(v) ==> v@.len() == d.len() && forall|i: int|
                        0 <= i < d.len() ==> (#[trigger] v@[i]).0.0 == d[i].0 && v@[i].1@ == frame(d[i].1))
                },
            },
    {
        let mut framed: Vec<(UserId, Vec<u8>)> = Vec::new();
        let msg = match SignalMessage::decode(bytes) {
            Some(m) => m,
            None => return Err(Dropped::Malformed),
        };
        let out = match self.handle(u, msg) {
            Ok(out) => out,
            Err(d) => return Err(d),
        };
        let ghost d = deliveries(out@);
        let mut i: usize = 0;
        while i < out.len()
            invariant
                i <= out@.len(),
                d == deliveries(out@),
                framed@.len() == i,
                forall|j: int| 0 <= j < i ==> (#[trigger] framed@[j]).0.0 == d[j].0 && framed@[j].1@ == frame(d[j].1),
            decreases out@.len() - i,
        {
            let (to, m) = (&out[i].0, &out[i].1);
            framed.push((*to, m.encode()));
            i = i + 1;
        }
        Ok(framed)
    }

    /// Applies a message from `u` and returns what goes out to whom. A
    /// message to be relayed within an unknown session is reported.
    pub fn handle(&mut self, u: UserId, msg: SignalMessage) -> (r: Result<Vec<(UserId, SignalMessage)>, Dropped>)
        requires
            old(self).wf(),
        ensures
            final(self).wf(),
            final(self).users() == old(self).users(),
            final(self).next_user() == old(self).next_user(),
            final(self).sessions() == outcome(old(self).sessions(), old(self).users().contains_key(u.0), u, msg@).0,
            r is Err <==> unknown_session(old(self).sessions(), old(self).users().contains_key(u.0), msg@),
            r matches Err(d) ==> d == Dropped::UnknownSession,
            r matches Ok(v) ==> deliveries(v@) == outcome(
                old(self).sessions(),
                old(self).users().contains_key(u.0),
                u,
                msg@,
            ).1,
    {
        let known = match &msg {
            SignalMessage::SdpOffer(sid, _) | SignalMessage::SdpAnswer(sid, _) | SignalMessage::IceCandidate(sid, _) => self.sessions.contains(sid),
            _ => true,
        };
        let registered = self.connections.contains(u);
        let out = self.dispatch(u, msg);
        if registered && !known {
            Err(Dropped::UnknownSession)
        } else {
            Ok(out)
        }
    }

    fn dispatch(&mut self, u: UserId, msg: SignalMessage) -> (r: Vec<(UserId, SignalMessage)>)
        requires
            old(self).wf(),
        ensures
            final(self).wf(),
            final(self).users() == old(self).users(),
            final(self).next_user() == old(self).next_user(),
            (final(self).sessions(), deliveries(r@)) == outcome(
                old(self).sessions(),
                old(self).users().contains_key(u.0),
                u,
                msg@,
            ),
    {
        if !self.connections.contains(u) {
            let out: Vec<(UserId, SignalMessage)> = Vec::new();
            assert(deliveries(out@) =~= seq![]);
            return out;
        }
        match msg {
            SignalMessage::SessionJoin(sid) => self.join(u, sid),
            SignalMessage::SdpOffer(sid, sdp) => {
                let inner = sid.duplicate();
                self.relay(u, inner, SignalMessage::SdpOffer(sid, sdp), true)
            },
            SignalMessage::SdpAnswer(sid, sdp) => {
                let inner = sid.duplicate();
                self.relay(u, inner, SignalMessage::SdpAnswer(sid, sdp), false)
            },
            SignalMessage::IceCandidate(sid, c) => {
                let inner = sid.duplicate();
                self.relay(u, inner, SignalMessage::IceCandidate(sid, c), false)
            },
            _ => {
                let out: Vec<(UserId, SignalMessage)> = Vec::new();
                assert(deliveries(out@) =~= seq![]);
                out
            },
        }
    }
}

/// Once a member of a session leaves, the session is gone; so it is once
/// its last member leaves.
pub proof fn lemma_member_leaves(m: Map<Seq<char>, Session>, u: UserId, sid: Seq<char>)
    requires
        m.contains_key(sid),
        is_member(m[sid], u),
    ensures
        !sessions_without(m, u).contains_key(sid),
{
}

/// Of two offers in a row from one user for one session, at most one is
/// relayed.
pub proof fn lemma_offer_relayed_once(
    m: Map<Seq<char>, Session>,
    u: UserId,
    sid: Seq<char>,
    first: Seq<char>,
    second: Seq<char>,
)
    ensures
        ({
            let (m1, d1) = relay_outcome(m, u, sid, SignalView::SdpOffer(sid, first), true);
            let (m2, d2) = relay_outcome(m1, u, sid, SignalView::SdpOffer(sid, second), true);
            !(d1.len() > 0 && d1[0].1 is SdpOffer && d2.len() > 0 && d2[0].1 is SdpOffer)
        }),
{
}

} // verus!
