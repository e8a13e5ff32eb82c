//! The one-to-many façade: a host (the mini-server) and its clients (the
//! mini-clients). Of a host and a client, whoever joined last offers; the
//! server says which when it introduces them.
use vstd::prelude::*;

use crate::ids::{IceCandidate, IsHost, SessionId, UserId};
use crate::peer::config::{ConnectionType, DEFAULT_MAX_RETRANSMITS};
use crate::peer::negotiation::{next, step, PeerAction, PeerEvent, PeerState};
use crate::peer::one_to_one::effects_match;
use crate::peer::peers::{state_in, PeerTable};
use crate::peer::{realize, Error, Payload, PayloadView};
use crate::protocol::one_to_many::{frame, parse, SignalMessage, SignalView};

verus! {

/// The peer that a message from the server concerns, the event it stands
/// for, and what it brings.
pub open spec fn event_of(m: SignalView) -> Option<(u64, PeerEvent, PayloadView)> {
    match m {
        SignalView::SessionReady(_, peer, offerer) => Some((peer, PeerEvent::Ready { offerer }, PayloadView::Nothing)),
        SignalView::SdpOffer(_, from, sdp) => Some((from, PeerEvent::RemoteOffer, PayloadView::Sdp(sdp))),
        SignalView::SdpAnswer(_, from, sdp) => Some((from, PeerEvent::RemoteAnswer, PayloadView::Sdp(sdp))),
        SignalView::IceCandidate(_, from, c) => Some((from, PeerEvent::RemoteCandidate, PayloadView::Candidate(c))),
        _ => None,
    }
}

/// A peer of a one-to-many session, host or client.
pub struct NetworkManager {
    session_id: SessionId,
    connection_type: ConnectionType,
    is_host: IsHost,
    max_retransmits: u16,
    peers: PeerTable,
}

impl NetworkManager {
    pub closed spec fn session(&self) -> Seq<char> {
        self.session_id@
    }

    pub closed spec fn conn_type(&self) -> ConnectionType {
        self.connection_type
    }

    pub closed spec fn host(&self) -> bool {
        self.is_host
    }

    pub closed spec fn retransmits(&self) -> u16 {
        self.max_retransmits
    }

    pub closed spec fn peers(&self) -> Map<u64, PeerState> {
        self.peers@
    }

    pub closed spec fn wf(&self) -> bool {
        self.peers.wf()
    }

    /// What stays put while a peer's negotiation moves.
    pub open spec fn same_setup(&self, other: &Self) -> bool {
        &&& self.wf()
        &&& self.session() == other.session()
        &&& self.host() == other.host()
        &&& self.retransmits() == other.retransmits()
        &&& self.conn_type() == other.conn_type()
    }

    /// A peer of session `session_id` that has not joined yet.
    pub fn new(session_id: SessionId, connection_type: ConnectionType, is_host: IsHost) -> (r: Self)
        ensures
            r.conn_type() == connection_type,
            r.wf(),
            r.session() == session_id@,
            r.host() == is_host,
            r.retransmits() == DEFAULT_MAX_RETRANSMITS,
            r.peers() == Map::<u64, PeerState>::empty(),
    {
        NetworkManager {
            session_id,
            connection_type,
            is_host,
            max_retransmits: DEFAULT_MAX_RETRANSMITS,
            peers: PeerTable::new(),
        }
    }

    /// The kind of peer connection to make.
    pub fn connection_type(&self) -> (r: &ConnectionType)
        ensures
            *r == self.conn_type(),
    {
        &self.connection_type
    }

    /// Where the negotiation with `u` stands.
    pub fn state(&self, u: UserId) -> (r: PeerState)
        requires
            self.wf(),
        ensures
            r == state_in(self.peers(), u.0),
    {
        self.peers.state(u)
    }

    /// Starts with the default retransmit bound; gives the frame that joins
    /// the session.
    pub fn start(&mut self) -> (r: Vec<u8>)
        requires
            old(self).wf(),
        ensures
            r@ == frame(SignalView::SessionJoin(old(self).session(), old(self).host())),
            final(self).retransmits() == DEFAULT_MAX_RETRANSMITS,
            final(self).wf(),
            final(self).session() == old(self).session(),
            final(self).host() == old(self).host(),
            final(self).peers() == old(self).peers(),
            final(self).conn_type() == old(self).conn_type(),
    {
        self.start_with_retransmits(DEFAULT_MAX_RETRANSMITS)
    }

    /// Starts with at most `max_retransmits` retransmits per message; gives
    /// the frame that joins the session.
    pub fn start_with_retransmits(&mut self, max_retransmits: u16) -> (r: Vec<u8>)
        requires
            old(self).wf(),
        ensures
            r@ == frame(SignalView::SessionJoin(old(self).session(), old(self).host())),
            final(self).retransmits() == max_retransmits,
            final(self).wf(),
            final(self).session() == old(self).session(),
            final(self).host() == old(self).host(),
            final(self).peers() == old(self).peers(),
            final(self).conn_type() == old(self).conn_type(),
    {
        self.max_retransmits = max_retransmits;
        SignalMessage::SessionJoin(self.session_id.duplicate(), self.is_host).encode()
    }

    fn apply(&mut self, u: UserId, e: PeerEvent, brought: Payload) -> (r: Vec<(PeerAction, Payload)>)
        requires
            old(self).wf(),
        ensures
            final(self).same_setup(old(self)),
            final(self).peers() == old(self).peers().insert(u.0, next(state_in(old(self).peers(), u.0), e).0),
            effects_match(r@, next(state_in(old(self).peers(), u.0), e).1, brought@, old(self).retransmits()),
    {
        let s = self.peers.state(u);
        let (t, actions) = step(s, e);
        self.peers.set(u, t);
        realize(&actions, &brought, self.max_retransmits)
    }

    /// Applies a frame from the server: the peer it concerns and the effects
    /// for that peer. A frame that holds no message is refused.
    pub fn handle_websocket_message(&mut self, bytes: &[u8]) -> (r: Result<Option<(UserId, Vec<(PeerAction, Payload)>)>, Error>)
        requires
            old(self).wf(),
        ensures
            final(self).wf(),
            final(self).same_setup(old(self)),
            match parse(bytes@) {
                None => r matches Err(e) && e == Error::Protocol && final(self).peers() == old(self).peers(),
                Some(m) => match event_of(m) {
                    None => r matches Ok(None) && final(self).peers() == old(self).peers(),
                    Some((p, e, brought)) => r matches Ok(Some((u, v))) && u.0 == p && final(self).peers()
                        == old(self).peers().insert(p, next(state_in(old(self).peers(), p), e).0)
                        && effects_match(v@, next(state_in(old(self).peers(), p), e).1, brought, old(self).retransmits()),
                },
            },
    {
        let msg = match SignalMessage::decode(bytes) {
            Some(m) => m,
            None => return Err(Error::Protocol),
        };
        match msg {
            SignalMessage::SessionReady(_, peer, offerer) => Ok(Some((peer, self.apply(peer, PeerEvent::Ready { offerer }, Payload::Nothing)))),
            SignalMessage::SdpOffer(_, from, sdp) => Ok(Some((from, self.apply(from, PeerEvent::RemoteOffer, Payload::Sdp(sdp))))),
            SignalMessage::SdpAnswer(_, from, sdp) => Ok(Some((from, self.apply(from, PeerEvent::RemoteAnswer, Payload::Sdp(sdp))))),
            SignalMessage::IceCandidate(_, from, c) => Ok(Some((from, self.apply(from, PeerEvent::RemoteCandidate, Payload::Candidate(c))))),
            _ => Ok(None),
        }
    }

    /// The platform made this side's offer to `u`: it goes to the server.
    pub fn on_local_offer(&mut self, u: UserId, sdp: String) -> (r: Vec<(PeerAction, Payload)>)
        requires
            old(self).wf(),
        ensures
            final(self).same_setup(old(self)),
            final(self).peers() == old(self).peers().insert(u.0, next(state_in(old(self).peers(), u.0), PeerEvent::LocalOffer).0),
            effects_match(
                r@,
                next(state_in(old(self).peers(), u.0), PeerEvent::LocalOffer).1,
                PayloadView::Frame(frame(SignalView::SdpOffer(old(self).session(), u.0, sdp@))),
                old(self).retransmits(),
            ),
    {
        let f = SignalMessage::SdpOffer(self.session_id.duplicate(), u, sdp).encode();
        self.apply(u, PeerEvent::LocalOffer, Payload::Frame(f))
    }

    /// The platform made this side's answer to `u`: it goes to the server.
    pub fn on_local_answer(&mut self, u: UserId, sdp: String) -> (r: Vec<(PeerAction, Payload)>)
        requires
            old(self).wf(),
        ensures
            final(self).same_setup(old(self)),
            final(self).peers() == old(self).peers().insert(u.0, next(state_in(old(self).peers(), u.0), PeerEvent::LocalAnswer).0),
            effects_match(
                r@,
                next(state_in(old(self).peers(), u.0), PeerEvent::LocalAnswer).1,
                PayloadView::Frame(frame(SignalView::SdpAnswer(old(self).session(), u.0, sdp@))),
                old(self).retransmits(),
            ),
    {
        let f = SignalMessage::SdpAnswer(self.session_id.duplicate(), u, sdp).encode();
        self.apply(u, PeerEvent::LocalAnswer, Payload::Frame(f))
    }

    /// The platform found one of this side's candidates for `u`: it goes to
    /// the server.
    pub fn on_local_candidate(&mut self, u: UserId, candidate: IceCandidate) -> (r: Vec<(PeerAction, Payload)>)
        requires
            old(self).wf(),
        ensures
            final(self).same_setup(old(self)),
            final(self).peers() == old(self).peers().insert(u.0, next(state_in(old(self).peers(), u.0), PeerEvent::LocalCandidate).0),
            effects_match(
                r@,
                next(state_in(old(self).peers(), u.0), PeerEvent::LocalCandidate).1,
                PayloadView::Frame(frame(SignalView::IceCandidate(old(self).session(), u.0, candidate@))),
                old(self).retransmits(),
            ),
    {
        let f = SignalMessage::IceCandidate(self.session_id.duplicate(), u, candidate).encode();
        self.apply(u, PeerEvent::LocalCandidate, Payload::Frame(f))
    }

    /// The data channel with `u` opened.
    pub fn on_channel_open(&mut self, u: UserId) -> (r: Vec<(PeerAction, Payload)>)
        requires
            old(self).wf(),
        ensures
            final(self).same_setup(old(self)),
            final(self).peers() == old(self).peers().insert(u.0, next(state_in(old(self).peers(), u.0), PeerEvent::ChannelOpen).0),
            effects_match(r@, next(state_in(old(self).peers(), u.0), PeerEvent::ChannelOpen).1, PayloadView::Nothing, old(self).retransmits()),
    {
        self.apply(u, PeerEvent::ChannelOpen, Payload::Nothing)
    }

    /// The connection with `u` failed.
    pub fn on_failure(&mut self, u: UserId) -> (r: Vec<(PeerAction, Payload)>)
        requires
            old(self).wf(),
        ensures
            final(self).same_setup(old(self)),
            final(self).peers() == old(self).peers().insert(u.0, next(state_in(old(self).peers(), u.0), PeerEvent::Failed).0),
            effects_match(r@, next(state_in(old(self).peers(), u.0), PeerEvent::Failed).1, PayloadView::Nothing, old(self).retransmits()),
    {
        self.apply(u, PeerEvent::Failed, Payload::Nothing)
    }

    /// Whether a message may go to `u` now: only once its channel is open.
    pub fn send_message(&self, u: UserId) -> (r: Result<(), Error>)
        requires
            self.wf(),
        ensures
            r is Ok <==> state_in(self.peers(), u.0) == PeerState::Open,
            r matches Err(e) ==> e == Error::NotReady,
    {
        match self.peers.state(u) {
            PeerState::Open => Ok(()),
            _ => Err(Error::NotReady),
        }
    }

    /// The peers that a message to all goes to: those whose channel is open.
    pub fn send_message_to_all(&self) -> (r: Vec<UserId>)
        requires
            self.wf(),
        ensures
            forall|i: int| 0 <= i < r@.len() ==> state_in(self.peers(), (#[trigger] r@[i]).0) == PeerState::Open,
            forall|k: u64| state_in(self.peers(), k) == PeerState::Open ==> r@.contains(UserId(k)),
            r@.no_duplicates(),
    {
        self.peers.open_peers()
    }
}

/// The host of a one-to-many session.
pub struct MiniServer {
    pub inner: NetworkManager,
}

impl MiniServer {
    /// A host of session `session_id` that has not joined yet.
    pub fn new(session_id: SessionId, connection_type: ConnectionType) -> (r: Self)
        ensures
            r.inner.wf(),
            r.inner.session() == session_id@,
            r.inner.host(),
            r.inner.peers() == Map::<u64, PeerState>::empty(),
            r.inner.conn_type() == connection_type,
            r.inner.retransmits() == DEFAULT_MAX_RETRANSMITS,
    {
        MiniServer { inner: NetworkManager::new(session_id, connection_type, true) }
    }

    /// Starts with the default retransmit bound; gives the frame that joins
    /// the session as host.
    pub fn start(&mut self) -> (r: Vec<u8>)
        requires
            old(self).inner.wf(),
        ensures
            r@ == frame(SignalView::SessionJoin(old(self).inner.session(), old(self).inner.host())),
            final(self).inner.wf(),
            final(self).inner.retransmits() == DEFAULT_MAX_RETRANSMITS,
            final(self).inner.session() == old(self).inner.session(),
            final(self).inner.host() == old(self).inner.host(),
            final(self).inner.peers() == old(self).inner.peers(),
            final(self).inner.conn_type() == old(self).inner.conn_type(),
    {
        self.inner.start()
    }

    /// Starts with at most `max_retransmits` retransmits per message.
    pub fn start_with_retransmits(&mut self, max_retransmits: u16) -> (r: Vec<u8>)
        requires
            old(self).inner.wf(),
        ensures
            r@ == frame(SignalView::SessionJoin(old(self).inner.session(), old(self).inner.host())),
            final(self).inner.wf(),
            final(self).inner.retransmits() == max_retransmits,
            final(self).inner.session() == old(self).inner.session(),
            final(self).inner.host() == old(self).inner.host(),
            final(self).inner.peers() == old(self).inner.peers(),
            final(self).inner.conn_type() == old(self).inner.conn_type(),
    {
        self.inner.start_with_retransmits(max_retransmits)
    }

    /// Whether a message may go to client `u` now.
    pub fn send_message(&self, u: UserId) -> (r: Result<(), Error>)
        requires
            self.inner.wf(),
        ensures
            r is Ok <==> state_in(self.inner.peers(), u.0) == PeerState::Open,
            r matches Err(e) ==> e == Error::NotReady,
    {
        self.inner.send_message(u)
    }

    /// The clients that a message to all goes to.
    pub fn send_message_to_all(&self) -> (r: Vec<UserId>)
        requires
            self.inner.wf(),
        ensures
            forall|i: int| 0 <= i < r@.len() ==> state_in(self.inner.peers(), (#[trigger] r@[i]).0) == PeerState::Open,
            forall|k: u64| state_in(self.inner.peers(), k) == PeerState::Open ==> r@.contains(UserId(k)),
            r@.no_duplicates(),
    {
        self.inner.send_message_to_all()
    }
}

/// A client of a one-to-many session.
pub struct MiniClient {
    pub inner: NetworkManager,
}

impl MiniClient {
    /// A client of session `session_id` that has not joined yet.
    pub fn new(session_id: SessionId, connection_type: ConnectionType) -> (r: Self)
        ensures
            r.inner.wf(),
            r.inner.session() == session_id@,
            !r.inner.host(),
            r.inner.peers() == Map::<u64, PeerState>::empty(),
            r.inner.conn_type() == connection_type,
            r.inner.retransmits() == DEFAULT_MAX_RETRANSMITS,
    {
        MiniClient { inner: NetworkManager::new(session_id, connection_type, false) }
    }

    /// Starts with the default retransmit bound; gives the frame that joins
    /// the session as client.
    pub fn start(&mut self) -> (r: Vec<u8>)
        requires
            old(self).inner.wf(),
        ensures
            r@ == frame(SignalView::SessionJoin(old(self).inner.session(), old(self).inner.host())),
            final(self).inner.wf(),
            final(self).inner.retransmits() == DEFAULT_MAX_RETRANSMITS,
            final(self).inner.session() == old(self).inner.session(),
            final(self).inner.host() == old(self).inner.host(),
            final(self).inner.peers() == old(self).inner.peers(),
            final(self).inner.conn_type() == old(self).inner.conn_type(),
    {
        self.inner.start()
    }

    /// Starts with at most `max_retransmits` retransmits per message.
    pub fn start_with_retransmits(&mut self, max_retransmits: u16) -> (r: Vec<u8>)
        requires
            old(self).inner.wf(),
        ensures
            r@ == frame(SignalView::SessionJoin(old(self).inner.session(), old(self).inner.host())),
            final(self).inner.wf(),
            final(self).inner.retransmits() == max_retransmits,
            final(self).inner.session() == old(self).inner.session(),
            final(self).inner.host() == old(self).inner.host(),
            final(self).inner.peers() == old(self).inner.peers(),
            final(self).inner.conn_type() == old(self).inner.conn_type(),
    {
        self.inner.start_with_retransmits(max_retransmits)
    }

    /// The peers that a message to the host goes to: the host, once its
    /// channel is open.
    pub fn send_message_to_host(&self) -> (r: Vec<UserId>)
        requires
            self.inner.wf(),
        ensures
            forall|i: int| 0 <= i < r@.len() ==> state_in(self.inner.peers(), (#[trigger] r@[i]).0) == PeerState::Open,
            forall|k: u64| state_in(self.inner.peers(), k) == PeerState::Open ==> r@.contains(UserId(k)),
            r@.no_duplicates(),
    {
        self.inner.send_message_to_all()
    }
}

} // verus!
