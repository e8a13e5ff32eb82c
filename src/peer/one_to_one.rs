//! The one-to-one façade: two equal peers in one session; the server tells
//! each whether it offers.
use vstd::prelude::*;

use crate::ids::{IceCandidate, SessionId};
use crate::peer::config::{ConnectionType, DEFAULT_MAX_RETRANSMITS};
use crate::peer::negotiation::{next, step, PeerAction, PeerEvent, PeerState};
use crate::peer::{payload_of, realize, Error, Payload, PayloadView};
use crate::protocol::one_to_one::{frame, parse, SignalMessage, SignalView};

verus! {

/// The event that a message from the server stands for, with what it brings.
pub open spec fn event_of(m: SignalView) -> Option<(PeerEvent, PayloadView)> {
    match m {
        SignalView::SessionReady(_, is_host) => Some((PeerEvent::Ready { offerer: is_host }, PayloadView::Nothing)),
        SignalView::SdpOffer(_, sdp) => Some((PeerEvent::RemoteOffer, PayloadView::Sdp(sdp))),
        SignalView::SdpAnswer(_, sdp) => Some((PeerEvent::RemoteAnswer, PayloadView::Sdp(sdp))),
        SignalView::IceCandidate(_, c) => Some((PeerEvent::RemoteCandidate, PayloadView::Candidate(c))),
        _ => None,
    }
}

/// Effects that match the actions one by one, each with what it needs.
pub open spec fn effects_match(
    r: Seq<(PeerAction, Payload)>,
    actions: Seq<PeerAction>,
    brought: PayloadView,
    max_retransmits: u16,
) -> bool {
    &&& r.len() == actions.len()
    &&& forall|i: int| 0 <= i < r.len() ==> (#[trigger] r[i]).0 == actions[i] && r[i].1@ == payload_of(
        actions[i],
        brought,
        max_retransmits,
    )
}

/// One of two equal peers in a one-to-one session.
pub struct NetworkManager {
    session_id: SessionId,
    connection_type: ConnectionType,
    max_retransmits: u16,
    state: PeerState,
}

impl NetworkManager {
    pub closed spec fn session(&self) -> Seq<char> {
        self.session_id@
    }

    pub closed spec fn conn_type(&self) -> ConnectionType {
        self.connection_type
    }

    pub closed spec fn retransmits(&self) -> u16 {
        self.max_retransmits
    }

    pub closed spec fn peer_state(&self) -> PeerState {
        self.state
    }

    /// A peer of session `session_id` that has not joined yet.
    pub fn new(session_id: SessionId, connection_type: ConnectionType) -> (r: Self)
        ensures
            r.conn_type() == connection_type,
            r.session() == session_id@,
            r.peer_state() == PeerState::Idle,
            r.retransmits() == DEFAULT_MAX_RETRANSMITS,
    {
        NetworkManager { session_id, connection_type, max_retransmits: DEFAULT_MAX_RETRANSMITS, state: PeerState::Idle }
    }

    /// The kind of peer connection to make.
    pub fn connection_type(&self) -> (r: &ConnectionType)
        ensures
            *r == self.conn_type(),
    {
        &self.connection_type
    }

    /// Where the negotiation stands.
    pub fn state(&self) -> (r: PeerState)
        ensures
            r == self.peer_state(),
    {
        self.state
    }

    /// Starts with the default retransmit bound; gives the frame that joins
    /// the session, to send once the signaling socket is open.
    pub fn start(&mut self) -> (r: Vec<u8>)
        ensures
            r@ == frame(SignalView::SessionJoin(old(self).session())),
            final(self).retransmits() == DEFAULT_MAX_RETRANSMITS,
            final(self).session() == old(self).session(),
            final(self).peer_state() == old(self).peer_state(),
            final(self).conn_type() == old(self).conn_type(),
    {
        self.start_with_retransmits(DEFAULT_MAX_RETRANSMITS)
    }

    /// Starts with at most `max_retransmits` retransmits per message; gives
    /// the frame that joins the session.
    pub fn start_with_retransmits(&mut self, max_retransmits: u16) -> (r: Vec<u8>)
        ensures
            r@ == frame(SignalView::SessionJoin(old(self).session())),
            final(self).retransmits() == max_retransmits,
            final(self).session() == old(self).session(),
            final(self).peer_state() == old(self).peer_state(),
            final(self).conn_type() == old(self).conn_type(),
    {
        self.max_retransmits = max_retransmits;
        SignalMessage::SessionJoin(self.session_id.duplicate()).encode()
    }

    fn apply(&mut self, e: PeerEvent, brought: Payload) -> (r: Vec<(PeerAction, Payload)>)
        ensures
            final(self).peer_state() == next(old(self).peer_state(), e).0,
            final(self).session() == old(self).session(),
            final(self).retransmits() == old(self).retransmits(),
            final(self).conn_type() == old(self).conn_type(),
            effects_match(r@, next(old(self).peer_state(), e).1, brought@, old(self).retransmits()),
    {
        let (t, actions) = step(self.state, e);
        self.state = t;
        realize(&actions, &brought, self.max_retransmits)
    }

    /// Applies a frame from the server. A frame that holds no message is
    /// refused; a message that needs nothing of this peer asks nothing.
    pub fn handle_websocket_message(&mut self, bytes: &[u8]) -> (r: Result<Vec<(PeerAction, Payload)>, Error>)
        ensures
            final(self).session() == old(self).session(),
            final(self).retransmits() == old(self).retransmits(),
            final(self).conn_type() == old(self).conn_type(),
            match parse(bytes@) {
                None => r == Err::<Vec<(PeerAction, Payload)>, Error>(Error::Protocol) && final(self).peer_state()
                    == old(self).peer_state(),
                Some(m) => match event_of(m) {
                    None => r matches Ok(v) && v@.len() == 0 && final(self).peer_state() == old(self).peer_state(),
                    Some((e, brought)) => r matches Ok(v) && final(self).peer_state() == next(
                        old(self).peer_state(),
                        e,
                    ).0 && effects_match(v@, next(old(self).peer_state(), e).1, brought, old(self).retransmits()),
                },
            },
    {
        let msg = match SignalMessage::decode(bytes) {
            Some(m) => m,
            None => return Err(Error::Protocol),
        };
        match msg {
            SignalMessage::SessionReady(_, is_host) => Ok(self.apply(PeerEvent::Ready { offerer: is_host }, Payload::Nothing)),
            SignalMessage::SdpOffer(_, sdp) => Ok(self.apply(PeerEvent::RemoteOffer, Payload::Sdp(sdp))),
            SignalMessage::SdpAnswer(_, sdp) => Ok(self.apply(PeerEvent::RemoteAnswer, Payload::Sdp(sdp))),
            SignalMessage::IceCandidate(_, c) => Ok(self.apply(PeerEvent::RemoteCandidate, Payload::Candidate(c))),
            _ => Ok(Vec::new()),
        }
    }

    /// The platform made this side's offer: it goes to the server.
    pub fn on_local_offer(&mut self, sdp: String) -> (r: Vec<(PeerAction, Payload)>)
        ensures
            final(self).peer_state() == next(old(self).peer_state(), PeerEvent::LocalOffer).0,
            final(self).session() == old(self).session(),
            final(self).retransmits() == old(self).retransmits(),
            final(self).conn_type() == old(self).conn_type(),
            effects_match(
                r@,
                next(old(self).peer_state(), PeerEvent::LocalOffer).1,
                PayloadView::Frame(frame(SignalView::SdpOffer(old(self).session(), sdp@))),
                old(self).retransmits(),
            ),
    {
        let f = SignalMessage::SdpOffer(self.session_id.duplicate(), sdp).encode();
        self.apply(PeerEvent::LocalOffer, Payload::Frame(f))
    }

    /// The platform made this side's answer: it goes to the server.
    pub fn on_local_answer(&mut self, sdp: String) -> (r: Vec<(PeerAction, Payload)>)
        ensures
            final(self).peer_state() == next(old(self).peer_state(), PeerEvent::LocalAnswer).0,
            final(self).session() == old(self).session(),
            final(self).retransmits() == old(self).retransmits(),
            final(self).conn_type() == old(self).conn_type(),
            effects_match(
                r@,
                next(old(self).peer_state(), PeerEvent::LocalAnswer).1,
                PayloadView::Frame(frame(SignalView::SdpAnswer(old(self).session(), sdp@))),
                old(self).retransmits(),
            ),
    {
        let f = SignalMessage::SdpAnswer(self.session_id.duplicate(), sdp).encode();
        self.apply(PeerEvent::LocalAnswer, Payload::Frame(f))
    }

    /// The platform found one of this side's candidates: it goes to the server.
    pub fn on_local_candidate(&mut self, candidate: IceCandidate) -> (r: Vec<(PeerAction, Payload)>)
        ensures
            final(self).peer_state() == next(old(self).peer_state(), PeerEvent::LocalCandidate).0,
            final(self).session() == old(self).session(),
            final(self).retransmits() == old(self).retransmits(),
            final(self).conn_type() == old(self).conn_type(),
            effects_match(
                r@,
                next(old(self).peer_state(), PeerEvent::LocalCandidate).1,
                PayloadView::Frame(frame(SignalView::IceCandidate(old(self).session(), candidate@))),
                old(self).retransmits(),
            ),
    {
        let f = SignalMessage::IceCandidate(self.session_id.duplicate(), candidate).encode();
        self.apply(PeerEvent::LocalCandidate, Payload::Frame(f))
    }

    /// The data channel opened.
    pub fn on_channel_open(&mut self) -> (r: Vec<(PeerAction, Payload)>)
        ensures
            final(self).peer_state() == next(old(self).peer_state(), PeerEvent::ChannelOpen).0,
            final(self).session() == old(self).session(),
            final(self).retransmits() == old(self).retransmits(),
            final(self).conn_type() == old(self).conn_type(),
            effects_match(r@, next(old(self).peer_state(), PeerEvent::ChannelOpen).1, PayloadView::Nothing, old(self).retransmits()),
    {
        self.apply(PeerEvent::ChannelOpen, Payload::Nothing)
    }

    /// The transport closed or ICE failed.
    pub fn on_failure(&mut self) -> (r: Vec<(PeerAction, Payload)>)
        ensures
            final(self).peer_state() == next(old(self).peer_state(), PeerEvent::Failed).0,
            final(self).session() == old(self).session(),
            final(self).retransmits() == old(self).retransmits(),
            final(self).conn_type() == old(self).conn_type(),
            effects_match(r@, next(old(self).peer_state(), PeerEvent::Failed).1, PayloadView::Nothing, old(self).retransmits()),
    {
        self.apply(PeerEvent::Failed, Payload::Nothing)
    }

    /// Whether a message may go out now: only once the data channel is open.
    pub fn send_message(&self) -> (r: Result<(), Error>)
        ensures
            r is Ok <==> self.peer_state() == PeerState::Open,
            r matches Err(e) ==> e == Error::NotReady,
    {
        match self.state {
            PeerState::Open => Ok(()),
            _ => Err(Error::NotReady),
        }
    }
}

} // verus!
