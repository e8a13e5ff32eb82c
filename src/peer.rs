//! The peer side: the negotiation with each remote peer, the configuration
//! of peer connections, and the façade of each topology.
//!
//! A façade turns what arrives (a signal frame from the server, an event of
//! the platform) into the next negotiation state and a list of effects:
//! platform actions, each with what it needs, and frames to send to the
//! server. Whoever owns the platform objects carries the effects out.
use vstd::prelude::*;

use crate::ids::{IceCandidate, IceCandidateView};
use crate::peer::config::{data_channel_options, DataChannelOptions};
use crate::peer::negotiation::PeerAction;

pub mod config;
pub mod many_to_many;
pub mod negotiation;
pub mod one_to_many;
pub mod one_to_one;
pub mod peers;

verus! {

/// The failures that a peer reports to its user.
#[derive(Debug, Clone, Copy, PartialEq, Eq, Structural)]
pub enum Error {
    /// The signaling transport failed; reported by whoever owns the socket,
    /// which hands the failure to the façade's `on_failure`.
    Transport,
    /// The data channel is not open yet.
    NotReady,
    /// A frame from the server could not be read.
    Protocol,
    /// A platform primitive failed; reported by whoever owns the platform
    /// objects, which hands the failure to the façade's `on_failure`.
    Platform,
}

/// What an effect needs besides its action.
#[derive(Debug, Clone, PartialEq, Eq)]
pub enum Payload {
    Nothing,
    /// The options of the data channel to make.
    Channel(DataChannelOptions),
    /// The peer's session description.
    Sdp(String),
    /// The peer's ICE candidate.
    Candidate(IceCandidate),
    /// A frame to send to the server.
    Frame(Vec<u8>),
}

pub enum PayloadView {
    Nothing,
    Channel(DataChannelOptions),
    Sdp(Seq<char>),
    Candidate(IceCandidateView),
    Frame(Seq<u8>),
}

impl View for Payload {
    type V = PayloadView;

    open spec fn view(&self) -> PayloadView {
        match self {
            Payload::Nothing => PayloadView::Nothing,
            Payload::Channel(o) => PayloadView::Channel(*o),
            Payload::Sdp(s) => PayloadView::Sdp(s@),
            Payload::Candidate(c) => PayloadView::Candidate(c@),
            Payload::Frame(f) => PayloadView::Frame(f@),
        }
    }
}

impl Payload {
    pub fn duplicate(&self) -> (r: Payload)
        ensures
            r@ == self@,
    {
        match self {
            Payload::Nothing => Payload::Nothing,
            Payload::Channel(o) => Payload::Channel(*o),
            Payload::Sdp(s) => Payload::Sdp(s.clone()),
            Payload::Candidate(c) => Payload::Candidate(c.duplicate()),
            Payload::Frame(f) => Payload::Frame(f.clone()),
        }
    }
}

/// What an action needs: the channel options, or what the event brought (the
/// peer's description or candidate, or the frame to send).
pub open spec fn payload_of(a: PeerAction, brought: PayloadView, max_retransmits: u16) -> PayloadView {
    match a {
        PeerAction::CreateDataChannel => PayloadView::Channel(
            DataChannelOptions { ordered: false, max_retransmits },
        ),
        PeerAction::AnswerOffer => brought,
        PeerAction::SetRemoteAnswer => brought,
        PeerAction::AddCandidate => brought,
        PeerAction::SendOffer => brought,
        PeerAction::SendAnswer => brought,
        PeerAction::SendCandidate => brought,
        _ => PayloadView::Nothing,
    }
}

/// Each action with what it needs.
pub fn realize(actions: &Vec<PeerAction>, brought: &Payload, max_retransmits: u16) -> (r: Vec<(PeerAction, Payload)>)
    ensures
        r@.len() == actions@.len(),
        forall|i: int| 0 <= i < r@.len() ==> (#[trigger] r@[i]).0 == actions@[i] && r@[i].1@ == payload_of(
            actions@[i],
            brought@,
            max_retransmits,
        ),
{
    let mut r: Vec<(PeerAction, Payload)> = Vec::new();
    let mut i: usize = 0;
    while i < actions.len()
        invariant
            i <= actions@.len(),
            r@.len() == i,
            forall|j: int| 0 <= j < i ==> (#[trigger] r@[j]).0 == actions@[j] && r@[j].1@ == payload_of(
                actions@[j],
                brought@,
                max_retransmits,
            ),
        decreases actions@.len() - i,
    {
        let a = actions[i];
        let p = match a {
            PeerAction::CreateDataChannel => Payload::Channel(data_channel_options(max_retransmits)),
            PeerAction::AnswerOffer | PeerAction::SetRemoteAnswer | PeerAction::AddCandidate
            | PeerAction::SendOffer | PeerAction::SendAnswer | PeerAction::SendCandidate => brought.duplicate(),
            _ => Payload::Nothing,
        };
        r.push((a, p));
        i = i + 1;
    }
    r
}

} // verus!
