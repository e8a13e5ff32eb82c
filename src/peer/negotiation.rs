//! The negotiation with one remote peer, as a state machine from events to
//! platform actions.
use vstd::prelude::*;

verus! {

/// Where the negotiation with one remote peer stands.
#[derive(Debug, Clone, Copy, PartialEq, Eq, Structural)]
pub enum PeerState {
    /// Nothing has happened yet.
    Idle,
    /// This side offers: its offer is being made or is on its way.
    Offering,
    /// This side answers and waits for the offer.
    AwaitingOffer,
    /// Offer and answer are exchanged; candidates flow until the channel opens.
    AwaitingIce,
    /// The data channel is open.
    Open,
    /// The transport closed or ICE failed.
    Closed,
}

/// What happens to the negotiation.
#[derive(Debug, Clone, Copy, PartialEq, Eq, Structural)]
pub enum PeerEvent {
    /// The server introduced the peer; `offerer` says whether this side offers.
    Ready { offerer: bool },
    /// The peer's offer arrived.
    RemoteOffer,
    /// The peer's answer arrived.
    RemoteAnswer,
    /// One of the peer's ICE candidates arrived.
    RemoteCandidate,
    /// The platform made this side's offer and set it as local description.
    LocalOffer,
    /// The platform made this side's answer and set it as local description.
    LocalAnswer,
    /// The platform found one of this side's ICE candidates.
    LocalCandidate,
    /// The data channel opened.
    ChannelOpen,
    /// The transport closed or ICE failed.
    Failed,
}

/// What the platform is asked to do.
#[derive(Debug, Clone, Copy, PartialEq, Eq, Structural)]
pub enum PeerAction {
    /// Build a peer connection with the configured ICE servers and wire its
    /// callbacks, the one that captures a channel made by the peer included.
    CreateConnection,
    /// Make the data channel, unordered and with bounded retransmits.
    CreateDataChannel,
    /// Make an offer and set it as local description.
    CreateOffer,
    /// Set the peer's offer as remote description, make an answer and set it
    /// as local description.
    AnswerOffer,
    /// Set the peer's answer as remote description.
    SetRemoteAnswer,
    /// Add the peer's candidate; a rejection is logged and ignored.
    AddCandidate,
    /// Send this side's offer to the peer through the server.
    SendOffer,
    /// Send this side's answer to the peer through the server.
    SendAnswer,
    /// Send this side's candidate to the peer through the server.
    SendCandidate,
    /// Call the user's `on_open` for this peer.
    NotifyOpen,
    /// Release the peer connection and its channel.
    Release,
}

/// Whether a connection to the peer exists in that state.
pub open spec fn has_connection(s: PeerState) -> bool {
    s is Offering || s is AwaitingOffer || s is AwaitingIce || s is Open
}

/// The next state, and what the platform is asked to do. An event that the
/// state does not expect changes nothing and asks nothing.
pub open spec fn next(s: PeerState, e: PeerEvent) -> (PeerState, Seq<PeerAction>) {
    match e {
        PeerEvent::Failed => if s is Closed {
            (s, seq![])
        } else if has_connection(s) {
            (PeerState::Closed, seq![PeerAction::Release])
        } else {
            (PeerState::Closed, seq![])
        },
        PeerEvent::Ready { offerer } => if s is Idle {
            if offerer {
                (
                    PeerState::Offering,
                    seq![PeerAction::CreateConnection, PeerAction::CreateDataChannel, PeerAction::CreateOffer],
                )
            } else {
                (PeerState::AwaitingOffer, seq![PeerAction::CreateConnection])
            }
        } else {
            (s, seq![])
        },
        PeerEvent::RemoteOffer => if s is Idle {
            (PeerState::AwaitingIce, seq![PeerAction::CreateConnection, PeerAction::AnswerOffer])
        } else if s is AwaitingOffer {
            (PeerState::AwaitingIce, seq![PeerAction::AnswerOffer])
        } else {
            (s, seq![])
        },
        PeerEvent::RemoteAnswer => if s is Offering {
            (PeerState::AwaitingIce, seq![PeerAction::SetRemoteAnswer])
        } else {
            (s, seq![])
        },
        PeerEvent::RemoteCandidate => if has_connection(s) {
            (s, seq![PeerAction::AddCandidate])
        } else {
            (s, seq![])
        },
        PeerEvent::LocalOffer => if s is Offering {
            (s, seq![PeerAction::SendOffer])
        } else {
            (s, seq![])
        },
        PeerEvent::LocalAnswer => if s is AwaitingIce {
            (s, seq![PeerAction::SendAnswer])
        } else {
            (s, seq![])
        },
        PeerEvent::LocalCandidate => if has_connection(s) {
            (s, seq![PeerAction::SendCandidate])
        } else {
            (s, seq![])
        },
        PeerEvent::ChannelOpen => if s is AwaitingIce {
            (PeerState::Open, seq![PeerAction::NotifyOpen])
        } else {
            (s, seq![])
        },
    }
}

/// Applies one event.
pub fn step(s: PeerState, e: PeerEvent) -> (r: (PeerState, Vec<PeerAction>))
    ensures
        (r.0, r.1@) == next(s, e),
{
    let mut out: Vec<PeerAction> = Vec::new();
    let t = match e {
        PeerEvent::Failed => {
            match s {
                PeerState::Closed => {},
                PeerState::Idle => {},
                _ => out.push(PeerAction::Release),
            }
            PeerState::Closed
        },
        PeerEvent::Ready { offerer } => {
            match s {
                PeerState::Idle => if offerer {
                    out.push(PeerAction::CreateConnection);
                    out.push(PeerAction::CreateDataChannel);
                    out.push(PeerAction::CreateOffer);
                    PeerState::Offering
                } else {
                    out.push(PeerAction::CreateConnection);
                    PeerState::AwaitingOffer
                },
                _ => s,
            }
        },
        PeerEvent::RemoteOffer => {
            match s {
                PeerState::Idle => {
                    out.push(PeerAction::CreateConnection);
                    out.push(PeerAction::AnswerOffer);
                    PeerState::AwaitingIce
                },
                PeerState::AwaitingOffer => {
                    out.push(PeerAction::AnswerOffer);
                    PeerState::AwaitingIce
                },
                _ => s,
            }
        },
        PeerEvent::RemoteAnswer => {
            match s {
                PeerState::Offering => {
                    out.push(PeerAction::SetRemoteAnswer);
                    PeerState::AwaitingIce
                },
                _ => s,
            }
        },
        PeerEvent::RemoteCandidate => {
            match s {
                PeerState::Idle | PeerState::Closed => {},
                _ => out.push(PeerAction::AddCandidate),
            }
            s
        },
        PeerEvent::LocalOffer => {
            match s {
                PeerState::Offering => out.push(PeerAction::SendOffer),
                _ => {},
            }
            s
        },
        PeerEvent::LocalAnswer => {
            match s {
                PeerState::AwaitingIce => out.push(PeerAction::SendAnswer),
                _ => {},
            }
            s
        },
        PeerEvent::LocalCandidate => {
            match s {
                PeerState::Idle | PeerState::Closed => {},
                _ => out.push(PeerAction::SendCandidate),
            }
            s
        },
        PeerEvent::ChannelOpen => {
            match s {
                PeerState::AwaitingIce => {
                    out.push(PeerAction::NotifyOpen);
                    PeerState::Open
                },
                _ => s,
            }
        },
    };
    assert(out@ =~= next(s, e).1);
    (t, out)
}

/// Whether the action leaves a local description set.
pub open spec fn sets_local(a: PeerAction) -> bool {
    a is CreateOffer || a is AnswerOffer
}

/// Whether the action leaves a remote description set.
pub open spec fn sets_remote(a: PeerAction) -> bool {
    a is AnswerOffer || a is SetRemoteAnswer
}

/// Offer, answer and the setting of the answer leave both sides with a
/// local and a remote description, waiting only for ICE: the offerer goes
/// through ready, its offer made and the answer received; the answerer
/// through ready and the offer received.
pub proof fn lemma_offer_answer_round_trip()
    ensures
        ({
            let (o1, a1) = next(PeerState::Idle, PeerEvent::Ready { offerer: true });
            let (o2, a2) = next(o1, PeerEvent::LocalOffer);
            let (o3, a3) = next(o2, PeerEvent::RemoteAnswer);
            let offerer = a1 + a2 + a3;
            let (b1, c1) = next(PeerState::Idle, PeerEvent::Ready { offerer: false });
            let (b2, c2) = next(b1, PeerEvent::RemoteOffer);
            let (b3, c3) = next(b2, PeerEvent::LocalAnswer);
            let answerer = c1 + c2 + c3;
            &&& o3 == PeerState::AwaitingIce && b3 == PeerState::AwaitingIce
            &&& exists|i: int| 0 <= i < offerer.len() && sets_local(#[trigger] offerer[i])
            &&& exists|i: int| 0 <= i < offerer.len() && sets_remote(#[trigger] offerer[i])
            &&& exists|i: int| 0 <= i < answerer.len() && sets_local(#[trigger] answerer[i])
            &&& exists|i: int| 0 <= i < answerer.len() && sets_remote(#[trigger] answerer[i])
            &&& offerer.contains(PeerAction::SendOffer) && answerer.contains(PeerAction::SendAnswer)
        }),
{
    let (o1, a1) = next(PeerState::Idle, PeerEvent::Ready { offerer: true });
    let (o2, a2) = next(o1, PeerEvent::LocalOffer);
    let (o3, a3) = next(o2, PeerEvent::RemoteAnswer);
    let offerer = a1 + a2 + a3;
    assert(offerer[2] == PeerAction::CreateOffer);
    assert(offerer[3] == PeerAction::SendOffer);
    assert(offerer[4] == PeerAction::SetRemoteAnswer);
    let (b1, c1) = next(PeerState::Idle, PeerEvent::Ready { offerer: false });
    let (b2, c2) = next(b1, PeerEvent::RemoteOffer);
    let (b3, c3) = next(b2, PeerEvent::LocalAnswer);
    let answerer = c1 + c2 + c3;
    assert(answerer[1] == PeerAction::AnswerOffer);
    assert(answerer[2] == PeerAction::SendAnswer);
}

/// Only the side told to offer makes a data channel and an offer; the other
/// waits for the peer's offer.
pub proof fn lemma_one_offerer(offerer: bool)
    ensures
        next(PeerState::Idle, PeerEvent::Ready { offerer }).1.contains(PeerAction::CreateOffer) == offerer,
        next(PeerState::Idle, PeerEvent::Ready { offerer }).1.contains(PeerAction::CreateDataChannel) == offerer,
{
    let a = next(PeerState::Idle, PeerEvent::Ready { offerer });
    if offerer {
        assert(a.1[2] == PeerAction::CreateOffer);
        assert(a.1[1] == PeerAction::CreateDataChannel);
    }
}

} // verus!
