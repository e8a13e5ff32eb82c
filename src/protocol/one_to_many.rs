//! Signal messages of the one-to-many topology: one host, any number of
//! clients.
use vstd::prelude::*;

use crate::ids::{IceCandidate, IceCandidateView, IsHost, SessionId, UserId};
use crate::protocol::{
    candidate_bytes, candidate_fits, lemma_parse_candidate, parse_candidate, put_candidate,
    read_candidate,
};
use crate::wire::{
    bool_bytes, lemma_parse_bool, lemma_parse_str, lemma_parse_u64, lemma_parse_u8, lemma_split3,
    lemma_split4, parse_bool, parse_str, parse_u64, parse_u8, put_bool, put_str, put_u64, put_u8,
    read_bool, read_str, read_u64, read_u8, str_bytes, str_fits, u64_bytes,
};

verus! {

/// A message between a peer and the signaling server.
#[derive(Debug, Clone, PartialEq, Eq)]
pub enum SignalMessage {
    /// A peer asks to join a session, as host or as client.
    SessionJoin(SessionId, IsHost),
    /// The server introduces a counterpart to a peer, and says whether the peer makes the offer to it.
    SessionReady(SessionId, UserId, bool),
    /// An SDP offer; the user is the recipient on the way in and the sender on the way out.
    SdpOffer(SessionId, UserId, String),
    /// An SDP answer; the user is the recipient on the way in and the sender on the way out.
    SdpAnswer(SessionId, UserId, String),
    /// An ICE candidate; the user is the recipient on the way in and the sender on the way out.
    IceCandidate(SessionId, UserId, IceCandidate),
    /// An error, with its cause.
    Error(SessionId, String),
}

/// The value of a [`SignalMessage`]: identifiers and texts as character sequences, user identifiers as numbers.
pub enum SignalView {
    SessionJoin(Seq<char>, bool),
    SessionReady(Seq<char>, u64, bool),
    SdpOffer(Seq<char>, u64, Seq<char>),
    SdpAnswer(Seq<char>, u64, Seq<char>),
    IceCandidate(Seq<char>, u64, IceCandidateView),
    Error(Seq<char>, Seq<char>),
}

impl View for SignalMessage {
    type V = SignalView;

    open spec fn view(&self) -> SignalView {
        match self {
            SignalMessage::SessionJoin(x0, x1) => SignalView::SessionJoin(x0@, *x1),
            SignalMessage::SessionReady(x0, x1, x2) => SignalView::SessionReady(x0@, x1.0, *x2),
            SignalMessage::SdpOffer(x0, x1, x2) => SignalView::SdpOffer(x0@, x1.0, x2@),
            SignalMessage::SdpAnswer(x0, x1, x2) => SignalView::SdpAnswer(x0@, x1.0, x2@),
            SignalMessage::IceCandidate(x0, x1, x2) => SignalView::IceCandidate(x0@, x1.0, x2@),
            SignalMessage::Error(x0, x1) => SignalView::Error(x0@, x1@),
        }
    }
}

/// Every text of the message can be framed.
pub open spec fn fits(m: SignalView) -> bool {
    match m {
        SignalView::SessionJoin(x0, _) => str_fits(x0),
        SignalView::SessionReady(x0, _, _) => str_fits(x0),
        SignalView::SdpOffer(x0, _, x2) => str_fits(x0) && str_fits(x2),
        SignalView::SdpAnswer(x0, _, x2) => str_fits(x0) && str_fits(x2),
        SignalView::IceCandidate(x0, _, x2) => str_fits(x0) && candidate_fits(x2),
        SignalView::Error(x0, x1) => str_fits(x0) && str_fits(x1),
    }
}

/// The frame of a message.
pub open spec fn frame(m: SignalView) -> Seq<u8> {
    match m {
        SignalView::SessionJoin(x0, x1) => seq![0u8] + str_bytes(x0) + bool_bytes(x1),
        SignalView::SessionReady(x0, x1, x2) => seq![1u8] + str_bytes(x0) + u64_bytes(x1) + bool_bytes(x2),
        SignalView::SdpOffer(x0, x1, x2) => seq![2u8] + str_bytes(x0) + u64_bytes(x1) + str_bytes(x2),
        SignalView::SdpAnswer(x0, x1, x2) => seq![3u8] + str_bytes(x0) + u64_bytes(x1) + str_bytes(x2),
        SignalView::IceCandidate(x0, x1, x2) => seq![4u8] + str_bytes(x0) + u64_bytes(x1) + candidate_bytes(x2),
        SignalView::Error(x0, x1) => seq![5u8] + str_bytes(x0) + str_bytes(x1),
    }
}

pub open spec fn parse_session_join(b: Seq<u8>, p: int) -> Option<(SignalView, int)> {
    match parse_str(b, p) {
        Some((x0, q0)) =>
            match parse_bool(b, q0) {
                Some((x1, q1)) =>
                    Some((SignalView::SessionJoin(x0, x1), q1)),
                None => None,
            },
        None => None,
    }
}

pub open spec fn parse_session_ready(b: Seq<u8>, p: int) -> Option<(SignalView, int)> {
    match parse_str(b, p) {
        Some((x0, q0)) =>
            match parse_u64(b, q0) {
                Some((x1, q1)) =>
                    match parse_bool(b, q1) {
                        Some((x2, q2)) =>
                            Some((SignalView::SessionReady(x0, x1, x2), q2)),
                        None => None,
                    },
                None => None,
            },
        None => None,
    }
}

pub open spec fn parse_sdp_offer(b: Seq<u8>, p: int) -> Option<(SignalView, int)> {
    match parse_str(b, p) {
        Some((x0, q0)) =>
            match parse_u64(b, q0) {
                Some((x1, q1)) =>
                    match parse_str(b, q1) {
                        Some((x2, q2)) =>
                            Some((SignalView::SdpOffer(x0, x1, x2), q2)),
                        None => None,
                    },
                None => None,
            },
        None => None,
    }
}

pub open spec fn parse_sdp_answer(b: Seq<u8>, p: int) -> Option<(SignalView, int)> {
    match parse_str(b, p) {
        Some((x0, q0)) =>
            match parse_u64(b, q0) {
                Some((x1, q1)) =>
                    match parse_str(b, q1) {
                        Some((x2, q2)) =>
                            Some((SignalView::SdpAnswer(x0, x1, x2), q2)),
                        None => None,
                    },
                None => None,
            },
        None => None,
    }
}

pub open spec fn parse_ice_candidate(b: Seq<u8>, p: int) -> Option<(SignalView, int)> {
    match parse_str(b, p) {
        Some((x0, q0)) =>
            match parse_u64(b, q0) {
                Some((x1, q1)) =>
                    match parse_candidate(b, q1) {
                        Some((x2, q2)) =>
                            Some((SignalView::IceCandidate(x0, x1, x2), q2)),
                        None => None,
                    },
                None => None,
            },
        None => None,
    }
}

pub open spec fn parse_error(b: Seq<u8>, p: int) -> Option<(SignalView, int)> {
    match parse_str(b, p) {
        Some((x0, q0)) =>
            match parse_str(b, q0) {
                Some((x1, q1)) =>
                    Some((SignalView::Error(x0, x1), q1)),
                None => None,
            },
        None => None,
    }
}

pub open spec fn parse_body(tag: u8, b: Seq<u8>, p: int) -> Option<(SignalView, int)> {
    if tag == 0 {
        parse_session_join(b, p)
    } else if tag == 1 {
        parse_session_ready(b, p)
    } else if tag == 2 {
        parse_sdp_offer(b, p)
    } else if tag == 3 {
        parse_sdp_answer(b, p)
    } else if tag == 4 {
        parse_ice_candidate(b, p)
    } else if tag == 5 {
        parse_error(b, p)
    } else {
        None
    }
}

/// The message that a frame holds, if it holds one and nothing more.
pub open spec fn parse(b: Seq<u8>) -> Option<SignalView> {
    match parse_u8(b, 0) {
        Some((tag, p)) => match parse_body(tag, b, p) {
            Some((m, q)) => if q == b.len() {
                Some(m)
            } else {
                None
            },
            None => None,
        },
        None => None,
    }
}

proof fn lemma_round_trip_session_join(x0: Seq<char>, x1: bool)
    requires
        fits(SignalView::SessionJoin(x0, x1)),
    ensures
        parse(frame(SignalView::SessionJoin(x0, x1))) == Some(SignalView::SessionJoin(x0, x1)),
{
    let b = frame(SignalView::SessionJoin(x0, x1));
    let e0 = seq![0u8];
    let e1 = str_bytes(x0);
    let e2 = bool_bytes(x1);
    lemma_split3(b, e0, e1, e2);
    lemma_parse_u8(b, 0, 0u8);
    let p0 = e0.len() as int;
    let p1 = p0 + e1.len();
    let p2 = p1 + e2.len();
    lemma_parse_str(b, p0, x0);
    assert(parse_str(b, p0) == Some((x0, p1)));
    lemma_parse_bool(b, p1, x1);
    assert(parse_bool(b, p1) == Some((x1, p2)));
    assert(parse_session_join(b, 1) == Some((SignalView::SessionJoin(x0, x1), b.len() as int)));
}

proof fn lemma_round_trip_session_ready(x0: Seq<char>, x1: u64, x2: bool)
    requires
        fits(SignalView::SessionReady(x0, x1, x2)),
    ensures
        parse(frame(SignalView::SessionReady(x0, x1, x2))) == Some(SignalView::SessionReady(x0, x1, x2)),
{
    let b = frame(SignalView::SessionReady(x0, x1, x2));
    let e0 = seq![1u8];
    let e1 = str_bytes(x0);
    let e2 = u64_bytes(x1);
    let e3 = bool_bytes(x2);
    lemma_split4(b, e0, e1, e2, e3);
    lemma_parse_u8(b, 0, 1u8);
    let p0 = e0.len() as int;
    let p1 = p0 + e1.len();
    let p2 = p1 + e2.len();
    let p3 = p2 + e3.len();
    lemma_parse_str(b, p0, x0);
    assert(parse_str(b, p0) == Some((x0, p1)));
    lemma_parse_u64(b, p1, x1);
    assert(parse_u64(b, p1) == Some((x1, p2)));
    lemma_parse_bool(b, p2, x2);
    assert(parse_bool(b, p2) == Some((x2, p3)));
    assert(parse_session_ready(b, 1) == Some((SignalView::SessionReady(x0, x1, x2), b.len() as int)));
}

proof fn lemma_round_trip_sdp_offer(x0: Seq<char>, x1: u64, x2: Seq<char>)
    requires
        fits(SignalView::SdpOffer(x0, x1, x2)),
    ensures
        parse(frame(SignalView::SdpOffer(x0, x1, x2))) == Some(SignalView::SdpOffer(x0, x1, x2)),
{
    let b = frame(SignalView::SdpOffer(x0, x1, x2));
    let e0 = seq![2u8];
    let e1 = str_bytes(x0);
    let e2 = u64_bytes(x1);
    let e3 = str_bytes(x2);
    lemma_split4(b, e0, e1, e2, e3);
    lemma_parse_u8(b, 0, 2u8);
    let p0 = e0.len() as int;
    let p1 = p0 + e1.len();
    let p2 = p1 + e2.len();
    let p3 = p2 + e3.len();
    lemma_parse_str(b, p0, x0);
    assert(parse_str(b, p0) == Some((x0, p1)));
    lemma_parse_u64(b, p1, x1);
    assert(parse_u64(b, p1) == Some((x1, p2)));
    lemma_parse_str(b, p2, x2);
    assert(parse_str(b, p2) == Some((x2, p3)));
    assert(parse_sdp_offer(b, 1) == Some((SignalView::SdpOffer(x0, x1, x2), b.len() as int)));
}

proof fn lemma_round_trip_sdp_answer(x0: Seq<char>, x1: u64, x2: Seq<char>)
    requires
        fits(SignalView::SdpAnswer(x0, x1, x2)),
    ensures
        parse(frame(SignalView::SdpAnswer(x0, x1, x2))) == Some(SignalView::SdpAnswer(x0, x1, x2)),
{
    let b = frame(SignalView::SdpAnswer(x0, x1, x2));
    let e0 = seq![3u8];
    let e1 = str_bytes(x0);
    let e2 = u64_bytes(x1);
    let e3 = str_bytes(x2);
    lemma_split4(b, e0, e1, e2, e3);
    lemma_parse_u8(b, 0, 3u8);
    let p0 = e0.len() as int;
    let p1 = p0 + e1.len();
    let p2 = p1 + e2.len();
    let p3 = p2 + e3.len();
    lemma_parse_str(b, p0, x0);
    assert(parse_str(b, p0) == Some((x0, p1)));
    lemma_parse_u64(b, p1, x1);
    assert(parse_u64(b, p1) == Some((x1, p2)));
    lemma_parse_str(b, p2, x2);
    assert(parse_str(b, p2) == Some((x2, p3)));
    assert(parse_sdp_answer(b, 1) == Some((SignalView::SdpAnswer(x0, x1, x2), b.len() as int)));
}

proof fn lemma_round_trip_ice_candidate(x0: Seq<char>, x1: u64, x2: IceCandidateView)
    requires
        fits(SignalView::IceCandidate(x0, x1, x2)),
    ensures
        parse(frame(SignalView::IceCandidate(x0, x1, x2))) == Some(SignalView::IceCandidate(x0, x1, x2)),
{
    let b = frame(SignalView::IceCandidate(x0, x1, x2));
    let e0 = seq![4u8];
    let e1 = str_bytes(x0);
    let e2 = u64_bytes(x1);
    let e3 = candidate_bytes(x2);
    lemma_split4(b, e0, e1, e2, e3);
    lemma_parse_u8(b, 0, 4u8);
    let p0 = e0.len() as int;
    let p1 = p0 + e1.len();
    let p2 = p1 + e2.len();
    let p3 = p2 + e3.len();
    lemma_parse_str(b, p0, x0);
    assert(parse_str(b, p0) == Some((x0, p1)));
    lemma_parse_u64(b, p1, x1);
    assert(parse_u64(b, p1) == Some((x1, p2)));
    lemma_parse_candidate(b, p2, x2);
    assert(parse_candidate(b, p2) == Some((x2, p3)));
    assert(parse_ice_candidate(b, 1) == Some((SignalView::IceCandidate(x0, x1, x2), b.len() as int)));
}

proof fn lemma_round_trip_error(x0: Seq<char>, x1: Seq<char>)
    requires
        fits(SignalView::Error(x0, x1)),
    ensures
        parse(frame(SignalView::Error(x0, x1))) == Some(SignalView::Error(x0, x1)),
{
    let b = frame(SignalView::Error(x0, x1));
    let e0 = seq![5u8];
    let e1 = str_bytes(x0);
    let e2 = str_bytes(x1);
    lemma_split3(b, e0, e1, e2);
    lemma_parse_u8(b, 0, 5u8);
    let p0 = e0.len() as int;
    let p1 = p0 + e1.len();
    let p2 = p1 + e2.len();
    lemma_parse_str(b, p0, x0);
    assert(parse_str(b, p0) == Some((x0, p1)));
    lemma_parse_str(b, p1, x1);
    assert(parse_str(b, p1) == Some((x1, p2)));
    assert(parse_error(b, 1) == Some((SignalView::Error(x0, x1), b.len() as int)));
}

/// Decoding the frame of a message gives that message back.
pub proof fn lemma_round_trip(m: SignalView)
    requires
        fits(m),
    ensures
        parse(frame(m)) == Some(m),
{
    match m {
        SignalView::SessionJoin(x0, x1) => lemma_round_trip_session_join(x0, x1),
        SignalView::SessionReady(x0, x1, x2) => lemma_round_trip_session_ready(x0, x1, x2),
        SignalView::SdpOffer(x0, x1, x2) => lemma_round_trip_sdp_offer(x0, x1, x2),
        SignalView::SdpAnswer(x0, x1, x2) => lemma_round_trip_sdp_answer(x0, x1, x2),
        SignalView::IceCandidate(x0, x1, x2) => lemma_round_trip_ice_candidate(x0, x1, x2),
        SignalView::Error(x0, x1) => lemma_round_trip_error(x0, x1),
    }
}

impl SignalMessage {
    /// The frame of this message.
    pub fn encode(&self) -> (r: Vec<u8>)
        ensures
            r@ == frame(self@),
    {
        let mut out: Vec<u8> = Vec::new();
        match self {
            SignalMessage::SessionJoin(x0, x1) => {
                put_u8(&mut out, 0u8);
                put_str(&mut out, x0.as_str());
                put_bool(&mut out, *x1);
            },
            SignalMessage::SessionReady(x0, x1, x2) => {
                put_u8(&mut out, 1u8);
                put_str(&mut out, x0.as_str());
                put_u64(&mut out, x1.0);
                put_bool(&mut out, *x2);
            },
            SignalMessage::SdpOffer(x0, x1, x2) => {
                put_u8(&mut out, 2u8);
                put_str(&mut out, x0.as_str());
                put_u64(&mut out, x1.0);
                put_str(&mut out, x2.as_str());
            },
            SignalMessage::SdpAnswer(x0, x1, x2) => {
                put_u8(&mut out, 3u8);
                put_str(&mut out, x0.as_str());
                put_u64(&mut out, x1.0);
                put_str(&mut out, x2.as_str());
            },
            SignalMessage::IceCandidate(x0, x1, x2) => {
                put_u8(&mut out, 4u8);
                put_str(&mut out, x0.as_str());
                put_u64(&mut out, x1.0);
                put_candidate(&mut out, x2);
            },
            SignalMessage::Error(x0, x1) => {
                put_u8(&mut out, 5u8);
                put_str(&mut out, x0.as_str());
                put_str(&mut out, x1.as_str());
            },
        }
        assert(out@ =~= frame(self@));
        out
    }

    /// The message that `b` frames, or `None` where `b` frames no message.
    pub fn decode(b: &[u8]) -> (r: Option<SignalMessage>)
        ensures
            match r {
                Some(m) => parse(b@) == Some(m@),
                None => parse(b@) is None,
            },
    {
        let (tag, p) = match read_u8(b, 0) {
            Some(x) => x,
            None => return None,
        };
        let (m, q) = match Self::decode_body(tag, b, p) {
            Some(x) => x,
            None => return None,
        };
        if q == b.len() {
            Some(m)
        } else {
            None
        }
    }

    fn decode_body(tag: u8, b: &[u8], p: usize) -> (r: Option<(SignalMessage, usize)>)
        ensures
            match r {
                Some((m, q)) => parse_body(tag, b@, p as int) == Some((m@, q as int)),
                None => parse_body(tag, b@, p as int) is None,
            },
    {
        if tag == 0 {
            let (x0, q0) = match read_str(b, p) {
                Some(x) => x,
                None => return None,
            };
            let (x1, q1) = match read_bool(b, q0) {
                Some(x) => x,
                None => return None,
            };
            Some((SignalMessage::SessionJoin(SessionId::new(x0), x1), q1))
        } else if tag == 1 {
            let (x0, q0) = match read_str(b, p) {
                Some(x) => x,
                None => return None,
            };
            let (x1, q1) = match read_u64(b, q0) {
                Some(x) => x,
                None => return None,
            };
            let (x2, q2) = match read_bool(b, q1) {
                Some(x) => x,
                None => return None,
            };
            Some((SignalMessage::SessionReady(SessionId::new(x0), UserId::new(x1), x2), q2))
        } else if tag == 2 {
            let (x0, q0) = match read_str(b, p) {
                Some(x) => x,
                None => return None,
            };
            let (x1, q1) = match read_u64(b, q0) {
                Some(x) => x,
                None => return None,
            };
            let (x2, q2) = match read_str(b, q1) {
                Some(x) => x,
                None => return None,
            };
            Some((SignalMessage::SdpOffer(SessionId::new(x0), UserId::new(x1), x2), q2))
        } else if tag == 3 {
            let (x0, q0) = match read_str(b, p) {
                Some(x) => x,
                None => return None,
            };
            let (x1, q1) = match read_u64(b, q0) {
                Some(x) => x,
                None => return None,
            };
            let (x2, q2) = match read_str(b, q1) {
                Some(x) => x,
                None => return None,
            };
            Some((SignalMessage::SdpAnswer(SessionId::new(x0), UserId::new(x1), x2), q2))
        } else if tag == 4 {
            let (x0, q0) = match read_str(b, p) {
                Some(x) => x,
                None => return None,
            };
            let (x1, q1) = match read_u64(b, q0) {
                Some(x) => x,
                None => return None,
            };
            let (x2, q2) = match read_candidate(b, q1) {
                Some(x) => x,
                None => return None,
            };
            Some((SignalMessage::IceCandidate(SessionId::new(x0), UserId::new(x1), x2), q2))
        } else if tag == 5 {
            let (x0, q0) = match read_str(b, p) {
                Some(x) => x,
                None => return None,
            };
            let (x1, q1) = match read_str(b, q0) {
                Some(x) => x,
                None => return None,
            };
            Some((SignalMessage::Error(SessionId::new(x0), x1), q1))
        } else {
            None
        }
    }
}

} // verus!
