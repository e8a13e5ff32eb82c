//! Identifiers shared by the server and the peers.
use vstd::prelude::*;

verus! {

/// Identifier of a signaling session, chosen by the clients.
#[derive(Debug, Clone, PartialEq, Eq, Hash)]
pub struct SessionId(pub String);

impl View for SessionId {
    type V = Seq<char>;

    open spec fn view(&self) -> Seq<char> {
        self.0@
    }
}

impl SessionId {
    /// Wraps a string into a session identifier.
    pub fn new(inner: String) -> (r: Self)
        ensures
            r@ == inner@,
    {
        SessionId(inner)
    }

    /// The text of the identifier.
    pub fn as_str(&self) -> (r: &str)
        ensures
            r@ == self@,
    {
        self.0.as_str()
    }

    /// A copy of the text of the identifier.
    pub fn inner(&self) -> (r: String)
        ensures
            r@ == self@,
    {
        self.0.clone()
    }

    /// Gives back the underlying string.
    pub fn into_inner(self) -> (r: String)
        ensures
            r@ == self@,
    {
        self.0
    }

    /// A copy of this identifier.
    pub fn duplicate(&self) -> (r: SessionId)
        ensures
            r@ == self@,
    {
        SessionId(self.0.clone())
    }

    /// Whether two identifiers name the same session.
    pub fn same(&self, other: &SessionId) -> (r: bool)
        ensures
            r == (self@ == other@),
    {
        self.0 == other.0
    }
}

/// Identifier that the server gives to each connected user.
#[derive(Debug, Clone, Copy, PartialEq, Eq, Structural, Hash)]
pub struct UserId(pub u64);

impl UserId {
    /// Wraps a number into a user identifier.
    pub fn new(inner: u64) -> (r: Self)
        ensures
            r.0 == inner,
    {
        UserId(inner)
    }

    /// Gives back the underlying number.
    pub fn into_inner(self) -> (r: u64)
        ensures
            r == self.0,
    {
        self.0
    }
}

/// Whether a peer takes the host role in a session.
pub type IsHost = bool;

/// An ICE candidate, relayed verbatim between the peers.
#[derive(Debug, Clone, PartialEq, Eq)]
pub struct IceCandidate {
    pub candidate: String,
    pub sdp_mid: Option<String>,
    pub sdp_m_line_index: Option<u16>,
}

/// The value of an ICE candidate.
pub struct IceCandidateView {
    pub candidate: Seq<char>,
    pub sdp_mid: Option<Seq<char>>,
    pub sdp_m_line_index: Option<u16>,
}

pub open spec fn opt_str_view(o: Option<String>) -> Option<Seq<char>> {
    match o {
        Some(s) => Some(s@),
        None => None,
    }
}

impl View for IceCandidate {
    type V = IceCandidateView;

    open spec fn view(&self) -> IceCandidateView {
        IceCandidateView {
            candidate: self.candidate@,
            sdp_mid: opt_str_view(self.sdp_mid),
            sdp_m_line_index: self.sdp_m_line_index,
        }
    }
}

fn clone_opt_string(o: &Option<String>) -> (r: Option<String>)
    ensures
        opt_str_view(r) == opt_str_view(*o),
{
    match o {
        Some(s) => Some(s.clone()),
        None => None,
    }
}

impl IceCandidate {
    /// A copy of this candidate.
    pub fn duplicate(&self) -> (r: IceCandidate)
        ensures
            r@ == self@,
    {
        IceCandidate {
            candidate: self.candidate.clone(),
            sdp_mid: clone_opt_string(&self.sdp_mid),
            sdp_m_line_index: self.sdp_m_line_index,
        }
    }
}

impl From<u64> for UserId {
    fn from(val: u64) -> (r: UserId) {
        UserId(val)
    }
}

impl vstd::std_specs::convert::FromSpecImpl<u64> for UserId {
    open spec fn obeys_from_spec() -> bool {
        true
    }

    open spec fn from_spec(v: u64) -> UserId {
        UserId(v)
    }
}

} // verus!
