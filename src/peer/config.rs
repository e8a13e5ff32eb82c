//! How peer connections and data channels are configured.
use vstd::prelude::*;

use crate::ids::SessionId;
use crate::ids::opt_str_view;

verus! {

/// How many times a message is retransmitted on a data channel unless the
/// user chooses otherwise.
pub const DEFAULT_MAX_RETRANSMITS: u16 = 10;

/// What kind of peer connection to make.
#[derive(Debug, Clone, PartialEq, Eq)]
pub enum ConnectionType {
    /// Within the local network: no ICE server.
    Local,
    /// Through a STUN server.
    Stun { urls: String },
    /// Through a STUN server, falling back to a TURN server.
    StunAndTurn { stun_urls: String, turn_urls: String, username: String, credential: String },
}

/// One entry of the ICE server list given to the platform.
#[derive(Debug, Clone, PartialEq, Eq)]
pub struct IceServer {
    pub urls: String,
    pub username: Option<String>,
    pub credential: Option<String>,
}

/// The value of an [`IceServer`].
pub struct IceServerView {
    pub urls: Seq<char>,
    pub username: Option<Seq<char>>,
    pub credential: Option<Seq<char>>,
}

impl View for IceServer {
    type V = IceServerView;

    open spec fn view(&self) -> IceServerView {
        IceServerView {
            urls: self.urls@,
            username: opt_str_view(self.username),
            credential: opt_str_view(self.credential),
        }
    }
}

/// The ICE servers that a connection type asks for: none, the STUN server,
/// or the STUN server and then the TURN server with its credentials.
pub open spec fn ice_servers_of(t: ConnectionType) -> Seq<IceServerView> {
    match t {
        ConnectionType::Local => seq![],
        ConnectionType::Stun { urls } => seq![IceServerView { urls: urls@, username: None, credential: None }],
        ConnectionType::StunAndTurn { stun_urls, turn_urls, username, credential } => seq![
            IceServerView { urls: stun_urls@, username: None, credential: None },
            IceServerView { urls: turn_urls@, username: Some(username@), credential: Some(credential@) },
        ],
    }
}

pub open spec fn views(v: Seq<IceServer>) -> Seq<IceServerView> {
    v.map_values(|s: IceServer| s@)
}

/// The ICE server list with which a peer connection of this type is made.
pub fn create_peer_connection(connection_type: &ConnectionType) -> (r: Vec<IceServer>)
    ensures
        views(r@) == ice_servers_of(*connection_type),
{
    let mut r: Vec<IceServer> = Vec::new();
    match connection_type {
        ConnectionType::Local => {},
        ConnectionType::Stun { urls } => {
            r.push(IceServer { urls: urls.clone(), username: None, credential: None });
        },
        ConnectionType::StunAndTurn { stun_urls, turn_urls, username, credential } => {
            r.push(IceServer { urls: stun_urls.clone(), username: None, credential: None });
            r.push(
                IceServer {
                    urls: turn_urls.clone(),
                    username: Some(username.clone()),
                    credential: Some(credential.clone()),
                },
            );
        },
    }
    assert(views(r@) =~= ice_servers_of(*connection_type));
    r
}

/// The options of a data channel: unordered, with at most `max_retransmits`
/// retransmits of each message.
#[derive(Debug, Clone, Copy, PartialEq, Eq, Structural)]
pub struct DataChannelOptions {
    pub ordered: bool,
    pub max_retransmits: u16,
}

/// The data channel options for a retransmit bound.
pub fn data_channel_options(max_retransmits: u16) -> (r: DataChannelOptions)
    ensures
        r == (DataChannelOptions { ordered: false, max_retransmits }),
{
    DataChannelOptions { ordered: false, max_retransmits }
}

pub open spec fn is_lower_hex(c: char) -> bool {
    ('0' <= c && c <= '9') || ('a' <= c && c <= 'f')
}

/// A UUID in its hyphenated form: 36 characters, `-` at positions 8, 13, 18
/// and 23, lowercase hexadecimal digits elsewhere.
pub open spec fn is_hyphenated_uuid(s: Seq<char>) -> bool {
    &&& s.len() == 36
    &&& forall|i: int|
        0 <= i < 36 ==> if i == 8 || i == 13 || i == 18 || i == 23 {
            #[trigger] s[i] == '-'
        } else {
            is_lower_hex(s[i])
        }
}

/// Relies on `uuid::Uuid::new_v4` and the `Display` of its hyphenated form:
/// a random identifier, written as 36 characters with hyphens at fixed
/// places and lowercase hexadecimal digits elsewhere.
#[verifier::external_body]
fn random_uuid_text() -> (r: String)
    ensures
        is_hyphenated_uuid(r@),
{
    uuid::Uuid::new_v4().hyphenated().to_string()
}

/// A fresh random session identifier.
pub fn get_random_session_id() -> (r: SessionId)
    ensures
        is_hyphenated_uuid(r@),
{
    SessionId::new(random_uuid_text())
}

} // verus!
