//! Signaling and session coordination for browser-to-browser data channels.
//!
//! The server side keeps a registry of connected users and a registry of
//! sessions per topology (one-to-one, one-to-many, many-to-many), and decides
//! for each incoming signal message which messages go out to whom. The peer
//! side holds, per remote peer, the negotiation state machine that decides
//! who offers, who answers and when a data channel may carry messages.

pub mod ids;
pub mod wire;
pub mod protocol;
pub mod table;
pub mod connections;
pub mod server;
pub mod router;
pub mod peer;

pub use ids::{IceCandidate, IsHost, SessionId, UserId};
pub use peer::config::{get_random_session_id, ConnectionType};
pub use peer::Error;
