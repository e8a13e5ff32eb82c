use wasm_peers::peer::config::{
    data_channel_options, create_peer_connection, DataChannelOptions, IceServer, DEFAULT_MAX_RETRANSMITS,
};
use wasm_peers::peer::negotiation::{step, PeerAction, PeerEvent, PeerState};
use wasm_peers::peer::{many_to_many, one_to_many, one_to_one, Payload};
use wasm_peers::protocol::many_to_many::SignalMessage as MM;
use wasm_peers::protocol::one_to_many::SignalMessage as OM;
use wasm_peers::protocol::one_to_one::SignalMessage;
use wasm_peers::server::one_to_one::OneToOneServer;
use wasm_peers::{get_random_session_id, ConnectionType, Error, IceCandidate, SessionId, UserId};

fn sid(s: &str) -> SessionId {
    SessionId::new(s.to_string())
}

fn actions(v: &[(PeerAction, Payload)]) -> Vec<PeerAction> {
    v.iter().map(|e| e.0).collect()
}

#[test]
fn offerer_path() {
    let (s, a) = step(PeerState::Idle, PeerEvent::Ready { offerer: true });
    assert_eq!(s, PeerState::Offering);
    assert_eq!(a, vec![PeerAction::CreateConnection, PeerAction::CreateDataChannel, PeerAction::CreateOffer]);
    let (s, a) = step(s, PeerEvent::LocalOffer);
    assert_eq!((s, a), (PeerState::Offering, vec![PeerAction::SendOffer]));
    let (s, a) = step(s, PeerEvent::RemoteAnswer);
    assert_eq!((s, a), (PeerState::AwaitingIce, vec![PeerAction::SetRemoteAnswer]));
    let (s, a) = step(s, PeerEvent::ChannelOpen);
    assert_eq!((s, a), (PeerState::Open, vec![PeerAction::NotifyOpen]));
}

#[test]
fn answerer_path() {
    let (s, a) = step(PeerState::Idle, PeerEvent::Ready { offerer: false });
    assert_eq!((s, a), (PeerState::AwaitingOffer, vec![PeerAction::CreateConnection]));
    let (s, a) = step(s, PeerEvent::RemoteOffer);
    assert_eq!((s, a), (PeerState::AwaitingIce, vec![PeerAction::AnswerOffer]));
    let (s, a) = step(s, PeerEvent::LocalAnswer);
    assert_eq!((s, a), (PeerState::AwaitingIce, vec![PeerAction::SendAnswer]));
    // an offer that arrives with no introduction starts the connection too
    let (s2, a2) = step(PeerState::Idle, PeerEvent::RemoteOffer);
    assert_eq!((s2, a2), (PeerState::AwaitingIce, vec![PeerAction::CreateConnection, PeerAction::AnswerOffer]));
    let (s, a) = step(s, PeerEvent::Failed);
    assert_eq!((s, a), (PeerState::Closed, vec![PeerAction::Release]));
}

#[test]
fn unexpected_events_change_nothing() {
    assert_eq!(step(PeerState::Idle, PeerEvent::RemoteAnswer), (PeerState::Idle, vec![]));
    assert_eq!(step(PeerState::Open, PeerEvent::Ready { offerer: true }), (PeerState::Open, vec![]));
    assert_eq!(step(PeerState::Closed, PeerEvent::RemoteCandidate), (PeerState::Closed, vec![]));
    assert_eq!(step(PeerState::AwaitingIce, PeerEvent::RemoteCandidate), (PeerState::AwaitingIce, vec![PeerAction::AddCandidate]));
}

#[test]
fn ice_server_lists() {
    assert!(create_peer_connection(&ConnectionType::Local).is_empty());
    let stun = ConnectionType::Stun { urls: "stun:stun.example.org:19302".to_string() };
    assert_eq!(
        create_peer_connection(&stun),
        vec![IceServer { urls: "stun:stun.example.org:19302".to_string(), username: None, credential: None }]
    );
    let both = ConnectionType::StunAndTurn {
        stun_urls: "stun:s".to_string(),
        turn_urls: "turn:t".to_string(),
        username: "user".to_string(),
        credential: "SECRET-REDACTED".to_string(),
    };
    assert_eq!(
        create_peer_connection(&both),
        vec![
            IceServer { urls: "stun:s".to_string(), username: None, credential: None },
            IceServer {
                urls: "turn:t".to_string(),
                username: Some("user".to_string()),
                credential: Some("SECRET-REDACTED".to_string()),
            },
        ]
    );
}

#[test]
fn data_channel_defaults() {
    assert_eq!(DEFAULT_MAX_RETRANSMITS, 10);
    assert_eq!(data_channel_options(3), DataChannelOptions { ordered: false, max_retransmits: 3 });
}

#[test]
fn random_session_ids() {
    let a = get_random_session_id();
    let b = get_random_session_id();
    assert_eq!(a.as_str().chars().count(), 36);
    assert_ne!(a, b);
    let text: Vec<char> = a.as_str().chars().collect();
    for (i, ch) in text.iter().enumerate() {
        if i == 8 || i == 13 || i == 18 || i == 23 {
            assert_eq!(*ch, '-');
        } else {
            assert!(ch.is_ascii_digit() || ('a'..='f').contains(ch));
        }
    }
}

#[test]
fn one_to_one_start_and_offer() {
    let mut peer = one_to_one::NetworkManager::new(sid("s1"), ConnectionType::Local);
    let join = peer.start_with_retransmits(4);
    assert_eq!(join, SignalMessage::SessionJoin(sid("s1")).encode());
    assert_eq!(peer.send_message(), Err(Error::NotReady));
    let ready = SignalMessage::SessionReady(sid("s1"), true).encode();
    let effects = peer.handle_websocket_message(&ready).unwrap();
    assert_eq!(
        effects,
        vec![
            (PeerAction::CreateConnection, Payload::Nothing),
            (PeerAction::CreateDataChannel, Payload::Channel(DataChannelOptions { ordered: false, max_retransmits: 4 })),
            (PeerAction::CreateOffer, Payload::Nothing),
        ]
    );
    let effects = peer.on_local_offer("v=0".to_string());
    assert_eq!(
        effects,
        vec![(PeerAction::SendOffer, Payload::Frame(SignalMessage::SdpOffer(sid("s1"), "v=0".to_string()).encode()))]
    );
    assert_eq!(peer.handle_websocket_message(&[7, 7]), Err(Error::Protocol));
    assert_eq!(peer.state(), PeerState::Offering);
}

/// Runs two one-to-one peers against the server, carrying frames by hand.
#[test]
fn one_to_one_ping_pong_signaling() {
    let mut server: OneToOneServer<()> = OneToOneServer::new();
    let ua = server.connect(()).unwrap();
    let ub = server.connect(()).unwrap();
    let mut a = one_to_one::NetworkManager::new(sid("s1"), ConnectionType::Local);
    let mut b = one_to_one::NetworkManager::new(sid("s1"), ConnectionType::Local);
    let ja = a.start();
    let jb = b.start();
    assert!(server.user_message(ua, &ja).unwrap().is_empty());
    let out = server.user_message(ub, &jb).unwrap();
    assert_eq!(out.len(), 2);
    let ea = a.handle_websocket_message(&out[0].1).unwrap();
    let eb = b.handle_websocket_message(&out[1].1).unwrap();
    assert!(actions(&ea).contains(&PeerAction::CreateOffer));
    assert_eq!(actions(&eb), vec![PeerAction::CreateConnection]);
    // A's offer goes through the server to B
    let sent = a.on_local_offer("offer-a".to_string());
    let frame = match &sent[0].1 {
        Payload::Frame(f) => f.clone(),
        _ => panic!("an offer is sent as a frame"),
    };
    let out = server.user_message(ua, &frame).unwrap();
    assert_eq!(out[0].0, ub);
    let eb = b.handle_websocket_message(&out[0].1).unwrap();
    assert_eq!(eb, vec![(PeerAction::AnswerOffer, Payload::Sdp("offer-a".to_string()))]);
    let sent = b.on_local_answer("answer-b".to_string());
    let frame = match &sent[0].1 {
        Payload::Frame(f) => f.clone(),
        _ => panic!("an answer is sent as a frame"),
    };
    let out = server.user_message(ub, &frame).unwrap();
    assert_eq!(out[0].0, ua);
    let ea = a.handle_websocket_message(&out[0].1).unwrap();
    assert_eq!(ea, vec![(PeerAction::SetRemoteAnswer, Payload::Sdp("answer-b".to_string()))]);
    // candidates flow both ways
    let c = IceCandidate { candidate: "cand".to_string(), sdp_mid: Some("0".to_string()), sdp_m_line_index: Some(0) };
    let sent = a.on_local_candidate(c.clone());
    let frame = match &sent[0].1 {
        Payload::Frame(f) => f.clone(),
        _ => panic!("a candidate is sent as a frame"),
    };
    let out = server.user_message(ua, &frame).unwrap();
    let eb = b.handle_websocket_message(&out[0].1).unwrap();
    assert_eq!(eb, vec![(PeerAction::AddCandidate, Payload::Candidate(c))]);
    // the channel opens on both sides, exactly once each
    assert_eq!(actions(&a.on_channel_open()), vec![PeerAction::NotifyOpen]);
    assert_eq!(actions(&b.on_channel_open()), vec![PeerAction::NotifyOpen]);
    assert!(a.on_channel_open().is_empty());
    assert_eq!(a.send_message(), Ok(()));
    assert_eq!(b.send_message(), Ok(()));
}

#[test]
fn one_to_one_send_after_transport_closes() {
    let mut peer = one_to_one::NetworkManager::new(sid("s1"), ConnectionType::Local);
    peer.start();
    peer.handle_websocket_message(&SignalMessage::SessionReady(sid("s1"), true).encode()).unwrap();
    assert_eq!(actions(&peer.on_failure()), vec![PeerAction::Release]);
    assert_eq!(peer.state(), PeerState::Closed);
    assert_eq!(peer.send_message(), Err(Error::NotReady));
}

#[test]
fn mini_server_and_clients() {
    let mut host = one_to_many::MiniServer::new(sid("s2"), ConnectionType::Local);
    assert_eq!(host.start(), OM::SessionJoin(sid("s2"), true).encode());
    let mut client = one_to_many::MiniClient::new(sid("s2"), ConnectionType::Local);
    assert_eq!(client.start(), OM::SessionJoin(sid("s2"), false).encode());
    let c1 = UserId::new(2);
    let c2 = UserId::new(3);
    for c in [c1, c2] {
        let (peer, effects) = host.inner.handle_websocket_message(&OM::SessionReady(sid("s2"), c, true).encode()).unwrap().unwrap();
        assert_eq!(peer, c);
        assert!(actions(&effects).contains(&PeerAction::CreateOffer));
    }
    assert_eq!(host.send_message(c1), Err(Error::NotReady));
    host.inner.handle_websocket_message(&OM::SdpAnswer(sid("s2"), c1, "a1".to_string()).encode()).unwrap();
    host.inner.handle_websocket_message(&OM::SdpAnswer(sid("s2"), c2, "a2".to_string()).encode()).unwrap();
    assert_eq!(actions(&host.inner.on_channel_open(c1)), vec![PeerAction::NotifyOpen]);
    assert_eq!(host.send_message_to_all(), vec![c1]);
    host.inner.on_channel_open(c2);
    assert_eq!(host.send_message_to_all(), vec![c1, c2]);
    assert_eq!(host.send_message(c2), Ok(()));
    // the client answers the host's offer
    let h = UserId::new(1);
    let (peer, effects) = client.inner.handle_websocket_message(&OM::SdpOffer(sid("s2"), h, "o".to_string()).encode()).unwrap().unwrap();
    assert_eq!(peer, h);
    assert_eq!(
        effects,
        vec![(PeerAction::CreateConnection, Payload::Nothing), (PeerAction::AnswerOffer, Payload::Sdp("o".to_string()))]
    );
    let sent = client.inner.on_local_answer(h, "ans".to_string());
    assert_eq!(sent, vec![(PeerAction::SendAnswer, Payload::Frame(OM::SdpAnswer(sid("s2"), h, "ans".to_string()).encode()))]);
    assert!(client.send_message_to_host().is_empty());
    client.inner.on_channel_open(h);
    assert_eq!(client.send_message_to_host(), vec![h]);
    // a client that joins after the host offers to it; the host waits
    let mut late = one_to_many::MiniClient::new(sid("s2"), ConnectionType::Local);
    late.start();
    let (peer, effects) = late.inner.handle_websocket_message(&OM::SessionReady(sid("s2"), h, true).encode()).unwrap().unwrap();
    assert_eq!(peer, h);
    assert!(actions(&effects).contains(&PeerAction::CreateOffer));
    let c3 = UserId::new(4);
    let (_, effects) = host.inner.handle_websocket_message(&OM::SessionReady(sid("s2"), c3, false).encode()).unwrap().unwrap();
    assert_eq!(actions(&effects), vec![PeerAction::CreateConnection]);
    assert_eq!(host.inner.state(c3), PeerState::AwaitingOffer);
    // an error from the server concerns no peer
    assert_eq!(client.inner.handle_websocket_message(&OM::Error(sid("s2"), "x".to_string()).encode()), Ok(None));
}

#[test]
fn many_to_many_newcomer_offers() {
    let mut peer = many_to_many::NetworkManager::new(sid("s3"), ConnectionType::Local);
    assert_eq!(peer.start(), MM::SessionJoin(sid("s3")).encode());
    let a = UserId::new(1);
    let b = UserId::new(2);
    for p in [a, b] {
        let (who, effects) = peer.handle_websocket_message(&MM::SessionReady(sid("s3"), p).encode()).unwrap().unwrap();
        assert_eq!(who, p);
        assert!(actions(&effects).contains(&PeerAction::CreateOffer));
        assert_eq!(peer.state(p), PeerState::Offering);
    }
    let sent = peer.on_local_offer(a, "o".to_string());
    assert_eq!(sent, vec![(PeerAction::SendOffer, Payload::Frame(MM::SdpOffer(sid("s3"), a, "o".to_string()).encode()))]);
    peer.handle_websocket_message(&MM::SdpAnswer(sid("s3"), a, "x".to_string()).encode()).unwrap();
    peer.on_channel_open(a);
    assert_eq!(peer.send_message_to_all(), vec![a]);
    assert_eq!(peer.send_message(b), Err(Error::NotReady));
}
