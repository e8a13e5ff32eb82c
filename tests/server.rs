use wasm_peers::protocol::{many_to_many, one_to_many, one_to_one};
use wasm_peers::router::{create, create_router, Endpoint, ServerState};
use wasm_peers::server::many_to_many::ManyToManyServer;
use wasm_peers::server::one_to_many::OneToManyServer;
use wasm_peers::server::one_to_one::{OneToOneServer, Session};
use wasm_peers::server::{Dropped, HOST_PRESENT, RECIPIENT_NOT_MEMBER, SESSION_FULL};
use wasm_peers::{SessionId, UserId};

fn sid(s: &str) -> SessionId {
    SessionId::new(s.to_string())
}

#[test]
fn user_ids_start_at_one_and_increase() {
    let mut server: OneToOneServer<&str> = OneToOneServer::new();
    let a = server.connect("a").unwrap();
    let b = server.connect("b").unwrap();
    assert_eq!(a, UserId::new(1));
    assert_eq!(b, UserId::new(2));
    assert_eq!(server.sink(a), Some(&"a"));
    server.disconnect(a);
    assert_eq!(server.sink(a), None);
    let c = server.connect("c").unwrap();
    assert_eq!(c, UserId::new(3));
}

#[test]
fn one_to_one_pairing_elects_first_as_offerer() {
    let mut server: OneToOneServer<()> = OneToOneServer::new();
    let a = server.connect(()).unwrap();
    let b = server.connect(()).unwrap();
    let out = server.handle(a, one_to_one::SignalMessage::SessionJoin(sid("s1"))).unwrap();
    assert!(out.is_empty());
    let out = server.handle(b, one_to_one::SignalMessage::SessionJoin(sid("s1"))).unwrap();
    assert_eq!(
        out,
        vec![
            (a, one_to_one::SignalMessage::SessionReady(sid("s1"), true)),
            (b, one_to_one::SignalMessage::SessionReady(sid("s1"), false)),
        ]
    );
    assert_eq!(
        server.session(&sid("s1")),
        Some(Session { first: Some(a), second: Some(b), offer_received: false })
    );
}

#[test]
fn one_to_one_third_joiner_is_refused() {
    let mut server: OneToOneServer<()> = OneToOneServer::new();
    let a = server.connect(()).unwrap();
    let b = server.connect(()).unwrap();
    let c = server.connect(()).unwrap();
    server.handle(a, one_to_one::SignalMessage::SessionJoin(sid("s"))).unwrap();
    server.handle(b, one_to_one::SignalMessage::SessionJoin(sid("s"))).unwrap();
    let out = server.handle(c, one_to_one::SignalMessage::SessionJoin(sid("s"))).unwrap();
    assert_eq!(out, vec![(c, one_to_one::SignalMessage::Error(sid("s"), SESSION_FULL.to_string()))]);
    let s = server.session(&sid("s")).unwrap();
    assert_eq!((s.first, s.second), (Some(a), Some(b)));
}

#[test]
fn one_to_one_relays_to_the_other_member() {
    let mut server: OneToOneServer<()> = OneToOneServer::new();
    let a = server.connect(()).unwrap();
    let b = server.connect(()).unwrap();
    server.handle(a, one_to_one::SignalMessage::SessionJoin(sid("s1"))).unwrap();
    server.handle(b, one_to_one::SignalMessage::SessionJoin(sid("s1"))).unwrap();
    let out = server.handle(b, one_to_one::SignalMessage::SdpAnswer(sid("s1"), "answer".to_string())).unwrap();
    assert_eq!(out, vec![(a, one_to_one::SignalMessage::SdpAnswer(sid("s1"), "answer".to_string()))]);
    let c = wasm_peers::IceCandidate { candidate: "c".to_string(), sdp_mid: None, sdp_m_line_index: None };
    let out = server.handle(a, one_to_one::SignalMessage::IceCandidate(sid("s1"), c.clone())).unwrap();
    assert_eq!(out, vec![(b, one_to_one::SignalMessage::IceCandidate(sid("s1"), c))]);
}

#[test]
fn one_to_one_offer_is_relayed_once() {
    let mut server: OneToOneServer<()> = OneToOneServer::new();
    let a = server.connect(()).unwrap();
    let b = server.connect(()).unwrap();
    server.handle(a, one_to_one::SignalMessage::SessionJoin(sid("s1"))).unwrap();
    server.handle(b, one_to_one::SignalMessage::SessionJoin(sid("s1"))).unwrap();
    let out = server.handle(a, one_to_one::SignalMessage::SdpOffer(sid("s1"), "o1".to_string())).unwrap();
    assert_eq!(out, vec![(b, one_to_one::SignalMessage::SdpOffer(sid("s1"), "o1".to_string()))]);
    assert!(server.session(&sid("s1")).unwrap().offer_received);
    let out = server.handle(a, one_to_one::SignalMessage::SdpOffer(sid("s1"), "o2".to_string())).unwrap();
    assert!(out.is_empty());
}

#[test]
fn one_to_one_disconnect_mid_session() {
    let mut server: OneToOneServer<()> = OneToOneServer::new();
    let a = server.connect(()).unwrap();
    let b = server.connect(()).unwrap();
    server.handle(a, one_to_one::SignalMessage::SessionJoin(sid("s1"))).unwrap();
    server.handle(b, one_to_one::SignalMessage::SessionJoin(sid("s1"))).unwrap();
    server.disconnect(b);
    assert_eq!(server.sink(b), None);
    assert_eq!(server.session(&sid("s1")), None);
    assert!(server.sink(a).is_some());
    // A's later message is reported as dropped and reaches nobody
    let out = server.handle(a, one_to_one::SignalMessage::SdpOffer(sid("s1"), "o".to_string()));
    assert_eq!(out, Err(Dropped::UnknownSession));
    let out = server.user_message(a, &one_to_one::SignalMessage::IceCandidate(
        sid("s1"),
        wasm_peers::IceCandidate { candidate: "c".to_string(), sdp_mid: None, sdp_m_line_index: None },
    )
    .encode());
    assert_eq!(out, Err(Dropped::UnknownSession));
    // the session can start over
    let c = server.connect(()).unwrap();
    server.handle(a, one_to_one::SignalMessage::SessionJoin(sid("s1"))).unwrap();
    let out = server.handle(c, one_to_one::SignalMessage::SessionJoin(sid("s1"))).unwrap();
    assert_eq!(out.len(), 2);
    server.disconnect(a);
    assert_eq!(server.session(&sid("s1")), None);
}

#[test]
fn one_to_one_unknown_session_and_strangers() {
    let mut server: OneToOneServer<()> = OneToOneServer::new();
    let a = server.connect(()).unwrap();
    let out = server.handle(a, one_to_one::SignalMessage::SdpOffer(sid("nowhere"), "o".to_string()));
    assert_eq!(out, Err(Dropped::UnknownSession));
    // a user that never connected gets nothing done
    let out = server.handle(UserId::new(99), one_to_one::SignalMessage::SessionJoin(sid("x"))).unwrap();
    assert!(out.is_empty());
    assert_eq!(server.session(&sid("x")), None);
}

#[test]
fn one_to_one_frames_in_and_out() {
    let mut server: OneToOneServer<()> = OneToOneServer::new();
    let a = server.connect(()).unwrap();
    let b = server.connect(()).unwrap();
    let join = one_to_one::SignalMessage::SessionJoin(sid("s1")).encode();
    assert!(server.user_message(a, &join).unwrap().is_empty());
    let out = server.user_message(b, &join).unwrap();
    assert_eq!(
        out,
        vec![
            (a, one_to_one::SignalMessage::SessionReady(sid("s1"), true).encode()),
            (b, one_to_one::SignalMessage::SessionReady(sid("s1"), false).encode()),
        ]
    );
    // a malformed frame is dropped and changes nothing
    assert_eq!(server.user_message(a, &[42, 1, 2]), Err(Dropped::Malformed));
    assert!(server.session(&sid("s1")).is_some());
}

#[test]
fn one_to_many_late_joining_clients() {
    let mut server: OneToManyServer<()> = OneToManyServer::new();
    let host = server.connect(()).unwrap();
    let c1 = server.connect(()).unwrap();
    let c2 = server.connect(()).unwrap();
    assert!(server.handle(host, one_to_many::SignalMessage::SessionJoin(sid("s2"), true)).unwrap().is_empty());
    let out = server.handle(c1, one_to_many::SignalMessage::SessionJoin(sid("s2"), false)).unwrap();
    assert_eq!(
        out,
        vec![
            (host, one_to_many::SignalMessage::SessionReady(sid("s2"), c1, false)),
            (c1, one_to_many::SignalMessage::SessionReady(sid("s2"), host, true)),
        ]
    );
    let out = server.handle(c2, one_to_many::SignalMessage::SessionJoin(sid("s2"), false)).unwrap();
    assert_eq!(
        out,
        vec![
            (host, one_to_many::SignalMessage::SessionReady(sid("s2"), c2, false)),
            (c2, one_to_many::SignalMessage::SessionReady(sid("s2"), host, true)),
        ]
    );
    assert_eq!(server.session(&sid("s2")), Some((Some(host), vec![c1, c2])));
}

#[test]
fn one_to_many_host_after_clients() {
    let mut server: OneToManyServer<()> = OneToManyServer::new();
    let c1 = server.connect(()).unwrap();
    let c2 = server.connect(()).unwrap();
    let host = server.connect(()).unwrap();
    assert!(server.handle(c1, one_to_many::SignalMessage::SessionJoin(sid("s"), false)).unwrap().is_empty());
    assert!(server.handle(c2, one_to_many::SignalMessage::SessionJoin(sid("s"), false)).unwrap().is_empty());
    let out = server.handle(host, one_to_many::SignalMessage::SessionJoin(sid("s"), true)).unwrap();
    assert_eq!(
        out,
        vec![
            (host, one_to_many::SignalMessage::SessionReady(sid("s"), c1, true)),
            (host, one_to_many::SignalMessage::SessionReady(sid("s"), c2, true)),
        ]
    );
}

#[test]
fn one_to_many_second_host_is_refused() {
    let mut server: OneToManyServer<()> = OneToManyServer::new();
    let h1 = server.connect(()).unwrap();
    let h2 = server.connect(()).unwrap();
    server.handle(h1, one_to_many::SignalMessage::SessionJoin(sid("s4"), true)).unwrap();
    let out = server.handle(h2, one_to_many::SignalMessage::SessionJoin(sid("s4"), true)).unwrap();
    assert_eq!(out, vec![(h2, one_to_many::SignalMessage::Error(sid("s4"), HOST_PRESENT.to_string()))]);
    assert_eq!(server.session(&sid("s4")), Some((Some(h1), vec![])));
}

#[test]
fn one_to_many_relay_names_the_sender() {
    let mut server: OneToManyServer<()> = OneToManyServer::new();
    let host = server.connect(()).unwrap();
    let client = server.connect(()).unwrap();
    let stranger = server.connect(()).unwrap();
    server.handle(host, one_to_many::SignalMessage::SessionJoin(sid("s"), true)).unwrap();
    server.handle(client, one_to_many::SignalMessage::SessionJoin(sid("s"), false)).unwrap();
    let out = server.handle(host, one_to_many::SignalMessage::SdpOffer(sid("s"), client, "o".to_string())).unwrap();
    assert_eq!(out, vec![(client, one_to_many::SignalMessage::SdpOffer(sid("s"), host, "o".to_string()))]);
    let out = server.handle(client, one_to_many::SignalMessage::SdpAnswer(sid("s"), host, "a".to_string())).unwrap();
    assert_eq!(out, vec![(host, one_to_many::SignalMessage::SdpAnswer(sid("s"), client, "a".to_string()))]);
    let out = server.handle(host, one_to_many::SignalMessage::SdpOffer(sid("s"), stranger, "o".to_string())).unwrap();
    assert_eq!(
        out,
        vec![(host, one_to_many::SignalMessage::Error(sid("s"), RECIPIENT_NOT_MEMBER.to_string()))]
    );
}

#[test]
fn relay_from_a_sender_outside_the_session() {
    let mut server: OneToManyServer<()> = OneToManyServer::new();
    let host = server.connect(()).unwrap();
    let outsider = server.connect(()).unwrap();
    server.handle(host, one_to_many::SignalMessage::SessionJoin(sid("s"), true)).unwrap();
    let out = server.handle(outsider, one_to_many::SignalMessage::SdpOffer(sid("s"), host, "o".to_string())).unwrap();
    assert_eq!(out, vec![(host, one_to_many::SignalMessage::SdpOffer(sid("s"), outsider, "o".to_string()))]);
    let out = server.handle(outsider, one_to_many::SignalMessage::SdpOffer(sid("none"), host, "o".to_string()));
    assert_eq!(out, Err(Dropped::UnknownSession));

    let mut server: ManyToManyServer<()> = ManyToManyServer::new();
    let a = server.connect(()).unwrap();
    let outsider = server.connect(()).unwrap();
    server.handle(a, many_to_many::SignalMessage::SessionJoin(sid("s"))).unwrap();
    let c = wasm_peers::IceCandidate { candidate: "c".to_string(), sdp_mid: None, sdp_m_line_index: Some(0) };
    let out = server.handle(outsider, many_to_many::SignalMessage::IceCandidate(sid("s"), a, c.clone())).unwrap();
    assert_eq!(out, vec![(a, many_to_many::SignalMessage::IceCandidate(sid("s"), outsider, c))]);
    let out = server.handle(a, many_to_many::SignalMessage::SdpAnswer(sid("s"), outsider, "x".to_string())).unwrap();
    assert_eq!(
        out,
        vec![(a, many_to_many::SignalMessage::Error(sid("s"), outsider, RECIPIENT_NOT_MEMBER.to_string()))]
    );
}

#[test]
fn user_ids_are_unique_across_topologies() {
    let mut state: ServerState<u8> = ServerState::new();
    let a = state.connect(Endpoint::OneToOne, 1).unwrap();
    let b = state.connect(Endpoint::OneToMany, 2).unwrap();
    let c = state.connect(Endpoint::ManyToMany, 3).unwrap();
    assert_eq!(state.connect(Endpoint::Health, 4), None);
    let d = state.connect(Endpoint::OneToOne, 5).unwrap();
    assert_eq!((a, b, c, d), (UserId::new(1), UserId::new(2), UserId::new(3), UserId::new(4)));
    assert_eq!(state.one_to_one.sink(a), Some(&1));
    assert_eq!(state.one_to_many.sink(b), Some(&2));
    assert_eq!(state.one_to_many.sink(a), None);
    state.disconnect(Endpoint::OneToOne, a);
    assert_eq!(state.one_to_one.sink(a), None);
    assert_eq!(state.connect(Endpoint::OneToMany, 6), Some(UserId::new(5)));
}

#[test]
fn connect_as_refuses_taken_and_reserved_ids() {
    let mut server: OneToOneServer<u8> = OneToOneServer::new();
    assert!(server.connect_as(UserId::new(7), 1));
    assert!(!server.connect_as(UserId::new(7), 2));
    assert!(!server.connect_as(UserId::new(0), 3));
    assert!(!server.connect_as(UserId::new(u64::MAX), 4));
    assert_eq!(server.sink(UserId::new(7)), Some(&1));
    assert_eq!(server.connect(5), Some(UserId::new(8)));
}

#[test]
fn one_to_many_session_deleted_when_all_leave() {
    let mut server: OneToManyServer<()> = OneToManyServer::new();
    let host = server.connect(()).unwrap();
    let client = server.connect(()).unwrap();
    server.handle(host, one_to_many::SignalMessage::SessionJoin(sid("s"), true)).unwrap();
    server.handle(client, one_to_many::SignalMessage::SessionJoin(sid("s"), false)).unwrap();
    server.disconnect(host);
    assert_eq!(server.session(&sid("s")), Some((None, vec![client])));
    server.disconnect(client);
    assert_eq!(server.session(&sid("s")), None);
}

#[test]
fn many_to_many_triangle() {
    let mut server: ManyToManyServer<()> = ManyToManyServer::new();
    let a = server.connect(()).unwrap();
    let b = server.connect(()).unwrap();
    let c = server.connect(()).unwrap();
    assert!(server.handle(a, many_to_many::SignalMessage::SessionJoin(sid("s3"))).unwrap().is_empty());
    let out = server.handle(b, many_to_many::SignalMessage::SessionJoin(sid("s3"))).unwrap();
    assert_eq!(out, vec![(b, many_to_many::SignalMessage::SessionReady(sid("s3"), a))]);
    let out = server.handle(c, many_to_many::SignalMessage::SessionJoin(sid("s3"))).unwrap();
    assert_eq!(
        out,
        vec![
            (c, many_to_many::SignalMessage::SessionReady(sid("s3"), a)),
            (c, many_to_many::SignalMessage::SessionReady(sid("s3"), b)),
        ]
    );
    assert_eq!(server.session(&sid("s3")), Some(vec![a, b, c]));
    let out = server.handle(c, many_to_many::SignalMessage::SessionReady(sid("s3"), a)).unwrap();
    assert_eq!(out, vec![(a, many_to_many::SignalMessage::SessionReady(sid("s3"), c))]);
    let out = server.handle(a, many_to_many::SignalMessage::Error(sid("s3"), b, "x".to_string())).unwrap();
    assert_eq!(out, vec![(b, many_to_many::SignalMessage::Error(sid("s3"), a, "x".to_string()))]);
    server.disconnect(b);
    assert_eq!(server.session(&sid("s3")), Some(vec![a, c]));
    let out = server.handle(a, many_to_many::SignalMessage::SessionReady(sid("s9"), c));
    assert_eq!(out, Err(Dropped::UnknownSession));
    assert_eq!(server.user_message(a, &[]), Err(Dropped::Malformed));
}

#[test]
fn router_dispatches_by_path() {
    let router = create(ServerState::<()>::new());
    assert_eq!(router.dispatch("/health"), Some(Endpoint::Health));
    assert_eq!(router.dispatch("/one-to-one"), Some(Endpoint::OneToOne));
    assert_eq!(router.dispatch("/one-to-many"), Some(Endpoint::OneToMany));
    assert_eq!(router.dispatch("/many-to-many"), Some(Endpoint::ManyToMany));
    assert_eq!(router.dispatch("/other"), None);
    let standalone = create_router::<()>();
    assert_eq!(standalone.dispatch("/one-to-one"), Some(Endpoint::OneToOne));
    assert_eq!(standalone.dispatch("/health"), None);
    assert_eq!(standalone.dispatch("/one_to_one"), None);
}
