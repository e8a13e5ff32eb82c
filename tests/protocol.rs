use wasm_peers::protocol::{many_to_many, one_to_many, one_to_one};
use wasm_peers::{IceCandidate, SessionId, UserId};

fn sid(s: &str) -> SessionId {
    SessionId::new(s.to_string())
}

fn candidate() -> IceCandidate {
    IceCandidate {
        candidate: "candidate:1 1 udp 2113937151 192.168.0.2 5000 typ host".to_string(),
        sdp_mid: Some("0".to_string()),
        sdp_m_line_index: Some(7),
    }
}

#[test]
fn one_to_one_session_join_frame_bytes() {
    let bytes = one_to_one::SignalMessage::SessionJoin(sid("s1")).encode();
    assert_eq!(bytes, vec![0, 0, 0, 0, 0, 0, 0, 0, 2, b's', b'1']);
}

#[test]
fn one_to_many_ready_frame_bytes() {
    let bytes = one_to_many::SignalMessage::SessionReady(sid("a"), UserId::new(258), true).encode();
    assert_eq!(bytes, vec![1, 0, 0, 0, 0, 0, 0, 0, 1, b'a', 0, 0, 0, 0, 0, 0, 1, 2, 1]);
}

#[test]
fn candidate_frame_bytes() {
    let c = IceCandidate { candidate: "c".to_string(), sdp_mid: None, sdp_m_line_index: Some(1) };
    let bytes = one_to_one::SignalMessage::IceCandidate(sid("s"), c).encode();
    assert_eq!(
        bytes,
        vec![4, 0, 0, 0, 0, 0, 0, 0, 1, b's', 0, 0, 0, 0, 0, 0, 0, 1, b'c', 0, 1, 0, 1]
    );
}

#[test]
fn one_to_one_round_trip_every_variant() {
    let all = vec![
        one_to_one::SignalMessage::SessionJoin(sid("s1")),
        one_to_one::SignalMessage::SessionReady(sid("s1"), true),
        one_to_one::SignalMessage::SessionReady(sid("s1"), false),
        one_to_one::SignalMessage::SdpOffer(sid("s1"), "v=0 offer".to_string()),
        one_to_one::SignalMessage::SdpAnswer(sid("s1"), "v=0 answer".to_string()),
        one_to_one::SignalMessage::IceCandidate(sid("s1"), candidate()),
        one_to_one::SignalMessage::Error(sid("s1"), "oops".to_string()),
    ];
    for m in all {
        let bytes = m.encode();
        assert_eq!(one_to_one::SignalMessage::decode(&bytes), Some(m));
    }
}

#[test]
fn one_to_many_round_trip_every_variant() {
    let all = vec![
        one_to_many::SignalMessage::SessionJoin(sid("s2"), true),
        one_to_many::SignalMessage::SessionReady(sid("s2"), UserId::new(3), true),
        one_to_many::SignalMessage::SessionReady(sid("s2"), UserId::new(3), false),
        one_to_many::SignalMessage::SdpOffer(sid("s2"), UserId::new(4), "offer".to_string()),
        one_to_many::SignalMessage::SdpAnswer(sid("s2"), UserId::new(5), "answer".to_string()),
        one_to_many::SignalMessage::IceCandidate(sid("s2"), UserId::new(u64::MAX), candidate()),
        one_to_many::SignalMessage::Error(sid("s2"), "boom".to_string()),
    ];
    for m in all {
        let bytes = m.encode();
        assert_eq!(one_to_many::SignalMessage::decode(&bytes), Some(m));
    }
}

#[test]
fn many_to_many_round_trip_every_variant() {
    let empty = IceCandidate { candidate: String::new(), sdp_mid: None, sdp_m_line_index: None };
    let all = vec![
        many_to_many::SignalMessage::SessionJoin(sid("s3")),
        many_to_many::SignalMessage::SessionReady(sid("s3"), UserId::new(1)),
        many_to_many::SignalMessage::SdpOffer(sid("s3"), UserId::new(2), "ö€😀".to_string()),
        many_to_many::SignalMessage::SdpAnswer(sid(""), UserId::new(0), String::new()),
        many_to_many::SignalMessage::IceCandidate(sid("s3"), UserId::new(9), empty),
        many_to_many::SignalMessage::Error(sid("s3"), UserId::new(7), "bad".to_string()),
    ];
    for m in all {
        let bytes = m.encode();
        assert_eq!(many_to_many::SignalMessage::decode(&bytes), Some(m));
    }
}

#[test]
fn decode_refuses_malformed_frames() {
    assert_eq!(one_to_one::SignalMessage::decode(&[]), None);
    assert_eq!(one_to_one::SignalMessage::decode(&[9]), None);
    // a length beyond the frame
    assert_eq!(one_to_one::SignalMessage::decode(&[0, 0, 0, 0, 0, 0, 0, 0, 5, b's']), None);
    // trailing bytes
    assert_eq!(one_to_one::SignalMessage::decode(&[0, 0, 0, 0, 0, 0, 0, 0, 1, b's', 0]), None);
    // a flag that is neither 0 nor 1
    assert_eq!(one_to_one::SignalMessage::decode(&[1, 0, 0, 0, 0, 0, 0, 0, 1, b's', 2]), None);
    // a huge length must not overflow
    assert_eq!(
        one_to_one::SignalMessage::decode(&[0, 255, 255, 255, 255, 255, 255, 255, 255, b's']),
        None
    );
}

#[test]
fn decode_refuses_invalid_utf8() {
    assert_eq!(one_to_one::SignalMessage::decode(&[0, 0, 0, 0, 0, 0, 0, 0, 1, 0xff]), None);
    assert_eq!(
        one_to_one::SignalMessage::decode(&[0, 0, 0, 0, 0, 0, 0, 0, 2, 0xc3, 0xb6]),
        Some(one_to_one::SignalMessage::SessionJoin(sid("ö")))
    );
}

#[test]
fn session_id_accessors() {
    let s = SessionId::new("abc".to_string());
    assert_eq!(s.as_str(), "abc");
    assert_eq!(s.inner(), "abc".to_string());
    assert_eq!(s.into_inner(), "abc".to_string());
    let u = UserId::new(42);
    assert_eq!(u.into_inner(), 42);
    assert_eq!(UserId::from(42u64), u);
}
