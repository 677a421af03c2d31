use smpc::{
    decode_frame_body, encode_frame, MessageKind, MpcError, NetMessage, PartyId, SessionId,
    DEFAULT_MAX_FRAME_LEN,
};

fn message(payload: Vec<u8>) -> NetMessage {
    NetMessage {
        session_id: SessionId::from_u64_for_testing(5),
        from: PartyId::P2(),
        to: PartyId::P0(),
        kind: MessageKind::Multiply,
        counter: 0x0102_0304_0506_0708,
        payload,
    }
}

fn body_of(m: &NetMessage) -> Vec<u8> {
    encode_frame(m, DEFAULT_MAX_FRAME_LEN).unwrap()[4..].to_vec()
}

fn frame_error(r: Result<NetMessage, MpcError>) -> String {
    match r {
        Err(MpcError::Frame(s)) => s,
        _ => panic!("expected a frame error"),
    }
}

#[test]
fn frame_layout_is_exact() {
    let m = message(vec![9, 8]);
    let f = encode_frame(&m, DEFAULT_MAX_FRAME_LEN).unwrap();
    assert_eq!(f.len(), 4 + 52 + 2);
    assert_eq!(&f[..4], &[0, 0, 0, 54]);
    assert_eq!(&f[4..8], b"SMPC");
    assert_eq!(f[8], 1);
    assert_eq!(&f[9..41], &SessionId::from_u64_for_testing(5).as_bytes());
    assert_eq!(&f[41..44], &[2, 0, 3]);
    assert_eq!(&f[44..52], &[1, 2, 3, 4, 5, 6, 7, 8]);
    assert_eq!(&f[52..56], &[0, 0, 0, 2]);
    assert_eq!(&f[56..], &[9, 8]);
}

#[test]
fn frame_roundtrip() {
    let m = message(vec![1, 2, 3, 4]);
    let back = decode_frame_body(&body_of(&m), m.session_id, m.to, DEFAULT_MAX_FRAME_LEN).unwrap();
    assert_eq!(back, m);
}

#[test]
fn encode_refuses_oversized_body() {
    let m = message(vec![0; 10]);
    match encode_frame(&m, 61) {
        Err(MpcError::Frame(s)) => assert_eq!(s, "payload exceeds maximum frame length"),
        _ => panic!("expected a frame error"),
    }
    assert!(encode_frame(&m, 62).is_ok());
}

#[test]
fn decode_reports_each_fault() {
    let m = message(vec![7]);
    let s = m.session_id;
    let to = m.to;
    let body = body_of(&m);
    assert_eq!(frame_error(decode_frame_body(&body, s, to, 52)), "frame exceeds maximum length");
    assert_eq!(frame_error(decode_frame_body(&body[..51], s, to, 1000)), "short frame");
    let mut bad = body.clone();
    bad[0] = b'X';
    assert_eq!(frame_error(decode_frame_body(&bad, s, to, 1000)), "bad magic");
    let mut bad = body.clone();
    bad[4] = 2;
    assert_eq!(frame_error(decode_frame_body(&bad, s, to, 1000)), "unsupported frame version");
    let mut bad = body.clone();
    bad[37] = 3;
    assert!(matches!(decode_frame_body(&bad, s, to, 1000), Err(MpcError::InvalidPartyId(3))));
    let mut bad = body.clone();
    bad[38] = 7;
    assert!(matches!(decode_frame_body(&bad, s, to, 1000), Err(MpcError::InvalidPartyId(7))));
    let mut bad = body.clone();
    bad[39] = 0;
    assert_eq!(frame_error(decode_frame_body(&bad, s, to, 1000)), "unknown message kind");
    let mut bad = body.clone();
    bad[51] = 2;
    assert_eq!(frame_error(decode_frame_body(&bad, s, to, 1000)), "payload length mismatch");
    match decode_frame_body(&body, s, PartyId::P1(), 1000) {
        Err(MpcError::PeerMismatch { expected, actual }) => assert_eq!((expected, actual), (1, 0)),
        _ => panic!("expected a peer mismatch"),
    }
}

#[test]
fn decode_never_panics_on_arbitrary_bytes() {
    let session = SessionId::from_u64_for_testing(1);
    let mut state: u64 = 0x9E37_79B9_7F4A_7C15;
    for len in 0..200usize {
        let mut data = Vec::with_capacity(len);
        for _ in 0..len {
            state = state.wrapping_mul(6364136223846793005).wrapping_add(1442695040888963407);
            data.push((state >> 56) as u8);
        }
        let _ = decode_frame_body(&data, session, PartyId::P0(), DEFAULT_MAX_FRAME_LEN);
    }
}
