use smpc::{
    decode_frame_body, encode_frame, MessageKind, MpcError, NetMessage, PartyId, SessionId,
    DEFAULT_MAX_FRAME_LEN,
};

#[test]
fn rejects_wrong_session() {
    let session = SessionId::from_u64_for_testing(1);
    let msg = NetMessage {
        session_id: session,
        from: PartyId::P0(),
        to: PartyId::P1(),
        kind: MessageKind::Open,
        counter: 7,
        payload: vec![1, 2, 3],
    };
    let encoded = encode_frame(&msg, DEFAULT_MAX_FRAME_LEN).unwrap();
    let body = &encoded[4..];
    let err = decode_frame_body(
        body,
        SessionId::from_u64_for_testing(2),
        PartyId::P1(),
        DEFAULT_MAX_FRAME_LEN,
    )
    .unwrap_err();
    assert!(matches!(err, MpcError::SessionMismatch));
}

#[test]
fn rejects_wrong_recipient() {
    let session = SessionId::from_u64_for_testing(1);
    let msg = NetMessage {
        session_id: session,
        from: PartyId::P0(),
        to: PartyId::P1(),
        kind: MessageKind::Open,
        counter: 7,
        payload: vec![],
    };
    let encoded = encode_frame(&msg, DEFAULT_MAX_FRAME_LEN).unwrap();
    let body = &encoded[4..];
    let err = decode_frame_body(body, session, PartyId::P2(), DEFAULT_MAX_FRAME_LEN).unwrap_err();
    assert!(matches!(err, MpcError::PeerMismatch { .. }));
}
