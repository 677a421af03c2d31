use smpc::{MessageKind, MpcError, PartyId, SessionId};

#[test]
fn party_ids_accept_only_three_parties() {
    assert_eq!(PartyId::new(2).unwrap().index(), 2);
    assert!(matches!(PartyId::new(3), Err(MpcError::InvalidPartyId(3))));
}

#[test]
fn party_ring_steps() {
    for p in PartyId::all() {
        assert_eq!(p.next().prev(), p);
        assert_eq!(p.prev().next(), p);
        assert_eq!(p.next().next().next(), p);
    }
    assert_eq!(PartyId::P0().next(), PartyId::P1());
    assert_eq!(PartyId::P0().prev(), PartyId::P2());
    assert_eq!(PartyId::P2().as_u8(), 2);
}

#[test]
fn testing_session_id_layout() {
    let s = SessionId::from_u64_for_testing(1).as_bytes();
    assert_eq!(&s[..8], &[0, 0, 0, 0, 0, 0, 0, 1]);
    assert_eq!(&s[8..16], &[255, 255, 255, 255, 255, 255, 255, 254]);
    assert_eq!(&s[16..], &[0u8; 16]);
    assert_eq!(SessionId::new(s), SessionId::from_u64_for_testing(1));
    assert_ne!(SessionId::from_u64_for_testing(1), SessionId::from_u64_for_testing(2));
}

#[test]
fn message_kind_codes() {
    for (code, kind) in [(1, MessageKind::PrivateInput), (2, MessageKind::Open), (3, MessageKind::Multiply)] {
        assert_eq!(MessageKind::try_from(code).unwrap(), kind);
        assert_eq!(kind.code(), code);
    }
    match MessageKind::try_from(4) {
        Err(MpcError::Frame(s)) => assert_eq!(s, "unknown message kind"),
        _ => panic!("expected a frame error"),
    }
}
