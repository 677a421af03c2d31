use smpc::{PartyId, Prss, Rep3Prss, SessionId};

#[test]
fn prss_counter_domain_separation() {
    let session_id = SessionId::from_u64_for_testing(7);
    let prss = Rep3Prss::new(PartyId::P0(), session_id, [3u8; 32], [1u8; 32]);
    let first = prss.next_pair_masks(b"mul", 0, 4);
    let second = prss.next_pair_masks(b"mul", 1, 4);
    assert_ne!(first.0, second.0);
    assert_ne!(first.1, second.1);
}

#[test]
fn neighbours_share_masks() {
    let session_id = SessionId::from_u64_for_testing(7);
    let p0 = Rep3Prss::new(PartyId::P0(), session_id, [3u8; 32], [1u8; 32]);
    let p1 = Rep3Prss::new(PartyId::P1(), session_id, [1u8; 32], [2u8; 32]);
    let (_, next0) = p0.next_pair_masks(b"rep3-u64-mul", 3, 5);
    let (prev1, next1) = p1.next_pair_masks(b"rep3-u64-mul", 3, 5);
    assert_eq!(next0, prev1);
    assert_ne!(prev1, next1);
    assert_eq!(next0.len(), 5);
    let other_session = Rep3Prss::new(PartyId::P1(), SessionId::from_u64_for_testing(8), [1u8; 32], [2u8; 32]);
    assert_ne!(other_session.next_pair_masks(b"rep3-u64-mul", 3, 5).0, prev1);
}
