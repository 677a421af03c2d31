use smpc::net::{peers_to_accept, peers_to_dial, retry_after_failure, CONNECT_ATTEMPTS};
use smpc::net::{check_accepted_peer, check_connected_peer, check_incoming, check_outgoing, validate_peer_config};
use smpc::{MessageKind, MpcError, NetMessage, PartyId, SessionId};

#[test]
fn peer_table_checks() {
    let (p0, p1, p2) = (PartyId::P0(), PartyId::P1(), PartyId::P2());
    assert!(validate_peer_config(p0, &[p1, p2], &[p1, p2]).is_ok());
    assert!(matches!(validate_peer_config(p0, &[p1], &[p1, p2]), Err(MpcError::WrongPartyCount)));
    match validate_peer_config(p0, &[p0, p2], &[p1, p2]) {
        Err(MpcError::Transport(s)) => assert_eq!(s, "missing peer address"),
        _ => panic!("expected a missing address"),
    }
    match validate_peer_config(p0, &[p1, p2], &[p2]) {
        Err(MpcError::Tls(s)) => assert_eq!(s, "missing trusted peer certificate"),
        _ => panic!("expected a missing certificate"),
    }
}

#[test]
fn handshake_checks() {
    assert!(check_accepted_peer(PartyId::P2(), PartyId::P0()).is_ok());
    assert!(matches!(
        check_accepted_peer(PartyId::P1(), PartyId::P2()),
        Err(MpcError::PeerMismatch { expected: 0, actual: 2 })
    ));
    assert!(check_connected_peer(PartyId::P1(), PartyId::P1()).is_ok());
    assert!(check_connected_peer(PartyId::P1(), PartyId::P2()).is_err());
}

#[test]
fn transport_message_checks() {
    let s = SessionId::from_u64_for_testing(9);
    let m = NetMessage {
        session_id: s,
        from: PartyId::P0(),
        to: PartyId::P1(),
        kind: MessageKind::Open,
        counter: 0,
        payload: vec![],
    };
    assert!(check_outgoing(PartyId::P0(), s, &m).is_ok());
    assert!(matches!(check_outgoing(PartyId::P2(), s, &m), Err(MpcError::PeerMismatch { expected: 2, actual: 0 })));
    assert!(check_incoming(PartyId::P1(), s, &m).is_ok());
    assert!(matches!(
        check_incoming(PartyId::P1(), SessionId::from_u64_for_testing(8), &m),
        Err(MpcError::SessionMismatch)
    ));
}

#[test]
fn accept_lower_dial_higher() {
    let all = [PartyId::P0(), PartyId::P2()];
    assert_eq!(peers_to_accept(PartyId::P1(), &all), vec![PartyId::P0()]);
    assert_eq!(peers_to_dial(PartyId::P1(), &all), vec![PartyId::P2()]);
    assert_eq!(peers_to_accept(PartyId::P0(), &[PartyId::P1(), PartyId::P2()]), vec![]);
    assert!(retry_after_failure(1));
    assert!(retry_after_failure(CONNECT_ATTEMPTS - 1));
    assert!(!retry_after_failure(CONNECT_ATTEMPTS));
}
