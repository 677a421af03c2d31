use smpc::session::opened_scalar;
use smpc::session::{Expected, InputStep};
use smpc::{
    test_configs, MessageKind, MpcConfig, MpcError, MpcSession, NetMessage, PartyId, SessionId,
};

fn session(party: usize) -> MpcSession {
    let s = SessionId::from_u64_for_testing(3);
    let c = test_configs(s)[party].clone();
    MpcSession::new(c, PartyId::new(party as u8).unwrap(), s).unwrap()
}

fn msg(from: PartyId, kind: MessageKind, counter: u64) -> NetMessage {
    NetMessage {
        session_id: SessionId::from_u64_for_testing(3),
        from,
        to: PartyId::P0(),
        kind,
        counter,
        payload: vec![],
    }
}

#[test]
fn new_checks_transport_ids() {
    let s = SessionId::from_u64_for_testing(3);
    let c = test_configs(s)[0].clone();
    assert!(matches!(
        MpcSession::new(c.clone(), PartyId::P1(), s),
        Err(MpcError::PeerMismatch { expected: 0, actual: 1 })
    ));
    assert!(matches!(
        MpcSession::new(c, PartyId::P0(), SessionId::from_u64_for_testing(4)),
        Err(MpcError::SessionMismatch)
    ));
}

#[test]
fn new_without_seed_draws_entropy() {
    let s = SessionId::from_u64_for_testing(3);
    let c = MpcConfig::new(PartyId::P0(), s, [3u8; 32], [1u8; 32]);
    let mut a = MpcSession::new(c.clone(), PartyId::P0(), s).unwrap();
    let mut b = MpcSession::new(c, PartyId::P0(), s).unwrap();
    let da = match a.begin_private_inputs(PartyId::P0(), &[0]).unwrap() {
        InputStep::Dealt { outgoing, .. } => outgoing[0].payload.clone(),
        _ => panic!("the owner deals"),
    };
    let db = match b.begin_private_inputs(PartyId::P0(), &[0]).unwrap() {
        InputStep::Dealt { outgoing, .. } => outgoing[0].payload.clone(),
        _ => panic!("the owner deals"),
    };
    assert_ne!(da, db);
}

#[test]
fn dealing_is_deterministic_for_a_seed() {
    let mut a = session(0);
    let mut b = session(0);
    let pa = match a.begin_private_inputs(PartyId::P0(), &[5, 6]).unwrap() {
        InputStep::Dealt { outgoing, .. } => outgoing,
        _ => panic!("the owner deals"),
    };
    let pb = match b.begin_private_inputs(PartyId::P0(), &[5, 6]).unwrap() {
        InputStep::Dealt { outgoing, .. } => outgoing,
        _ => panic!("the owner deals"),
    };
    assert_eq!(pa, pb);
    assert_eq!(pa[0].to, PartyId::P1());
    assert_eq!(pa[1].to, PartyId::P2());
    assert_eq!(pa[0].counter, 0);
}

#[test]
fn counters_advance_once_per_operation() {
    let mut p = session(1);
    match p.begin_private_inputs(PartyId::P0(), &[1]).unwrap() {
        InputStep::Receive(e) => {
            assert_eq!(e.counter, 0);
            assert_eq!(e.from, Some(PartyId::P0()));
        }
        _ => panic!("a non-owner waits"),
    }
    match p.begin_private_inputs(PartyId::P2(), &[1]).unwrap() {
        InputStep::Receive(e) => assert_eq!(e.counter, 1),
        _ => panic!("a non-owner waits"),
    }
}

#[test]
fn incoming_messages_are_matched_deferred_or_refused() {
    let mut p = session(0);
    let expect = Expected { from: Some(PartyId::P1()), kind: MessageKind::Multiply, counter: 4 };
    let later = msg(PartyId::P1(), MessageKind::Multiply, 5);
    assert!(p.accept_incoming(later.clone(), expect).unwrap().is_none());
    assert!(matches!(
        p.accept_incoming(msg(PartyId::P1(), MessageKind::Open, 3), expect),
        Err(MpcError::CounterMismatch { expected: 4, actual: 3 })
    ));
    assert!(matches!(
        p.accept_incoming(msg(PartyId::P1(), MessageKind::Open, 4), expect),
        Err(MpcError::UnexpectedMessageKind { expected: MessageKind::Multiply, actual: MessageKind::Open })
    ));
    assert!(matches!(
        p.accept_incoming(msg(PartyId::P2(), MessageKind::Multiply, 4), expect),
        Err(MpcError::PeerMismatch { expected: 1, actual: 2 })
    ));
    let now = msg(PartyId::P1(), MessageKind::Multiply, 4);
    assert_eq!(p.accept_incoming(now.clone(), expect).unwrap(), Some(now));
    let next = Expected { from: None, kind: MessageKind::Multiply, counter: 5 };
    assert_eq!(p.take_pending(next), Some(later));
    assert_eq!(p.take_pending(next), None);
}

#[test]
fn open_with_a_missing_component_fails() {
    let mut p = session(0);
    let v = smpc::SecretVecU64::from_shares(PartyId::P0(), vec![smpc::Rep3ShareU64::new(1, 2)]);
    let step = p.begin_open_vec(&v).unwrap();
    match step.components.combine() {
        Err(MpcError::InvalidShareShape(s)) => assert_eq!(s, "missing open component"),
        _ => panic!("expected a missing component"),
    }
}

#[test]
fn opening_waits_for_two_peer_messages() {
    let mut p = session(0);
    let v = smpc::SecretVecU64::from_shares(PartyId::P0(), vec![smpc::Rep3ShareU64::new(1, 2)]);
    let step = p.begin_open_vec(&v).unwrap();
    let mut c = step.components;
    assert!(c.awaiting());
    let m = |from: PartyId, x: u64| NetMessage {
        session_id: SessionId::from_u64_for_testing(3),
        from,
        to: PartyId::P0(),
        kind: MessageKind::Open,
        counter: 0,
        payload: smpc::codec::encode_u64_vec(&[x]),
    };
    c.absorb(&m(PartyId::P1(), 10)).unwrap();
    assert!(c.awaiting());
    c.absorb(&m(PartyId::P2(), 100)).unwrap();
    assert!(!c.awaiting());
    let opened = c.combine().unwrap();
    assert_eq!(opened, vec![111]);
    assert_eq!(opened_scalar(&opened).unwrap(), 111);
    assert!(matches!(opened_scalar(&[]), Err(MpcError::InvalidShareShape("missing opened scalar"))));
}
