use smpc::{MpcError, PartyId, Rep3ShareU64, SecretU64, WrappingU64};

#[test]
fn wrapping_ring_wraps() {
    assert_eq!(WrappingU64::add(u64::MAX, 1), 0);
    assert_eq!(WrappingU64::sub(0, 1), u64::MAX);
    assert_eq!(WrappingU64::mul(u64::MAX, 2), u64::MAX - 1);
}

#[test]
fn local_secret_ops_are_party_scoped() {
    let lhs = SecretU64::from_share(PartyId::P0(), Rep3ShareU64::new(1, 2));
    let rhs = SecretU64::from_share(PartyId::P0(), Rep3ShareU64::new(3, 4));
    let sum = lhs.add(&rhs).unwrap();
    assert_eq!(sum.share().own(), 4);
    assert_eq!(sum.share().next(), 6);
}

#[test]
fn secret_ops_reject_other_party() {
    let lhs = SecretU64::from_share(PartyId::P0(), Rep3ShareU64::new(1, 2));
    let rhs = SecretU64::from_share(PartyId::P2(), Rep3ShareU64::new(3, 4));
    match lhs.add(&rhs) {
        Err(MpcError::PeerMismatch { expected, actual }) => {
            assert_eq!(expected, 0);
            assert_eq!(actual, 2);
        }
        _ => panic!("expected a peer mismatch"),
    }
}

#[test]
fn cleartext_helpers() {
    assert_eq!(smpc::cleartext_sum(&[u64::MAX, 2]), 1);
    assert_eq!(smpc::cleartext_dot(&[2, 3, 4], &[5, 6]), 28);
    assert_eq!(smpc::cleartext_dot(&[u64::MAX], &[2]), u64::MAX - 1);
}
