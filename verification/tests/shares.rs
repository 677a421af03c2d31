use smpc::{MpcError, PartyId, Rep3ShareU64, Ring, SecretU64, SecretVecU64};

fn shares_of(x: [u64; 3]) -> [Rep3ShareU64; 3] {
    [Rep3ShareU64::new(x[0], x[1]), Rep3ShareU64::new(x[1], x[2]), Rep3ShareU64::new(x[2], x[0])]
}

fn value(s: [Rep3ShareU64; 3]) -> u64 {
    assert_eq!(s[0].next(), s[1].own());
    assert_eq!(s[1].next(), s[2].own());
    assert_eq!(s[2].next(), s[0].own());
    s[0].own().wrapping_add(s[1].own()).wrapping_add(s[2].own())
}

#[test]
fn local_operations_act_on_the_shared_value() {
    let x = shares_of([u64::MAX, 5, 9]);
    let y = shares_of([3, 4, u64::MAX - 1]);
    let vx = value(x);
    let vy = value(y);
    let parties = PartyId::all();
    let sum = [0, 1, 2].map(|i| x[i].add_share(y[i]));
    assert_eq!(value(sum), vx.wrapping_add(vy));
    let diff = [0, 1, 2].map(|i| x[i].sub_share(y[i]));
    assert_eq!(value(diff), vx.wrapping_sub(vy));
    let scaled = [0, 1, 2].map(|i| x[i].mul_public(7));
    assert_eq!(value(scaled), vx.wrapping_mul(7));
    let plus = [0, 1, 2].map(|i| x[i].add_public(parties[i], 11));
    assert_eq!(value(plus), vx.wrapping_add(11));
    let minus = [0, 1, 2].map(|i| x[i].sub_public(parties[i], 11));
    assert_eq!(value(minus), vx.wrapping_sub(11));
}

#[test]
fn add_public_touches_only_component_x0() {
    let s = Rep3ShareU64::new(1, 2);
    let a = s.add_public(PartyId::P0(), 10);
    assert_eq!((a.own(), a.next()), (11, 2));
    let b = s.add_public(PartyId::P1(), 10);
    assert_eq!((b.own(), b.next()), (1, 2));
    let c = s.add_public(PartyId::P2(), 10);
    assert_eq!((c.own(), c.next()), (1, 12));
}

#[test]
fn vector_ops_check_party_and_length() {
    let a = SecretVecU64::from_shares(PartyId::P1(), vec![Rep3ShareU64::new(1, 2)]);
    let b = SecretVecU64::from_shares(PartyId::P1(), vec![]);
    let c = SecretVecU64::from_shares(PartyId::P0(), vec![Rep3ShareU64::new(1, 2)]);
    assert!(matches!(a.add(&b), Err(MpcError::LengthMismatch { left: 1, right: 0 })));
    assert!(matches!(a.sub(&c), Err(MpcError::PeerMismatch { expected: 1, actual: 0 })));
    let d = a.add(&a).unwrap();
    assert_eq!((d.shares()[0].own(), d.shares()[0].next()), (2, 4));
    let e = a.mul_public(3).add_public(1);
    assert_eq!((e.shares()[0].own(), e.shares()[0].next()), (3, 6));
    assert!(b.is_empty());
    assert_eq!(a.len(), 1);
}

#[test]
fn zeroize_wipes_shares() {
    let mut s = Rep3ShareU64::new(5, 6);
    s.zeroize();
    assert_eq!((s.own(), s.next()), (0, 0));
    let mut x = SecretU64::from_share(PartyId::P2(), Rep3ShareU64::new(7, 8));
    x.zeroize();
    assert_eq!((x.share().own(), x.share().next()), (0, 0));
    assert_eq!(x.party_id(), PartyId::P2());
    let mut v = SecretVecU64::from_shares(PartyId::P0(), vec![Rep3ShareU64::new(1, 1)]);
    v.zeroize();
    assert!(v.is_empty());
}

#[test]
fn ring_constants() {
    assert_eq!(<u64 as Ring>::zero(), 0);
    assert_eq!(<u64 as Ring>::one(), 1);
}
