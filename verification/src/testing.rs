//! Deterministic configurations and cleartext reference computations for
//! three-party test runs.
use vstd::prelude::*;

use crate::ids::{PartyId, SessionId};
use crate::laws::wrapping_sum;
use crate::ring::{wrap, WrappingU64};
use crate::secret::MpcConfig;

verus! {

/// The wrapping dot product of the common prefix of two sequences.
pub open spec fn wrapping_dot(lhs: Seq<u64>, rhs: Seq<u64>) -> u64 {
    wrapping_sum(
        Seq::new(
            if lhs.len() <= rhs.len() {
                lhs.len()
            } else {
                rhs.len()
            },
            |i: int| wrap(lhs[i] * rhs[i]),
        ),
    )
}

/// The three test configurations: pair seeds `[1; 32]` (parties 0 and 1),
/// `[2; 32]` (parties 1 and 2) and `[3; 32]` (parties 2 and 0), and dealing
/// seeds `[10; 32]`, `[11; 32]` and `[12; 32]`.
pub fn test_configs(session_id: SessionId) -> (r: [MpcConfig; 3])
    ensures
        forall|i: int|
            0 <= i < 3 ==> (#[trigger] r[i]).party_id@ == i && r[i].session_id == session_id,
        r[0].prss_prev_seed@ == Seq::new(32, |j: int| 3u8),
        r[0].prss_next_seed@ == Seq::new(32, |j: int| 1u8),
        r[1].prss_prev_seed@ == Seq::new(32, |j: int| 1u8),
        r[1].prss_next_seed@ == Seq::new(32, |j: int| 2u8),
        r[2].prss_prev_seed@ == Seq::new(32, |j: int| 2u8),
        r[2].prss_next_seed@ == Seq::new(32, |j: int| 3u8),
        r[0].rng_seed matches Some(s) && s@ == Seq::new(32, |j: int| 10u8),
        r[1].rng_seed matches Some(s) && s@ == Seq::new(32, |j: int| 11u8),
        r[2].rng_seed matches Some(s) && s@ == Seq::new(32, |j: int| 12u8),
{
    let seed01 = [1u8; 32];
    let seed12 = [2u8; 32];
    let seed20 = [3u8; 32];
    let r = [
        MpcConfig::new(PartyId::P0(), session_id, seed20, seed01).with_rng_seed([10u8; 32]),
        MpcConfig::new(PartyId::P1(), session_id, seed01, seed12).with_rng_seed([11u8; 32]),
        MpcConfig::new(PartyId::P2(), session_id, seed12, seed20).with_rng_seed([12u8; 32]),
    ];
    assert(r[0].prss_prev_seed@ =~= Seq::new(32, |j: int| 3u8));
    assert(r[0].prss_next_seed@ =~= Seq::new(32, |j: int| 1u8));
    assert(r[1].prss_prev_seed@ =~= Seq::new(32, |j: int| 1u8));
    assert(r[1].prss_next_seed@ =~= Seq::new(32, |j: int| 2u8));
    assert(r[2].prss_prev_seed@ =~= Seq::new(32, |j: int| 2u8));
    assert(r[2].prss_next_seed@ =~= Seq::new(32, |j: int| 3u8));
    assert(r[0].rng_seed->0@ =~= Seq::new(32, |j: int| 10u8));
    assert(r[1].rng_seed->0@ =~= Seq::new(32, |j: int| 11u8));
    assert(r[2].rng_seed->0@ =~= Seq::new(32, |j: int| 12u8));
    r
}

/// The wrapping dot product of two vectors, over their common prefix.
pub fn cleartext_dot(lhs: &[u64], rhs: &[u64]) -> (r: u64)
    ensures
        r == wrapping_dot(lhs@, rhs@),
{
    let n = if lhs.len() <= rhs.len() {
        lhs.len()
    } else {
        rhs.len()
    };
    let ghost terms = Seq::new(n as nat, |i: int| wrap(lhs@[i] * rhs@[i]));
    let mut acc: u64 = 0;
    let mut i: usize = 0;
    while i < n
        invariant
            i <= n,
            n <= lhs@.len(),
            n <= rhs@.len(),
            terms == Seq::new(n as nat, |i: int| wrap(lhs@[i] * rhs@[i])),
            acc == wrapping_sum(terms.subrange(0, i as int)),
        decreases n - i,
    {
        acc = WrappingU64::add(acc, WrappingU64::mul(lhs[i], rhs[i]));
        assert(terms.subrange(0, i + 1).drop_last() =~= terms.subrange(0, i as int));
        i = i + 1;
    }
    assert(terms.subrange(0, n as int) =~= terms);
    acc
}

/// The wrapping sum of a vector.
pub fn cleartext_sum(values: &[u64]) -> (r: u64)
    ensures
        r == wrapping_sum(values@),
{
    let mut acc: u64 = 0;
    let mut i: usize = 0;
    while i < values.len()
        invariant
            i <= values@.len(),
            acc == wrapping_sum(values@.subrange(0, i as int)),
        decreases values@.len() - i,
    {
        acc = WrappingU64::add(acc, values[i]);
        assert(values@.subrange(0, i + 1).drop_last() =~= values@.subrange(0, i as int));
        i = i + 1;
    }
    assert(values@.subrange(0, values@.len() as int) =~= values@);
    acc
}

/// The dot product has a term for every index of the common prefix: it is
/// zero on empty vectors, extending two vectors of equal length by `a` and
/// `b` adds `a * b`, and elements past the common prefix do not count.
pub proof fn lemma_wrapping_dot_steps(l: Seq<u64>, r: Seq<u64>, a: u64, b: u64)
    ensures
        wrapping_dot(Seq::<u64>::empty(), r) == 0,
        l.len() == r.len() ==> wrapping_dot(l.push(a), r.push(b)) == wrap(
            wrapping_dot(l, r) + a * b,
        ),
        l.len() <= r.len() ==> wrapping_dot(l, r) == wrapping_dot(l, r.subrange(0, l.len() as int)),
        r.len() <= l.len() ==> wrapping_dot(l, r) == wrapping_dot(l.subrange(0, r.len() as int), r),
{
    assert(Seq::new(0, |i: int| wrap(Seq::<u64>::empty()[i] * r[i])) =~= Seq::<u64>::empty());
    if l.len() == r.len() {
        let (l1, r1) = (l.push(a), r.push(b));
        let terms = Seq::new(l1.len(), |i: int| wrap(l1[i] * r1[i]));
        assert(terms.drop_last() =~= Seq::new(l.len(), |i: int| wrap(l[i] * r[i])));
        crate::ring::lemma_wrap_ops(wrapping_dot(l, r) as int, a * b);
    }
    if l.len() <= r.len() {
        let r0 = r.subrange(0, l.len() as int);
        assert(Seq::new(l.len(), |i: int| wrap(l[i] * r[i])) =~= Seq::new(
            l.len(),
            |i: int| wrap(l[i] * r0[i]),
        ));
    }
    if r.len() <= l.len() {
        let l0 = l.subrange(0, r.len() as int);
        assert(Seq::new(r.len(), |i: int| wrap(l[i] * r[i])) =~= Seq::new(
            r.len(),
            |i: int| wrap(l0[i] * r[i]),
        ));
    }
}

} // verus!
