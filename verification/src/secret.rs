use vstd::prelude::*;

use crate::error::{MpcError, Result};
use crate::ids::{PartyId, SessionId};
use crate::ring::{wrap, WrappingU64};

verus! {

/// Local configuration for one party.
#[derive(Clone)]
pub struct MpcConfig {
    pub party_id: PartyId,
    pub session_id: SessionId,
    /// Optional deterministic seed for tests and reproducible examples.
    pub rng_seed: Option<[u8; 32]>,
    /// PRSS seed shared with the previous party.
    pub prss_prev_seed: [u8; 32],
    /// PRSS seed shared with the next party.
    pub prss_next_seed: [u8; 32],
}

impl MpcConfig {
    pub fn new(
        party_id: PartyId,
        session_id: SessionId,
        prss_prev_seed: [u8; 32],
        prss_next_seed: [u8; 32],
    ) -> (r: MpcConfig)
        ensures
            r.party_id == party_id,
            r.session_id == session_id,
            r.rng_seed is None,
            r.prss_prev_seed == prss_prev_seed,
            r.prss_next_seed == prss_next_seed,
    {
        MpcConfig { party_id, session_id, rng_seed: None, prss_prev_seed, prss_next_seed }
    }

    pub fn with_rng_seed(self, seed: [u8; 32]) -> (r: MpcConfig)
        ensures
            r.party_id == self.party_id,
            r.session_id == self.session_id,
            r.rng_seed == Some(seed),
            r.prss_prev_seed == self.prss_prev_seed,
            r.prss_next_seed == self.prss_next_seed,
    {
        let mut c = self;
        c.rng_seed = Some(seed);
        c
    }
}

/// Public `u64` value in the ring.
#[derive(Clone, Copy, Debug, PartialEq, Eq, Structural)]
pub struct PublicU64(pub u64);

/// One party's view of a replicated share: the component it owns and the
/// component of the next party.
pub type ShareView = (u64, u64);

pub open spec fn share_add(a: ShareView, b: ShareView) -> ShareView {
    (wrap(a.0 + b.0), wrap(a.1 + b.1))
}

pub open spec fn share_sub(a: ShareView, b: ShareView) -> ShareView {
    (wrap(a.0 - b.0), wrap(a.1 - b.1))
}

pub open spec fn share_mul_public(a: ShareView, c: u64) -> ShareView {
    (wrap(a.0 * c), wrap(a.1 * c))
}

/// Adding a public constant changes only the additive component `x0`, which
/// party 0 holds as its own component and party 2 as its next component.
pub open spec fn share_add_public(a: ShareView, party: nat, c: u64) -> ShareView {
    if party == 0 {
        (wrap(a.0 + c), a.1)
    } else if party == 2 {
        (a.0, wrap(a.1 + c))
    } else {
        a
    }
}

pub open spec fn share_sub_public(a: ShareView, party: nat, c: u64) -> ShareView {
    if party == 0 {
        (wrap(a.0 - c), a.1)
    } else if party == 2 {
        (a.0, wrap(a.1 - c))
    } else {
        a
    }
}

/// The shares held by parties 0, 1 and 2 fit together: each party's next
/// component is the own component of the following party.
pub open spec fn consistent(s0: ShareView, s1: ShareView, s2: ShareView) -> bool {
    s0.1 == s1.0 && s1.1 == s2.0 && s2.1 == s0.0
}

/// The value shared by the three parties' shares: `x0 + x1 + x2 mod 2^64`.
pub open spec fn reconstruct(s0: ShareView, s1: ShareView, s2: ShareView) -> u64 {
    wrap(s0.0 + s1.0 + s2.0)
}

/// `zeroize::Zeroize::zeroize` on a `u64`: overwrites it with 0, with a
/// write the compiler does not elide.
#[verifier::external_body]
fn zeroize_u64(x: &mut u64)
    ensures
        *final(x) == 0,
{
    zeroize::Zeroize::zeroize(x)
}

/// `zeroize::Zeroize::zeroize` on the spare capacity of a vector of shares
/// (`Vec::spare_capacity_mut`): the memory past the length is overwritten
/// with zeros; the elements are left as they are.
#[verifier::external_body]
fn zeroize_spare_capacity(v: &mut Vec<Rep3ShareU64>)
    ensures
        final(v)@ == old(v)@,
{
    zeroize::Zeroize::zeroize(v.spare_capacity_mut())
}

/// One party's replicated share `(x_i, x_{i+1})`.
#[derive(Clone, Copy, PartialEq, Eq, Structural)]
pub struct Rep3ShareU64 {
    own: u64,
    next: u64,
}

impl View for Rep3ShareU64 {
    type V = ShareView;

    closed spec fn view(&self) -> ShareView {
        (self.own, self.next)
    }
}

impl Rep3ShareU64 {
    /// Two shares are the same value exactly when their components agree.
    pub broadcast proof fn lemma_view_injective(a: Rep3ShareU64, b: Rep3ShareU64)
        ensures
            #[trigger] (a@) == #[trigger] (b@) <==> a == b,
    {
    }

    pub fn new(own: u64, next: u64) -> (r: Rep3ShareU64)
        ensures
            r@ == (own, next),
    {
        Rep3ShareU64 { own, next }
    }

    pub fn own(self) -> (r: u64)
        ensures
            r == self@.0,
    {
        self.own
    }

    pub fn next(self) -> (r: u64)
        ensures
            r == self@.1,
    {
        self.next
    }

    /// Wipes both components.
    pub fn zeroize(&mut self)
        ensures
            final(self)@ == (0u64, 0u64),
    {
        zeroize_u64(&mut self.own);
        zeroize_u64(&mut self.next);
    }

    pub fn add_share(self, rhs: Rep3ShareU64) -> (r: Rep3ShareU64)
        ensures
            r@ == share_add(self@, rhs@),
    {
        Rep3ShareU64::new(WrappingU64::add(self.own, rhs.own), WrappingU64::add(self.next, rhs.next))
    }

    pub fn sub_share(self, rhs: Rep3ShareU64) -> (r: Rep3ShareU64)
        ensures
            r@ == share_sub(self@, rhs@),
    {
        Rep3ShareU64::new(WrappingU64::sub(self.own, rhs.own), WrappingU64::sub(self.next, rhs.next))
    }

    pub fn mul_public(self, rhs: u64) -> (r: Rep3ShareU64)
        ensures
            r@ == share_mul_public(self@, rhs),
    {
        Rep3ShareU64::new(WrappingU64::mul(self.own, rhs), WrappingU64::mul(self.next, rhs))
    }

    pub fn add_public(self, party_id: PartyId, rhs: u64) -> (r: Rep3ShareU64)
        ensures
            r@ == share_add_public(self@, party_id@, rhs),
    {
        match party_id.index() {
            0 => Rep3ShareU64::new(WrappingU64::add(self.own, rhs), self.next),
            2 => Rep3ShareU64::new(self.own, WrappingU64::add(self.next, rhs)),
            _ => self,
        }
    }

    pub fn sub_public(self, party_id: PartyId, rhs: u64) -> (r: Rep3ShareU64)
        ensures
            r@ == share_sub_public(self@, party_id@, rhs),
    {
        match party_id.index() {
            0 => Rep3ShareU64::new(WrappingU64::sub(self.own, rhs), self.next),
            2 => Rep3ShareU64::new(self.own, WrappingU64::sub(self.next, rhs)),
            _ => self,
        }
    }
}

/// A local handle to one secret shared `u64`: the holding party and its share.
#[derive(Clone, PartialEq, Eq, Structural)]
pub struct SecretU64 {
    party_id: PartyId,
    share: Rep3ShareU64,
}

impl View for SecretU64 {
    type V = (PartyId, ShareView);

    closed spec fn view(&self) -> (PartyId, ShareView) {
        (self.party_id, self.share@)
    }
}

impl SecretU64 {
    pub fn from_share(party_id: PartyId, share: Rep3ShareU64) -> (r: SecretU64)
        ensures
            r@ == (party_id, share@),
    {
        SecretU64 { party_id, share }
    }

    pub fn party_id(&self) -> (r: PartyId)
        ensures
            r == self@.0,
    {
        self.party_id
    }

    pub fn share(&self) -> (r: Rep3ShareU64)
        ensures
            r@ == self@.1,
    {
        self.share
    }

    /// Adds two secrets held by the same party.
    pub fn add(&self, rhs: &SecretU64) -> (r: Result<SecretU64>)
        ensures
            self@.0 == rhs@.0 <==> r is Ok,
            r matches Ok(s) ==> s@ == (self@.0, share_add(self@.1, rhs@.1)),
            r matches Err(e) ==> e == (MpcError::PeerMismatch {
                expected: self@.0@ as u8,
                actual: rhs@.0@ as u8,
            }),
    {
        self.ensure_same_party(rhs)?;
        Ok(SecretU64::from_share(self.party_id, self.share.add_share(rhs.share)))
    }

    /// Subtracts two secrets held by the same party.
    pub fn sub(&self, rhs: &SecretU64) -> (r: Result<SecretU64>)
        ensures
            self@.0 == rhs@.0 <==> r is Ok,
            r matches Ok(s) ==> s@ == (self@.0, share_sub(self@.1, rhs@.1)),
            r matches Err(e) ==> e == (MpcError::PeerMismatch {
                expected: self@.0@ as u8,
                actual: rhs@.0@ as u8,
            }),
    {
        self.ensure_same_party(rhs)?;
        Ok(SecretU64::from_share(self.party_id, self.share.sub_share(rhs.share)))
    }

    pub fn add_public(&self, rhs: u64) -> (r: SecretU64)
        ensures
            r@ == (self@.0, share_add_public(self@.1, self@.0@, rhs)),
    {
        SecretU64::from_share(self.party_id, self.share.add_public(self.party_id, rhs))
    }

    pub fn sub_public(&self, rhs: u64) -> (r: SecretU64)
        ensures
            r@ == (self@.0, share_sub_public(self@.1, self@.0@, rhs)),
    {
        SecretU64::from_share(self.party_id, self.share.sub_public(self.party_id, rhs))
    }

    pub fn mul_public(&self, rhs: u64) -> (r: SecretU64)
        ensures
            r@ == (self@.0, share_mul_public(self@.1, rhs)),
    {
        SecretU64::from_share(self.party_id, self.share.mul_public(rhs))
    }

    /// Wipes the share; the party id is kept.
    pub fn zeroize(&mut self)
        ensures
            final(self)@ == (old(self)@.0, (0u64, 0u64)),
    {
        self.share.zeroize();
    }

    fn ensure_same_party(&self, rhs: &SecretU64) -> (r: Result<()>)
        ensures
            self@.0 == rhs@.0 <==> r is Ok,
            r matches Err(e) ==> e == (MpcError::PeerMismatch {
                expected: self@.0@ as u8,
                actual: rhs@.0@ as u8,
            }),
    {
        if self.party_id == rhs.party_id {
            Ok(())
        } else {
            Err(MpcError::PeerMismatch { expected: self.party_id.as_u8(), actual: rhs.party_id.as_u8() })
        }
    }
}

/// Which share-wise operation `SecretVecU64::zip` applies.
#[derive(Clone, Copy, PartialEq, Eq, Structural)]
enum ShareOp {
    Add,
    Sub,
}

spec fn apply_op(op: ShareOp, a: ShareView, b: ShareView) -> ShareView {
    match op {
        ShareOp::Add => share_add(a, b),
        ShareOp::Sub => share_sub(a, b),
    }
}

/// A local handle to a vector of secret shared `u64` values.
#[derive(Clone, PartialEq, Eq)]
pub struct SecretVecU64 {
    party_id: PartyId,
    shares: Vec<Rep3ShareU64>,
}

impl View for SecretVecU64 {
    type V = (PartyId, Seq<Rep3ShareU64>);

    closed spec fn view(&self) -> (PartyId, Seq<Rep3ShareU64>) {
        (self.party_id, self.shares@)
    }
}

impl SecretVecU64 {
    pub fn from_shares(party_id: PartyId, shares: Vec<Rep3ShareU64>) -> (r: SecretVecU64)
        ensures
            r@ == (party_id, shares@),
    {
        SecretVecU64 { party_id, shares }
    }

    pub fn party_id(&self) -> (r: PartyId)
        ensures
            r == self@.0,
    {
        self.party_id
    }

    pub fn shares(&self) -> (r: &[Rep3ShareU64])
        ensures
            r@ == self@.1,
    {
        self.shares.as_slice()
    }

    pub fn len(&self) -> (r: usize)
        ensures
            r == self@.1.len(),
    {
        self.shares.len()
    }

    pub fn is_empty(&self) -> (r: bool)
        ensures
            r == (self@.1.len() == 0),
    {
        self.shares.len() == 0
    }

    /// Wipes the spare capacity and then every share in place, and empties
    /// the vector; the party id is kept.
    pub fn zeroize(&mut self)
        ensures
            final(self)@.0 == old(self)@.0,
            final(self)@.1.len() == 0,
    {
        zeroize_spare_capacity(&mut self.shares);
        let mut i: usize = 0;
        while i < self.shares.len()
            invariant
                i <= self.shares@.len(),
                self.shares@.len() == old(self).shares@.len(),
                self.party_id == old(self).party_id,
                forall|j: int| 0 <= j < i ==> (#[trigger] self.shares@[j])@ == (0u64, 0u64),
            decreases self.shares@.len() - i,
        {
            self.shares[i].zeroize();
            i = i + 1;
        }
        self.shares.clear();
    }

    /// Share-wise sum of two vectors held by the same party, of equal length.
    pub fn add(&self, rhs: &SecretVecU64) -> (r: Result<SecretVecU64>)
        ensures
            r is Ok <==> (self@.0 == rhs@.0 && self@.1.len() == rhs@.1.len()),
            self@.0 != rhs@.0 ==> (r matches Err(e) && e == (MpcError::PeerMismatch {
                expected: self@.0@ as u8,
                actual: rhs@.0@ as u8,
            })),
            self@.0 == rhs@.0 && self@.1.len() != rhs@.1.len() ==> (r matches Err(e) && e == (
            MpcError::LengthMismatch { left: self@.1.len() as usize, right: rhs@.1.len() as usize })),
            r matches Ok(v) ==> v@.0 == self@.0 && v@.1.len() == self@.1.len() && forall|i: int|
                0 <= i < self@.1.len() ==> (#[trigger] v@.1[i])@ == share_add(
                    self@.1[i]@,
                    rhs@.1[i]@,
                ),
    {
        self.zip(rhs, ShareOp::Add)
    }

    /// Share-wise difference of two vectors held by the same party, of equal
    /// length.
    pub fn sub(&self, rhs: &SecretVecU64) -> (r: Result<SecretVecU64>)
        ensures
            r is Ok <==> (self@.0 == rhs@.0 && self@.1.len() == rhs@.1.len()),
            self@.0 != rhs@.0 ==> (r matches Err(e) && e == (MpcError::PeerMismatch {
                expected: self@.0@ as u8,
                actual: rhs@.0@ as u8,
            })),
            self@.0 == rhs@.0 && self@.1.len() != rhs@.1.len() ==> (r matches Err(e) && e == (
            MpcError::LengthMismatch { left: self@.1.len() as usize, right: rhs@.1.len() as usize })),
            r matches Ok(v) ==> v@.0 == self@.0 && v@.1.len() == self@.1.len() && forall|i: int|
                0 <= i < self@.1.len() ==> (#[trigger] v@.1[i])@ == share_sub(
                    self@.1[i]@,
                    rhs@.1[i]@,
                ),
    {
        self.zip(rhs, ShareOp::Sub)
    }

    pub fn mul_public(&self, rhs: u64) -> (r: SecretVecU64)
        ensures
            r@.0 == self@.0,
            r@.1.len() == self@.1.len(),
            forall|i: int|
                0 <= i < self@.1.len() ==> (#[trigger] r@.1[i])@ == share_mul_public(
                    self@.1[i]@,
                    rhs,
                ),
    {
        let mut out: Vec<Rep3ShareU64> = Vec::new();
        let mut i: usize = 0;
        while i < self.shares.len()
            invariant
                i <= self.shares@.len(),
                out@.len() == i,
                forall|j: int|
                    0 <= j < i ==> (#[trigger] out@[j])@ == share_mul_public(self.shares@[j]@, rhs),
            decreases self.shares@.len() - i,
        {
            out.push(self.shares[i].mul_public(rhs));
            i = i + 1;
        }
        SecretVecU64::from_shares(self.party_id, out)
    }

    pub fn add_public(&self, rhs: u64) -> (r: SecretVecU64)
        ensures
            r@.0 == self@.0,
            r@.1.len() == self@.1.len(),
            forall|i: int|
                0 <= i < self@.1.len() ==> (#[trigger] r@.1[i])@ == share_add_public(
                    self@.1[i]@,
                    self@.0@,
                    rhs,
                ),
    {
        let mut out: Vec<Rep3ShareU64> = Vec::new();
        let mut i: usize = 0;
        while i < self.shares.len()
            invariant
                i <= self.shares@.len(),
                out@.len() == i,
                forall|j: int|
                    0 <= j < i ==> (#[trigger] out@[j])@ == share_add_public(
                        self.shares@[j]@,
                        self.party_id@,
                        rhs,
                    ),
            decreases self.shares@.len() - i,
        {
            out.push(self.shares[i].add_public(self.party_id, rhs));
            i = i + 1;
        }
        SecretVecU64::from_shares(self.party_id, out)
    }

    fn zip(&self, rhs: &SecretVecU64, op: ShareOp) -> (r: Result<SecretVecU64>)
        ensures
            r is Ok <==> (self@.0 == rhs@.0 && self@.1.len() == rhs@.1.len()),
            self@.0 != rhs@.0 ==> (r matches Err(e) && e == (MpcError::PeerMismatch {
                expected: self@.0@ as u8,
                actual: rhs@.0@ as u8,
            })),
            self@.0 == rhs@.0 && self@.1.len() != rhs@.1.len() ==> (r matches Err(e) && e == (
            MpcError::LengthMismatch { left: self@.1.len() as usize, right: rhs@.1.len() as usize })),
            r matches Ok(v) ==> v@.0 == self@.0 && v@.1.len() == self@.1.len() && forall|i: int|
                0 <= i < self@.1.len() ==> (#[trigger] v@.1[i])@ == apply_op(
                    op,
                    self@.1[i]@,
                    rhs@.1[i]@,
                ),
    {
        if self.party_id != rhs.party_id {
            return Err(
                MpcError::PeerMismatch { expected: self.party_id.as_u8(), actual: rhs.party_id.as_u8() },
            );
        }
        if self.len() != rhs.len() {
            return Err(MpcError::LengthMismatch { left: self.len(), right: rhs.len() });
        }
        let mut out: Vec<Rep3ShareU64> = Vec::new();
        let mut i: usize = 0;
        while i < self.shares.len()
            invariant
                i <= self.shares@.len(),
                self.shares@.len() == rhs.shares@.len(),
                out@.len() == i,
                forall|j: int|
                    0 <= j < i ==> (#[trigger] out@[j])@ == apply_op(
                        op,
                        self.shares@[j]@,
                        rhs.shares@[j]@,
                    ),
            decreases self.shares@.len() - i,
        {
            let lhs = self.shares[i];
            let other = rhs.shares[i];
            let s = match op {
                ShareOp::Add => lhs.add_share(other),
                ShareOp::Sub => lhs.sub_share(other),
            };
            out.push(s);
            i = i + 1;
        }
        Ok(SecretVecU64::from_shares(self.party_id, out))
    }
}

} // verus!
