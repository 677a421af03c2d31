use vstd::prelude::*;

use crate::bytes::{u64_be, push_u64_be};
use crate::error::{MpcError, Result};

verus! {

/// The library supports exactly three parties.
pub const PARTY_COUNT: usize = 3;

/// Index of the party after party `i` in the ring `0 -> 1 -> 2 -> 0`.
pub open spec fn next_index(i: nat) -> nat {
    ((i + 1) % 3) as nat
}

/// Index of the party before party `i` in the ring `0 -> 1 -> 2 -> 0`.
pub open spec fn prev_index(i: nat) -> nat {
    ((i + 2) % 3) as nat
}

/// Identifier for one of the three parties in the computation.
#[derive(Clone, Copy, Debug, PartialEq, Eq, Hash, PartialOrd, Ord, Structural)]
pub struct PartyId(u8);

impl View for PartyId {
    type V = nat;

    closed spec fn view(&self) -> nat {
        self.0 as nat
    }
}

impl PartyId {
    #[verifier::type_invariant]
    spec fn in_range(self) -> bool {
        self.0 < 3
    }

    /// Two party ids are the same value exactly when their numbers agree.
    pub broadcast proof fn lemma_view_injective(a: PartyId, b: PartyId)
        ensures
            #[trigger] (a@) == #[trigger] (b@) <==> a == b,
    {
    }

    /// Party 0.
    #[allow(non_snake_case)]
    pub fn P0() -> (p: PartyId)
        ensures
            p@ == 0,
    {
        PartyId(0)
    }

    /// Party 1.
    #[allow(non_snake_case)]
    pub fn P1() -> (p: PartyId)
        ensures
            p@ == 1,
    {
        PartyId(1)
    }

    /// Party 2.
    #[allow(non_snake_case)]
    pub fn P2() -> (p: PartyId)
        ensures
            p@ == 2,
    {
        PartyId(2)
    }

    /// Accepts exactly the party numbers 0, 1 and 2.
    pub fn new(value: u8) -> (r: Result<PartyId>)
        ensures
            value < 3 <==> r is Ok,
            r matches Ok(p) ==> p@ == value,
            r matches Err(e) ==> e == MpcError::InvalidPartyId(value),
    {
        if value < PARTY_COUNT as u8 {
            Ok(PartyId(value))
        } else {
            Err(MpcError::InvalidPartyId(value))
        }
    }

    pub fn index(self) -> (r: usize)
        ensures
            r == self@,
            r < 3,
    {
        proof {
            use_type_invariant(self);
        }
        self.0 as usize
    }

    pub fn as_u8(self) -> (r: u8)
        ensures
            r == self@,
            r < 3,
    {
        proof {
            use_type_invariant(self);
        }
        self.0
    }

    /// The party that follows this one in the ring.
    pub fn next(self) -> (r: PartyId)
        ensures
            r@ == next_index(self@),
    {
        proof {
            use_type_invariant(self);
        }
        PartyId((self.0 + 1) % PARTY_COUNT as u8)
    }

    /// The party that precedes this one in the ring.
    pub fn prev(self) -> (r: PartyId)
        ensures
            r@ == prev_index(self@),
    {
        proof {
            use_type_invariant(self);
        }
        PartyId((self.0 + PARTY_COUNT as u8 - 1) % PARTY_COUNT as u8)
    }

    /// All three parties, in order.
    pub fn all() -> (r: [PartyId; 3])
        ensures
            r[0]@ == 0,
            r[1]@ == 1,
            r[2]@ == 2,
    {
        [PartyId(0), PartyId(1), PartyId(2)]
    }
}

/// Stepping forward and then back (or back and then forward) returns to the
/// same party, and three steps forward go all the way round.
pub proof fn lemma_party_ring(i: nat)
    requires
        i < 3,
    ensures
        prev_index(next_index(i)) == i,
        next_index(prev_index(i)) == i,
        next_index(next_index(next_index(i))) == i,
        next_index(i) != i,
        prev_index(i) != i,
        next_index(i) != prev_index(i),
{
}

/// Domain separator for one MPC execution.
#[derive(Clone, Copy, Debug, Eq, Hash)]
pub struct SessionId([u8; 32]);

impl PartialEq for SessionId {
    fn eq(&self, other: &SessionId) -> (r: bool) {
        let mut i: usize = 0;
        while i < 32
            invariant
                i <= 32,
                forall|j: int| 0 <= j < i ==> self.0@[j] == other.0@[j],
            decreases 32 - i,
        {
            if self.0[i] != other.0[i] {
                return false;
            }
            i = i + 1;
        }
        assert(self.0@ =~= other.0@);
        true
    }
}

impl vstd::std_specs::cmp::PartialEqSpecImpl for SessionId {
    open spec fn obeys_eq_spec() -> bool {
        true
    }

    open spec fn eq_spec(&self, other: &SessionId) -> bool {
        self@ == other@
    }
}

impl View for SessionId {
    type V = Seq<u8>;

    closed spec fn view(&self) -> Seq<u8> {
        self.0@
    }
}

/// The test session id for `value`: the big-endian bytes of `value`, of its
/// bitwise complement, and sixteen zero bytes.
pub open spec fn testing_session_bytes(value: u64) -> Seq<u8> {
    u64_be(value) + u64_be(!value) + Seq::new(16, |i: int| 0u8)
}

impl SessionId {
    /// A session id is 32 bytes long, and two ids are the same value
    /// exactly when their bytes agree.
    pub broadcast proof fn lemma_view(a: SessionId, b: SessionId)
        ensures
            (#[trigger] a@).len() == 32,
            a@ == (#[trigger] b@) <==> a == b,
    {
        if a@ == b@ {
            assert(a.0 =~= b.0);
        }
    }

    pub fn new(bytes: [u8; 32]) -> (r: SessionId)
        ensures
            r@ == bytes@,
    {
        SessionId(bytes)
    }

    pub fn from_u64_for_testing(value: u64) -> (r: SessionId)
        ensures
            r@ == testing_session_bytes(value),
    {
        let mut v: Vec<u8> = Vec::new();
        push_u64_be(&mut v, value);
        push_u64_be(&mut v, !value);
        let mut bytes = [0u8; 32];
        let mut i: usize = 0;
        while i < 16
            invariant
                i <= 16,
                v@ == u64_be(value) + u64_be(!value),
                v@.len() == 16,
                forall|j: int| 0 <= j < i ==> bytes@[j] == v@[j],
                forall|j: int| 16 <= j < 32 ==> bytes@[j] == 0,
            decreases 16 - i,
        {
            bytes[i] = v[i];
            i = i + 1;
        }
        assert(bytes@ =~= testing_session_bytes(value));
        SessionId(bytes)
    }

    pub fn as_bytes(self) -> (r: [u8; 32])
        ensures
            r@ == self@,
    {
        self.0
    }
}

} // verus!
