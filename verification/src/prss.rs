//! Pseudorandom secret sharing: the masks that a party derives from the
//! seeds it shares with its neighbours, and the keystream both they and the
//! input sharing draw from.
use rand_chacha::ChaCha20Rng;
use rand_core::{RngCore, SeedableRng};
use sha2::{Digest, Sha256};
use vstd::prelude::*;

use crate::bytes::{lemma_u64_be_roundtrip, push_u64_be, u64_be};
use crate::ids::{prev_index, next_index, PartyId, SessionId, lemma_party_ring};
use crate::message::Prss;

verus! {

#[verifier::external_type_specification]
#[verifier::external_body]
pub struct ExChaCha20Rng(ChaCha20Rng);

/// SHA-256 of a byte string.
pub uninterp spec fn sha256_digest(data: Seq<u8>) -> Seq<u8>;

/// The `index`-th `u64` that `ChaCha20Rng::next_u64` yields from a generator
/// seeded with `seed`.
pub uninterp spec fn chacha20_u64(seed: Seq<u8>, index: nat) -> u64;

/// `sha2::Sha256::digest`: the result is the SHA-256 digest of `data`, a
/// function of `data` alone.
#[verifier::external_body]
fn sha256(data: &[u8]) -> (d: [u8; 32])
    ensures
        d@ == sha256_digest(data@),
{
    Sha256::digest(data).into()
}

/// A ChaCha20 keystream together with the seed it was made from and the
/// number of values drawn from it so far.
pub struct KeyStream {
    rng: ChaCha20Rng,
    seed: Ghost<Seq<u8>>,
    drawn: Ghost<nat>,
}

impl KeyStream {
    pub closed spec fn seed(&self) -> Seq<u8> {
        self.seed@
    }

    pub closed spec fn drawn(&self) -> nat {
        self.drawn@
    }

    /// `rand_chacha::ChaCha20Rng::from_seed`: a fresh generator for `seed`,
    /// from which nothing has been drawn.
    #[verifier::external_body]
    pub(crate) fn from_seed(seed: [u8; 32]) -> (s: KeyStream)
        ensures
            s.seed() == seed@,
            s.drawn() == 0,
    {
        KeyStream { rng: ChaCha20Rng::from_seed(seed), seed: Ghost(seed@), drawn: Ghost(0) }
    }

    /// `rand_core::RngCore::next_u64` on the generator: the value is the next
    /// one of the stream that its seed determines.
    #[verifier::external_body]
    pub(crate) fn next_u64(&mut self) -> (r: u64)
        ensures
            r == chacha20_u64(old(self).seed(), old(self).drawn()),
            final(self).seed() == old(self).seed(),
            final(self).drawn() == old(self).drawn() + 1,
    {
        let r = self.rng.next_u64();
        self.drawn = Ghost(self.drawn@ + 1);
        r
    }
}

/// `rand_core::OsRng::try_fill_bytes`: 32 bytes from the operating system's
/// entropy source, or `None` when that source fails. Nothing is stated of
/// the bytes.
#[verifier::external_body]
pub(crate) fn os_entropy_seed() -> (r: Option<[u8; 32]>) {
    let mut seed = [0u8; 32];
    match rand_core::OsRng.try_fill_bytes(&mut seed) {
        Ok(()) => Some(seed),
        Err(_) => None,
    }
}

/// The first `len` values of the ChaCha20 stream for `seed`.
pub open spec fn mask_stream(seed: Seq<u8>, len: nat) -> Seq<u64> {
    Seq::new(len, |i: int| chacha20_u64(seed, i as nat))
}

/// The bytes hashed to seed a PRSS stream: pair seed, session id, operation
/// label, big-endian counter and pair owner.
pub open spec fn prss_input(
    seed: Seq<u8>,
    session: Seq<u8>,
    op: Seq<u8>,
    counter: u64,
    pair_owner: nat,
) -> Seq<u8> {
    seed + session + op + u64_be(counter) + seq![pair_owner as u8]
}

/// The masks of the PRSS stream for one pair seed, domain-separated by
/// session, operation, counter and pair owner.
pub open spec fn prss_masks(
    seed: Seq<u8>,
    session: SessionId,
    op: Seq<u8>,
    counter: u64,
    pair_owner: nat,
    len: nat,
) -> Seq<u64> {
    mask_stream(sha256_digest(prss_input(seed, session@, op, counter, pair_owner)), len)
}

/// What a PRSS source is made of.
pub ghost struct PrssView {
    pub party_id: PartyId,
    pub session_id: SessionId,
    pub prev_seed: Seq<u8>,
    pub next_seed: Seq<u8>,
}

/// The masks that party `p.party_id` shares with the previous party.
pub open spec fn prev_masks(p: PrssView, op: Seq<u8>, counter: u64, len: nat) -> Seq<u64> {
    prss_masks(p.prev_seed, p.session_id, op, counter, prev_index(p.party_id@), len)
}

/// The masks that party `p.party_id` shares with the next party.
pub open spec fn next_masks(p: PrssView, op: Seq<u8>, counter: u64, len: nat) -> Seq<u64> {
    prss_masks(p.next_seed, p.session_id, op, counter, p.party_id@, len)
}

/// PRSS source for the Rep3 `u64` protocol.
#[derive(Clone)]
pub struct Rep3Prss {
    party_id: PartyId,
    session_id: SessionId,
    prev_seed: [u8; 32],
    next_seed: [u8; 32],
}

impl View for Rep3Prss {
    type V = PrssView;

    closed spec fn view(&self) -> PrssView {
        PrssView {
            party_id: self.party_id,
            session_id: self.session_id,
            prev_seed: self.prev_seed@,
            next_seed: self.next_seed@,
        }
    }
}

impl Rep3Prss {
    pub fn new(
        party_id: PartyId,
        session_id: SessionId,
        prev_seed: [u8; 32],
        next_seed: [u8; 32],
    ) -> (r: Rep3Prss)
        ensures
            r@ == (PrssView {
                party_id,
                session_id,
                prev_seed: prev_seed@,
                next_seed: next_seed@,
            }),
    {
        Rep3Prss { party_id, session_id, prev_seed, next_seed }
    }

    /// The keystream for one pair seed, seeded with the SHA-256 of the
    /// domain-separation input.
    fn stream(&self, seed: [u8; 32], op: &[u8], counter: u64, pair_owner: PartyId) -> (s:
        KeyStream)
        ensures
            s.seed() == sha256_digest(
                prss_input(seed@, self.session_id@, op@, counter, pair_owner@),
            ),
            s.drawn() == 0,
    {
        let mut input: Vec<u8> = Vec::new();
        let session = self.session_id.as_bytes();
        let mut i: usize = 0;
        while i < 32
            invariant
                i <= 32,
                input@ == seed@.subrange(0, i as int),
            decreases 32 - i,
        {
            input.push(seed[i]);
            i = i + 1;
            assert(input@ =~= seed@.subrange(0, i as int));
        }
        let ghost after_seed = input@;
        let mut j: usize = 0;
        while j < 32
            invariant
                j <= 32,
                session@.len() == 32,
                input@ == after_seed + session@.subrange(0, j as int),
            decreases 32 - j,
        {
            input.push(session[j]);
            j = j + 1;
            assert(input@ =~= after_seed + session@.subrange(0, j as int));
        }
        let ghost after_session = input@;
        let mut k: usize = 0;
        while k < op.len()
            invariant
                k <= op@.len(),
                input@ == after_session + op@.subrange(0, k as int),
            decreases op@.len() - k,
        {
            input.push(op[k]);
            k = k + 1;
            assert(input@ =~= after_session + op@.subrange(0, k as int));
        }
        push_u64_be(&mut input, counter);
        input.push(pair_owner.as_u8());
        assert(seed@.subrange(0, 32) =~= seed@);
        assert(session@.subrange(0, 32) =~= session@);
        assert(op@.subrange(0, op@.len() as int) =~= op@);
        assert(input@ =~= prss_input(seed@, self.session_id@, op@, counter, pair_owner@));
        let digest = sha256(input.as_slice());
        KeyStream::from_seed(digest)
    }
}

impl Prss for Rep3Prss {
    /// The masks shared with the previous party and with the next party.
    fn next_pair_masks(&self, op: &[u8], counter: u64, len: usize) -> (r: (Vec<u64>, Vec<u64>))
        ensures
            r.0@ == prev_masks(self@, op@, counter, len as nat),
            r.1@ == next_masks(self@, op@, counter, len as nat),
    {
        let mut prev_rng = self.stream(self.prev_seed, op, counter, self.party_id.prev());
        let mut next_rng = self.stream(self.next_seed, op, counter, self.party_id);
        let mut prev: Vec<u64> = Vec::new();
        let mut next: Vec<u64> = Vec::new();
        let ghost prev_all = prev_masks(self@, op@, counter, len as nat);
        let ghost next_all = next_masks(self@, op@, counter, len as nat);
        let mut i: usize = 0;
        while i < len
            invariant
                i <= len,
                prev_rng.drawn() == i,
                next_rng.drawn() == i,
                prev_rng.seed() == sha256_digest(
                    prss_input(
                        self.prev_seed@,
                        self.session_id@,
                        op@,
                        counter,
                        prev_index(self.party_id@),
                    ),
                ),
                next_rng.seed() == sha256_digest(
                    prss_input(self.next_seed@, self.session_id@, op@, counter, self.party_id@),
                ),
                prev_all == prev_masks(self@, op@, counter, len as nat),
                next_all == next_masks(self@, op@, counter, len as nat),
                prev@ == prev_all.subrange(0, i as int),
                next@ == next_all.subrange(0, i as int),
            decreases len - i,
        {
            let a = prev_rng.next_u64();
            let b = next_rng.next_u64();
            prev.push(a);
            next.push(b);
            i = i + 1;
            assert(prev@ =~= prev_all.subrange(0, i as int));
            assert(next@ =~= next_all.subrange(0, i as int));
        }
        assert(prev@ =~= prev_all);
        assert(next@ =~= next_all);
        (prev, next)
    }
}

/// Neighbouring parties agree on the masks of the seed they share: when
/// party `b` follows party `a`, both run in the same session and `a`'s next
/// seed is `b`'s previous seed, `a`'s next masks are `b`'s previous masks.
pub proof fn lemma_prss_pairs_agree(a: PrssView, b: PrssView, op: Seq<u8>, counter: u64, len: nat)
    requires
        a.party_id@ < 3,
        b.party_id@ == next_index(a.party_id@),
        a.session_id == b.session_id,
        a.next_seed == b.prev_seed,
    ensures
        next_masks(a, op, counter, len) == prev_masks(b, op, counter, len),
{
    lemma_party_ring(a.party_id@);
}

/// Domain separation of the PRSS inputs: with 32-byte pair seeds and
/// session ids, two inputs that differ in pair seed, session id, operation
/// label, counter or pair owner are different byte strings.
pub proof fn lemma_prss_input_separates(
    seed1: Seq<u8>,
    session1: Seq<u8>,
    op1: Seq<u8>,
    counter1: u64,
    owner1: nat,
    seed2: Seq<u8>,
    session2: Seq<u8>,
    op2: Seq<u8>,
    counter2: u64,
    owner2: nat,
)
    requires
        seed1.len() == 32,
        seed2.len() == 32,
        session1.len() == 32,
        session2.len() == 32,
        owner1 < 3,
        owner2 < 3,
        seed1 != seed2 || session1 != session2 || op1 != op2 || counter1 != counter2 || owner1
            != owner2,
    ensures
        prss_input(seed1, session1, op1, counter1, owner1) != prss_input(
            seed2,
            session2,
            op2,
            counter2,
            owner2,
        ),
{
    let a = prss_input(seed1, session1, op1, counter1, owner1);
    let b = prss_input(seed2, session2, op2, counter2, owner2);
    if a == b {
        assert(a.len() == 64 + op1.len() + 9);
        assert(op1.len() == op2.len());
        let at: int = (64 + op1.len()) as int;
        assert(a.subrange(0, 32) =~= seed1);
        assert(b.subrange(0, 32) =~= seed2);
        assert(a.subrange(32, 64) =~= session1);
        assert(b.subrange(32, 64) =~= session2);
        assert(a.subrange(64, at) =~= op1);
        assert(b.subrange(64, at) =~= op2);
        assert(a.subrange(at, at + 8) =~= u64_be(counter1));
        assert(b.subrange(at, at + 8) =~= u64_be(counter2));
        lemma_u64_be_roundtrip(counter1);
        lemma_u64_be_roundtrip(counter2);
        assert(a[at + 8] == owner1 as u8);
        assert(b[at + 8] == owner2 as u8);
    }
}

} // verus!
