//! The Rep3 protocol for one party, as a state machine: each networked
//! operation is split into a step that decides what to send and what to wait
//! for, and steps that take what arrived. The caller moves the messages.
use std::collections::VecDeque;

use vstd::prelude::*;

use crate::codec::{
    lemma_share_pairs_roundtrip, lemma_u64_vec_roundtrip,
    decode_share_pairs, decode_u64_vec, decoded_share_pairs, decoded_u64_vec, encode_share_pairs,
    encode_u64_vec, encoded_share_pairs, encoded_u64_vec, share_views,
};
use crate::error::{MpcError, Result};
use crate::ids::{next_index, prev_index, PartyId, SessionId};
use crate::laws::{
    consistent_at, dealt_share, lemma_add_public_homomorphic, lemma_dealt_shares_reconstruct, lemma_local_mul_stepwise,
    lemma_mul_protocol_correct, lemma_share_sum_homomorphic, local_mul, masked, share_sum,
    wrapping_sum,
};
use crate::message::{MessageKind, MessageView, NetMessage, Prss, ShareScheme};
use crate::prss::{
    chacha20_u64, lemma_prss_pairs_agree, next_masks, os_entropy_seed, prev_masks, KeyStream,
    PrssView, Rep3Prss,
};
use crate::ring::{lemma_wrap_ops, wrap, WrappingU64};
use crate::secret::{
    consistent, reconstruct, share_add, share_add_public, share_mul_public, share_sub, share_sub_public, MpcConfig,
    Rep3ShareU64, SecretU64, SecretVecU64, ShareView,
};

verus! {

/// Marker type for the replicated 3-party `u64` sharing scheme.
pub struct Rep3U64;

impl ShareScheme for Rep3U64 {
    type Secret = SecretU64;

    type SecretVector = SecretVecU64;

    const PARTY_COUNT: usize = 3;
}

/// The operation label of the multiplication masks, `"rep3-u64-mul"`.
pub open spec fn mul_label() -> Seq<u8> {
    seq![114u8, 101u8, 112u8, 51u8, 45u8, 117u8, 54u8, 52u8, 45u8, 109u8, 117u8, 108u8]
}

fn mul_label_bytes() -> (r: Vec<u8>)
    ensures
        r@ == mul_label(),
{
    let r: Vec<u8> = vec![114u8, 101u8, 112u8, 51u8, 45u8, 117u8, 54u8, 52u8, 45u8, 109u8, 117u8, 108u8];
    assert(r@ =~= mul_label());
    r
}

/// Party `i`'s local multiplication component
/// `x_i y_i + x_i y_{i+1} + x_{i+1} y_i mod 2^64`.
pub fn local_mul_component(lhs: Rep3ShareU64, rhs: Rep3ShareU64) -> (r: u64)
    ensures
        r == local_mul(lhs@, rhs@),
{
    let own_own = WrappingU64::mul(lhs.own(), rhs.own());
    let own_next = WrappingU64::mul(lhs.own(), rhs.next());
    let next_own = WrappingU64::mul(lhs.next(), rhs.own());
    let r = own_own.wrapping_add(own_next).wrapping_add(next_own);
    proof {
        lemma_local_mul_stepwise(lhs@, rhs@);
    }
    r
}

/// What a party waits for: a message of this kind and counter, from this
/// sender when one is named.
#[derive(Clone, Copy, Debug)]
pub struct Expected {
    pub from: Option<PartyId>,
    pub kind: MessageKind,
    pub counter: u64,
}

/// Message `m` is the one awaited: its kind and counter agree, and so does
/// its sender when one is named.
pub open spec fn matches_expected(m: MessageView, from: Option<PartyId>, kind: MessageKind, counter: u64) -> bool {
    m.kind == kind && m.counter == counter && (from matches Some(f) ==> m.from == f)
}

fn message_matches(
    message: &NetMessage,
    from: Option<PartyId>,
    kind: MessageKind,
    counter: u64,
) -> (r: bool)
    ensures
        r == matches_expected(message@, from, kind, counter),
{
    message.kind == kind && message.counter == counter && match from {
        Some(f) => message.from == f,
        None => true,
    }
}

/// The shares that dealing `values` gives party `p`, when the `k`-th value is
/// dealt with the stream values at `start + 2k` and `start + 2k + 1`.
pub open spec fn deal_table(values: Seq<u64>, seed: Seq<u8>, start: nat, p: nat) -> Seq<ShareView> {
    Seq::new(
        values.len(),
        |k: int|
            dealt_share(
                values[k],
                chacha20_u64(seed, (start + 2 * k) as nat),
                chacha20_u64(seed, (start + 2 * k + 1) as nat),
                p,
            ),
    )
}

/// The message `from` sends `to` in step `counter`.
pub open spec fn outgoing(
    session: SessionId,
    from: PartyId,
    to: PartyId,
    kind: MessageKind,
    counter: u64,
    payload: Seq<u8>,
) -> MessageView {
    MessageView { session_id: session, from, to, kind, counter, payload }
}

/// The product shares `(z_i[k], z_{i+1}[k])` from this party's own masked
/// components and those of the next party.
pub open spec fn product_shares(own: Seq<u64>, next: Seq<u64>) -> Seq<ShareView> {
    Seq::new(own.len(), |k: int| (own[k], next[k]))
}

/// The first step of sharing private inputs.
pub enum InputStep {
    /// The owner's own shares, and the messages that carry the other
    /// parties' shares to them.
    Dealt { own: SecretVecU64, outgoing: Vec<NetMessage> },
    /// What a party other than the owner waits for.
    Receive(Expected),
}

/// The components of an opening collected so far, by party.
pub struct OpenComponents {
    len: usize,
    absorbed: usize,
    c0: Option<Vec<u64>>,
    c1: Option<Vec<u64>>,
    c2: Option<Vec<u64>>,
}

impl View for OpenComponents {
    type V = (nat, Option<Seq<u64>>, Option<Seq<u64>>, Option<Seq<u64>>);

    closed spec fn view(&self) -> (nat, Option<Seq<u64>>, Option<Seq<u64>>, Option<Seq<u64>>) {
        (
            self.len as nat,
            match self.c0 {
                Some(v) => Some(v@),
                None => None,
            },
            match self.c1 {
                Some(v) => Some(v@),
                None => None,
            },
            match self.c2 {
                Some(v) => Some(v@),
                None => None,
            },
        )
    }
}

/// The component of party `p` in a collection.
pub open spec fn component(c: (nat, Option<Seq<u64>>, Option<Seq<u64>>, Option<Seq<u64>>), p: nat) -> Option<Seq<u64>> {
    if p == 0 {
        c.1
    } else if p == 1 {
        c.2
    } else {
        c.3
    }
}

/// The collection with party `p`'s component set to `v`.
pub open spec fn with_component(c: (nat, Option<Seq<u64>>, Option<Seq<u64>>, Option<Seq<u64>>), p: nat, v: Seq<u64>) -> (nat, Option<Seq<u64>>, Option<Seq<u64>>, Option<Seq<u64>>) {
    if p == 0 {
        (c.0, Some(v), c.2, c.3)
    } else if p == 1 {
        (c.0, c.1, Some(v), c.3)
    } else {
        (c.0, c.1, c.2, Some(v))
    }
}

impl OpenComponents {
    #[verifier::type_invariant]
    spec fn lengths_match(self) -> bool {
        &&& self.absorbed <= 2
        &&& (self.c0 matches Some(v) ==> v@.len() == self.len)
        &&& (self.c1 matches Some(v) ==> v@.len() == self.len)
        &&& (self.c2 matches Some(v) ==> v@.len() == self.len)
    }
}

/// The opened values: component-wise wrapping sums of the three parties'
/// components.
pub open spec fn opened_values(a: Seq<u64>, b: Seq<u64>, c: Seq<u64>, len: nat) -> Seq<u64> {
    Seq::new(len, |i: int| wrap(a[i] + b[i] + c[i]))
}

/// The first step of opening: the own components, the messages that carry
/// them to the two peers, and what to wait for.
pub struct OpenStep {
    pub components: OpenComponents,
    pub outgoing: Vec<NetMessage>,
    pub expect: Expected,
}

/// The first step of multiplying: the masked own components, the message
/// that carries them to the previous party, and what to wait for.
pub struct MulStep {
    pub own: Vec<u64>,
    pub outgoing: NetMessage,
    pub expect: Expected,
}

/// The parties other than `p`, in increasing order.
pub open spec fn peers_of(p: nat) -> Seq<nat> {
    if p == 0 {
        seq![1nat, 2nat]
    } else if p == 1 {
        seq![0nat, 2nat]
    } else {
        seq![0nat, 1nat]
    }
}

/// The own components of a vector of shares.
pub open spec fn own_components(shares: Seq<Rep3ShareU64>) -> Seq<u64> {
    Seq::new(shares.len(), |i: int| shares[i]@.0)
}

/// The masked local multiplication components of party `prss.party_id` for
/// the operation with counter `counter`.
pub open spec fn masked_products(
    lhs: Seq<Rep3ShareU64>,
    rhs: Seq<Rep3ShareU64>,
    prss: PrssView,
    counter: u64,
) -> Seq<u64> {
    Seq::new(
        lhs.len(),
        |k: int|
            masked(
                local_mul(lhs[k]@, rhs[k]@),
                next_masks(prss, mul_label(), counter, lhs.len())[k],
                prev_masks(prss, mul_label(), counter, lhs.len())[k],
            ),
    )
}

impl OpenComponents {
    /// How many peer messages have been absorbed, counted up to two.
    pub closed spec fn absorbed_count(&self) -> nat {
        self.absorbed as nat
    }

    /// Whether a peer message is still awaited: an opening takes one
    /// message from each of the two peers.
    pub fn awaiting(&self) -> (r: bool)
        ensures
            r == (self.absorbed_count() < 2),
    {
        self.absorbed < 2
    }

    /// Records the component that `message` carries, for its sender.
    pub fn absorb(&mut self, message: &NetMessage) -> (r: Result<()>)
        ensures
            decoded_u64_vec(message.payload@) is Some && decoded_u64_vec(message.payload@)->0.len()
                == old(self)@.0 ==> r is Ok && final(self)@ == with_component(
                old(self)@,
                message.from@,
                decoded_u64_vec(message.payload@)->0,
            ),
            decoded_u64_vec(message.payload@) is Some && decoded_u64_vec(message.payload@)->0.len()
                != old(self)@.0 ==> (r matches Err(e) && e == (MpcError::LengthMismatch {
                left: old(self)@.0 as usize,
                right: decoded_u64_vec(message.payload@)->0.len() as usize,
            })),
            decoded_u64_vec(message.payload@) is None ==> r is Err && (message.payload@.len() < 4
                ==> (r matches Err(MpcError::Protocol(s)) && s@ == "short u64 vector payload"@))
                && (message.payload@.len() >= 4 ==> (r matches Err(MpcError::Protocol(s)) && s@
                == "u64 vector payload length mismatch"@)),
            r is Err ==> final(self)@ == old(self)@ && final(self).absorbed_count() == old(
                self,
            ).absorbed_count(),
            r is Ok ==> final(self).absorbed_count() == if old(self).absorbed_count() < 2 {
                old(self).absorbed_count() + 1
            } else {
                2
            },
    {
        proof {
            use_type_invariant(&*self);
        }
        let values = decode_u64_vec(message.payload.as_slice())?;
        if values.len() != self.len {
            return Err(MpcError::LengthMismatch { left: self.len, right: values.len() });
        }
        match message.from.index() {
            0 => {
                self.c0 = Some(values);
            },
            1 => {
                self.c1 = Some(values);
            },
            _ => {
                self.c2 = Some(values);
            },
        }
        if self.absorbed < 2 {
            self.absorbed = self.absorbed + 1;
        }
        Ok(())
    }

    /// Adds up the three components position by position; fails when a
    /// component is missing and there is at least one position.
    pub fn combine(self) -> (r: Result<Vec<u64>>)
        ensures
            self@.0 == 0 ==> (r matches Ok(v) && v@.len() == 0),
            self@.0 > 0 && (self@.1 is None || self@.2 is None || self@.3 is None) ==> (r matches Err(e) && e == MpcError::InvalidShareShape("missing open component")),
            self@.0 > 0 && self@.1 is Some && self@.2 is Some && self@.3 is Some ==> (r matches Ok(
                v,
            ) && v@ == opened_values(self@.1->0, self@.2->0, self@.3->0, self@.0)),
    {
        proof {
            use_type_invariant(&self);
        }
        let mut opened: Vec<u64> = Vec::new();
        if self.len == 0 {
            return Ok(opened);
        }
        let (a, b, c) = match (self.c0, self.c1, self.c2) {
            (Some(a), Some(b), Some(c)) => (a, b, c),
            _ => {
                return Err(MpcError::InvalidShareShape("missing open component"));
            },
        };
        let mut idx: usize = 0;
        while idx < self.len
            invariant
                idx <= self.len,
                a@.len() == self.len,
                b@.len() == self.len,
                c@.len() == self.len,
                opened@ == opened_values(a@, b@, c@, self.len as nat).subrange(0, idx as int),
            decreases self.len - idx,
        {
            let mut value: u64 = 0;
            value = value.wrapping_add(a[idx]);
            value = value.wrapping_add(b[idx]);
            value = value.wrapping_add(c[idx]);
            proof {
                crate::ring::lemma_wrap_sum3(a@[idx as int], b@[idx as int], c@[idx as int]);
            }
            opened.push(value);
            idx = idx + 1;
            assert(opened@ =~= opened_values(a@, b@, c@, self.len as nat).subrange(0, idx as int));
        }
        assert(opened@ =~= opened_values(a@, b@, c@, self.len as nat));
        Ok(opened)
    }
}

/// The single value of an opening of one share.
pub fn opened_scalar(values: &[u64]) -> (r: Result<u64>)
    ensures
        values@.len() > 0 ==> r == Ok::<u64, MpcError>(values@[0]),
        values@.len() == 0 ==> (r matches Err(e) && e == MpcError::InvalidShareShape(
            "missing opened scalar",
        )),
{
    if values.len() == 0 {
        return Err(MpcError::InvalidShareShape("missing opened scalar"));
    }
    Ok(values[0])
}

/// The state of the protocol for one party.
pub struct MpcSession {
    config: MpcConfig,
    prss: Rep3Prss,
    rng: KeyStream,
    counter: u64,
    pending: VecDeque<NetMessage>,
}

impl MpcSession {
    /// The PRSS source belongs to the session's own party and session.
    pub open spec fn wf(&self) -> bool {
        &&& self.prss_view().party_id == self.party()
        &&& self.prss_view().session_id == self.session()
    }

    pub closed spec fn party(&self) -> PartyId {
        self.config.party_id
    }

    pub closed spec fn session(&self) -> SessionId {
        self.config.session_id
    }

    /// The counter of the next networked operation.
    pub closed spec fn counter(&self) -> u64 {
        self.counter
    }

    /// Messages that arrived ahead of the operation they belong to.
    pub closed spec fn pending(&self) -> Seq<MessageView> {
        self.pending@.map_values(|m: NetMessage| m@)
    }

    pub closed spec fn prss_view(&self) -> PrssView {
        self.prss@
    }

    /// The seed of the generator that deals private inputs.
    pub closed spec fn rng_seed(&self) -> Seq<u8> {
        self.rng.seed()
    }

    /// How many values have been drawn from that generator.
    pub closed spec fn rng_drawn(&self) -> nat {
        self.rng.drawn()
    }

    /// Starts a session for the party and session of `config`, over a
    /// transport that belongs to `transport_party` and `transport_session`.
    pub fn new(config: MpcConfig, transport_party: PartyId, transport_session: SessionId) -> (r:
        Result<MpcSession>)
        ensures
            config.party_id != transport_party ==> (r matches Err(e) && e == (
            MpcError::PeerMismatch {
                expected: config.party_id@ as u8,
                actual: transport_party@ as u8,
            })),
            config.party_id == transport_party && config.session_id != transport_session ==> (r matches Err(e) && e == MpcError::SessionMismatch),
            config.party_id == transport_party && config.session_id == transport_session && config.rng_seed is Some ==> r is Ok,
            config.party_id == transport_party && config.session_id == transport_session && config.rng_seed is None ==> (r is Ok || (r matches Err(MpcError::Protocol(s)) && s@ == "entropy source unavailable"@)),
            r matches Ok(s) ==> {
                &&& s.wf()
                &&& s.party() == config.party_id
                &&& s.session() == config.session_id
                &&& s.counter() == 0
                &&& s.pending() == Seq::<MessageView>::empty()
                &&& s.prss_view() == (PrssView {
                    party_id: config.party_id,
                    session_id: config.session_id,
                    prev_seed: config.prss_prev_seed@,
                    next_seed: config.prss_next_seed@,
                })
                &&& s.rng_drawn() == 0
                &&& (config.rng_seed matches Some(seed) ==> s.rng_seed() == seed@)
            },
    {
        if config.party_id != transport_party {
            return Err(
                MpcError::PeerMismatch {
                    expected: config.party_id.as_u8(),
                    actual: transport_party.as_u8(),
                },
            );
        }
        proof {
            SessionId::lemma_view(config.session_id, transport_session);
        }
        if config.session_id != transport_session {
            return Err(MpcError::SessionMismatch);
        }
        let rng = match config.rng_seed {
            Some(seed) => KeyStream::from_seed(seed),
            None => match os_entropy_seed() {
                Some(seed) => KeyStream::from_seed(seed),
                None => {
                    return Err(MpcError::Protocol("entropy source unavailable".to_string()));
                },
            },
        };
        let prss = Rep3Prss::new(
            config.party_id,
            config.session_id,
            config.prss_prev_seed,
            config.prss_next_seed,
        );
        let s = MpcSession { config, prss, rng, counter: 0, pending: VecDeque::new() };
        assert(s.pending() =~= Seq::<MessageView>::empty());
        Ok(s)
    }

    pub fn party_id(&self) -> (r: PartyId)
        ensures
            r == self.party(),
    {
        self.config.party_id
    }

    pub fn session_id(&self) -> (r: SessionId)
        ensures
            r == self.session(),
    {
        self.config.session_id
    }

    pub fn add(&self, lhs: &SecretU64, rhs: &SecretU64) -> (r: Result<SecretU64>)
        ensures
            lhs@.0 == rhs@.0 <==> r is Ok,
            r matches Ok(s) ==> s@ == (lhs@.0, share_add(lhs@.1, rhs@.1)),
            r matches Err(e) ==> e == (MpcError::PeerMismatch {
                expected: lhs@.0@ as u8,
                actual: rhs@.0@ as u8,
            }),
    {
        lhs.add(rhs)
    }

    pub fn sub(&self, lhs: &SecretU64, rhs: &SecretU64) -> (r: Result<SecretU64>)
        ensures
            lhs@.0 == rhs@.0 <==> r is Ok,
            r matches Ok(s) ==> s@ == (lhs@.0, share_sub(lhs@.1, rhs@.1)),
            r matches Err(e) ==> e == (MpcError::PeerMismatch {
                expected: lhs@.0@ as u8,
                actual: rhs@.0@ as u8,
            }),
    {
        lhs.sub(rhs)
    }

    pub fn add_public(&self, lhs: &SecretU64, rhs: u64) -> (r: SecretU64)
        ensures
            r@ == (lhs@.0, share_add_public(lhs@.1, lhs@.0@, rhs)),
    {
        lhs.add_public(rhs)
    }

    pub fn sub_public(&self, lhs: &SecretU64, rhs: u64) -> (r: SecretU64)
        ensures
            r@ == (lhs@.0, share_sub_public(lhs@.1, lhs@.0@, rhs)),
    {
        lhs.sub_public(rhs)
    }

    pub fn mul_public(&self, lhs: &SecretU64, rhs: u64) -> (r: SecretU64)
        ensures
            r@ == (lhs@.0, share_mul_public(lhs@.1, rhs)),
    {
        lhs.mul_public(rhs)
    }

    /// Sums a vector of this party's shares into one share.
    pub fn sum(&self, values: &SecretVecU64) -> (r: Result<SecretU64>)
        ensures
            values@.0 == self.party() <==> r is Ok,
            r matches Err(e) ==> e == (MpcError::PeerMismatch {
                expected: self.party()@ as u8,
                actual: values@.0@ as u8,
            }),
            r matches Ok(s) ==> s@ == (self.party(), share_sum(share_views(values@.1))),
    {
        self.ensure_vec_party(values)?;
        let shares = values.shares();
        let mut own: u64 = 0;
        let mut next: u64 = 0;
        let mut i: usize = 0;
        while i < shares.len()
            invariant
                i <= shares@.len(),
                shares@ == values@.1,
                (own, next) == share_sum(share_views(shares@.subrange(0, i as int))),
            decreases shares@.len() - i,
        {
            own = own.wrapping_add(shares[i].own());
            next = next.wrapping_add(shares[i].next());
            proof {
                lemma_wrap_ops(0, 0);
                assert(share_views(shares@.subrange(0, i + 1)).drop_last() =~= share_views(
                    shares@.subrange(0, i as int),
                ));
            }
            i = i + 1;
        }
        assert(shares@.subrange(0, shares@.len() as int) =~= shares@);
        Ok(SecretU64::from_share(self.config.party_id, Rep3ShareU64::new(own, next)))
    }

    /// The share of a single value: the first share of `values`, held by this
    /// party.
    pub fn scalar_of(&self, values: &SecretVecU64, missing: &'static str) -> (r: Result<SecretU64>)
        ensures
            values@.1.len() > 0 ==> (r matches Ok(s) && s@ == (self.party(), values@.1[0]@)),
            values@.1.len() == 0 ==> (r matches Err(e) && e == MpcError::InvalidShareShape(missing)),
    {
        let shares = values.shares();
        if shares.len() == 0 {
            return Err(MpcError::InvalidShareShape(missing));
        }
        Ok(SecretU64::from_share(self.config.party_id, shares[0]))
    }

    /// The message this party sends `to` in step `counter`.
    fn message_to(&self, to: PartyId, kind: MessageKind, counter: u64, payload: Vec<u8>) -> (r:
        NetMessage)
        ensures
            r@ == outgoing(self.session(), self.party(), to, kind, counter, payload@),
    {
        NetMessage {
            session_id: self.config.session_id,
            from: self.config.party_id,
            to,
            kind,
            counter,
            payload,
        }
    }

    /// First step of sharing the private inputs `values` of `owner`. The
    /// owner deals each value with two fresh values from its generator and
    /// gets its own shares and the messages for the other two parties; the
    /// others get what to wait for.
    pub fn begin_private_inputs(&mut self, owner: PartyId, values: &[u64]) -> (r: Result<
        InputStep,
    >)
        ensures
            old(self).wf() ==> final(self).wf(),
            final(self).party() == old(self).party(),
            final(self).session() == old(self).session(),
            final(self).prss_view() == old(self).prss_view(),
            final(self).rng_seed() == old(self).rng_seed(),
            final(self).pending() == old(self).pending(),
            old(self).counter() == u64::MAX ==> (r matches Err(MpcError::Protocol(s)) && s@
                == "operation counter overflow"@ && final(self).counter() == old(self).counter()
                && final(self).rng_drawn() == old(self).rng_drawn()),
            old(self).counter() < u64::MAX ==> r is Ok && final(self).counter() == old(self).counter() + 1,
            r matches Ok(InputStep::Receive(e)) ==> owner != old(self).party() && e.from == Some(
                owner,
            ) && e.kind == MessageKind::PrivateInput && e.counter == old(self).counter() && final(self).rng_drawn() == old(self).rng_drawn(),
            r matches Ok(InputStep::Dealt { own, outgoing: out }) ==> {
                let seed = old(self).rng_seed();
                let start = old(self).rng_drawn();
                &&& owner == old(self).party()
                &&& own@.0 == owner
                &&& share_views(own@.1) == deal_table(values@, seed, start, owner@)
                &&& final(self).rng_drawn() == start + 2 * values@.len()
                &&& out@.len() == 2
                &&& forall|j: int|
                    0 <= j < 2 ==> (#[trigger] out@[j]).to@ == peers_of(owner@)[j] && out@[j]@
                        == outgoing(
                        old(self).session(),
                        owner,
                        out@[j].to,
                        MessageKind::PrivateInput,
                        old(self).counter(),
                        encoded_share_pairs(deal_table(values@, seed, start, out@[j].to@)),
                    )
            },
    {
        let counter = self.next_counter()?;
        if self.config.party_id != owner {
            return Ok(
                InputStep::Receive(
                    Expected { from: Some(owner), kind: MessageKind::PrivateInput, counter },
                ),
            );
        }
        let ghost seed = self.rng.seed();
        let ghost start = self.rng.drawn();
        let ghost config = self.config;
        let ghost prss = self.prss;
        let ghost pending = self.pending;
        let mut v0: Vec<Rep3ShareU64> = Vec::new();
        let mut v1: Vec<Rep3ShareU64> = Vec::new();
        let mut v2: Vec<Rep3ShareU64> = Vec::new();
        let mut k: usize = 0;
        while k < values.len()
            invariant
                k <= values@.len(),
                self.rng.seed() == seed,
                self.rng.drawn() == start + 2 * k,
                self.config == config,
                self.prss == prss,
                self.pending == pending,
                self.counter == counter + 1,
                v0@.len() == k,
                v1@.len() == k,
                v2@.len() == k,
                forall|i: int|
                    0 <= i < k ==> (#[trigger] v0@[i])@ == deal_table(values@, seed, start, 0)[i],
                forall|i: int|
                    0 <= i < k ==> (#[trigger] v1@[i])@ == deal_table(values@, seed, start, 1)[i],
                forall|i: int|
                    0 <= i < k ==> (#[trigger] v2@[i])@ == deal_table(values@, seed, start, 2)[i],
            decreases values@.len() - k,
        {
            let x0 = self.rng.next_u64();
            let x1 = self.rng.next_u64();
            let x2 = WrappingU64::sub(WrappingU64::sub(values[k], x0), x1);
            proof {
                lemma_wrap_ops(values[k as int] - x0, x1 as int);
            }
            v0.push(Rep3ShareU64::new(x0, x1));
            v1.push(Rep3ShareU64::new(x1, x2));
            v2.push(Rep3ShareU64::new(x2, x0));
            k = k + 1;
        }
        assert(share_views(v0@) =~= deal_table(values@, seed, start, 0));
        assert(share_views(v1@) =~= deal_table(values@, seed, start, 1));
        assert(share_views(v2@) =~= deal_table(values@, seed, start, 2));
        let me = self.config.party_id;
        let mut out: Vec<NetMessage> = Vec::new();
        let own = match me.index() {
            0 => {
                out.push(
                    self.message_to(
                        PartyId::P1(),
                        MessageKind::PrivateInput,
                        counter,
                        encode_share_pairs(v1.as_slice()),
                    ),
                );
                out.push(
                    self.message_to(
                        PartyId::P2(),
                        MessageKind::PrivateInput,
                        counter,
                        encode_share_pairs(v2.as_slice()),
                    ),
                );
                v0
            },
            1 => {
                out.push(
                    self.message_to(
                        PartyId::P0(),
                        MessageKind::PrivateInput,
                        counter,
                        encode_share_pairs(v0.as_slice()),
                    ),
                );
                out.push(
                    self.message_to(
                        PartyId::P2(),
                        MessageKind::PrivateInput,
                        counter,
                        encode_share_pairs(v2.as_slice()),
                    ),
                );
                v1
            },
            _ => {
                out.push(
                    self.message_to(
                        PartyId::P0(),
                        MessageKind::PrivateInput,
                        counter,
                        encode_share_pairs(v0.as_slice()),
                    ),
                );
                out.push(
                    self.message_to(
                        PartyId::P1(),
                        MessageKind::PrivateInput,
                        counter,
                        encode_share_pairs(v1.as_slice()),
                    ),
                );
                v2
            },
        };
        Ok(InputStep::Dealt { own: SecretVecU64::from_shares(me, own), outgoing: out })
    }

    /// Second step of sharing private inputs, for a party other than the
    /// owner: its shares, from the owner's message.
    pub fn finish_private_inputs(&self, message: &NetMessage) -> (r: Result<SecretVecU64>)
        ensures
            r is Ok <==> decoded_share_pairs(message.payload@) is Some,
            r matches Ok(v) ==> v@.0 == self.party() && decoded_share_pairs(message.payload@)
                == Some(share_views(v@.1)),
            message.payload@.len() < 4 ==> (r matches Err(MpcError::Protocol(s)) && s@
                == "short share-pair payload"@),
            message.payload@.len() >= 4 && decoded_share_pairs(message.payload@) is None ==> (
            r matches Err(MpcError::Protocol(s)) && s@ == "share-pair payload length mismatch"@),
    {
        let shares = decode_share_pairs(message.payload.as_slice())?;
        Ok(SecretVecU64::from_shares(self.config.party_id, shares))
    }

    /// First step of opening `secret`: this party's own components go to
    /// both peers, and it waits for theirs.
    pub fn begin_open_vec(&mut self, secret: &SecretVecU64) -> (r: Result<OpenStep>)
        ensures
            old(self).wf() ==> final(self).wf(),
            final(self).party() == old(self).party(),
            final(self).session() == old(self).session(),
            final(self).prss_view() == old(self).prss_view(),
            final(self).rng_seed() == old(self).rng_seed(),
            final(self).rng_drawn() == old(self).rng_drawn(),
            final(self).pending() == old(self).pending(),
            secret@.0 != old(self).party() ==> (r matches Err(e) && e == (MpcError::PeerMismatch {
                expected: old(self).party()@ as u8,
                actual: secret@.0@ as u8,
            }) && final(self).counter() == old(self).counter()),
            secret@.0 == old(self).party() && old(self).counter() == u64::MAX ==> (r matches Err(
                MpcError::Protocol(s),
            ) && s@ == "operation counter overflow"@ && final(self).counter() == old(self).counter()),
            secret@.0 == old(self).party() && old(self).counter() < u64::MAX ==> r is Ok
                && final(self).counter() == old(self).counter() + 1,
            r matches Ok(step) ==> {
                let me = old(self).party();
                let own = own_components(secret@.1);
                &&& step.components.absorbed_count() == 0
                &&& step.components@ == with_component(
                    (secret@.1.len(), None, None, None),
                    me@,
                    own,
                )
                &&& step.expect.from is None
                &&& step.expect.kind == MessageKind::Open
                &&& step.expect.counter == old(self).counter()
                &&& step.outgoing@.len() == 2
                &&& forall|j: int|
                    0 <= j < 2 ==> (#[trigger] step.outgoing@[j]).to@ == peers_of(me@)[j]
                        && step.outgoing@[j]@ == outgoing(
                        old(self).session(),
                        me,
                        step.outgoing@[j].to,
                        MessageKind::Open,
                        old(self).counter(),
                        encoded_u64_vec(own),
                    )
            },
    {
        self.ensure_vec_party(secret)?;
        let counter = self.next_counter()?;
        let shares = secret.shares();
        let mut own: Vec<u64> = Vec::new();
        let mut i: usize = 0;
        while i < shares.len()
            invariant
                i <= shares@.len(),
                own@ == own_components(shares@).subrange(0, i as int),
            decreases shares@.len() - i,
        {
            own.push(shares[i].own());
            i = i + 1;
            assert(own@ =~= own_components(shares@).subrange(0, i as int));
        }
        assert(own@ =~= own_components(shares@));
        let payload = encode_u64_vec(own.as_slice());
        let me = self.config.party_id;
        let mut out: Vec<NetMessage> = Vec::new();
        let len = own.len();
        let components = match me.index() {
            0 => {
                out.push(self.message_to(PartyId::P1(), MessageKind::Open, counter, payload.clone()));
                out.push(self.message_to(PartyId::P2(), MessageKind::Open, counter, payload));
                OpenComponents { len, absorbed: 0, c0: Some(own), c1: None, c2: None }
            },
            1 => {
                out.push(self.message_to(PartyId::P0(), MessageKind::Open, counter, payload.clone()));
                out.push(self.message_to(PartyId::P2(), MessageKind::Open, counter, payload));
                OpenComponents { len, absorbed: 0, c0: None, c1: Some(own), c2: None }
            },
            _ => {
                out.push(self.message_to(PartyId::P0(), MessageKind::Open, counter, payload.clone()));
                out.push(self.message_to(PartyId::P1(), MessageKind::Open, counter, payload));
                OpenComponents { len, absorbed: 0, c0: None, c1: None, c2: Some(own) }
            },
        };
        Ok(
            OpenStep {
                components,
                outgoing: out,
                expect: Expected { from: None, kind: MessageKind::Open, counter },
            },
        )
    }

    /// First step of multiplying `lhs` and `rhs` share by share: this
    /// party's masked local components go to the previous party, and it
    /// waits for those of the next party.
    pub fn begin_mul_vec(&mut self, lhs: &SecretVecU64, rhs: &SecretVecU64) -> (r: Result<
        MulStep,
    >)
        ensures
            old(self).wf() ==> final(self).wf(),
            final(self).party() == old(self).party(),
            final(self).session() == old(self).session(),
            final(self).prss_view() == old(self).prss_view(),
            final(self).rng_seed() == old(self).rng_seed(),
            final(self).rng_drawn() == old(self).rng_drawn(),
            final(self).pending() == old(self).pending(),
            lhs@.0 != old(self).party() ==> (r matches Err(e) && e == (MpcError::PeerMismatch {
                expected: old(self).party()@ as u8,
                actual: lhs@.0@ as u8,
            })),
            lhs@.0 == old(self).party() && rhs@.0 != old(self).party() ==> (r matches Err(e) && e
                == (MpcError::PeerMismatch {
                expected: old(self).party()@ as u8,
                actual: rhs@.0@ as u8,
            })),
            lhs@.0 == old(self).party() && rhs@.0 == old(self).party() && lhs@.1.len()
                != rhs@.1.len() ==> (r matches Err(e) && e == (MpcError::LengthMismatch {
                left: lhs@.1.len() as usize,
                right: rhs@.1.len() as usize,
            })),
            lhs@.0 == old(self).party() && rhs@.0 == old(self).party() && lhs@.1.len()
                == rhs@.1.len() && old(self).counter() == u64::MAX ==> (r matches Err(
                MpcError::Protocol(s),
            ) && s@ == "operation counter overflow"@),
            r is Err ==> final(self).counter() == old(self).counter(),
            lhs@.0 == old(self).party() && rhs@.0 == old(self).party() && lhs@.1.len()
                == rhs@.1.len() && old(self).counter() < u64::MAX ==> r is Ok,
            r matches Ok(step) ==> {
                let me = old(self).party();
                let c = old(self).counter();
                &&& final(self).counter() == c + 1
                &&& step.own@ == masked_products(lhs@.1, rhs@.1, old(self).prss_view(), c)
                &&& step.outgoing@ == outgoing(
                    old(self).session(),
                    me,
                    step.outgoing.to,
                    MessageKind::Multiply,
                    c,
                    encoded_u64_vec(step.own@),
                )
                &&& step.outgoing.to@ == prev_index(me@)
                &&& step.expect.from matches Some(f) && f@ == next_index(me@)
                &&& step.expect.kind == MessageKind::Multiply
                &&& step.expect.counter == c
            },
    {
        self.ensure_vec_party(lhs)?;
        self.ensure_vec_party(rhs)?;
        if lhs.len() != rhs.len() {
            return Err(MpcError::LengthMismatch { left: lhs.len(), right: rhs.len() });
        }
        let counter = self.next_counter()?;
        let label = mul_label_bytes();
        let (prev_masks_v, next_masks_v) = self.prss.next_pair_masks(
            label.as_slice(),
            counter,
            lhs.len(),
        );
        let ls = lhs.shares();
        let rs = rhs.shares();
        let ghost want = masked_products(lhs@.1, rhs@.1, self.prss@, counter);
        let mut own: Vec<u64> = Vec::new();
        let mut k: usize = 0;
        while k < ls.len()
            invariant
                k <= ls@.len(),
                ls@ == lhs@.1,
                rs@ == rhs@.1,
                ls@.len() == rs@.len(),
                prev_masks_v@ == prev_masks(self.prss@, mul_label(), counter, ls@.len()),
                next_masks_v@ == next_masks(self.prss@, mul_label(), counter, ls@.len()),
                want == masked_products(lhs@.1, rhs@.1, self.prss@, counter),
                own@ == want.subrange(0, k as int),
            decreases ls@.len() - k,
        {
            let local = local_mul_component(ls[k], rs[k]);
            let v = WrappingU64::sub(WrappingU64::add(local, next_masks_v[k]), prev_masks_v[k]);
            proof {
                lemma_wrap_ops(local + next_masks_v@[k as int], prev_masks_v@[k as int] as int);
            }
            own.push(v);
            k = k + 1;
            assert(own@ =~= want.subrange(0, k as int));
        }
        assert(own@ =~= want);
        let payload = encode_u64_vec(own.as_slice());
        let me = self.config.party_id;
        let outgoing = self.message_to(me.prev(), MessageKind::Multiply, counter, payload);
        Ok(
            MulStep {
                own,
                outgoing,
                expect: Expected { from: Some(me.next()), kind: MessageKind::Multiply, counter },
            },
        )
    }

    /// Second step of multiplying: the product shares `(z_i, z_{i+1})`, from
    /// this party's own components and those of the next party.
    pub fn finish_mul_vec(&self, own: Vec<u64>, message: &NetMessage) -> (r: Result<SecretVecU64>)
        ensures
            decoded_u64_vec(message.payload@) is None ==> r is Err && (message.payload@.len() < 4
                ==> (r matches Err(MpcError::Protocol(s)) && s@ == "short u64 vector payload"@))
                && (message.payload@.len() >= 4 ==> (r matches Err(MpcError::Protocol(s)) && s@
                == "u64 vector payload length mismatch"@)),
            decoded_u64_vec(message.payload@) is Some && decoded_u64_vec(message.payload@)->0.len()
                != own@.len() ==> (r matches Err(e) && e == (MpcError::LengthMismatch {
                left: own@.len() as usize,
                right: decoded_u64_vec(message.payload@)->0.len() as usize,
            })),
            decoded_u64_vec(message.payload@) is Some && decoded_u64_vec(message.payload@)->0.len()
                == own@.len() ==> (r matches Ok(v) && v@.0 == self.party() && share_views(v@.1)
                == product_shares(own@, decoded_u64_vec(message.payload@)->0)),
    {
        let next = decode_u64_vec(message.payload.as_slice())?;
        if next.len() != own.len() {
            return Err(MpcError::LengthMismatch { left: own.len(), right: next.len() });
        }
        let mut shares: Vec<Rep3ShareU64> = Vec::new();
        let mut k: usize = 0;
        while k < own.len()
            invariant
                k <= own@.len(),
                next@.len() == own@.len(),
                shares@.len() == k,
                forall|i: int| 0 <= i < k ==> (#[trigger] shares@[i])@ == (own@[i], next@[i]),
            decreases own@.len() - k,
        {
            shares.push(Rep3ShareU64::new(own[k], next[k]));
            k = k + 1;
        }
        assert(share_views(shares@) =~= product_shares(own@, next@));
        Ok(SecretVecU64::from_shares(self.config.party_id, shares))
    }

    /// Takes the first message set aside earlier that is the one expected.
    pub fn take_pending(&mut self, expect: Expected) -> (r: Option<NetMessage>)
        ensures
            old(self).wf() ==> final(self).wf(),
            final(self).party() == old(self).party(),
            final(self).session() == old(self).session(),
            final(self).prss_view() == old(self).prss_view(),
            final(self).rng_seed() == old(self).rng_seed(),
            final(self).rng_drawn() == old(self).rng_drawn(),
            final(self).counter() == old(self).counter(),
            r is None ==> final(self).pending() == old(self).pending() && forall|i: int|
                0 <= i < old(self).pending().len() ==> !matches_expected(
                    #[trigger] old(self).pending()[i],
                    expect.from,
                    expect.kind,
                    expect.counter,
                ),
            r matches Some(m) ==> exists|i: int|
                0 <= i < old(self).pending().len() && matches_expected(
                    #[trigger] old(self).pending()[i],
                    expect.from,
                    expect.kind,
                    expect.counter,
                ) && (forall|j: int|
                    0 <= j < i ==> !matches_expected(
                        #[trigger] old(self).pending()[j],
                        expect.from,
                        expect.kind,
                        expect.counter,
                    )) && m@ == old(self).pending()[i] && final(self).pending() == old(self).pending().remove(i),
    {
        let mut i: usize = 0;
        while i < self.pending.len()
            invariant
                i <= self.pending@.len(),
                *self == *old(self),
                forall|j: int|
                    0 <= j < i ==> !matches_expected(
                        #[trigger] self.pending@[j]@,
                        expect.from,
                        expect.kind,
                        expect.counter,
                    ),
            decreases self.pending@.len() - i,
        {
            if message_matches(&self.pending[i], expect.from, expect.kind, expect.counter) {
                let ghost before = self.pending@;
                let m = match self.pending.remove(i) {
                    Some(m) => m,
                    None => {
                        return None;
                    },
                };
                proof {
                    assert(self.pending@.map_values(|m: NetMessage| m@) =~= before.map_values(
                        |m: NetMessage| m@,
                    ).remove(i as int));
                    assert(old(self).pending()[i as int] == before[i as int]@);
                }
                return Some(m);
            }
            i = i + 1;
        }
        None
    }

    /// Takes a message that arrived while waiting for `expect`: the expected
    /// message is handed back, one of a later operation is set aside, and
    /// anything else is an error.
    pub fn accept_incoming(&mut self, message: NetMessage, expect: Expected) -> (r: Result<
        Option<NetMessage>,
    >)
        ensures
            old(self).wf() ==> final(self).wf(),
            final(self).party() == old(self).party(),
            final(self).session() == old(self).session(),
            final(self).prss_view() == old(self).prss_view(),
            final(self).rng_seed() == old(self).rng_seed(),
            final(self).rng_drawn() == old(self).rng_drawn(),
            final(self).counter() == old(self).counter(),
            matches_expected(message@, expect.from, expect.kind, expect.counter) ==> r == Ok::<
                Option<NetMessage>,
                MpcError,
            >(Some(message)) && final(self).pending() == old(self).pending(),
            !matches_expected(message@, expect.from, expect.kind, expect.counter) && message.counter
                > expect.counter ==> r == Ok::<Option<NetMessage>, MpcError>(None) && final(self).pending() == old(self).pending().push(message@),
            !matches_expected(message@, expect.from, expect.kind, expect.counter) && message.counter
                < expect.counter ==> (r matches Err(e) && e == (MpcError::CounterMismatch {
                expected: expect.counter,
                actual: message.counter,
            })),
            !matches_expected(message@, expect.from, expect.kind, expect.counter) && message.counter
                == expect.counter && message.kind != expect.kind ==> (r matches Err(e) && e == (
            MpcError::UnexpectedMessageKind { expected: expect.kind, actual: message.kind })),
            !matches_expected(message@, expect.from, expect.kind, expect.counter) && message.counter
                == expect.counter && message.kind == expect.kind ==> (expect.from matches Some(f)
                && r matches Err(e) && e == (MpcError::PeerMismatch {
                expected: f@ as u8,
                actual: message.from@ as u8,
            })),
            r is Err ==> final(self).pending() == old(self).pending(),
    {
        if message_matches(&message, expect.from, expect.kind, expect.counter) {
            return Ok(Some(message));
        }
        if message.counter > expect.counter {
            let ghost before = self.pending@;
            let ghost mv = message@;
            self.pending.push_back(message);
            proof {
                assert(self.pending@.map_values(|m: NetMessage| m@) =~= before.map_values(
                    |m: NetMessage| m@,
                ).push(mv));
            }
            return Ok(None);
        }
        if message.counter < expect.counter {
            return Err(
                MpcError::CounterMismatch { expected: expect.counter, actual: message.counter },
            );
        }
        if message.kind != expect.kind {
            return Err(
                MpcError::UnexpectedMessageKind { expected: expect.kind, actual: message.kind },
            );
        }
        match expect.from {
            Some(expected_from) => {
                proof {
                    PartyId::lemma_view_injective(message.from, expected_from);
                }
                Err(
                    MpcError::PeerMismatch {
                        expected: expected_from.as_u8(),
                        actual: message.from.as_u8(),
                    },
                )
            },
            None => Ok(None),
        }
    }

    fn next_counter(&mut self) -> (r: Result<u64>)
        ensures
            old(self).counter() < u64::MAX ==> (r matches Ok(c) && c == old(self).counter()
                && final(self).counter() == old(self).counter() + 1),
            old(self).counter() == u64::MAX ==> (r matches Err(MpcError::Protocol(s)) && s@
                == "operation counter overflow"@ && final(self).counter() == old(self).counter()),
            old(self).wf() ==> final(self).wf(),
            final(self).party() == old(self).party(),
            final(self).session() == old(self).session(),
            final(self).pending() == old(self).pending(),
            final(self).prss_view() == old(self).prss_view(),
            final(self).rng_seed() == old(self).rng_seed(),
            final(self).rng_drawn() == old(self).rng_drawn(),
    {
        let counter = self.counter;
        match self.counter.checked_add(1) {
            Some(c) => {
                self.counter = c;
                Ok(counter)
            },
            None => Err(MpcError::Protocol("operation counter overflow".to_string())),
        }
    }

    fn ensure_vec_party(&self, value: &SecretVecU64) -> (r: Result<()>)
        ensures
            value@.0 == self.party() <==> r is Ok,
            r matches Err(e) ==> e == (MpcError::PeerMismatch {
                expected: self.party()@ as u8,
                actual: value@.0@ as u8,
            }),
    {
        if value.party_id() == self.config.party_id {
            Ok(())
        } else {
            Err(
                MpcError::PeerMismatch {
                    expected: self.config.party_id.as_u8(),
                    actual: value.party_id().as_u8(),
                },
            )
        }
    }
}

/// Dealing private inputs gives the three parties consistent shares of each
/// input: `x0 + x1 + x2 = x mod 2^64`, with party `i` holding
/// `(x_i, x_{i+1})`.
pub proof fn lemma_deal_table_reconstructs(values: Seq<u64>, seed: Seq<u8>, start: nat)
    ensures
        forall|k: int|
            0 <= k < values.len() ==> consistent(
                #[trigger] deal_table(values, seed, start, 0)[k],
                deal_table(values, seed, start, 1)[k],
                deal_table(values, seed, start, 2)[k],
            ) && reconstruct(
                deal_table(values, seed, start, 0)[k],
                deal_table(values, seed, start, 1)[k],
                deal_table(values, seed, start, 2)[k],
            ) == values[k],
{
    assert forall|k: int| 0 <= k < values.len() implies consistent(
        #[trigger] deal_table(values, seed, start, 0)[k],
        deal_table(values, seed, start, 1)[k],
        deal_table(values, seed, start, 2)[k],
    ) && reconstruct(
        deal_table(values, seed, start, 0)[k],
        deal_table(values, seed, start, 1)[k],
        deal_table(values, seed, start, 2)[k],
    ) == values[k] by {
        lemma_dealt_shares_reconstruct(
            values[k],
            chacha20_u64(seed, (start + 2 * k) as nat),
            chacha20_u64(seed, (start + 2 * k + 1) as nat),
        );
    }
}

/// Opening reveals the shared values: when the three parties' vectors hold
/// consistent shares at every position, adding up their own components
/// gives the value at each position.
pub proof fn lemma_open_reveals(a: Seq<Rep3ShareU64>, b: Seq<Rep3ShareU64>, c: Seq<Rep3ShareU64>)
    requires
        a.len() == b.len(),
        b.len() == c.len(),
        forall|k: int| 0 <= k < a.len() ==> #[trigger] consistent_at(a, b, c, k),
    ensures
        opened_values(own_components(a), own_components(b), own_components(c), a.len())
            == Seq::new(a.len(), |k: int| reconstruct(a[k]@, b[k]@, c[k]@)),
{
    assert(opened_values(own_components(a), own_components(b), own_components(c), a.len())
        =~= Seq::new(a.len(), |k: int| reconstruct(a[k]@, b[k]@, c[k]@)));
}

/// The mask configuration of three parties fits together: party `i` is
/// party `i`, all run in one session, and each party's next seed is the
/// previous seed of the party after it.
pub open spec fn prss_ring(p0: PrssView, p1: PrssView, p2: PrssView) -> bool {
    &&& p0.party_id@ == 0
    &&& p1.party_id@ == 1
    &&& p2.party_id@ == 2
    &&& p0.session_id == p1.session_id
    &&& p1.session_id == p2.session_id
    &&& p0.next_seed == p1.prev_seed
    &&& p1.next_seed == p2.prev_seed
    &&& p2.next_seed == p0.prev_seed
}

/// Vector multiplication end to end: when the parties' masks fit together,
/// the product shares `(z_i[k], z_{i+1}[k])` built from the masked
/// components of `begin_mul_vec` are consistent and hold the products of the
/// shared values, position by position.
pub proof fn lemma_mul_vec_correct(
    l0: Seq<Rep3ShareU64>,
    l1: Seq<Rep3ShareU64>,
    l2: Seq<Rep3ShareU64>,
    r0: Seq<Rep3ShareU64>,
    r1: Seq<Rep3ShareU64>,
    r2: Seq<Rep3ShareU64>,
    p0: PrssView,
    p1: PrssView,
    p2: PrssView,
    counter: u64,
    k: int,
)
    requires
        l0.len() == l1.len(),
        l1.len() == l2.len(),
        l0.len() == r0.len(),
        r0.len() == r1.len(),
        r1.len() == r2.len(),
        0 <= k < l0.len(),
        consistent_at(l0, l1, l2, k),
        consistent_at(r0, r1, r2, k),
        prss_ring(p0, p1, p2),
    ensures
        ({
            let z0 = masked_products(l0, r0, p0, counter)[k];
            let z1 = masked_products(l1, r1, p1, counter)[k];
            let z2 = masked_products(l2, r2, p2, counter)[k];
            &&& consistent((z0, z1), (z1, z2), (z2, z0))
            &&& reconstruct((z0, z1), (z1, z2), (z2, z0)) == wrap(
                reconstruct(l0[k]@, l1[k]@, l2[k]@) * reconstruct(r0[k]@, r1[k]@, r2[k]@),
            )
        }),
{
    let n = l0.len();
    let label = mul_label();
    lemma_prss_pairs_agree(p0, p1, label, counter, n);
    lemma_prss_pairs_agree(p1, p2, label, counter, n);
    lemma_prss_pairs_agree(p2, p0, label, counter, n);
    let m0 = next_masks(p0, label, counter, n)[k];
    let m1 = next_masks(p1, label, counter, n)[k];
    let m2 = next_masks(p2, label, counter, n)[k];
    lemma_mul_protocol_correct(l0[k]@, l1[k]@, l2[k]@, r0[k]@, r1[k]@, r2[k]@, m0, m1, m2);
}

/// Summing the parties' share vectors, as `sum` does, gives consistent
/// shares of the wrapping sum of the shared values; applied to the product
/// shares of `mul_vec`, this is the dot product.
pub proof fn lemma_sum_reveals(a: Seq<Rep3ShareU64>, b: Seq<Rep3ShareU64>, c: Seq<Rep3ShareU64>)
    requires
        a.len() == b.len(),
        b.len() == c.len(),
        forall|k: int| 0 <= k < a.len() ==> #[trigger] consistent_at(a, b, c, k),
    ensures
        consistent(share_sum(share_views(a)), share_sum(share_views(b)), share_sum(share_views(c))),
        reconstruct(share_sum(share_views(a)), share_sum(share_views(b)), share_sum(share_views(c)))
            == wrapping_sum(Seq::new(a.len(), |k: int| reconstruct(a[k]@, b[k]@, c[k]@))),
{
    let (va, vb, vc) = (share_views(a), share_views(b), share_views(c));
    assert forall|k: int| 0 <= k < va.len() implies consistent(#[trigger] va[k], vb[k], vc[k]) by {
        assert(consistent_at(a, b, c, k));
    }
    lemma_share_sum_homomorphic(va, vb, vc);
    assert(Seq::new(va.len(), |k: int| reconstruct(va[k], vb[k], vc[k])) =~= Seq::new(
        a.len(),
        |k: int| reconstruct(a[k]@, b[k]@, c[k]@),
    ));
}

/// Private inputs across the three parties: the owner keeps
/// `deal_table(.., owner)`, and every other party decodes from the owner's
/// message exactly its own column of the table; the three columns are
/// consistent shares of the inputs.
pub proof fn lemma_private_inputs_three_parties(values: Seq<u64>, seed: Seq<u8>, start: nat)
    requires
        values.len() < 0x1_0000_0000,
    ensures
        forall|j: nat|
            j < 3 ==> #[trigger] decoded_share_pairs(
                encoded_share_pairs(deal_table(values, seed, start, j)),
            ) == Some(deal_table(values, seed, start, j)),
        forall|k: int|
            0 <= k < values.len() ==> consistent(
                #[trigger] deal_table(values, seed, start, 0)[k],
                deal_table(values, seed, start, 1)[k],
                deal_table(values, seed, start, 2)[k],
            ) && reconstruct(
                deal_table(values, seed, start, 0)[k],
                deal_table(values, seed, start, 1)[k],
                deal_table(values, seed, start, 2)[k],
            ) == values[k],
{
    assert forall|j: nat| j < 3 implies #[trigger] decoded_share_pairs(
        encoded_share_pairs(deal_table(values, seed, start, j)),
    ) == Some(deal_table(values, seed, start, j)) by {
        lemma_share_pairs_roundtrip(deal_table(values, seed, start, j));
    }
    lemma_deal_table_reconstructs(values, seed, start);
}

/// The own components of party `p`'s vector, among the three parties'.
pub open spec fn own_of(
    a: Seq<Rep3ShareU64>,
    b: Seq<Rep3ShareU64>,
    c: Seq<Rep3ShareU64>,
    p: nat,
) -> Seq<u64> {
    if p == 0 {
        own_components(a)
    } else if p == 1 {
        own_components(b)
    } else {
        own_components(c)
    }
}

/// Opening across the three parties: whichever peer's message arrives
/// first, once party `i` has absorbed both peers' messages (each carrying
/// `encoded_u64_vec` of that peer's own components) it holds all three
/// components, and combining them gives the shared values.
pub proof fn lemma_open_three_parties(
    a: Seq<Rep3ShareU64>,
    b: Seq<Rep3ShareU64>,
    c: Seq<Rep3ShareU64>,
)
    requires
        a.len() == b.len(),
        b.len() == c.len(),
        a.len() < 0x1_0000_0000,
        forall|k: int| 0 <= k < a.len() ==> #[trigger] consistent_at(a, b, c, k),
    ensures
        forall|p: nat|
            p < 3 ==> #[trigger] decoded_u64_vec(encoded_u64_vec(own_of(a, b, c, p))) == Some(
                own_of(a, b, c, p),
            ),
        forall|i: nat, j: int|
            i < 3 && 0 <= j < 2 ==> {
                let first = #[trigger] peers_of(i)[j];
                let second = peers_of(i)[1 - j];
                let start = with_component((a.len(), None, None, None), i, own_of(a, b, c, i));
                with_component(
                    with_component(
                        start,
                        first,
                        decoded_u64_vec(encoded_u64_vec(own_of(a, b, c, first)))->0,
                    ),
                    second,
                    decoded_u64_vec(encoded_u64_vec(own_of(a, b, c, second)))->0,
                ) == (
                    a.len(),
                    Some(own_components(a)),
                    Some(own_components(b)),
                    Some(own_components(c)),
                )
            },
        opened_values(own_components(a), own_components(b), own_components(c), a.len())
            == Seq::new(a.len(), |k: int| reconstruct(a[k]@, b[k]@, c[k]@)),
{
    assert forall|p: nat| p < 3 implies #[trigger] decoded_u64_vec(
        encoded_u64_vec(own_of(a, b, c, p)),
    ) == Some(own_of(a, b, c, p)) by {
        lemma_u64_vec_roundtrip(own_of(a, b, c, p));
    }
    assert(decoded_u64_vec(encoded_u64_vec(own_of(a, b, c, 0))) == Some(own_of(a, b, c, 0)));
    assert(decoded_u64_vec(encoded_u64_vec(own_of(a, b, c, 1))) == Some(own_of(a, b, c, 1)));
    assert(decoded_u64_vec(encoded_u64_vec(own_of(a, b, c, 2))) == Some(own_of(a, b, c, 2)));
    lemma_open_reveals(a, b, c);
}

/// Vector multiplication across the three parties: each party sends
/// `encoded_u64_vec` of its masked components (`begin_mul_vec`), the message
/// decodes to them, and the product shares that each party builds from its
/// own components and its next party's (`finish_mul_vec`) are consistent and
/// hold the products of the shared values, position by position.
pub proof fn lemma_mul_vec_three_parties(
    l0: Seq<Rep3ShareU64>,
    l1: Seq<Rep3ShareU64>,
    l2: Seq<Rep3ShareU64>,
    r0: Seq<Rep3ShareU64>,
    r1: Seq<Rep3ShareU64>,
    r2: Seq<Rep3ShareU64>,
    p0: PrssView,
    p1: PrssView,
    p2: PrssView,
    counter: u64,
)
    requires
        l0.len() == l1.len(),
        l1.len() == l2.len(),
        l0.len() == r0.len(),
        r0.len() == r1.len(),
        r1.len() == r2.len(),
        l0.len() < 0x1_0000_0000,
        forall|k: int| 0 <= k < l0.len() ==> #[trigger] consistent_at(l0, l1, l2, k),
        forall|k: int| 0 <= k < l0.len() ==> #[trigger] consistent_at(r0, r1, r2, k),
        prss_ring(p0, p1, p2),
    ensures
        ({
            let o0 = masked_products(l0, r0, p0, counter);
            let o1 = masked_products(l1, r1, p1, counter);
            let o2 = masked_products(l2, r2, p2, counter);
            let z0 = product_shares(o0, decoded_u64_vec(encoded_u64_vec(o1))->0);
            let z1 = product_shares(o1, decoded_u64_vec(encoded_u64_vec(o2))->0);
            let z2 = product_shares(o2, decoded_u64_vec(encoded_u64_vec(o0))->0);
            &&& decoded_u64_vec(encoded_u64_vec(o0)) == Some(o0)
            &&& decoded_u64_vec(encoded_u64_vec(o1)) == Some(o1)
            &&& decoded_u64_vec(encoded_u64_vec(o2)) == Some(o2)
            &&& o0.len() == l0.len() && o1.len() == l0.len() && o2.len() == l0.len()
            &&& z0.len() == l0.len() && z1.len() == l0.len() && z2.len() == l0.len()
            &&& forall|k: int|
                0 <= k < l0.len() ==> consistent(#[trigger] z0[k], z1[k], z2[k]) && reconstruct(
                    z0[k],
                    z1[k],
                    z2[k],
                ) == wrap(
                    reconstruct(l0[k]@, l1[k]@, l2[k]@) * reconstruct(r0[k]@, r1[k]@, r2[k]@),
                )
        }),
{
    let o0 = masked_products(l0, r0, p0, counter);
    let o1 = masked_products(l1, r1, p1, counter);
    let o2 = masked_products(l2, r2, p2, counter);
    lemma_u64_vec_roundtrip(o0);
    lemma_u64_vec_roundtrip(o1);
    lemma_u64_vec_roundtrip(o2);
    let z0 = product_shares(o0, o1);
    let z1 = product_shares(o1, o2);
    let z2 = product_shares(o2, o0);
    assert forall|k: int| 0 <= k < l0.len() implies consistent(#[trigger] z0[k], z1[k], z2[k])
        && reconstruct(z0[k], z1[k], z2[k]) == wrap(
        reconstruct(l0[k]@, l1[k]@, l2[k]@) * reconstruct(r0[k]@, r1[k]@, r2[k]@),
    ) by {
        assert(consistent_at(l0, l1, l2, k));
        assert(consistent_at(r0, r1, r2, k));
        lemma_mul_vec_correct(l0, l1, l2, r0, r1, r2, p0, p1, p2, counter, k);
    }
}

/// The circuit `(a + 5) * b` end to end: party 0 deals `a` and party 1 deals
/// `b` (with any random components), every party adds the public 5 to its
/// share of `a`, the parties multiply with any masks, and opening the
/// product shares gives `(a + 5) * b mod 2^64`.
pub proof fn lemma_scalar_circuit(
    a: u64,
    b: u64,
    x0: u64,
    x1: u64,
    y0: u64,
    y1: u64,
    m0: u64,
    m1: u64,
    m2: u64,
)
    ensures
        ({
            let xs = |i: nat| share_add_public(dealt_share(a, x0, x1, i), i, 5);
            let ys = |i: nat| dealt_share(b, y0, y1, i);
            let z0 = masked(local_mul(xs(0), ys(0)), m0, m2);
            let z1 = masked(local_mul(xs(1), ys(1)), m1, m0);
            let z2 = masked(local_mul(xs(2), ys(2)), m2, m1);
            &&& consistent((z0, z1), (z1, z2), (z2, z0))
            &&& wrap(z0 + z1 + z2) == wrap(wrap(a + 5) * b)
        }),
{
    lemma_dealt_shares_reconstruct(a, x0, x1);
    lemma_dealt_shares_reconstruct(b, y0, y1);
    let (s0, s1, s2) = (dealt_share(a, x0, x1, 0), dealt_share(a, x0, x1, 1), dealt_share(a, x0, x1, 2));
    lemma_add_public_homomorphic(s0, s1, s2, 5);
    let (t0, t1, t2) = (dealt_share(b, y0, y1, 0), dealt_share(b, y0, y1, 1), dealt_share(b, y0, y1, 2));
    lemma_mul_protocol_correct(
        share_add_public(s0, 0, 5),
        share_add_public(s1, 1, 5),
        share_add_public(s2, 2, 5),
        t0,
        t1,
        t2,
        m0,
        m1,
        m2,
    );
}

} // verus!
