//! The parts of the transports that are plain values: the in-memory
//! network's session, TLS identities, and the check of a TCP peer table.
use vstd::prelude::*;

use crate::error::{MpcError, Result};
use crate::ids::{prev_index, PartyId, SessionId};
use crate::message::NetMessage;

verus! {

/// A deterministic in-memory network for simulator runs.
pub struct InMemoryNetwork {
    session_id: SessionId,
}

impl InMemoryNetwork {
    pub fn new(session_id: SessionId) -> (r: InMemoryNetwork)
        ensures
            r.session() == session_id,
    {
        InMemoryNetwork { session_id }
    }

    pub closed spec fn session(&self) -> SessionId {
        self.session_id
    }

    /// The session every transport of this network belongs to.
    pub fn session_id(&self) -> (r: SessionId)
        ensures
            r == self.session(),
    {
        self.session_id
    }
}

/// PEM-encoded certificate and private key for one party.
#[derive(Clone)]
pub struct TlsIdentity {
    pub cert_pem: Vec<u8>,
    pub key_pem: Vec<u8>,
}

impl TlsIdentity {
    pub fn new(cert_pem: Vec<u8>, key_pem: Vec<u8>) -> (r: TlsIdentity)
        ensures
            r.cert_pem@ == cert_pem@,
            r.key_pem@ == key_pem@,
    {
        TlsIdentity { cert_pem, key_pem }
    }
}

/// Whether `ids` holds the party `p`.
pub open spec fn holds(ids: Seq<PartyId>, p: nat) -> bool {
    exists|i: int| 0 <= i < ids.len() && (#[trigger] ids[i])@ == p
}

fn contains_party(ids: &[PartyId], p: PartyId) -> (r: bool)
    ensures
        r == holds(ids@, p@),
{
    let mut i: usize = 0;
    while i < ids.len()
        invariant
            i <= ids@.len(),
            forall|j: int| 0 <= j < i ==> (#[trigger] ids@[j])@ != p@,
        decreases ids@.len() - i,
    {
        if ids[i] == p {
            return true;
        }
        proof {
            PartyId::lemma_view_injective(ids@[i as int], p);
        }
        i = i + 1;
    }
    false
}

/// Party `p` is a peer of `party` with no address.
pub open spec fn missing_peer(party: PartyId, peers: Seq<PartyId>, p: nat) -> bool {
    p != party@ && !holds(peers, p)
}

/// Party `p` is a peer of `party` with an address but no trusted certificate.
pub open spec fn missing_cert(party: PartyId, peers: Seq<PartyId>, trusted: Seq<PartyId>, p: nat) -> bool {
    p != party@ && holds(peers, p) && !holds(trusted, p)
}

/// Party `p` is fine: it is `party` itself, or it has an address and a
/// trusted certificate.
pub open spec fn peer_ok(party: PartyId, peers: Seq<PartyId>, trusted: Seq<PartyId>, p: nat) -> bool {
    !missing_peer(party, peers, p) && !missing_cert(party, peers, trusted, p)
}

/// Checks the peer table of a TCP party: `peers` are the parties with an
/// address and `trusted` those with a trusted certificate. There must be two
/// peers, and each other party, in order, must have an address and then a
/// certificate.
pub fn validate_peer_config(party_id: PartyId, peers: &[PartyId], trusted: &[PartyId]) -> (r:
    Result<()>)
    ensures
        peers@.len() != 2 ==> (r matches Err(e) && e == MpcError::WrongPartyCount),
        peers@.len() == 2 ==> (r is Ok <==> forall|p: nat|
            p < 3 ==> #[trigger] peer_ok(party_id, peers@, trusted@, p)),
        peers@.len() == 2 ==> forall|p: nat|
            p < 3 && (forall|q: nat| q < p ==> #[trigger] peer_ok(party_id, peers@, trusted@, q))
                && !#[trigger] peer_ok(party_id, peers@, trusted@, p) ==> (missing_peer(
                party_id,
                peers@,
                p,
            ) ==> (r matches Err(MpcError::Transport(s)) && s@ == "missing peer address"@)) && (
            !missing_peer(party_id, peers@, p) ==> (r matches Err(MpcError::Tls(s)) && s@
                == "missing trusted peer certificate"@)),
{
    if peers.len() != 2 {
        return Err(MpcError::WrongPartyCount);
    }
    let all = PartyId::all();
    let mut k: usize = 0;
    while k < 3
        invariant
            k <= 3,
            peers@.len() == 2,
            all[0]@ == 0,
            all[1]@ == 1,
            all[2]@ == 2,
            forall|q: nat| q < k ==> #[trigger] peer_ok(party_id, peers@, trusted@, q),
        decreases 3 - k,
    {
        let party = all[k];
        proof {
            PartyId::lemma_view_injective(party, party_id);
        }
        if party != party_id {
            if !contains_party(peers, party) {
                assert(!peer_ok(party_id, peers@, trusted@, k as nat));
                return Err(MpcError::Transport("missing peer address".to_string()));
            }
            if !contains_party(trusted, party) {
                assert(!peer_ok(party_id, peers@, trusted@, k as nat));
                return Err(MpcError::Tls("missing trusted peer certificate".to_string()));
            }
        }
        k = k + 1;
    }
    Ok(())
}

/// What a transport of `party_id` in `session_id` accepts to send: a
/// message of its session, sent by its own party.
pub fn check_outgoing(party_id: PartyId, session_id: SessionId, message: &NetMessage) -> (r:
    Result<()>)
    ensures
        message.session_id != session_id ==> (r matches Err(e) && e == MpcError::SessionMismatch),
        message.session_id == session_id && message.from != party_id ==> (r matches Err(e) && e
            == (MpcError::PeerMismatch { expected: party_id@ as u8, actual: message.from@ as u8 })),
        message.session_id == session_id && message.from == party_id ==> r is Ok,
{
    proof {
        SessionId::lemma_view(message.session_id, session_id);
    }
    if message.session_id != session_id {
        return Err(MpcError::SessionMismatch);
    }
    if message.from != party_id {
        return Err(MpcError::PeerMismatch { expected: party_id.as_u8(), actual: message.from.as_u8() });
    }
    Ok(())
}

/// What a transport of `party_id` in `session_id` accepts to receive: a
/// message of its session, addressed to its own party.
pub fn check_incoming(party_id: PartyId, session_id: SessionId, message: &NetMessage) -> (r:
    Result<()>)
    ensures
        message.session_id != session_id ==> (r matches Err(e) && e == MpcError::SessionMismatch),
        message.session_id == session_id && message.to != party_id ==> (r matches Err(e) && e
            == (MpcError::PeerMismatch { expected: party_id@ as u8, actual: message.to@ as u8 })),
        message.session_id == session_id && message.to == party_id ==> r is Ok,
{
    proof {
        SessionId::lemma_view(message.session_id, session_id);
    }
    if message.session_id != session_id {
        return Err(MpcError::SessionMismatch);
    }
    if message.to != party_id {
        return Err(MpcError::PeerMismatch { expected: party_id.as_u8(), actual: message.to.as_u8() });
    }
    Ok(())
}

/// The TCP handshake of the accepting side: a connecting peer must be a
/// party with a lower number than the accepting party.
pub fn check_accepted_peer(accept_party: PartyId, peer: PartyId) -> (r: Result<()>)
    ensures
        peer@ < accept_party@ <==> r is Ok,
        r matches Err(e) ==> e == (MpcError::PeerMismatch {
            expected: prev_index(accept_party@) as u8,
            actual: peer@ as u8,
        }),
{
    if peer.as_u8() >= accept_party.as_u8() {
        return Err(
            MpcError::PeerMismatch { expected: accept_party.prev().as_u8(), actual: peer.as_u8() },
        );
    }
    Ok(())
}

/// The TCP handshake of the connecting side: the peer must announce the
/// party it was dialled as.
pub fn check_connected_peer(expected: PartyId, actual: PartyId) -> (r: Result<()>)
    ensures
        expected == actual <==> r is Ok,
        r matches Err(e) ==> e == (MpcError::PeerMismatch {
            expected: expected@ as u8,
            actual: actual@ as u8,
        }),
{
    if actual != expected {
        return Err(MpcError::PeerMismatch { expected: expected.as_u8(), actual: actual.as_u8() });
    }
    Ok(())
}

/// The peers that connect to `party` over TCP: those with a lower number.
pub fn peers_to_accept(party: PartyId, peers: &[PartyId]) -> (r: Vec<PartyId>)
    ensures
        r@ == peers@.filter(|p: PartyId| p@ < party@),
{
    let mut out: Vec<PartyId> = Vec::new();
    let mut i: usize = 0;
    while i < peers.len()
        invariant
            i <= peers@.len(),
            out@ == peers@.subrange(0, i as int).filter(|p: PartyId| p@ < party@),
        decreases peers@.len() - i,
    {
        proof {
            reveal(Seq::filter);
            assert(peers@.subrange(0, i + 1).drop_last() =~= peers@.subrange(0, i as int));
        }
        if peers[i].as_u8() < party.as_u8() {
            out.push(peers[i]);
        }
        i = i + 1;
    }
    assert(peers@.subrange(0, peers@.len() as int) =~= peers@);
    out
}

/// The peers that `party` dials over TCP: those with a higher number.
pub fn peers_to_dial(party: PartyId, peers: &[PartyId]) -> (r: Vec<PartyId>)
    ensures
        r@ == peers@.filter(|p: PartyId| p@ > party@),
{
    let mut out: Vec<PartyId> = Vec::new();
    let mut i: usize = 0;
    while i < peers.len()
        invariant
            i <= peers@.len(),
            out@ == peers@.subrange(0, i as int).filter(|p: PartyId| p@ > party@),
        decreases peers@.len() - i,
    {
        proof {
            reveal(Seq::filter);
            assert(peers@.subrange(0, i + 1).drop_last() =~= peers@.subrange(0, i as int));
        }
        if peers[i].as_u8() > party.as_u8() {
            out.push(peers[i]);
        }
        i = i + 1;
    }
    assert(peers@.subrange(0, peers@.len() as int) =~= peers@);
    out
}

/// How many times a party tries to reach a peer.
pub const CONNECT_ATTEMPTS: u32 = 100;

/// How long a party waits after a failed attempt, in milliseconds.
pub const CONNECT_RETRY_DELAY_MS: u64 = 20;

/// After `failures` failed attempts (and the wait that follows each), whether
/// to try again.
pub fn retry_after_failure(failures: u32) -> (r: bool)
    ensures
        r == (failures < CONNECT_ATTEMPTS),
{
    failures < CONNECT_ATTEMPTS
}

} // verus!
