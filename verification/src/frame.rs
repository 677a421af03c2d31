//! The length-prefixed wire frame that carries one `NetMessage`.
//!
//! A frame is a big-endian `u32` body length followed by the body:
//! `"SMPC"`, the version byte `1`, the 32 session bytes, the sender, the
//! recipient, the kind byte, the big-endian `u64` counter, the big-endian
//! `u32` payload length and the payload.
use vstd::prelude::*;

use crate::bytes::{
    be_u32, be_u64, lemma_be_u32_inverse, lemma_be_u64_inverse, lemma_u32_be_roundtrip, lemma_u64_be_roundtrip, push_u32_be, push_u64_be,
    read_u32_be, read_u64_be, u32_be, u64_be,
};
use crate::error::{MpcError, Result};
use crate::ids::{PartyId, SessionId};
use crate::message::{kind_code, kind_of_code, MessageKind, MessageView, NetMessage};

verus! {

/// Default upper bound for a single encoded frame body.
pub const DEFAULT_MAX_FRAME_LEN: usize = 16 * 1024 * 1024;

/// Length of the body before the payload.
pub const HEADER_LEN: usize = 52;

/// The frame version this library writes and accepts.
pub const VERSION: u8 = 1;

/// The four magic bytes `"SMPC"`.
pub open spec fn magic() -> Seq<u8> {
    seq![83u8, 77u8, 80u8, 67u8]
}

/// The body of the frame for message `m`.
pub open spec fn frame_body(m: MessageView) -> Seq<u8> {
    magic() + seq![VERSION] + m.session_id@ + seq![m.from@ as u8, m.to@ as u8, kind_code(m.kind)]
        + u64_be(m.counter) + u32_be(m.payload.len() as u32) + m.payload
}

/// The whole frame for message `m`: the body length, then the body.
pub open spec fn frame(m: MessageView) -> Seq<u8> {
    u32_be((HEADER_LEN + m.payload.len()) as u32) + frame_body(m)
}

/// What decoding a frame body comes to, checked in this order.
pub ghost enum DecodeOutcome {
    TooLong,
    Short,
    BadMagic,
    BadVersion,
    WrongSession,
    InvalidParty(u8),
    WrongRecipient(u8),
    UnknownKind,
    LengthMismatch,
    Decoded { from: nat, to: nat, kind: MessageKind, counter: u64, payload: Seq<u8> },
}

pub open spec fn decode_outcome(
    body: Seq<u8>,
    expected_session: SessionId,
    expected_to: PartyId,
    max_frame_len: usize,
) -> DecodeOutcome {
    if body.len() > max_frame_len {
        DecodeOutcome::TooLong
    } else if body.len() < HEADER_LEN {
        DecodeOutcome::Short
    } else if body.subrange(0, 4) != magic() {
        DecodeOutcome::BadMagic
    } else if body[4] != VERSION {
        DecodeOutcome::BadVersion
    } else if body.subrange(5, 37) != expected_session@ {
        DecodeOutcome::WrongSession
    } else if body[37] >= 3 {
        DecodeOutcome::InvalidParty(body[37])
    } else if body[38] >= 3 {
        DecodeOutcome::InvalidParty(body[38])
    } else if body[38] != expected_to@ {
        DecodeOutcome::WrongRecipient(body[38])
    } else if kind_of_code(body[39]) is None {
        DecodeOutcome::UnknownKind
    } else if HEADER_LEN + be_u32(body.subrange(48, 52)) != body.len() {
        DecodeOutcome::LengthMismatch
    } else {
        DecodeOutcome::Decoded {
            from: body[37] as nat,
            to: body[38] as nat,
            kind: kind_of_code(body[39])->0,
            counter: be_u64(body.subrange(40, 48)),
            payload: body.subrange(HEADER_LEN as int, body.len() as int),
        }
    }
}

/// The result that `decode_frame_body` gives for each outcome.
pub open spec fn decode_result_matches(
    r: Result<NetMessage>,
    outcome: DecodeOutcome,
    expected_session: SessionId,
    expected_to: PartyId,
) -> bool {
    match outcome {
        DecodeOutcome::TooLong => r matches Err(MpcError::Frame(s)) && s@
            == "frame exceeds maximum length"@,
        DecodeOutcome::Short => r matches Err(MpcError::Frame(s)) && s@ == "short frame"@,
        DecodeOutcome::BadMagic => r matches Err(MpcError::Frame(s)) && s@ == "bad magic"@,
        DecodeOutcome::BadVersion => r matches Err(MpcError::Frame(s)) && s@
            == "unsupported frame version"@,
        DecodeOutcome::WrongSession => r matches Err(MpcError::SessionMismatch),
        DecodeOutcome::InvalidParty(v) => r matches Err(MpcError::InvalidPartyId(w)) && w == v,
        DecodeOutcome::WrongRecipient(v) => r matches Err(
            MpcError::PeerMismatch { expected, actual },
        ) && expected == expected_to@ && actual == v,
        DecodeOutcome::UnknownKind => r matches Err(MpcError::Frame(s)) && s@
            == "unknown message kind"@,
        DecodeOutcome::LengthMismatch => r matches Err(MpcError::Frame(s)) && s@
            == "payload length mismatch"@,
        DecodeOutcome::Decoded { from, to, kind, counter, payload } => r matches Ok(m) && m@
            == (MessageView {
            session_id: expected_session,
            from: m.from,
            to: m.to,
            kind,
            counter,
            payload,
        }) && m.from@ == from && m.to@ == to,
    }
}

/// Encodes a message as a length-prefixed frame; refuses a body longer than
/// `max_frame_len`.
pub fn encode_frame(message: &NetMessage, max_frame_len: usize) -> (r: Result<Vec<u8>>)
    requires
        message.payload@.len() + HEADER_LEN <= usize::MAX,
    ensures
        r is Err <==> HEADER_LEN + message.payload@.len() > max_frame_len,
        r matches Err(e) ==> (e matches MpcError::Frame(s) && s@
            == "payload exceeds maximum frame length"@),
        r matches Ok(v) ==> v@ == frame(message@),
{
    let body_len = HEADER_LEN + message.payload.len();
    if body_len > max_frame_len {
        return Err(MpcError::Frame("payload exceeds maximum frame length".to_string()));
    }
    let mut out: Vec<u8> = Vec::new();
    push_u32_be(&mut out, body_len as u32);
    out.push(83u8);
    out.push(77u8);
    out.push(80u8);
    out.push(67u8);
    out.push(VERSION);
    let session = message.session_id.as_bytes();
    let mut i: usize = 0;
    let ghost start = out@;
    while i < 32
        invariant
            i <= 32,
            session@.len() == 32,
            out@ == start + session@.subrange(0, i as int),
        decreases 32 - i,
    {
        out.push(session[i]);
        i = i + 1;
        assert(out@ =~= start + session@.subrange(0, i as int));
    }
    out.push(message.from.as_u8());
    out.push(message.to.as_u8());
    out.push(message.kind.code());
    push_u64_be(&mut out, message.counter);
    push_u32_be(&mut out, message.payload.len() as u32);
    let ghost before_payload = out@;
    let mut j: usize = 0;
    while j < message.payload.len()
        invariant
            j <= message.payload@.len(),
            out@ == before_payload + message.payload@.subrange(0, j as int),
        decreases message.payload@.len() - j,
    {
        out.push(message.payload[j]);
        j = j + 1;
        assert(out@ =~= before_payload + message.payload@.subrange(0, j as int));
    }
    assert(message.payload@.subrange(0, message.payload@.len() as int) =~= message.payload@);
    assert(session@.subrange(0, 32) =~= session@);
    assert(out@ =~= frame(message@));
    Ok(out)
}

/// Decodes and checks a frame body (after the outer length prefix) that must
/// belong to `expected_session` and be addressed to `expected_to`.
pub fn decode_frame_body(
    body: &[u8],
    expected_session: SessionId,
    expected_to: PartyId,
    max_frame_len: usize,
) -> (r: Result<NetMessage>)
    ensures
        decode_result_matches(
            r,
            decode_outcome(body@, expected_session, expected_to, max_frame_len),
            expected_session,
            expected_to,
        ),
{
    if body.len() > max_frame_len {
        return Err(MpcError::Frame("frame exceeds maximum length".to_string()));
    }
    if body.len() < HEADER_LEN {
        return Err(MpcError::Frame("short frame".to_string()));
    }
    if body[0] != 83u8 || body[1] != 77u8 || body[2] != 80u8 || body[3] != 67u8 {
        assert(body@.subrange(0, 4) != magic()) by {
            if body@.subrange(0, 4) == magic() {
                assert(body@.subrange(0, 4)[0] == body@[0]);
                assert(body@.subrange(0, 4)[1] == body@[1]);
                assert(body@.subrange(0, 4)[2] == body@[2]);
                assert(body@.subrange(0, 4)[3] == body@[3]);
            }
        }
        return Err(MpcError::Frame("bad magic".to_string()));
    }
    assert(body@.subrange(0, 4) =~= magic());
    if body[4] != VERSION {
        return Err(MpcError::Frame("unsupported frame version".to_string()));
    }
    let mut session = [0u8; 32];
    let mut i: usize = 0;
    while i < 32
        invariant
            i <= 32,
            body@.len() >= HEADER_LEN,
            forall|j: int| 0 <= j < i ==> session@[j] == body@[5 + j],
        decreases 32 - i,
    {
        session[i] = body[5 + i];
        i = i + 1;
    }
    assert(session@ =~= body@.subrange(5, 37));
    let session_id = SessionId::new(session);
    proof {
        SessionId::lemma_view(session_id, expected_session);
    }
    if session_id != expected_session {
        return Err(MpcError::SessionMismatch);
    }
    let from = PartyId::new(body[37])?;
    let to = PartyId::new(body[38])?;
    proof {
        PartyId::lemma_view_injective(to, expected_to);
    }
    if to != expected_to {
        return Err(MpcError::PeerMismatch { expected: expected_to.as_u8(), actual: to.as_u8() });
    }
    let kind = MessageKind::try_from(body[39])?;
    let counter = read_u64_be(body, 40);
    let payload_len = read_u32_be(body, 48) as usize;
    if payload_len != body.len() - HEADER_LEN {
        return Err(MpcError::Frame("payload length mismatch".to_string()));
    }
    let mut payload: Vec<u8> = Vec::new();
    let mut k: usize = HEADER_LEN;
    while k < body.len()
        invariant
            HEADER_LEN <= k <= body@.len(),
            payload@ == body@.subrange(HEADER_LEN as int, k as int),
        decreases body@.len() - k,
    {
        payload.push(body[k]);
        k = k + 1;
        assert(payload@ =~= body@.subrange(HEADER_LEN as int, k as int));
    }
    Ok(NetMessage { session_id, from, to, kind, counter, payload })
}

/// Decoding the body of an encoded message, at its own session and
/// recipient and with room for its body, gives the message back.
pub proof fn lemma_frame_roundtrip(m: MessageView, max_frame_len: usize)
    requires
        m.from@ < 3,
        m.to@ < 3,
        m.payload.len() < 0x1_0000_0000,
        HEADER_LEN + m.payload.len() <= max_frame_len,
    ensures
        frame(m).subrange(4, frame(m).len() as int) == frame_body(m),
        decode_outcome(frame_body(m), m.session_id, m.to, max_frame_len) == (
        DecodeOutcome::Decoded {
            from: m.from@,
            to: m.to@,
            kind: m.kind,
            counter: m.counter,
            payload: m.payload,
        }),
{
    let b = frame_body(m);
    SessionId::lemma_view(m.session_id, m.session_id);
    lemma_u64_be_roundtrip(m.counter);
    lemma_u32_be_roundtrip(m.payload.len() as u32);
    assert(frame(m).subrange(4, frame(m).len() as int) =~= b);
    assert(b.len() == HEADER_LEN + m.payload.len());
    assert(b.subrange(0, 4) =~= magic());
    assert(b.subrange(5, 37) =~= m.session_id@);
    assert(b.subrange(40, 48) =~= u64_be(m.counter));
    assert(b.subrange(48, 52) =~= u32_be(m.payload.len() as u32));
    assert(b.subrange(HEADER_LEN as int, b.len() as int) =~= m.payload);
    assert(b[37] == m.from@ as u8);
    assert(b[38] == m.to@ as u8);
    assert(b[39] == kind_code(m.kind));
}

/// A body that decodes is exactly the encoding of the message it decodes to:
/// each message has one body.
pub proof fn lemma_decoded_body_is_canonical(
    body: Seq<u8>,
    expected_session: SessionId,
    expected_to: PartyId,
    max_frame_len: usize,
    m: MessageView,
)
    requires
        decode_outcome(body, expected_session, expected_to, max_frame_len) matches
            DecodeOutcome::Decoded { from, to, kind, counter, payload } && m.session_id
            == expected_session && m.from@ == from && m.to@ == to && m.kind == kind && m.counter
            == counter && m.payload == payload,
    ensures
        frame_body(m) == body,
{
    let len_bytes = body.subrange(48, 52);
    lemma_be_u32_inverse(len_bytes);
    lemma_be_u64_inverse(body.subrange(40, 48));
    let kind_byte = body[39];
    assert(kind_code(kind_of_code(kind_byte)->0) == kind_byte);
    assert(m.payload.len() == be_u32(len_bytes));
    assert(m.payload.len() as u32 == be_u32(len_bytes));
    assert(m.from@ as u8 == body[37]);
    assert(m.to@ as u8 == body[38]);
    assert(body.subrange(0, 4) == magic());
    assert(frame_body(m) =~= body);
}

/// The prefix of an encoded frame is the length of what follows it, the
/// body: `HEADER_LEN` bytes of header and then the payload.
pub proof fn lemma_frame_prefix_is_body_length(m: MessageView)
    requires
        HEADER_LEN + m.payload.len() < 0x1_0000_0000,
    ensures
        frame(m).len() == 4 + HEADER_LEN + m.payload.len(),
        frame_body(m).len() == HEADER_LEN + m.payload.len(),
        be_u32(frame(m).subrange(0, 4)) == frame(m).len() - 4,
        frame(m).subrange(4, frame(m).len() as int) == frame_body(m),
{
    SessionId::lemma_view(m.session_id, m.session_id);
    let n = (HEADER_LEN + m.payload.len()) as u32;
    lemma_u32_be_roundtrip(n);
    assert(frame(m).subrange(0, 4) =~= u32_be(n));
    assert(frame(m).subrange(4, frame(m).len() as int) =~= frame_body(m));
}

} // verus!
