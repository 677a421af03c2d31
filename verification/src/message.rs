use vstd::prelude::*;

use crate::error::{MpcError, Result};
use crate::ids::{PartyId, SessionId};

verus! {

/// Protocol-level message kinds carried in frames.
#[derive(Clone, Copy, Debug, PartialEq, Eq, Structural)]
pub enum MessageKind {
    PrivateInput,
    Open,
    Multiply,
}

/// The byte that stands for a message kind on the wire.
pub open spec fn kind_code(kind: MessageKind) -> u8 {
    match kind {
        MessageKind::PrivateInput => 1,
        MessageKind::Open => 2,
        MessageKind::Multiply => 3,
    }
}

/// The message kind that a byte stands for, if any.
pub open spec fn kind_of_code(code: u8) -> Option<MessageKind> {
    if code == 1 {
        Some(MessageKind::PrivateInput)
    } else if code == 2 {
        Some(MessageKind::Open)
    } else if code == 3 {
        Some(MessageKind::Multiply)
    } else {
        None
    }
}

impl MessageKind {
    /// The wire byte of this kind.
    pub fn code(self) -> (r: u8)
        ensures
            r == kind_code(self),
    {
        match self {
            MessageKind::PrivateInput => 1,
            MessageKind::Open => 2,
            MessageKind::Multiply => 3,
        }
    }

    /// Accepts exactly the wire bytes 1, 2 and 3.
    pub fn try_from(value: u8) -> (r: Result<MessageKind>)
        ensures
            r is Ok <==> kind_of_code(value) is Some,
            r matches Ok(k) ==> kind_of_code(value) == Some(k),
            r matches Err(e) ==> (e matches MpcError::Frame(s) && s@ == "unknown message kind"@),
    {
        match value {
            1 => Ok(MessageKind::PrivateInput),
            2 => Ok(MessageKind::Open),
            3 => Ok(MessageKind::Multiply),
            _ => Err(MpcError::Frame("unknown message kind".to_string())),
        }
    }
}

/// Every kind's byte is read back as that kind.
pub proof fn lemma_kind_code_roundtrip(kind: MessageKind)
    ensures
        kind_of_code(kind_code(kind)) == Some(kind),
{
}

/// The contents of a message, as plain values.
pub ghost struct MessageView {
    pub session_id: SessionId,
    pub from: PartyId,
    pub to: PartyId,
    pub kind: MessageKind,
    pub counter: u64,
    pub payload: Seq<u8>,
}

/// One authenticated, session-scoped transport message.
#[derive(Clone, Debug, PartialEq, Eq)]
pub struct NetMessage {
    pub session_id: SessionId,
    pub from: PartyId,
    pub to: PartyId,
    pub kind: MessageKind,
    pub counter: u64,
    pub payload: Vec<u8>,
}

impl View for NetMessage {
    type V = MessageView;

    open spec fn view(&self) -> MessageView {
        MessageView {
            session_id: self.session_id,
            from: self.from,
            to: self.to,
            kind: self.kind,
            counter: self.counter,
            payload: self.payload@,
        }
    }
}

/// Extension trait for secret-sharing schemes.
pub trait ShareScheme {
    type Secret;

    type SecretVector;

    const PARTY_COUNT: usize;
}

/// Pseudorandom secret sharing source: masks shared with the previous and
/// with the next party.
pub trait Prss {
    fn next_pair_masks(&self, op: &[u8], counter: u64, len: usize) -> (Vec<u64>, Vec<u64>);
}

} // verus!
