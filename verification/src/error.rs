use vstd::prelude::*;

use crate::message::MessageKind;

verus! {

/// Error type used by protocol, transport, and frame validation code.
#[allow(inconsistent_fields)]
#[derive(Debug)]
pub enum MpcError {
    InvalidPartyId(u8),
    WrongPartyCount,
    NotInputOwner { party: u8, owner: u8 },
    LengthMismatch { left: usize, right: usize },
    InvalidShareShape(&'static str),
    Transport(String),
    Frame(String),
    Protocol(String),
    SessionMismatch,
    PeerMismatch { expected: u8, actual: u8 },
    CounterMismatch { expected: u64, actual: u64 },
    UnexpectedMessageKind { expected: MessageKind, actual: MessageKind },
    Tls(String),
    Io(String),
}

/// Result type used across the library.
pub type Result<T> = core::result::Result<T, MpcError>;

} // verus!
