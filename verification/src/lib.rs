//! Three-party replicated secret sharing over wrapping `u64` arithmetic.
//!
//! The library holds the verified parts of the protocol: party and session
//! identifiers, the ring `Z / 2^64 Z`, replicated shares and their local
//! operations, the wire frame format, the share payload codecs, PRSS mask
//! derivation and the per-party protocol state machine. Transports and the
//! async driver live outside the library.

pub mod bytes;
pub mod codec;
pub mod error;
pub mod frame;
pub mod ids;
pub mod laws;
pub mod message;
pub mod net;
pub mod prss;
pub mod ring;
pub mod secret;
pub mod session;
pub mod testing;
pub mod tls;

pub use error::{MpcError, Result};
pub use frame::{decode_frame_body, encode_frame, DEFAULT_MAX_FRAME_LEN};
pub use ids::{PartyId, SessionId, PARTY_COUNT};
pub use message::{MessageKind, NetMessage, Prss, ShareScheme};
pub use net::{InMemoryNetwork, TlsIdentity};
pub use prss::Rep3Prss;
pub use ring::{Ring, WrappingU64};
pub use secret::{MpcConfig, PublicU64, Rep3ShareU64, SecretU64, SecretVecU64};
pub use session::{MpcSession, Rep3U64};
pub use testing::{cleartext_dot, cleartext_sum, test_configs};
