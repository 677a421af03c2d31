# smpc

Three-party replicated secret sharing over `Z / 2^64 Z` (semi-honest,
honest majority), with its protocol logic verified by Verus.

- `src/` is the verified library: party and session ids, wrapping ring
  arithmetic, replicated shares and their local operations, the wire frame
  and payload codecs, PRSS mask derivation (SHA-256 and ChaCha20), PEM
  reading for TLS identities, and the per-party protocol state machine
  (`session.rs`) whose networked operations are split into steps that say
  what to send and what to wait for. `laws.rs` and the `lemma_*` proof
  functions state what the protocol achieves: dealt shares reconstruct the
  input, local operations and the multiplication protocol act on the shared
  values, masks telescope, frames and payloads decode to what was encoded.
- `app/` is the async runtime around it: the `Transport` trait, the
  in-memory and TCP-over-rustls transports, frame I/O, and `NetSession`,
  which drives the state machine over a transport.
- `tests/` runs the library, including three parties exchanging messages in
  one thread.

Secret types do not wipe themselves when dropped: Verus does not support
`Drop`, and no outside derive can stand in the library. `Rep3ShareU64`,
`SecretU64` and `SecretVecU64` have explicit `zeroize` methods (zeroize's
volatile writes, including a vector's spare capacity); call them before a
secret goes out of scope.
