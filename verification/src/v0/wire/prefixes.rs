//! The prefixes that mark the fields of the wire form. Their values are part
//! of the format.

use vstd::prelude::*;

verus! {

/// Before an Ed25519 public key.
pub const PREFIX_ED25519_PUB: u32 = 0xed;

/// Before an Ed25519 private key.
pub const PREFIX_ED25519_SECRET: u32 = 0x1300;

/// Before an Ed25519 signature.
pub const PREFIX_ED25519_SIG: u32 = 0xd0ed;

/// Before a ChaCha20-Poly1305 key.
pub const PREFIX_CHACHA20POLY1305_KEY: u64 = 0xa000;

/// Before a ChaCha20-Poly1305 nonce.
pub const PREFIX_CHACHA20POLY1305_NONCE: u64 = 0xa001;

/// Before a ChaCha20-Poly1305 ciphertext, which has its length in front.
pub const PREFIX_CHACHA20POLY1305_CIPHERTEXT: u64 = 0xa002;

} // verus!
