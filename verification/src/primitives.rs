//! The cryptographic primitives, which other crates provide: ChaCha20-Poly1305,
//! Ed25519, BLAKE2b-256 as a multihash, BIP-39 mnemonics, z-base-32, and the
//! system's random number generator.
//!
//! Nothing in this file is proved. Each primitive that computes a function of
//! its arguments has a name here for its result, and a function that makes the
//! call and is taken at its word.

use aead::generic_array::GenericArray;
use aead::{Aead, NewAead, Payload};
use bip39::{Language, Mnemonic};
use chacha20poly1305::ChaCha20Poly1305;
use ed25519_dalek::{Keypair, PublicKey, SecretKey, Signature, Signer, Verifier};
use multihash::{Code, MultihashDigest};
use rand::RngCore;
use vstd::prelude::*;

verus! {

/// Length of a ChaCha20-Poly1305 key.
pub const CHACHAPOLY_KEY_LENGTH: usize = 32;

/// Length of a ChaCha20-Poly1305 nonce.
pub const CHACHAPOLY_NONCE_LENGTH: usize = 12;

/// Multihash code of BLAKE2b-256.
pub const BLAKE2B_256_CODE: u64 = 0xb220;

/// Length of a BLAKE2b-256 digest.
pub const BLAKE2B_256_LENGTH: usize = 32;

/// ChaCha20-Poly1305 encryption: the ciphertext of `msg` followed by its tag.
pub uninterp spec fn chacha20poly1305_seal(
    key: Seq<u8>,
    nonce: Seq<u8>,
    aad: Seq<u8>,
    msg: Seq<u8>,
) -> Seq<u8>;

/// ChaCha20-Poly1305 decryption: the plaintext, or `None` where the tag does
/// not fit key, nonce, associated data and ciphertext.
pub uninterp spec fn chacha20poly1305_open(
    key: Seq<u8>,
    nonce: Seq<u8>,
    aad: Seq<u8>,
    sealed: Seq<u8>,
) -> Option<Seq<u8>>;

/// The Ed25519 public key that belongs to a private key.
pub uninterp spec fn ed25519_public(secret: Seq<u8>) -> Seq<u8>;

/// The Ed25519 signature of `msg` under a private key.
pub uninterp spec fn ed25519_signature(secret: Seq<u8>, msg: Seq<u8>) -> Seq<u8>;

/// Whether `signature` is accepted for `msg` under the public key `public`.
pub uninterp spec fn ed25519_verifies(public: Seq<u8>, msg: Seq<u8>, signature: Seq<u8>) -> bool;

/// The BLAKE2b-256 digest of `data`.
pub uninterp spec fn blake2b_256(data: Seq<u8>) -> Seq<u8>;

/// The z-base-32 encoding of `data`.
pub uninterp spec fn zbase32(data: Seq<u8>) -> Seq<char>;

/// The English BIP-39 phrase for `entropy`.
pub uninterp spec fn bip39_phrase(entropy: Seq<u8>) -> Seq<char>;

/// The entropy that an English BIP-39 phrase stands for, or `None` where the
/// phrase is not valid.
pub uninterp spec fn bip39_entropy(phrase: Seq<char>) -> Option<Seq<u8>>;

/// The lowercase form of a string.
pub uninterp spec fn lowercase(s: Seq<char>) -> Seq<char>;

/// A lowercase letter of the Latin alphabet, or a space.
pub open spec fn is_lower_or_space(c: char) -> bool {
    c == ' ' || 0x61 <= c as u32 <= 0x7a
}

/// Whether `s` holds lowercase Latin letters and spaces only.
pub open spec fn all_lower_or_space(s: Seq<char>) -> bool {
    forall|i: int| 0 <= i < s.len() ==> is_lower_or_space(#[trigger] s[i])
}

/// The number of spaces in `s`.
pub open spec fn count_spaces(s: Seq<char>) -> nat
    decreases s.len(),
{
    if s.len() == 0 {
        0
    } else {
        count_spaces(s.drop_last()) + if s.last() == ' ' {
            1nat
        } else {
            0nat
        }
    }
}

/// `ChaCha20Poly1305::encrypt`. It fails on a message of `u32::MAX` blocks
/// of 64 bytes or more and on no other; what it returns is named, and
/// decryption under the same key, nonce and associated data gives the
/// message back. The bound on the length keeps the buffer for message and
/// tag within what can be allocated.
#[verifier::external_body]
pub(crate) fn aead_encrypt(key: &[u8; 32], nonce: &[u8; 12], aad: &[u8], msg: &[u8]) -> (r: Option<
    Vec<u8>,
>)
    requires
        msg.len() + 16 <= isize::MAX,
    ensures
        (r is Some) == (msg.len() / 64 < u32::MAX),
        r matches Some(sealed) ==> sealed@ == chacha20poly1305_seal(key@, nonce@, aad@, msg@)
            && chacha20poly1305_open(key@, nonce@, aad@, sealed@) == Some(msg@),
{
    let cipher = ChaCha20Poly1305::new(&GenericArray::from(*key));
    cipher.encrypt(&GenericArray::from(*nonce), Payload { msg, aad }).ok()
}

/// `ChaCha20Poly1305::decrypt`: the plaintext where the tag fits, nothing
/// where it does not.
#[verifier::external_body]
pub(crate) fn aead_decrypt(key: &[u8; 32], nonce: &[u8; 12], aad: &[u8], sealed: &[u8]) -> (r:
    Option<Vec<u8>>)
    ensures
        match r {
            Some(msg) => chacha20poly1305_open(key@, nonce@, aad@, sealed@) == Some(msg@),
            None => chacha20poly1305_open(key@, nonce@, aad@, sealed@) is None,
        },
{
    let cipher = ChaCha20Poly1305::new(&GenericArray::from(*key));
    cipher.decrypt(&GenericArray::from(*nonce), Payload { msg: sealed, aad }).ok()
}

/// `PublicKey::from(&SecretKey)`: the public key of a private key. Every 32
/// bytes are a private key.
#[verifier::external_body]
pub(crate) fn ed25519_public_key(secret: &[u8; 32]) -> (public: [u8; 32])
    ensures
        public@ == ed25519_public(secret@),
{
    let secret = SecretKey::from_bytes(secret).expect("a private key has 32 bytes");
    PublicKey::from(&secret).to_bytes()
}

/// `Keypair::sign`, with the key pair of a private key: the signature is
/// named, and it is accepted for the message under the public key of that
/// private key.
#[verifier::external_body]
pub(crate) fn ed25519_sign(secret: &[u8; 32], msg: &[u8]) -> (signature: [u8; 64])
    ensures
        signature@ == ed25519_signature(secret@, msg@),
        ed25519_verifies(ed25519_public(secret@), msg@, signature@),
{
    let secret = SecretKey::from_bytes(secret).expect("a private key has 32 bytes");
    let public = PublicKey::from(&secret);
    Keypair { secret, public }.sign(msg).to_bytes()
}

/// `PublicKey::verify`: whether the signature is accepted. Bytes that are no
/// public key, or no signature, are not accepted.
#[verifier::external_body]
pub(crate) fn ed25519_verify(public: &[u8; 32], msg: &[u8], signature: &[u8; 64]) -> (ok: bool)
    ensures
        ok == ed25519_verifies(public@, msg@, signature@),
{
    match (PublicKey::from_bytes(public), Signature::from_bytes(signature)) {
        (Ok(public), Ok(signature)) => public.verify(msg, &signature).is_ok(),
        _ => false,
    }
}

/// `Code::Blake2b256.digest`: the code and the digest of the multihash. The
/// code is that of BLAKE2b-256 and the digest has 32 bytes.
#[verifier::external_body]
pub(crate) fn blake2b_256_multihash(data: &[u8]) -> (r: (u64, Vec<u8>))
    ensures
        r.0 == BLAKE2B_256_CODE,
        r.1@ == blake2b_256(data@),
        r.1@.len() == BLAKE2B_256_LENGTH,
{
    let hash = Code::Blake2b256.digest(data);
    (hash.code(), hash.digest().to_vec())
}

/// `zbase32::encode_full_bytes`: one character of the z-base-32 alphabet,
/// which is part of ASCII, for every five bits, the last group filled up.
#[verifier::external_body]
pub(crate) fn zbase32_encode(data: &[u8]) -> (s: String)
    requires
        data.len() * 8 <= u64::MAX,
    ensures
        s@ == zbase32(data@),
        s@.len() == (data.len() * 8 + 4) / 5,
        s.is_ascii(),
{
    zbase32::encode_full_bytes(data)
}

/// `Mnemonic::from_entropy` for the English word list, and `into_phrase`.
/// 32 bytes are a valid entropy, so there is a phrase: 24 words of lowercase
/// Latin letters with one space between two of them, from which
/// `Mnemonic::from_phrase` recovers the entropy.
#[verifier::external_body]
pub(crate) fn mnemonic_phrase(entropy: &[u8; 32]) -> (r: Option<String>)
    ensures
        match r {
            Some(phrase) => phrase@ == bip39_phrase(entropy@) && bip39_entropy(phrase@) == Some(
                entropy@,
            ) && count_spaces(phrase@) == 23 && all_lower_or_space(phrase@),
            None => false,
        },
{
    Mnemonic::from_entropy(entropy, Language::English).map(|mnemonic| mnemonic.into_phrase()).ok()
}

/// `Mnemonic::from_phrase` for the English word list, and `entropy`: the
/// entropy of a valid phrase, nothing for any other.
#[verifier::external_body]
pub(crate) fn mnemonic_entropy(phrase: &str) -> (r: Option<Vec<u8>>)
    ensures
        match r {
            Some(entropy) => bip39_entropy(phrase@) == Some(entropy@),
            None => bip39_entropy(phrase@) is None,
        },
{
    let mnemonic = Mnemonic::from_phrase(phrase, Language::English);
    mnemonic.map(|mnemonic| mnemonic.entropy().to_vec()).ok()
}

/// `str::to_lowercase`. A string of lowercase Latin letters and spaces is its
/// own lowercase form.
#[verifier::external_body]
pub(crate) fn to_lowercase(s: &str) -> (r: String)
    ensures
        r@ == lowercase(s@),
        all_lower_or_space(s@) ==> r@ == s@,
{
    s.to_lowercase()
}

/// `RngCore::fill_bytes` on the thread's generator: `n` random bytes.
#[verifier::external_body]
pub(crate) fn random_bytes(n: usize) -> (out: Vec<u8>)
    ensures
        out@.len() == n,
{
    let mut out = vec![0u8; n];
    rand::thread_rng().fill_bytes(&mut out);
    out
}

} // verus!
