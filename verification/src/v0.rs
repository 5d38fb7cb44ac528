//! Version 0 of the backup format: the documents, their identities and what
//! is derived from them.

use crate::primitives::{
    aead_decrypt, aead_encrypt, bip39_entropy, bip39_phrase, blake2b_256, blake2b_256_multihash,
    chacha20poly1305_open, chacha20poly1305_seal, ed25519_public, ed25519_public_key,
    ed25519_sign, ed25519_signature, ed25519_verifies, ed25519_verify, lowercase,
    mnemonic_entropy, mnemonic_phrase, random_bytes, to_lowercase, zbase32, zbase32_encode,
    BLAKE2B_256_CODE,
};
use crate::shamir::{ShamirError, Shard, ShardView};
pub use crate::v0::backup::Backup;
pub use crate::v0::codewords::KeyShardCodewords;
use crate::v0::codewords::{
    codewords_from, join, join_words, lemma_join_words_of, lemma_words_count, split_words,
    word_views, words_of,
};
pub use crate::v0::recover::{Quorum, UntrustedQuorum};
pub use crate::v0::wire::DecodeError;
use crate::v0::wire::prefixes::PREFIX_ED25519_PUB;
use crate::v0::wire::{array_from_slice, put_bytes, put_tag32};
use crate::varint::varint;
use vstd::prelude::*;
use vstd::string::{StrSliceExecFns, StringExecFns};

pub mod backup;
pub mod codewords;
pub mod recover;
pub mod wire;

verus! {

/// Identifier of a key shard.
pub type ShardId = String;

/// Identifier of a main document.
pub type DocumentId = String;

/// What can go wrong.
#[derive(Clone, Copy, Debug, PartialEq, Eq, Structural)]
pub enum Error {
    /// A signature is not accepted for what it signs, or a private key is
    /// not that of the public key that a document names.
    InvariantViolation,
    /// The shards do not hide the private key that new shards are signed
    /// with.
    MissingCapability,
    /// Authenticated encryption refused the message.
    AeadEncryption,
    /// Authenticated decryption failed: the key is wrong or the ciphertext
    /// was tampered with.
    AeadDecryption,
    /// The secret sharing failed.
    Shamir(ShamirError),
    /// What the shards hid is not a shard secret.
    ShardSecretDecode,
    /// The code words are not a valid mnemonic phrase for a key.
    Bip39,
    /// Bytes are not the wire form of what was to be decoded.
    Decode(DecodeError),
    /// A quorum has no main document.
    MissingMainDocument,
    /// A shard does not belong to the main document of the quorum.
    GroupingMismatch,
    /// A quorum has fewer shards than the main document asks for.
    InsufficientQuorum,
    /// The shards of a quorum do not all lie on the polynomials of one
    /// dealer: subsets of them combine to different secrets.
    QuorumInconsistent,
}

impl Error {
    /// What the error says.
    pub open spec fn text(self) -> Seq<char> {
        match self {
            Error::InvariantViolation => "security invariant violated"@,
            Error::MissingCapability => "missing necessary capabilities to complete request"@,
            Error::AeadEncryption => "aead encryption cryptographic error"@,
            Error::AeadDecryption => "aead decryption cryptographic error"@,
            Error::Shamir(e) => "shamir algorithm operation: "@ + e.text(),
            Error::ShardSecretDecode => "failed to decode shard secret"@,
            Error::Bip39 => "bip39 phrase failure"@,
            Error::Decode(e) => "failed to decode: "@ + e.text(),
            Error::MissingMainDocument => "quorum has no main document"@,
            Error::GroupingMismatch => "shard does not belong to the main document"@,
            Error::InsufficientQuorum => "fewer shards than the quorum size"@,
            Error::QuorumInconsistent => "shards combine to different secrets"@,
        }
    }

    /// What the error says.
    pub fn message(&self) -> (s: String)
        ensures
            s@ == self.text(),
    {
        match self {
            Error::InvariantViolation => String::from_str("security invariant violated"),
            Error::MissingCapability => String::from_str(
                "missing necessary capabilities to complete request",
            ),
            Error::AeadEncryption => String::from_str("aead encryption cryptographic error"),
            Error::AeadDecryption => String::from_str("aead decryption cryptographic error"),
            Error::Shamir(e) => String::from_str("shamir algorithm operation: ").concat(
                e.message().as_str(),
            ),
            Error::ShardSecretDecode => String::from_str("failed to decode shard secret"),
            Error::Bip39 => String::from_str("bip39 phrase failure"),
            Error::Decode(e) => String::from_str("failed to decode: ").concat(
                e.message().as_str(),
            ),
            Error::MissingMainDocument => String::from_str("quorum has no main document"),
            Error::GroupingMismatch => String::from_str(
                "shard does not belong to the main document",
            ),
            Error::InsufficientQuorum => String::from_str("fewer shards than the quorum size"),
            Error::QuorumInconsistent => String::from_str("shards combine to different secrets"),
        }
    }
}

/// Whether two slices hold the same bytes.
pub fn bytes_eq(a: &[u8], b: &[u8]) -> (same: bool)
    ensures
        same == (a@ == b@),
{
    if a.len() != b.len() {
        return false;
    }
    let mut i: usize = 0;
    while i < a.len()
        invariant
            i <= a.len(),
            a.len() == b.len(),
            forall|j: int| 0 <= j < i ==> a@[j] == b@[j],
        decreases a.len() - i,
    {
        if a[i] != b[i] {
            return false;
        }
        i += 1;
    }
    assert(a@ =~= b@);
    true
}

/// The signer of a document or shard: an Ed25519 public key, and a signature
/// over the bytes that the signed object fixes.
#[derive(Clone, Copy, Debug, PartialEq, Eq)]
pub struct Identity {
    pub id_public_key: [u8; 32],
    pub id_signature: [u8; 64],
}

/// An [`Identity`] as byte sequences.
pub struct IdentityView {
    pub id_public_key: Seq<u8>,
    pub id_signature: Seq<u8>,
}

impl View for Identity {
    type V = IdentityView;

    open spec fn view(&self) -> IdentityView {
        IdentityView { id_public_key: self.id_public_key@, id_signature: self.id_signature@ }
    }
}

impl IdentityView {
    /// Key and signature have their lengths.
    pub open spec fn wf(self) -> bool {
        self.id_public_key.len() == 32 && self.id_signature.len() == 64
    }
}

/// Version and quorum size of a main document.
#[derive(Clone, Copy, Debug, PartialEq, Eq)]
pub struct MainDocumentMeta {
    /// 0 in this version of the format.
    pub version: u32,
    pub quorum_size: u32,
}

/// The unsigned part of a main document: the secret under ChaCha20-Poly1305,
/// with the nonce and the meta data.
#[derive(Debug, PartialEq, Eq)]
pub struct MainDocumentBuilder {
    pub meta: MainDocumentMeta,
    pub nonce: [u8; 12],
    pub ciphertext: Vec<u8>,
}

/// A [`MainDocumentBuilder`] as byte sequences.
pub struct MainDocumentBuilderView {
    pub meta: MainDocumentMeta,
    pub nonce: Seq<u8>,
    pub ciphertext: Seq<u8>,
}

impl View for MainDocumentBuilder {
    type V = MainDocumentBuilderView;

    open spec fn view(&self) -> MainDocumentBuilderView {
        MainDocumentBuilderView {
            meta: self.meta,
            nonce: self.nonce@,
            ciphertext: self.ciphertext@,
        }
    }
}

impl MainDocumentMeta {
    /// The version is 0.
    pub open spec fn wf(self) -> bool {
        self.version == 0
    }
}

impl MainDocumentBuilderView {
    /// The meta data are well formed, the nonce has its length, and the
    /// length of the ciphertext is a size.
    pub open spec fn wf(self) -> bool {
        self.meta.wf() && self.nonce.len() == 12 && self.ciphertext.len() <= usize::MAX
    }
}

impl Clone for MainDocumentBuilder {
    fn clone(&self) -> (r: Self)
        ensures
            r@ == self@,
    {
        MainDocumentBuilder {
            meta: self.meta,
            nonce: self.nonce,
            ciphertext: self.ciphertext.clone(),
        }
    }
}

/// A signed main document.
#[derive(Debug, PartialEq, Eq)]
pub struct MainDocument {
    pub inner: MainDocumentBuilder,
    pub identity: Identity,
}

/// A [`MainDocument`] as byte sequences.
pub struct MainDocumentView {
    pub inner: MainDocumentBuilderView,
    pub identity: IdentityView,
}

impl View for MainDocument {
    type V = MainDocumentView;

    open spec fn view(&self) -> MainDocumentView {
        MainDocumentView { inner: self.inner@, identity: self.identity@ }
    }
}

impl MainDocumentView {
    /// The parts are well formed.
    pub open spec fn wf(self) -> bool {
        self.inner.wf() && self.identity.wf()
    }
}

impl Clone for MainDocument {
    fn clone(&self) -> (r: Self)
        ensures
            r@ == self@,
    {
        MainDocument { inner: self.inner.clone(), identity: self.identity }
    }
}

/// A multihash: the code of a hash function and a digest.
#[derive(Debug, PartialEq, Eq)]
pub struct Multihash {
    pub code: u64,
    pub digest: Vec<u8>,
}

/// A [`Multihash`] with its digest as a byte sequence.
pub struct MultihashView {
    pub code: u64,
    pub digest: Seq<u8>,
}

impl View for Multihash {
    type V = MultihashView;

    open spec fn view(&self) -> MultihashView {
        MultihashView { code: self.code, digest: self.digest@ }
    }
}

impl MultihashView {
    /// The longest digest that a multihash holds.
    pub open spec fn max_digest_len() -> nat {
        64
    }

    /// The digest is no longer than a multihash allows.
    pub open spec fn wf(self) -> bool {
        self.digest.len() <= Self::max_digest_len()
    }
}

impl Clone for Multihash {
    fn clone(&self) -> (r: Self)
        ensures
            r@ == self@,
    {
        Multihash { code: self.code, digest: self.digest.clone() }
    }
}

/// The unsigned part of a key shard: the checksum of the main document that
/// it belongs to, and a share of the key to it.
#[derive(Debug, PartialEq, Eq)]
pub struct KeyShardBuilder {
    /// 0 in this version of the format.
    pub version: u32,
    pub doc_chksum: Multihash,
    pub shard: Shard,
}

/// A [`KeyShardBuilder`] as byte sequences.
pub struct KeyShardBuilderView {
    pub version: u32,
    pub doc_chksum: MultihashView,
    pub shard: ShardView,
}

impl View for KeyShardBuilder {
    type V = KeyShardBuilderView;

    open spec fn view(&self) -> KeyShardBuilderView {
        KeyShardBuilderView {
            version: self.version,
            doc_chksum: self.doc_chksum@,
            shard: self.shard@,
        }
    }
}

impl KeyShardBuilderView {
    /// The version is 0 and the parts are well formed.
    pub open spec fn wf(self) -> bool {
        self.version == 0 && self.doc_chksum.wf() && self.shard.wf()
    }
}

impl Clone for KeyShardBuilder {
    fn clone(&self) -> (r: Self)
        ensures
            r@ == self@,
    {
        KeyShardBuilder {
            version: self.version,
            doc_chksum: self.doc_chksum.clone(),
            shard: self.shard.clone(),
        }
    }
}

/// A signed key shard.
#[derive(Debug, PartialEq, Eq)]
pub struct KeyShard {
    pub inner: KeyShardBuilder,
    pub identity: Identity,
}

/// A [`KeyShard`] as byte sequences.
pub struct KeyShardView {
    pub inner: KeyShardBuilderView,
    pub identity: IdentityView,
}

impl View for KeyShard {
    type V = KeyShardView;

    open spec fn view(&self) -> KeyShardView {
        KeyShardView { inner: self.inner@, identity: self.identity@ }
    }
}

impl KeyShardView {
    /// The parts are well formed.
    pub open spec fn wf(self) -> bool {
        self.inner.wf() && self.identity.wf()
    }
}

impl Clone for KeyShard {
    fn clone(&self) -> (r: Self)
        ensures
            r@ == self@,
    {
        KeyShard { inner: self.inner.clone(), identity: self.identity }
    }
}

/// A key shard under ChaCha20-Poly1305. The key is not part of it: it is
/// handed out as 24 code words.
#[derive(Debug, PartialEq, Eq)]
pub struct EncryptedKeyShard {
    pub nonce: [u8; 12],
    pub ciphertext: Vec<u8>,
}

/// An [`EncryptedKeyShard`] as byte sequences.
pub struct EncryptedKeyShardView {
    pub nonce: Seq<u8>,
    pub ciphertext: Seq<u8>,
}

impl View for EncryptedKeyShard {
    type V = EncryptedKeyShardView;

    open spec fn view(&self) -> EncryptedKeyShardView {
        EncryptedKeyShardView { nonce: self.nonce@, ciphertext: self.ciphertext@ }
    }
}

impl EncryptedKeyShardView {
    /// The nonce has its length, and the length of the ciphertext is a size.
    pub open spec fn wf(self) -> bool {
        self.nonce.len() == 12 && self.ciphertext.len() <= usize::MAX
    }
}

impl Clone for EncryptedKeyShard {
    fn clone(&self) -> (r: Self)
        ensures
            r@ == self@,
    {
        EncryptedKeyShard { nonce: self.nonce, ciphertext: self.ciphertext.clone() }
    }
}

/// What the shards of a backup share: the key to the main document and,
/// where the holders may deal new shards, the private key of the backup.
#[derive(Debug, PartialEq, Eq)]
pub struct ShardSecret {
    pub doc_key: [u8; 32],
    pub id_private_key: Option<[u8; 32]>,
}

/// A [`ShardSecret`] as byte sequences.
pub struct ShardSecretView {
    pub doc_key: Seq<u8>,
    pub id_private_key: Option<Seq<u8>>,
}

impl View for ShardSecret {
    type V = ShardSecretView;

    open spec fn view(&self) -> ShardSecretView {
        ShardSecretView {
            doc_key: self.doc_key@,
            id_private_key: match self.id_private_key {
                Some(key) => Some(key@),
                None => None,
            },
        }
    }
}

impl ShardSecretView {
    /// The keys have their lengths.
    pub open spec fn wf(self) -> bool {
        self.doc_key.len() == 32 && (self.id_private_key matches Some(key) ==> key.len() == 32)
    }
}

impl MainDocumentMeta {
    /// The associated data under which the secret is encrypted: the wire
    /// form of the meta data, the letter `k`, the public key of the signer.
    pub open spec fn aad_bytes(self, id_public_key: Seq<u8>) -> Seq<u8> {
        self.wire() + seq![0x6bu8] + id_public_key
    }

    /// The associated data under which the secret is encrypted.
    pub fn aad(&self, id_public_key: &[u8; 32]) -> (bytes: Vec<u8>)
        ensures
            bytes@ == self.aad_bytes(id_public_key@),
    {
        let mut bytes = self.to_wire();
        bytes.push(0x6b);
        put_bytes(&mut bytes, id_public_key.as_slice());
        bytes
    }
}

impl MainDocumentBuilderView {
    /// What the signer of a main document signs: the wire form of the
    /// builder, the prefix of a public key, the public key of the signer.
    pub open spec fn signable_bytes(self, id_public_key: Seq<u8>) -> Seq<u8> {
        self.wire() + varint(PREFIX_ED25519_PUB as nat) + id_public_key
    }

    /// The main document that the holder of `id_private_key` makes of this
    /// builder.
    pub open spec fn signed(self, id_private_key: Seq<u8>) -> MainDocumentView {
        let id_public_key = ed25519_public(id_private_key);
        MainDocumentView {
            inner: self,
            identity: IdentityView {
                id_public_key,
                id_signature: ed25519_signature(
                    id_private_key,
                    self.signable_bytes(id_public_key),
                ),
            },
        }
    }
}

impl MainDocumentBuilder {
    /// What the signer of a main document signs.
    pub fn signable_bytes(&self, id_public_key: &[u8; 32]) -> (bytes: Vec<u8>)
        ensures
            bytes@ == self@.signable_bytes(id_public_key@),
    {
        let mut bytes = self.to_wire();
        put_tag32(&mut bytes, PREFIX_ED25519_PUB);
        put_bytes(&mut bytes, id_public_key.as_slice());
        bytes
    }

    /// Signs the builder with a private key. The signature of the main
    /// document is accepted under the public key that it names.
    pub fn sign(self, id_private_key: &[u8; 32]) -> (doc: MainDocument)
        ensures
            doc@ == self@.signed(id_private_key@),
            doc@.verifies(),
    {
        let id_public_key = ed25519_public_key(id_private_key);
        let bytes = self.signable_bytes(&id_public_key);
        let id_signature = ed25519_sign(id_private_key, bytes.as_slice());
        MainDocument { inner: self, identity: Identity { id_public_key, id_signature } }
    }
}

impl MainDocumentView {
    /// Whether the signature is accepted, under the public key of the
    /// identity, for what the signer of this document signs.
    pub open spec fn verifies(self) -> bool {
        ed25519_verifies(
            self.identity.id_public_key,
            self.inner.signable_bytes(self.identity.id_public_key),
            self.identity.id_signature,
        )
    }

    /// The BLAKE2b-256 multihash of the wire form.
    pub open spec fn checksum(self) -> MultihashView {
        MultihashView { code: BLAKE2B_256_CODE, digest: blake2b_256(self.wire()) }
    }

    /// The last eight characters of the z-base-32 encoding of the checksum.
    pub open spec fn id(self) -> Seq<char> {
        let encoded = zbase32(self.checksum().wire());
        encoded.subrange(encoded.len() - 8, encoded.len() as int)
    }
}

impl MainDocument {
    /// The number of characters of the identifier of a main document.
    pub const ID_LENGTH: usize = 8;

    /// Whether the signature of the document is accepted.
    pub fn verify(&self) -> (ok: bool)
        ensures
            ok == self@.verifies(),
    {
        let bytes = self.inner.signable_bytes(&self.identity.id_public_key);
        ed25519_verify(&self.identity.id_public_key, bytes.as_slice(), &self.identity.id_signature)
    }

    /// The checksum that the shards of this document carry.
    pub fn checksum(&self) -> (chksum: Multihash)
        ensures
            chksum@ == self@.checksum(),
            chksum@.digest.len() == 32,
    {
        let bytes = self.to_wire();
        let (code, digest) = blake2b_256_multihash(bytes.as_slice());
        Multihash { code, digest }
    }

    /// The identifier of the document.
    pub fn id(&self) -> (id: DocumentId)
        ensures
            id@ == self@.id(),
            id@.len() == 8,
    {
        let doc_chksum = self.checksum().to_bytes();
        proof {
            reveal_with_fuel(varint, 4);
        }
        let encoded_chksum = zbase32_encode(doc_chksum.as_slice());
        // The suffix is the identifier.
        let short_id = encoded_chksum.as_str().substring_ascii(50, 58);
        String::from_str(short_id)
    }

    /// The number of shards that recover the secret.
    pub fn quorum_size(&self) -> (k: u32)
        ensures
            k == self@.inner.meta.quorum_size,
    {
        self.inner.meta.quorum_size
    }
}

impl Multihash {
    /// Whether two multihashes have the same code and digest.
    pub fn same(&self, other: &Multihash) -> (same: bool)
        ensures
            same == (self@ == other@),
    {
        self.code == other.code && bytes_eq(self.digest.as_slice(), other.digest.as_slice())
    }
}

impl KeyShardBuilderView {
    /// What the signer of a key shard signs: the wire form of the builder,
    /// the prefix of a public key, the public key of the signer.
    pub open spec fn signable_bytes(self, id_public_key: Seq<u8>) -> Seq<u8> {
        self.wire() + varint(PREFIX_ED25519_PUB as nat) + id_public_key
    }

    /// The key shard that the holder of `id_private_key` makes of this
    /// builder.
    pub open spec fn signed(self, id_private_key: Seq<u8>) -> KeyShardView {
        let id_public_key = ed25519_public(id_private_key);
        KeyShardView {
            inner: self,
            identity: IdentityView {
                id_public_key,
                id_signature: ed25519_signature(
                    id_private_key,
                    self.signable_bytes(id_public_key),
                ),
            },
        }
    }
}

impl KeyShardBuilder {
    /// What the signer of a key shard signs.
    pub fn signable_bytes(&self, id_public_key: &[u8; 32]) -> (bytes: Vec<u8>)
        ensures
            bytes@ == self@.signable_bytes(id_public_key@),
    {
        let mut bytes = self.to_wire();
        put_tag32(&mut bytes, PREFIX_ED25519_PUB);
        put_bytes(&mut bytes, id_public_key.as_slice());
        bytes
    }

    /// Signs the builder with a private key. The signature of the key shard
    /// is accepted under the public key that it names.
    pub fn sign(self, id_private_key: &[u8; 32]) -> (shard: KeyShard)
        ensures
            shard@ == self@.signed(id_private_key@),
            shard@.verifies(),
    {
        let id_public_key = ed25519_public_key(id_private_key);
        let bytes = self.signable_bytes(&id_public_key);
        let id_signature = ed25519_sign(id_private_key, bytes.as_slice());
        KeyShard { inner: self, identity: Identity { id_public_key, id_signature } }
    }
}

impl KeyShardView {
    /// Whether the signature is accepted, under the public key of the
    /// identity, for what the signer of this shard signs.
    pub open spec fn verifies(self) -> bool {
        ed25519_verifies(
            self.identity.id_public_key,
            self.inner.signable_bytes(self.identity.id_public_key),
            self.identity.id_signature,
        )
    }

    /// Whether the wire form is short enough to be encrypted: with its tag
    /// it can be allocated, and it has fewer than `u32::MAX` blocks of 64
    /// bytes.
    pub open spec fn sealable(self) -> bool {
        self.wire().len() + 16 <= isize::MAX && self.wire().len() / 64 < u32::MAX
    }

    /// The encrypted key shard and the code words that `shard_key` and
    /// `shard_nonce` give: the wire form under ChaCha20-Poly1305 without
    /// associated data, and the words of the mnemonic phrase of the key.
    pub open spec fn encrypted(self, shard_key: Seq<u8>, shard_nonce: Seq<u8>) -> (
        EncryptedKeyShardView,
        Seq<Seq<char>>,
    ) {
        (
            EncryptedKeyShardView {
                nonce: shard_nonce,
                ciphertext: chacha20poly1305_seal(
                    shard_key,
                    shard_nonce,
                    Seq::<u8>::empty(),
                    self.wire(),
                ),
            },
            words_of(lowercase(bip39_phrase(shard_key))),
        )
    }
}

impl KeyShard {
    /// The number of characters of the identifier of a key shard.
    pub const ID_LENGTH: usize = Shard::ID_LENGTH;

    /// The identifier of the shard: that of its share.
    pub fn id(&self) -> (id: ShardId)
        ensures
            id@ == self@.inner.shard.id(),
            id@.len() == 2,
    {
        self.inner.shard.id()
    }

    /// Whether the signature of the shard is accepted.
    pub fn verify(&self) -> (ok: bool)
        ensures
            ok == self@.verifies(),
    {
        let bytes = self.inner.signable_bytes(&self.identity.id_public_key);
        ed25519_verify(&self.identity.id_public_key, bytes.as_slice(), &self.identity.id_signature)
    }

    /// Encrypts the shard under the given key and nonce. It fails where the
    /// shard is too long to be encrypted, and only there. The code words
    /// decrypt what is returned to this shard again.
    pub fn encrypt_with(self, shard_key: &[u8; 32], shard_nonce: &[u8; 12]) -> (r: Result<
        (EncryptedKeyShard, KeyShardCodewords),
        Error,
    >)
        ensures
            match r {
                Ok((encrypted, codewords)) => {
                    &&& self@.sealable()
                    &&& (encrypted@, word_views(codewords@)) == self@.encrypted(
                        shard_key@,
                        shard_nonce@,
                    )
                    &&& self@.wf() ==> encrypted@.decrypted(word_views(codewords@)) == Ok::<
                        _,
                        Error,
                    >(self@)
                },
                Err(e) => e == Error::AeadEncryption && !self@.sealable(),
            },
    {
        // Serialise.
        let wire_shard = self.to_wire();
        if wire_shard.len() > (isize::MAX as usize) - 16 {
            return Err(Error::AeadEncryption);
        }
        // Encrypt the contents.
        let no_aad: Vec<u8> = Vec::new();
        let ciphertext = match aead_encrypt(
            shard_key,
            shard_nonce,
            no_aad.as_slice(),
            wire_shard.as_slice(),
        ) {
            Some(ciphertext) => ciphertext,
            None => return Err(Error::AeadEncryption),
        };
        // Convert the key to a mnemonic phrase, in the form in which phrases
        // are read again.
        let phrase = match mnemonic_phrase(shard_key) {
            Some(phrase) => phrase,
            None => return Err(Error::Bip39),
        };
        let phrase = to_lowercase(phrase.as_str());
        let words = split_words(phrase.as_str());
        proof {
            lemma_words_count(phrase@);
            lemma_join_words_of(phrase@);
            if self@.wf() {
                self@.lemma_parse_wire(Seq::<u8>::empty());
            }
        }
        let codewords = codewords_from(words);
        // Create the wrapper shard.
        let shard = EncryptedKeyShard { nonce: *shard_nonce, ciphertext };
        Ok((shard, codewords))
    }

    /// Encrypts the shard under a fresh key and nonce, and hands out the key
    /// as code words. It fails where the shard is too long to be encrypted,
    /// and only there. The code words decrypt what is returned to this shard
    /// again.
    pub fn encrypt(self) -> (r: Result<(EncryptedKeyShard, KeyShardCodewords), Error>)
        ensures
            match r {
                Ok((encrypted, codewords)) => {
                    &&& self@.sealable()
                    &&& exists|shard_key: Seq<u8>, shard_nonce: Seq<u8>|
                        shard_key.len() == 32 && shard_nonce.len() == 12 && (
                            encrypted@,
                            word_views(codewords@),
                        ) == #[trigger] self@.encrypted(shard_key, shard_nonce)
                    &&& self@.wf() ==> encrypted@.decrypted(word_views(codewords@)) == Ok::<
                        _,
                        Error,
                    >(self@)
                },
                Err(e) => e == Error::AeadEncryption && !self@.sealable(),
            },
    {
        // Generate key and nonce.
        let shard_key: [u8; 32] = array_from_slice(random_bytes(32).as_slice());
        let shard_nonce: [u8; 12] = array_from_slice(random_bytes(12).as_slice());
        self.encrypt_with(&shard_key, &shard_nonce)
    }
}

impl EncryptedKeyShardView {
    /// What the code words make of the encrypted key shard. The words are
    /// joined by spaces and put in lowercase; they have to be a mnemonic
    /// phrase for 32 bytes, the bytes have to be the key to the ciphertext,
    /// and the plaintext has to be the wire form of a key shard.
    pub open spec fn decrypted(self, codewords: Seq<Seq<char>>) -> Result<KeyShardView, Error> {
        match bip39_entropy(lowercase(join_words(codewords))) {
            Some(shard_key) => if shard_key.len() == 32 {
                match chacha20poly1305_open(
                    shard_key,
                    self.nonce,
                    Seq::<u8>::empty(),
                    self.ciphertext,
                ) {
                    Some(wire_shard) => match KeyShardView::parse_all(wire_shard) {
                        Ok(shard) => Ok(shard),
                        Err(e) => Err(Error::Decode(e)),
                    },
                    None => Err(Error::AeadDecryption),
                }
            } else {
                Err(Error::Bip39)
            },
            None => Err(Error::Bip39),
        }
    }
}

impl EncryptedKeyShard {
    /// Decrypts the shard with the key that the code words stand for.
    pub fn decrypt(self, codewords: &KeyShardCodewords) -> (r: Result<KeyShard, Error>)
        ensures
            match r {
                Ok(shard) => self@.decrypted(word_views(codewords@)) == Ok::<_, Error>(shard@),
                Err(e) => self@.decrypted(word_views(codewords@)) == Err::<KeyShardView, _>(e),
            },
    {
        // Convert the code words to a key.
        let phrase = to_lowercase(join(codewords.as_slice()).as_str());
        let entropy = match mnemonic_entropy(phrase.as_str()) {
            Some(entropy) => entropy,
            None => return Err(Error::Bip39),
        };
        if entropy.len() != 32 {
            return Err(Error::Bip39);
        }
        let shard_key: [u8; 32] = array_from_slice(entropy.as_slice());
        // Decrypt the contents.
        let no_aad: Vec<u8> = Vec::new();
        let wire_shard = match aead_decrypt(
            &shard_key,
            &self.nonce,
            no_aad.as_slice(),
            self.ciphertext.as_slice(),
        ) {
            Some(wire_shard) => wire_shard,
            None => return Err(Error::AeadDecryption),
        };
        // Deserialise.
        match KeyShard::from_wire(wire_shard.as_slice()) {
            Ok(shard) => Ok(shard),
            Err(e) => Err(Error::Decode(e)),
        }
    }
}

} // verus!
