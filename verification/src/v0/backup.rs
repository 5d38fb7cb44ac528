//! Making a backup: the main document, and the dealer of its key shards.

use crate::primitives::{
    aead_encrypt, chacha20poly1305_open, chacha20poly1305_seal, ed25519_public,
    ed25519_public_key, random_bytes,
};
use crate::shamir::{Dealer, DealerView, ShamirError};
use crate::v0::wire::array_from_slice;
use crate::v0::{
    Error, KeyShard, KeyShardBuilder, KeyShardBuilderView, KeyShardView, MainDocument,
    MainDocumentBuilder, MainDocumentBuilderView, MainDocumentMeta, MainDocumentView,
    ShardSecret, ShardSecretView,
};
use vstd::prelude::*;

verus! {

/// The smallest quorum size of a backup.
pub const MIN_QUORUM_SIZE: u32 = 2;

/// The largest quorum size of a backup: the number of points at which a
/// shard can lie.
pub const MAX_QUORUM_SIZE: u32 = 255;

/// A backup as values: the main document, the polynomials of the dealer, and
/// the private key that signs the shards.
pub struct BackupView {
    pub main_document: MainDocumentView,
    pub dealer: DealerView,
    pub id_private_key: Seq<u8>,
    /// The point of the next key shard, 0 when all have been handed out.
    pub next_x: u8,
}

impl BackupView {
    /// The key shard at the point `x`: the share of the dealer there with
    /// the checksum of the main document, signed with the private key.
    pub open spec fn key_shard_at(self, x: u8) -> KeyShardView {
        KeyShardBuilderView {
            version: 0,
            doc_chksum: self.main_document.checksum(),
            shard: self.dealer.shard_at(x),
        }.signed(self.id_private_key)
    }

    /// Whether the backup hands `shard` out: it is the key shard at a point
    /// other than 0, and its signature is accepted.
    pub open spec fn issues(self, shard: KeyShardView) -> bool {
        shard.inner.shard.x != 0 && shard == self.key_shard_at(shard.inner.shard.x)
            && shard.verifies()
    }

    /// The shard secret that the dealer shares, where it shares one.
    pub open spec fn shard_secret(self) -> Option<ShardSecretView> {
        ShardSecretView::parse_all(self.dealer.secret())
    }

    /// The secret that the main document holds under the key of the shard
    /// secret `shard_secret`, where the key opens it.
    pub open spec fn opened(self, shard_secret: ShardSecretView) -> Option<Seq<u8>> {
        chacha20poly1305_open(
            shard_secret.doc_key,
            self.main_document.inner.nonce,
            self.main_document.inner.meta.aad_bytes(self.main_document.identity.id_public_key),
            self.main_document.inner.ciphertext,
        )
    }

    /// The secret of the backup: what the key that the dealer shares makes
    /// of the ciphertext of the main document.
    pub open spec fn secret(self) -> Option<Seq<u8>> {
        match self.shard_secret() {
            Some(shard_secret) => self.opened(shard_secret),
            None => None,
        }
    }

    /// What holds of every backup: the main document is well formed, with
    /// a quorum size from 2 to 255 and an accepted signature
    /// under the public key of the private key; the dealer has a polynomial
    /// of as many coefficients as the quorum size for every byte of a shard
    /// secret that holds the private key and a key that opens the main
    /// document.
    pub open spec fn wf(self) -> bool {
        &&& self.main_document.wf()
        &&& MIN_QUORUM_SIZE <= self.main_document.inner.meta.quorum_size <= MAX_QUORUM_SIZE
        &&& self.main_document.verifies()
        &&& self.main_document.identity.id_public_key == ed25519_public(self.id_private_key)
        &&& self.id_private_key.len() == 32
        &&& forall|i: int|
            0 <= i < self.dealer.polys.len() ==> (#[trigger] self.dealer.polys[i]).len()
                == self.main_document.inner.meta.quorum_size
        &&& self.shard_secret() matches Some(shard_secret) && shard_secret.id_private_key == Some(
            self.id_private_key,
        ) && self.opened(shard_secret) is Some
    }

    /// The backup of `secret` that the given key, nonce, private key and
    /// coefficients make.
    pub open spec fn made(
        quorum_size: u32,
        secret: Seq<u8>,
        doc_key: Seq<u8>,
        nonce: Seq<u8>,
        id_private_key: Seq<u8>,
        coefficients: Seq<u8>,
    ) -> BackupView {
        let meta = MainDocumentMeta { version: 0, quorum_size };
        let id_public_key = ed25519_public(id_private_key);
        let ciphertext = chacha20poly1305_seal(
            doc_key,
            nonce,
            meta.aad_bytes(id_public_key),
            secret,
        );
        let shard_secret = ShardSecretView { doc_key, id_private_key: Some(id_private_key) };
        BackupView {
            main_document: MainDocumentBuilderView { meta, nonce, ciphertext }.signed(
                id_private_key,
            ),
            dealer: DealerView::dealt(quorum_size as nat, shard_secret.wire(), coefficients),
            id_private_key,
            next_x: 1,
        }
    }

    /// Whether a secret is short enough to be encrypted: with its tag it can
    /// be allocated, and it has fewer than `u32::MAX` blocks of 64 bytes.
    pub open spec fn sealable(secret: Seq<u8>) -> bool {
        secret.len() + 16 <= isize::MAX && secret.len() / 64 < u32::MAX
    }

    /// The number of random bytes that the dealer of a backup with the given
    /// quorum size takes: for every byte of the shard secret one for each
    /// coefficient but the lowest.
    pub open spec fn coefficients_len(quorum_size: u32) -> int {
        69 * (quorum_size - 1)
    }
}

/// A backup of a secret: its main document, and the dealer of its key
/// shards, which are signed with a private key that is made for this backup
/// and leaves it only inside the shards.
pub struct Backup {
    main_document: MainDocument,
    dealer: Dealer,
    id_private_key: [u8; 32],
    next_x: u8,
}

impl Backup {
    #[verifier::type_invariant]
    spec fn well_formed(self) -> bool {
        self@.wf()
    }

    /// The backup as values.
    pub closed spec fn view(&self) -> BackupView {
        BackupView {
            main_document: self.main_document@,
            dealer: self.dealer@,
            id_private_key: self.id_private_key@,
            next_x: self.next_x,
        }
    }

    /// Makes a backup of `secret` from the given key, nonce, private key and
    /// coefficients. The quorum size has to lie between 2 and 255, the
    /// secret has to be short enough to be encrypted, and there have to be
    /// as many coefficients as the dealer takes; the first of these that
    /// fails gives the error.
    pub fn with_randomness(
        quorum_size: u32,
        secret: &[u8],
        doc_key: &[u8; 32],
        nonce: &[u8; 12],
        id_private_key: &[u8; 32],
        coefficients: &[u8],
    ) -> (r: Result<Backup, Error>)
        ensures
            match r {
                Ok(backup) => {
                    &&& MIN_QUORUM_SIZE <= quorum_size <= MAX_QUORUM_SIZE
                    &&& BackupView::sealable(secret@)
                    &&& coefficients@.len() == BackupView::coefficients_len(quorum_size)
                    &&& backup@ == BackupView::made(
                        quorum_size,
                        secret@,
                        doc_key@,
                        nonce@,
                        id_private_key@,
                        coefficients@,
                    )
                    &&& backup@.wf()
                    &&& backup@.secret() == Some(secret@)
                },
                Err(e) => if quorum_size < MIN_QUORUM_SIZE || quorum_size > MAX_QUORUM_SIZE {
                    e == Error::Shamir(ShamirError::InvalidThreshold)
                } else if !BackupView::sealable(secret@) {
                    e == Error::AeadEncryption
                } else {
                    e == Error::Shamir(ShamirError::RandomnessLength) && coefficients@.len()
                        != BackupView::coefficients_len(quorum_size)
                },
            },
    {
        if quorum_size < MIN_QUORUM_SIZE || quorum_size > MAX_QUORUM_SIZE {
            return Err(Error::Shamir(ShamirError::InvalidThreshold));
        }
        if secret.len() > (isize::MAX as usize) - 16 {
            return Err(Error::AeadEncryption);
        }
        // Encrypt the secret, bound to the meta data and to the signer.
        let meta = MainDocumentMeta { version: 0, quorum_size };
        let id_public_key = ed25519_public_key(id_private_key);
        let aad = meta.aad(&id_public_key);
        let ciphertext = match aead_encrypt(doc_key, nonce, aad.as_slice(), secret) {
            Some(ciphertext) => ciphertext,
            None => return Err(Error::AeadEncryption),
        };
        // Sign the main document.
        let main_document = MainDocumentBuilder { meta, nonce: *nonce, ciphertext }.sign(
            id_private_key,
        );
        // Share the key to the document and the private key.
        let shard_secret = ShardSecret { doc_key: *doc_key, id_private_key: Some(*id_private_key) };
        let shard_secret_bytes = shard_secret.to_wire();
        proof {
            reveal_with_fuel(crate::varint::varint, 4);
            shard_secret@.lemma_parse_wire();
        }
        let dealer = match Dealer::with_coefficients(
            quorum_size,
            shard_secret_bytes.as_slice(),
            coefficients,
        ) {
            Ok(dealer) => dealer,
            Err(e) => return Err(Error::Shamir(e)),
        };
        proof {
            assert(main_document.inner.ciphertext@.len() == main_document.inner.ciphertext.len());
            assert(dealer@.secret() =~= shard_secret@.wire());
        }
        Ok(Backup { main_document, dealer, id_private_key: *id_private_key, next_x: 1 })
    }

    /// Makes a backup of `secret` with a fresh key, nonce and private key
    /// and random coefficients. The quorum size has to lie between 2 and
    /// 255 and the secret has to be short enough to be encrypted; the first
    /// of these that fails gives the error.
    pub fn new(quorum_size: u32, secret: &[u8]) -> (r: Result<Backup, Error>)
        ensures
            match r {
                Ok(backup) => {
                    &&& MIN_QUORUM_SIZE <= quorum_size <= MAX_QUORUM_SIZE
                    &&& BackupView::sealable(secret@)
                    &&& exists|
                        doc_key: Seq<u8>,
                        nonce: Seq<u8>,
                        id_private_key: Seq<u8>,
                        coefficients: Seq<u8>,
                    |
                        backup@ == #[trigger] BackupView::made(
                            quorum_size,
                            secret@,
                            doc_key,
                            nonce,
                            id_private_key,
                            coefficients,
                        )
                    &&& backup@.wf()
                    &&& backup@.main_document.inner.meta.quorum_size == quorum_size
                    &&& backup@.secret() == Some(secret@)
                    &&& backup@.next_x == 1
                },
                Err(e) => if quorum_size < MIN_QUORUM_SIZE || quorum_size > MAX_QUORUM_SIZE {
                    e == Error::Shamir(ShamirError::InvalidThreshold)
                } else {
                    e == Error::AeadEncryption && !BackupView::sealable(secret@)
                },
            },
    {
        if quorum_size < MIN_QUORUM_SIZE || quorum_size > MAX_QUORUM_SIZE {
            return Err(Error::Shamir(ShamirError::InvalidThreshold));
        }
        let doc_key: [u8; 32] = array_from_slice(random_bytes(32).as_slice());
        let nonce: [u8; 12] = array_from_slice(random_bytes(12).as_slice());
        let id_private_key: [u8; 32] = array_from_slice(random_bytes(32).as_slice());
        let coefficients = random_bytes(69 * ((quorum_size - 1) as usize));
        Self::with_randomness(
            quorum_size,
            secret,
            &doc_key,
            &nonce,
            &id_private_key,
            coefficients.as_slice(),
        )
    }

    /// A copy of the main document.
    pub fn main_document(&self) -> (main_document: MainDocument)
        ensures
            main_document@ == self@.main_document,
            self@.wf(),
    {
        proof {
            use_type_invariant(self);
        }
        self.main_document.clone()
    }

    /// The next key shard. There are 255 of them; the backup hands out
    /// every one that it returns.
    pub fn next_shard(&mut self) -> (r: Result<KeyShard, Error>)
        ensures
            final(self)@.main_document == old(self)@.main_document,
            final(self)@.id_private_key == old(self)@.id_private_key,
            final(self)@.dealer == old(self)@.dealer,
            old(self)@.wf(),
            match r {
                Ok(shard) => {
                    &&& old(self)@.next_x != 0
                    &&& shard@ == old(self)@.key_shard_at(old(self)@.next_x)
                    &&& old(self)@.issues(shard@)
                    &&& shard@.wf()
                    &&& final(self)@.next_x == if old(self)@.next_x == 255 {
                        0u8
                    } else {
                        (old(self)@.next_x + 1) as u8
                    }
                },
                Err(e) => {
                    &&& e == Error::Shamir(ShamirError::Exhausted)
                    &&& old(self)@.next_x == 0
                    &&& final(self)@.next_x == 0
                },
            },
    {
        proof {
            use_type_invariant(&*self);
        }
        let x = self.next_x;
        let shard = match self.dealer.shard_at(x) {
            Ok(shard) => shard,
            Err(_) => return Err(Error::Shamir(ShamirError::Exhausted)),
        };
        let doc_chksum = self.main_document.checksum();
        let builder = KeyShardBuilder { version: 0, doc_chksum, shard };
        let shard = builder.sign(&self.id_private_key);
        assert(shard.inner.shard.ys@.len() == shard.inner.shard.ys.len());
        self.next_x = if x == 255 {
            0
        } else {
            x + 1
        };
        Ok(shard)
    }
}

} // verus!
