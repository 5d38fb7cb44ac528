//! Recovery: shards are collected for a main document, checked against it,
//! and combined to the key that opens it.

use crate::primitives::{
    aead_decrypt, chacha20poly1305_open, ed25519_public, ed25519_public_key,
};
use crate::shamir::{
    combine, combined, distinct, extend, extended, shard_views, ShamirError, Shard, ShardView,
};
use crate::v0::{
    bytes_eq, Error, KeyShard, KeyShardBuilder, KeyShardBuilderView, KeyShardView, MainDocument,
    MainDocumentView, MultihashView, ShardSecret, ShardSecretView,
};
use vstd::prelude::*;

verus! {

/// The key shards as values.
pub open spec fn key_shard_views(shards: Seq<KeyShard>) -> Seq<KeyShardView> {
    Seq::new(shards.len(), |i: int| shards[i]@)
}

/// The shares of the key shards.
pub open spec fn shares(shards: Seq<KeyShardView>) -> Seq<ShardView> {
    Seq::new(shards.len(), |i: int| shards[i].inner.shard)
}

/// The points at which the shares of the key shards lie.
pub open spec fn shard_points(shards: Seq<KeyShardView>) -> Seq<u8> {
    Seq::new(shards.len(), |i: int| shards[i].inner.shard.x)
}

/// Whether the signature of every shard is accepted.
pub open spec fn all_verify(shards: Seq<KeyShardView>) -> bool {
    forall|i: int| 0 <= i < shards.len() ==> (#[trigger] shards[i]).verifies()
}

/// Whether every shard names the public key `id_public_key`.
pub open spec fn all_signed_by(shards: Seq<KeyShardView>, id_public_key: Seq<u8>) -> bool {
    forall|i: int|
        0 <= i < shards.len() ==> (#[trigger] shards[i]).identity.id_public_key == id_public_key
}

/// Whether every shard carries the checksum `doc_chksum`.
pub open spec fn all_belong_to(shards: Seq<KeyShardView>, doc_chksum: MultihashView) -> bool {
    forall|i: int| 0 <= i < shards.len() ==> (#[trigger] shards[i]).inner.doc_chksum == doc_chksum
}

/// The outcome of validation. The rules are tried in this order and the
/// first that fails gives the error: there is a main document; its signature
/// is accepted; the signature of every shard is accepted; every shard names
/// the public key of the main document; every shard carries the checksum of
/// the main document; no two shards lie at one point; the shards are at least
/// as many as the quorum size of the main document.
pub open spec fn validation(
    main_document: Option<MainDocumentView>,
    shards: Seq<KeyShardView>,
) -> Result<(), Error> {
    match main_document {
        None => Err(Error::MissingMainDocument),
        Some(main_document) => if !main_document.verifies() {
            Err(Error::InvariantViolation)
        } else if !all_verify(shards) {
            Err(Error::InvariantViolation)
        } else if !all_signed_by(shards, main_document.identity.id_public_key) {
            Err(Error::GroupingMismatch)
        } else if !all_belong_to(shards, main_document.checksum()) {
            Err(Error::GroupingMismatch)
        } else if !distinct(shard_points(shards)) {
            Err(Error::Shamir(ShamirError::DuplicateShard))
        } else if shards.len() < main_document.inner.meta.quorum_size {
            Err(Error::InsufficientQuorum)
        } else {
            Ok(())
        }
    }
}

/// Whether every one of the shares `others` is the share at its point that
/// the shares `first` extend to: whether all of them lie on the polynomials
/// through the shares `first`.
pub open spec fn consistent(first: Seq<ShardView>, others: Seq<ShardView>) -> bool {
    forall|j: int|
        0 <= j < others.len() ==> extended(first, (#[trigger] others[j]).x) == Ok::<
            _,
            ShamirError,
        >(others[j])
}

/// What recovery gives for a main document and shards: the shares of the
/// first shards, as many as the quorum size, are combined; the shares of the
/// other shards have to lie on the polynomials through them, so that any
/// other choice of shards combines to the same; what the shares combine to
/// has to be a shard secret; its key has to open the ciphertext of the main
/// document under the associated data that meta data and public key of the
/// document give.
pub open spec fn recovered(main_document: MainDocumentView, shards: Seq<KeyShardView>) -> Result<
    Seq<u8>,
    Error,
> {
    let quorum_size = main_document.inner.meta.quorum_size as int;
    if shards.len() < quorum_size {
        Err(Error::InsufficientQuorum)
    } else {
        match combined(shares(shards.take(quorum_size))) {
            Err(e) => Err(Error::Shamir(e)),
            Ok(bytes) => if !consistent(
                shares(shards.take(quorum_size)),
                shares(shards.skip(quorum_size)),
            ) {
                Err(Error::QuorumInconsistent)
            } else {
                match ShardSecretView::parse_all(bytes) {
                    None => Err(Error::ShardSecretDecode),
                    Some(shard_secret) => match chacha20poly1305_open(
                        shard_secret.doc_key,
                        main_document.inner.nonce,
                        main_document.inner.meta.aad_bytes(main_document.identity.id_public_key),
                        main_document.inner.ciphertext,
                    ) {
                        Some(secret) => Ok(secret),
                        None => Err(Error::AeadDecryption),
                    },
                }
            },
        }
    }
}

/// The key shard at the point `x` that a main document and shards give: the
/// shares of the first shards, as many as the quorum size, have to combine
/// to a shard secret with the private key of the public key that the main
/// document names; the share at `x` that they extend to is signed with it.
/// The point must not be 0, and none of those shards may lie at it.
pub open spec fn minted(
    main_document: MainDocumentView,
    shards: Seq<KeyShardView>,
    x: u8,
) -> Result<KeyShardView, Error> {
    let quorum_size = main_document.inner.meta.quorum_size as int;
    if shards.len() < quorum_size {
        Err(Error::InsufficientQuorum)
    } else {
        let first = shares(shards.take(quorum_size));
        match combined(first) {
            Err(e) => Err(Error::Shamir(e)),
            Ok(bytes) => match ShardSecretView::parse_all(bytes) {
                None => Err(Error::ShardSecretDecode),
                Some(shard_secret) => match shard_secret.id_private_key {
                    None => Err(Error::MissingCapability),
                    Some(id_private_key) => if ed25519_public(id_private_key)
                        != main_document.identity.id_public_key {
                        Err(Error::InvariantViolation)
                    } else {
                        match extended(first, x) {
                            Err(e) => Err(Error::Shamir(e)),
                            Ok(shard) => Ok(
                                KeyShardBuilderView {
                                    version: 0,
                                    doc_chksum: main_document.checksum(),
                                    shard,
                                }.signed(id_private_key),
                            ),
                        }
                    },
                },
            },
        }
    }
}

/// A main document and shards that nothing is known of yet.
pub struct UntrustedQuorum {
    main_document: Option<MainDocument>,
    untrusted_shards: Vec<KeyShard>,
}

/// A main document and shards that have passed validation.
pub struct Quorum {
    main_document: MainDocument,
    shards: Vec<KeyShard>,
}

impl UntrustedQuorum {
    /// The main document, where one was given.
    pub closed spec fn document(&self) -> Option<MainDocumentView> {
        match self.main_document {
            Some(main_document) => Some(main_document@),
            None => None,
        }
    }

    /// The shards that were given, in the order in which they came.
    pub closed spec fn shards(&self) -> Seq<KeyShardView> {
        key_shard_views(self.untrusted_shards@)
    }

    /// A quorum without a main document and without shards.
    pub fn new() -> (quorum: Self)
        ensures
            quorum.document() is None,
            quorum.shards() == Seq::<KeyShardView>::empty(),
    {
        let quorum = UntrustedQuorum { main_document: None, untrusted_shards: Vec::new() };
        quorum
    }

    /// Sets the main document. The shards stay.
    pub fn main_document(&mut self, main_document: MainDocument)
        ensures
            final(self).document() == Some(main_document@),
            final(self).shards() == old(self).shards(),
    {
        self.main_document = Some(main_document);
    }

    /// Adds a shard behind those that are there. The main document stays.
    pub fn push_shard(&mut self, shard: KeyShard)
        ensures
            final(self).document() == old(self).document(),
            final(self).shards() == old(self).shards().push(shard@),
    {
        self.untrusted_shards.push(shard);
    }

    /// The number of shards.
    pub fn num_untrusted_shards(&self) -> (n: usize)
        ensures
            n == self.shards().len(),
    {
        self.untrusted_shards.len()
    }

    /// Checks main document and shards against each other. They become a
    /// quorum where every rule holds; the first rule that fails gives the
    /// error.
    #[verifier::loop_isolation(false)]
    pub fn validate(self) -> (r: Result<Quorum, Error>)
        ensures
            match r {
                Ok(quorum) => {
                    &&& validation(self.document(), self.shards()) == Ok::<_, Error>(())
                    &&& self.document() == Some(quorum.document())
                    &&& self.shards() == quorum.shards()
                },
                Err(e) => validation(self.document(), self.shards()) == Err::<(), _>(e),
            },
    {
        let ghost views = self.shards();
        let UntrustedQuorum { main_document, untrusted_shards: shards } = self;
        let main_document = match main_document {
            Some(main_document) => main_document,
            None => return Err(Error::MissingMainDocument),
        };
        if !main_document.verify() {
            return Err(Error::InvariantViolation);
        }
        let n = shards.len();
        let mut i: usize = 0;
        while i < n
            invariant
                i <= n,
                n == shards@.len(),
                views == key_shard_views(shards@),
                forall|t: int| 0 <= t < i ==> (#[trigger] views[t]).verifies(),
            decreases n - i,
        {
            if !shards[i].verify() {
                assert(!views[i as int].verifies());
                return Err(Error::InvariantViolation);
            }
            i += 1;
        }
        let mut i: usize = 0;
        while i < n
            invariant
                i <= n,
                n == shards@.len(),
                views == key_shard_views(shards@),
                forall|t: int|
                    0 <= t < i ==> (#[trigger] views[t]).identity.id_public_key
                        == main_document@.identity.id_public_key,
            decreases n - i,
        {
            if !bytes_eq(
                shards[i].identity.id_public_key.as_slice(),
                main_document.identity.id_public_key.as_slice(),
            ) {
                assert(views[i as int].identity.id_public_key
                    != main_document@.identity.id_public_key);
                return Err(Error::GroupingMismatch);
            }
            i += 1;
        }
        let doc_chksum = main_document.checksum();
        let mut i: usize = 0;
        while i < n
            invariant
                i <= n,
                n == shards@.len(),
                views == key_shard_views(shards@),
                doc_chksum@ == main_document@.checksum(),
                forall|t: int| 0 <= t < i ==> (#[trigger] views[t]).inner.doc_chksum == doc_chksum@,
            decreases n - i,
        {
            if !shards[i].inner.doc_chksum.same(&doc_chksum) {
                assert(views[i as int].inner.doc_chksum != doc_chksum@);
                return Err(Error::GroupingMismatch);
            }
            i += 1;
        }
        let mut j: usize = 0;
        while j < n
            invariant
                j <= n,
                n == shards@.len(),
                views == key_shard_views(shards@),
                forall|s: int, t: int|
                    0 <= s < t < j ==> views[s].inner.shard.x != views[t].inner.shard.x,
            decreases n - j,
        {
            let mut s: usize = 0;
            while s < j
                invariant
                    s <= j,
                    j < n,
                    n == shards@.len(),
                    views == key_shard_views(shards@),
                    forall|t: int|
                        0 <= t < s ==> views[t].inner.shard.x != views[j as int].inner.shard.x,
                decreases j - s,
            {
                if shards[s].inner.shard.x == shards[j].inner.shard.x {
                    assert(shard_points(views)[s as int] == shard_points(views)[j as int]);
                    return Err(Error::Shamir(ShamirError::DuplicateShard));
                }
                s += 1;
            }
            j += 1;
        }
        if n < main_document.quorum_size() as usize {
            return Err(Error::InsufficientQuorum);
        }
        Ok(Quorum { main_document, shards })
    }
}

impl Quorum {
    #[verifier::type_invariant]
    spec fn valid(self) -> bool {
        validation(Some(self.main_document@), key_shard_views(self.shards@)) is Ok
    }

    /// The main document.
    pub closed spec fn document(&self) -> MainDocumentView {
        self.main_document@
    }

    /// The shards, in the order in which they came.
    pub closed spec fn shards(&self) -> Seq<KeyShardView> {
        key_shard_views(self.shards@)
    }

    /// Copies of the shares of the first shards, as many as the quorum
    /// size.
    fn first_shares(&self) -> (r: Option<Vec<Shard>>)
        ensures
            validation(Some(self.document()), self.shards()) is Ok,
            match r {
                Some(first) => {
                    &&& self.shards().len() >= self.document().inner.meta.quorum_size
                    &&& shard_views(first@) == shares(
                        self.shards().take(self.document().inner.meta.quorum_size as int),
                    )
                },
                None => self.shards().len() < self.document().inner.meta.quorum_size,
            },
    {
        proof {
            use_type_invariant(self);
        }
        let ghost views = self.shards();
        let quorum_size = self.main_document.quorum_size() as usize;
        if self.shards.len() < quorum_size {
            return None;
        }
        let mut first: Vec<Shard> = Vec::new();
        let mut i: usize = 0;
        while i < quorum_size
            invariant
                i <= quorum_size <= self.shards@.len(),
                views == key_shard_views(self.shards@),
                first@.len() == i,
                forall|t: int| 0 <= t < i ==> (#[trigger] first@[t])@ == views[t].inner.shard,
            decreases quorum_size - i,
        {
            first.push(self.shards[i].inner.shard.clone());
            i += 1;
        }
        Some(first)
    }

    /// Whether the shares of the shards behind the first, as many as the
    /// quorum size, lie on the polynomials through the shares `first`.
    fn others_consistent(&self, first: &Vec<Shard>) -> (ok: bool)
        requires
            self.shards().len() >= self.document().inner.meta.quorum_size,
            shard_views(first@) == shares(
                self.shards().take(self.document().inner.meta.quorum_size as int),
            ),
        ensures
            ok == consistent(
                shard_views(first@),
                shares(self.shards().skip(self.document().inner.meta.quorum_size as int)),
            ),
    {
        let quorum_size = self.main_document.quorum_size() as usize;
        let ghost others = shares(self.shards().skip(quorum_size as int));
        let n = self.shards.len();
        let mut i: usize = quorum_size;
        while i < n
            invariant
                quorum_size <= i <= n,
                n == self.shards@.len(),
                quorum_size == self.document().inner.meta.quorum_size,
                others == shares(self.shards().skip(quorum_size as int)),
                forall|j: int|
                    0 <= j < i - quorum_size ==> extended(
                        shard_views(first@),
                        (#[trigger] others[j]).x,
                    ) == Ok::<_, ShamirError>(others[j]),
            decreases n - i,
        {
            let shard = &self.shards[i].inner.shard;
            assert(others[i - quorum_size] == shard@);
            let same = match extend(first.as_slice(), shard.x) {
                Ok(expected) => bytes_eq(expected.ys.as_slice(), shard.ys.as_slice()),
                Err(_) => false,
            };
            if !same {
                return false;
            }
            i += 1;
        }
        true
    }

    /// Recovers the secret of the main document from the shards.
    pub fn recover_document(&self) -> (r: Result<Vec<u8>, Error>)
        ensures
            validation(Some(self.document()), self.shards()) is Ok,
            match r {
                Ok(secret) => recovered(self.document(), self.shards()) == Ok::<_, Error>(secret@),
                Err(e) => recovered(self.document(), self.shards()) == Err::<Seq<u8>, _>(e),
            },
    {
        let first = match self.first_shares() {
            Some(first) => first,
            None => return Err(Error::InsufficientQuorum),
        };
        let bytes = match combine(first.as_slice()) {
            Ok(bytes) => bytes,
            Err(e) => return Err(Error::Shamir(e)),
        };
        if !self.others_consistent(&first) {
            return Err(Error::QuorumInconsistent);
        }
        let shard_secret = match ShardSecret::from_wire(bytes.as_slice()) {
            Some(shard_secret) => shard_secret,
            None => return Err(Error::ShardSecretDecode),
        };
        let aad = self.main_document.inner.meta.aad(&self.main_document.identity.id_public_key);
        match aead_decrypt(
            &shard_secret.doc_key,
            &self.main_document.inner.nonce,
            aad.as_slice(),
            self.main_document.inner.ciphertext.as_slice(),
        ) {
            Some(secret) => Ok(secret),
            None => Err(Error::AeadDecryption),
        }
    }

    /// Makes the key shard of the backup at the point `x`, which must not be
    /// 0 nor the point of one of the shards that are looked at. The shards
    /// have to hide the private key of the backup. The signature of the new
    /// shard is accepted.
    pub fn new_shard(&self, x: u8) -> (r: Result<KeyShard, Error>)
        ensures
            validation(Some(self.document()), self.shards()) is Ok,
            match r {
                Ok(shard) => minted(self.document(), self.shards(), x) == Ok::<_, Error>(shard@)
                    && shard@.verifies(),
                Err(e) => minted(self.document(), self.shards(), x) == Err::<KeyShardView, _>(e),
            },
    {
        let first = match self.first_shares() {
            Some(first) => first,
            None => return Err(Error::InsufficientQuorum),
        };
        let bytes = match combine(first.as_slice()) {
            Ok(bytes) => bytes,
            Err(e) => return Err(Error::Shamir(e)),
        };
        let shard_secret = match ShardSecret::from_wire(bytes.as_slice()) {
            Some(shard_secret) => shard_secret,
            None => return Err(Error::ShardSecretDecode),
        };
        let id_private_key = match shard_secret.id_private_key {
            Some(id_private_key) => id_private_key,
            None => return Err(Error::MissingCapability),
        };
        let id_public_key = ed25519_public_key(&id_private_key);
        if !bytes_eq(
            id_public_key.as_slice(),
            self.main_document.identity.id_public_key.as_slice(),
        ) {
            return Err(Error::InvariantViolation);
        }
        let shard = match extend(first.as_slice(), x) {
            Ok(shard) => shard,
            Err(e) => return Err(Error::Shamir(e)),
        };
        let doc_chksum = self.main_document.checksum();
        Ok(KeyShardBuilder { version: 0, doc_chksum, shard }.sign(&id_private_key))
    }
}

} // verus!
