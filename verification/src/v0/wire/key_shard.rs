//! The wire form of a key shard, of its unsigned part, and of an encrypted
//! key shard.

use crate::shamir::{Shard, ShardView};
use crate::v0::wire::prefixes::{PREFIX_CHACHA20POLY1305_CIPHERTEXT, PREFIX_CHACHA20POLY1305_NONCE};
use crate::v0::wire::{
    blob, lemma_take_blob, lemma_take_bytes, lemma_take_tag64, put_blob, put_bytes, put_tag64,
    read_array, read_blob, read_tag64, take_blob, take_bytes, take_tag64, DecodeError,
};
use crate::v0::{
    EncryptedKeyShard, EncryptedKeyShardView, Identity, IdentityView, KeyShard, KeyShardBuilder,
    KeyShardBuilderView, KeyShardView, Multihash, MultihashView,
};
use crate::varint::{lemma_take_u32_of_varint, put_u32, read_u32, take_u32, varint};
use vstd::prelude::*;

verus! {

impl KeyShardBuilderView {
    /// The version, the checksum of the main document, the share.
    pub open spec fn wire(self) -> Seq<u8> {
        varint(self.version as nat) + self.doc_chksum.wire() + self.shard.wire()
    }

    /// The builder at the head of `input` and what follows it. A version
    /// other than 0 is refused.
    pub open spec fn parse(input: Seq<u8>) -> Result<(KeyShardBuilderView, Seq<u8>), DecodeError> {
        match take_u32(input) {
            Some((version, input)) => match MultihashView::parse(input) {
                Ok((doc_chksum, input)) => match ShardView::parse(input) {
                    Ok((shard, input)) => if version == 0 {
                        Ok((KeyShardBuilderView { version, doc_chksum, shard }, input))
                    } else {
                        Err(DecodeError::UnsupportedVersion)
                    },
                    Err(e) => Err(e),
                },
                Err(e) => Err(e),
            },
            None => Err(DecodeError::Malformed),
        }
    }

    /// The builder that all of `input` holds.
    pub open spec fn parse_all(input: Seq<u8>) -> Result<KeyShardBuilderView, DecodeError> {
        match Self::parse(input) {
            Ok((v, rest)) => if rest.len() == 0 {
                Ok(v)
            } else {
                Err(DecodeError::TrailingBytes)
            },
            Err(e) => Err(e),
        }
    }

    /// A well-formed builder that was written is read, and what followed it
    /// is left.
    pub proof fn lemma_parse_wire(self, tail: Seq<u8>)
        requires
            self.wf(),
        ensures
            Self::parse(self.wire() + tail) == Ok::<_, DecodeError>((self, tail)),
    {
        let t2 = self.shard.wire() + tail;
        let t1 = self.doc_chksum.wire() + t2;
        assert(self.wire() + tail =~= varint(self.version as nat) + t1);
        lemma_take_u32_of_varint(self.version, t1);
        self.doc_chksum.lemma_parse_wire(t2);
        self.shard.lemma_parse_wire(tail);
    }
}

impl KeyShardBuilderView {
    /// A builder of another version than 0, and well formed but for that,
    /// that was written is refused for its version.
    pub proof fn lemma_parse_wire_version(self, tail: Seq<u8>)
        requires
            self.version != 0,
            self.doc_chksum.wf(),
            self.shard.wf(),
        ensures
            Self::parse(self.wire() + tail) == Err::<(KeyShardBuilderView, Seq<u8>), _>(
                DecodeError::UnsupportedVersion,
            ),
    {
        let t2 = self.shard.wire() + tail;
        let t1 = self.doc_chksum.wire() + t2;
        assert(self.wire() + tail =~= varint(self.version as nat) + t1);
        lemma_take_u32_of_varint(self.version, t1);
        self.doc_chksum.lemma_parse_wire(t2);
        self.shard.lemma_parse_wire(tail);
    }
}

impl KeyShardBuilder {
    /// Appends the wire form to `out`.
    pub fn write(&self, out: &mut Vec<u8>)
        ensures
            final(out)@ == old(out)@ + self@.wire(),
    {
        put_u32(out, self.version);
        self.doc_chksum.write(out);
        self.shard.write(out);
    }

    /// The wire form.
    pub fn to_wire(&self) -> (bytes: Vec<u8>)
        ensures
            bytes@ == self@.wire(),
    {
        let mut bytes: Vec<u8> = Vec::new();
        self.write(&mut bytes);
        bytes
    }

    /// Decodes a builder from the head of `input` and hands back the rest.
    pub fn from_wire_partial<'a>(input: &'a [u8]) -> (r: Result<
        (KeyShardBuilder, &'a [u8]),
        DecodeError,
    >)
        ensures
            match r {
                Ok((v, rest)) => KeyShardBuilderView::parse(input@) == Ok::<_, DecodeError>(
                    (v@, rest@),
                ),
                Err(e) => KeyShardBuilderView::parse(input@) == Err::<
                    (KeyShardBuilderView, Seq<u8>),
                    _,
                >(e),
            },
    {
        let (version, input) = match read_u32(input) {
            Some(found) => found,
            None => return Err(DecodeError::Malformed),
        };
        let (doc_chksum, input) = Multihash::from_wire_partial(input)?;
        let (shard, input) = Shard::from_wire_partial(input)?;
        if version != 0 {
            return Err(DecodeError::UnsupportedVersion);
        }
        Ok((KeyShardBuilder { version, doc_chksum, shard }, input))
    }

    /// Decodes a builder from all of `input`.
    pub fn from_wire(input: &[u8]) -> (r: Result<KeyShardBuilder, DecodeError>)
        ensures
            match r {
                Ok(v) => KeyShardBuilderView::parse_all(input@) == Ok::<_, DecodeError>(v@),
                Err(e) => KeyShardBuilderView::parse_all(input@) == Err::<KeyShardBuilderView, _>(
                    e,
                ),
            },
    {
        let (v, rest) = Self::from_wire_partial(input)?;
        if rest.len() != 0 {
            return Err(DecodeError::TrailingBytes);
        }
        Ok(v)
    }
}

impl KeyShardView {
    /// The builder, then the identity.
    pub open spec fn wire(self) -> Seq<u8> {
        self.inner.wire() + self.identity.wire()
    }

    /// The key shard at the head of `input` and what follows it.
    pub open spec fn parse(input: Seq<u8>) -> Result<(KeyShardView, Seq<u8>), DecodeError> {
        match KeyShardBuilderView::parse(input) {
            Ok((inner, input)) => match IdentityView::parse(input) {
                Ok((identity, input)) => Ok((KeyShardView { inner, identity }, input)),
                Err(e) => Err(e),
            },
            Err(e) => Err(e),
        }
    }

    /// The key shard that all of `input` holds.
    pub open spec fn parse_all(input: Seq<u8>) -> Result<KeyShardView, DecodeError> {
        match Self::parse(input) {
            Ok((v, rest)) => if rest.len() == 0 {
                Ok(v)
            } else {
                Err(DecodeError::TrailingBytes)
            },
            Err(e) => Err(e),
        }
    }

    /// A well-formed key shard that was written is read, and what followed
    /// it is left.
    pub proof fn lemma_parse_wire(self, tail: Seq<u8>)
        requires
            self.wf(),
        ensures
            Self::parse(self.wire() + tail) == Ok::<_, DecodeError>((self, tail)),
    {
        let t1 = self.identity.wire() + tail;
        assert(self.wire() + tail =~= self.inner.wire() + t1);
        self.inner.lemma_parse_wire(t1);
        self.identity.lemma_parse_wire(tail);
    }
}

impl KeyShard {
    /// Appends the wire form to `out`.
    pub fn write(&self, out: &mut Vec<u8>)
        ensures
            final(out)@ == old(out)@ + self@.wire(),
    {
        self.inner.write(out);
        self.identity.write(out);
    }

    /// The wire form.
    pub fn to_wire(&self) -> (bytes: Vec<u8>)
        ensures
            bytes@ == self@.wire(),
    {
        let mut bytes: Vec<u8> = Vec::new();
        self.write(&mut bytes);
        bytes
    }

    /// Decodes a key shard from the head of `input` and hands back the rest.
    pub fn from_wire_partial<'a>(input: &'a [u8]) -> (r: Result<(KeyShard, &'a [u8]), DecodeError>)
        ensures
            match r {
                Ok((v, rest)) => KeyShardView::parse(input@) == Ok::<_, DecodeError>((v@, rest@)),
                Err(e) => KeyShardView::parse(input@) == Err::<(KeyShardView, Seq<u8>), _>(e),
            },
    {
        let (inner, input) = KeyShardBuilder::from_wire_partial(input)?;
        let (identity, input) = Identity::from_wire_partial(input)?;
        Ok((KeyShard { inner, identity }, input))
    }

    /// Decodes a key shard from all of `input`.
    pub fn from_wire(input: &[u8]) -> (r: Result<KeyShard, DecodeError>)
        ensures
            match r {
                Ok(v) => KeyShardView::parse_all(input@) == Ok::<_, DecodeError>(v@),
                Err(e) => KeyShardView::parse_all(input@) == Err::<KeyShardView, _>(e),
            },
    {
        let (v, rest) = Self::from_wire_partial(input)?;
        if rest.len() != 0 {
            return Err(DecodeError::TrailingBytes);
        }
        Ok(v)
    }
}

impl EncryptedKeyShardView {
    /// The prefix of a nonce and the nonce, the prefix of a ciphertext and
    /// the ciphertext behind its length.
    pub open spec fn wire(self) -> Seq<u8> {
        varint(PREFIX_CHACHA20POLY1305_NONCE as nat) + self.nonce + varint(
            PREFIX_CHACHA20POLY1305_CIPHERTEXT as nat,
        ) + blob(self.ciphertext)
    }

    /// The encrypted key shard at the head of `input` and what follows it.
    pub open spec fn parse(input: Seq<u8>) -> Result<
        (EncryptedKeyShardView, Seq<u8>),
        DecodeError,
    > {
        match take_tag64(input, PREFIX_CHACHA20POLY1305_NONCE) {
            Some(input) => match take_bytes(input, 12) {
                Some((nonce, input)) => match take_tag64(
                    input,
                    PREFIX_CHACHA20POLY1305_CIPHERTEXT,
                ) {
                    Some(input) => match take_blob(input) {
                        Some((ciphertext, input)) => Ok(
                            (EncryptedKeyShardView { nonce, ciphertext }, input),
                        ),
                        None => Err(DecodeError::Malformed),
                    },
                    None => Err(DecodeError::Malformed),
                },
                None => Err(DecodeError::Malformed),
            },
            None => Err(DecodeError::Malformed),
        }
    }

    /// The encrypted key shard that all of `input` holds.
    pub open spec fn parse_all(input: Seq<u8>) -> Result<EncryptedKeyShardView, DecodeError> {
        match Self::parse(input) {
            Ok((v, rest)) => if rest.len() == 0 {
                Ok(v)
            } else {
                Err(DecodeError::TrailingBytes)
            },
            Err(e) => Err(e),
        }
    }

    /// A well-formed encrypted key shard that was written is read, and what
    /// followed it is left.
    pub proof fn lemma_parse_wire(self, tail: Seq<u8>)
        requires
            self.wf(),
        ensures
            Self::parse(self.wire() + tail) == Ok::<_, DecodeError>((self, tail)),
    {
        let t3 = blob(self.ciphertext) + tail;
        let t2 = varint(PREFIX_CHACHA20POLY1305_CIPHERTEXT as nat) + t3;
        let t1 = self.nonce + t2;
        assert(self.wire() + tail =~= varint(PREFIX_CHACHA20POLY1305_NONCE as nat) + t1);
        lemma_take_tag64(PREFIX_CHACHA20POLY1305_NONCE, t1);
        lemma_take_bytes(self.nonce, t2);
        lemma_take_tag64(PREFIX_CHACHA20POLY1305_CIPHERTEXT, t3);
        lemma_take_blob(self.ciphertext, tail);
    }
}

impl EncryptedKeyShard {
    /// Appends the wire form to `out`.
    pub fn write(&self, out: &mut Vec<u8>)
        ensures
            final(out)@ == old(out)@ + self@.wire(),
    {
        put_tag64(out, PREFIX_CHACHA20POLY1305_NONCE);
        put_bytes(out, self.nonce.as_slice());
        put_tag64(out, PREFIX_CHACHA20POLY1305_CIPHERTEXT);
        put_blob(out, self.ciphertext.as_slice());
    }

    /// The wire form.
    pub fn to_wire(&self) -> (bytes: Vec<u8>)
        ensures
            bytes@ == self@.wire(),
    {
        let mut bytes: Vec<u8> = Vec::new();
        self.write(&mut bytes);
        bytes
    }

    /// Decodes an encrypted key shard from the head of `input` and hands
    /// back the rest.
    pub fn from_wire_partial<'a>(input: &'a [u8]) -> (r: Result<
        (EncryptedKeyShard, &'a [u8]),
        DecodeError,
    >)
        ensures
            match r {
                Ok((v, rest)) => EncryptedKeyShardView::parse(input@) == Ok::<_, DecodeError>(
                    (v@, rest@),
                ),
                Err(e) => EncryptedKeyShardView::parse(input@) == Err::<
                    (EncryptedKeyShardView, Seq<u8>),
                    _,
                >(e),
            },
    {
        let input = match read_tag64(input, PREFIX_CHACHA20POLY1305_NONCE) {
            Some(rest) => rest,
            None => return Err(DecodeError::Malformed),
        };
        let (nonce, input) = match read_array::<12>(input) {
            Some(found) => found,
            None => return Err(DecodeError::Malformed),
        };
        let input = match read_tag64(input, PREFIX_CHACHA20POLY1305_CIPHERTEXT) {
            Some(rest) => rest,
            None => return Err(DecodeError::Malformed),
        };
        let (ciphertext, input) = match read_blob(input) {
            Some(found) => found,
            None => return Err(DecodeError::Malformed),
        };
        Ok((EncryptedKeyShard { nonce, ciphertext }, input))
    }

    /// Decodes an encrypted key shard from all of `input`.
    pub fn from_wire(input: &[u8]) -> (r: Result<EncryptedKeyShard, DecodeError>)
        ensures
            match r {
                Ok(v) => EncryptedKeyShardView::parse_all(input@) == Ok::<_, DecodeError>(v@),
                Err(e) => EncryptedKeyShardView::parse_all(input@) == Err::<
                    EncryptedKeyShardView,
                    _,
                >(e),
            },
    {
        let (v, rest) = Self::from_wire_partial(input)?;
        if rest.len() != 0 {
            return Err(DecodeError::TrailingBytes);
        }
        Ok(v)
    }
}

} // verus!
