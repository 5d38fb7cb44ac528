//! The wire form of a main document and of its parts.

use crate::v0::wire::prefixes::{PREFIX_CHACHA20POLY1305_CIPHERTEXT, PREFIX_CHACHA20POLY1305_NONCE};
use crate::v0::wire::{
    blob, lemma_take_blob, lemma_take_bytes, lemma_take_tag64, put_blob, put_bytes, put_tag64,
    read_array, read_blob, read_tag64, take_blob, take_bytes, take_tag64, DecodeError,
};
use crate::v0::{
    Identity, IdentityView, MainDocument, MainDocumentBuilder, MainDocumentBuilderView,
    MainDocumentMeta, MainDocumentView,
};
use crate::varint::{lemma_take_u32_of_varint, put_u32, read_u32, take_u32, varint};
use vstd::prelude::*;

verus! {

impl MainDocumentMeta {
    /// The version, then the quorum size.
    pub open spec fn wire(self) -> Seq<u8> {
        varint(self.version as nat) + varint(self.quorum_size as nat)
    }

    /// The meta data at the head of `input` and what follows them. A version
    /// other than 0 is refused.
    pub open spec fn parse(input: Seq<u8>) -> Result<(MainDocumentMeta, Seq<u8>), DecodeError> {
        match take_u32(input) {
            Some((version, input)) => match take_u32(input) {
                Some((quorum_size, input)) => if version == 0 {
                    Ok((MainDocumentMeta { version, quorum_size }, input))
                } else {
                    Err(DecodeError::UnsupportedVersion)
                },
                None => Err(DecodeError::Malformed),
            },
            None => Err(DecodeError::Malformed),
        }
    }

    /// The meta data that all of `input` holds.
    pub open spec fn parse_all(input: Seq<u8>) -> Result<MainDocumentMeta, DecodeError> {
        match Self::parse(input) {
            Ok((v, rest)) => if rest.len() == 0 {
                Ok(v)
            } else {
                Err(DecodeError::TrailingBytes)
            },
            Err(e) => Err(e),
        }
    }

    /// Well-formed meta data that were written are read, and what followed
    /// them is left.
    pub proof fn lemma_parse_wire(self, tail: Seq<u8>)
        requires
            self.wf(),
        ensures
            Self::parse(self.wire() + tail) == Ok::<_, DecodeError>((self, tail)),
    {
        let t1 = varint(self.quorum_size as nat) + tail;
        assert(self.wire() + tail =~= varint(self.version as nat) + t1);
        lemma_take_u32_of_varint(self.version, t1);
        lemma_take_u32_of_varint(self.quorum_size, tail);
    }

    /// Meta data of another version than 0 that were written are refused
    /// for their version.
    pub proof fn lemma_parse_wire_version(self, tail: Seq<u8>)
        requires
            self.version != 0,
        ensures
            Self::parse(self.wire() + tail) == Err::<(MainDocumentMeta, Seq<u8>), _>(
                DecodeError::UnsupportedVersion,
            ),
    {
        let t1 = varint(self.quorum_size as nat) + tail;
        assert(self.wire() + tail =~= varint(self.version as nat) + t1);
        lemma_take_u32_of_varint(self.version, t1);
        lemma_take_u32_of_varint(self.quorum_size, tail);
    }

    /// Appends the wire form to `out`.
    pub fn write(&self, out: &mut Vec<u8>)
        ensures
            final(out)@ == old(out)@ + self.wire(),
    {
        put_u32(out, self.version);
        put_u32(out, self.quorum_size);
    }

    /// The wire form.
    pub fn to_wire(&self) -> (bytes: Vec<u8>)
        ensures
            bytes@ == self.wire(),
    {
        let mut bytes: Vec<u8> = Vec::new();
        self.write(&mut bytes);
        bytes
    }

    /// Decodes meta data from the head of `input` and hands back the rest.
    pub fn from_wire_partial<'a>(input: &'a [u8]) -> (r: Result<
        (MainDocumentMeta, &'a [u8]),
        DecodeError,
    >)
        ensures
            match r {
                Ok((v, rest)) => Self::parse(input@) == Ok::<_, DecodeError>((v, rest@)),
                Err(e) => Self::parse(input@) == Err::<(MainDocumentMeta, Seq<u8>), _>(e),
            },
    {
        let (version, input) = match read_u32(input) {
            Some(found) => found,
            None => return Err(DecodeError::Malformed),
        };
        let (quorum_size, input) = match read_u32(input) {
            Some(found) => found,
            None => return Err(DecodeError::Malformed),
        };
        if version != 0 {
            return Err(DecodeError::UnsupportedVersion);
        }
        Ok((MainDocumentMeta { version, quorum_size }, input))
    }

    /// Decodes meta data from all of `input`.
    pub fn from_wire(input: &[u8]) -> (r: Result<MainDocumentMeta, DecodeError>)
        ensures
            match r {
                Ok(v) => Self::parse_all(input@) == Ok::<_, DecodeError>(v),
                Err(e) => Self::parse_all(input@) == Err::<MainDocumentMeta, _>(e),
            },
    {
        let (v, rest) = Self::from_wire_partial(input)?;
        if rest.len() != 0 {
            return Err(DecodeError::TrailingBytes);
        }
        Ok(v)
    }
}

impl MainDocumentBuilderView {
    /// The meta data, the prefix of a nonce and the nonce, the prefix of a
    /// ciphertext and the ciphertext behind its length.
    pub open spec fn wire(self) -> Seq<u8> {
        self.meta.wire() + varint(PREFIX_CHACHA20POLY1305_NONCE as nat) + self.nonce + varint(
            PREFIX_CHACHA20POLY1305_CIPHERTEXT as nat,
        ) + blob(self.ciphertext)
    }

    /// The builder at the head of `input` and what follows it.
    pub open spec fn parse(input: Seq<u8>) -> Result<
        (MainDocumentBuilderView, Seq<u8>),
        DecodeError,
    > {
        match MainDocumentMeta::parse(input) {
            Ok((meta, input)) => match take_tag64(input, PREFIX_CHACHA20POLY1305_NONCE) {
                Some(input) => match take_bytes(input, 12) {
                    Some((nonce, input)) => match take_tag64(
                        input,
                        PREFIX_CHACHA20POLY1305_CIPHERTEXT,
                    ) {
                        Some(input) => match take_blob(input) {
                            Some((ciphertext, input)) => Ok(
                                (MainDocumentBuilderView { meta, nonce, ciphertext }, input),
                            ),
                            None => Err(DecodeError::Malformed),
                        },
                        None => Err(DecodeError::Malformed),
                    },
                    None => Err(DecodeError::Malformed),
                },
                None => Err(DecodeError::Malformed),
            },
            Err(e) => Err(e),
        }
    }

    /// The builder that all of `input` holds.
    pub open spec fn parse_all(input: Seq<u8>) -> Result<MainDocumentBuilderView, DecodeError> {
        match Self::parse(input) {
            Ok((v, rest)) => if rest.len() == 0 {
                Ok(v)
            } else {
                Err(DecodeError::TrailingBytes)
            },
            Err(e) => Err(e),
        }
    }

    /// A well-formed builder that was written is read, and what followed it
    /// is left.
    pub proof fn lemma_parse_wire(self, tail: Seq<u8>)
        requires
            self.wf(),
        ensures
            Self::parse(self.wire() + tail) == Ok::<_, DecodeError>((self, tail)),
    {
        let t4 = blob(self.ciphertext) + tail;
        let t3 = varint(PREFIX_CHACHA20POLY1305_CIPHERTEXT as nat) + t4;
        let t2 = self.nonce + t3;
        let t1 = varint(PREFIX_CHACHA20POLY1305_NONCE as nat) + t2;
        assert(self.wire() + tail =~= self.meta.wire() + t1);
        self.meta.lemma_parse_wire(t1);
        lemma_take_tag64(PREFIX_CHACHA20POLY1305_NONCE, t2);
        lemma_take_bytes(self.nonce, t3);
        lemma_take_tag64(PREFIX_CHACHA20POLY1305_CIPHERTEXT, t4);
        lemma_take_blob(self.ciphertext, tail);
    }
}

impl MainDocumentBuilder {
    /// Appends the wire form to `out`.
    pub fn write(&self, out: &mut Vec<u8>)
        ensures
            final(out)@ == old(out)@ + self@.wire(),
    {
        self.meta.write(out);
        put_tag64(out, PREFIX_CHACHA20POLY1305_NONCE);
        put_bytes(out, self.nonce.as_slice());
        put_tag64(out, PREFIX_CHACHA20POLY1305_CIPHERTEXT);
        put_blob(out, self.ciphertext.as_slice());
    }

    /// The wire form.
    pub fn to_wire(&self) -> (bytes: Vec<u8>)
        ensures
            bytes@ == self@.wire(),
    {
        let mut bytes: Vec<u8> = Vec::new();
        self.write(&mut bytes);
        bytes
    }

    /// Decodes a builder from the head of `input` and hands back the rest.
    pub fn from_wire_partial<'a>(input: &'a [u8]) -> (r: Result<
        (MainDocumentBuilder, &'a [u8]),
        DecodeError,
    >)
        ensures
            match r {
                Ok((v, rest)) => MainDocumentBuilderView::parse(input@) == Ok::<_, DecodeError>(
                    (v@, rest@),
                ),
                Err(e) => MainDocumentBuilderView::parse(input@) == Err::<
                    (MainDocumentBuilderView, Seq<u8>),
                    _,
                >(e),
            },
    {
        let (meta, input) = MainDocumentMeta::from_wire_partial(input)?;
        let input = match read_tag64(input, PREFIX_CHACHA20POLY1305_NONCE) {
            Some(rest) => rest,
            None => return Err(DecodeError::Malformed),
        };
        let (nonce, input) = match read_array::<12>(input) {
            Some(found) => found,
            None => return Err(DecodeError::Malformed),
        };
        let input = match read_tag64(input, PREFIX_CHACHA20POLY1305_CIPHERTEXT) {
            Some(rest) => rest,
            None => return Err(DecodeError::Malformed),
        };
        let (ciphertext, input) = match read_blob(input) {
            Some(found) => found,
            None => return Err(DecodeError::Malformed),
        };
        Ok((MainDocumentBuilder { meta, nonce, ciphertext }, input))
    }

    /// Decodes a builder from all of `input`.
    pub fn from_wire(input: &[u8]) -> (r: Result<MainDocumentBuilder, DecodeError>)
        ensures
            match r {
                Ok(v) => MainDocumentBuilderView::parse_all(input@) == Ok::<_, DecodeError>(v@),
                Err(e) => MainDocumentBuilderView::parse_all(input@) == Err::<
                    MainDocumentBuilderView,
                    _,
                >(e),
            },
    {
        let (v, rest) = Self::from_wire_partial(input)?;
        if rest.len() != 0 {
            return Err(DecodeError::TrailingBytes);
        }
        Ok(v)
    }
}

impl MainDocumentView {
    /// The builder, then the identity.
    pub open spec fn wire(self) -> Seq<u8> {
        self.inner.wire() + self.identity.wire()
    }

    /// The main document at the head of `input` and what follows it.
    pub open spec fn parse(input: Seq<u8>) -> Result<(MainDocumentView, Seq<u8>), DecodeError> {
        match MainDocumentBuilderView::parse(input) {
            Ok((inner, input)) => match IdentityView::parse(input) {
                Ok((identity, input)) => Ok((MainDocumentView { inner, identity }, input)),
                Err(e) => Err(e),
            },
            Err(e) => Err(e),
        }
    }

    /// The main document that all of `input` holds.
    pub open spec fn parse_all(input: Seq<u8>) -> Result<MainDocumentView, DecodeError> {
        match Self::parse(input) {
            Ok((v, rest)) => if rest.len() == 0 {
                Ok(v)
            } else {
                Err(DecodeError::TrailingBytes)
            },
            Err(e) => Err(e),
        }
    }

    /// A well-formed main document that was written is read, and what
    /// followed it is left.
    pub proof fn lemma_parse_wire(self, tail: Seq<u8>)
        requires
            self.wf(),
        ensures
            Self::parse(self.wire() + tail) == Ok::<_, DecodeError>((self, tail)),
    {
        let t1 = self.identity.wire() + tail;
        assert(self.wire() + tail =~= self.inner.wire() + t1);
        self.inner.lemma_parse_wire(t1);
        self.identity.lemma_parse_wire(tail);
    }
}

impl MainDocument {
    /// Appends the wire form to `out`.
    pub fn write(&self, out: &mut Vec<u8>)
        ensures
            final(out)@ == old(out)@ + self@.wire(),
    {
        self.inner.write(out);
        self.identity.write(out);
    }

    /// The wire form.
    pub fn to_wire(&self) -> (bytes: Vec<u8>)
        ensures
            bytes@ == self@.wire(),
    {
        let mut bytes: Vec<u8> = Vec::new();
        self.write(&mut bytes);
        bytes
    }

    /// Decodes a main document from the head of `input` and hands back the
    /// rest.
    pub fn from_wire_partial<'a>(input: &'a [u8]) -> (r: Result<
        (MainDocument, &'a [u8]),
        DecodeError,
    >)
        ensures
            match r {
                Ok((v, rest)) => MainDocumentView::parse(input@) == Ok::<_, DecodeError>(
                    (v@, rest@),
                ),
                Err(e) => MainDocumentView::parse(input@) == Err::<(MainDocumentView, Seq<u8>), _>(
                    e,
                ),
            },
    {
        let (inner, input) = MainDocumentBuilder::from_wire_partial(input)?;
        let (identity, input) = Identity::from_wire_partial(input)?;
        Ok((MainDocument { inner, identity }, input))
    }

    /// Decodes a main document from all of `input`.
    pub fn from_wire(input: &[u8]) -> (r: Result<MainDocument, DecodeError>)
        ensures
            match r {
                Ok(v) => MainDocumentView::parse_all(input@) == Ok::<_, DecodeError>(v@),
                Err(e) => MainDocumentView::parse_all(input@) == Err::<MainDocumentView, _>(e),
            },
    {
        let (v, rest) = Self::from_wire_partial(input)?;
        if rest.len() != 0 {
            return Err(DecodeError::TrailingBytes);
        }
        Ok(v)
    }
}

} // verus!
