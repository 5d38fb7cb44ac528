//! The wire form of an identity.

use crate::v0::wire::prefixes::{PREFIX_ED25519_PUB, PREFIX_ED25519_SIG};
use crate::v0::wire::{
    lemma_take_bytes, lemma_take_tag32, put_bytes, put_tag32, read_array, read_tag32, take_bytes,
    take_tag32, DecodeError,
};
use crate::v0::{Identity, IdentityView};
use crate::varint::varint;
use vstd::prelude::*;

verus! {

impl IdentityView {
    /// The prefix of a public key and the key, the prefix of a signature and
    /// the signature.
    pub open spec fn wire(self) -> Seq<u8> {
        varint(PREFIX_ED25519_PUB as nat) + self.id_public_key + varint(PREFIX_ED25519_SIG as nat)
            + self.id_signature
    }

    /// The identity at the head of `input` and what follows it.
    pub open spec fn parse(input: Seq<u8>) -> Result<(IdentityView, Seq<u8>), DecodeError> {
        match take_tag32(input, PREFIX_ED25519_PUB) {
            Some(input) => match take_bytes(input, 32) {
                Some((id_public_key, input)) => match take_tag32(input, PREFIX_ED25519_SIG) {
                    Some(input) => match take_bytes(input, 64) {
                        Some((id_signature, input)) => Ok(
                            (IdentityView { id_public_key, id_signature }, input),
                        ),
                        None => Err(DecodeError::Malformed),
                    },
                    None => Err(DecodeError::Malformed),
                },
                None => Err(DecodeError::Malformed),
            },
            None => Err(DecodeError::Malformed),
        }
    }

    /// The identity that all of `input` holds.
    pub open spec fn parse_all(input: Seq<u8>) -> Result<IdentityView, DecodeError> {
        match Self::parse(input) {
            Ok((v, rest)) => if rest.len() == 0 {
                Ok(v)
            } else {
                Err(DecodeError::TrailingBytes)
            },
            Err(e) => Err(e),
        }
    }

    /// An identity that was written is read, and what followed it is left.
    pub proof fn lemma_parse_wire(self, tail: Seq<u8>)
        requires
            self.wf(),
        ensures
            Self::parse(self.wire() + tail) == Ok::<_, DecodeError>((self, tail)),
    {
        let t3 = self.id_signature + tail;
        let t2 = varint(PREFIX_ED25519_SIG as nat) + t3;
        let t1 = self.id_public_key + t2;
        assert(self.wire() + tail =~= varint(PREFIX_ED25519_PUB as nat) + t1);
        lemma_take_tag32(PREFIX_ED25519_PUB, t1);
        lemma_take_bytes(self.id_public_key, t2);
        lemma_take_tag32(PREFIX_ED25519_SIG, t3);
        lemma_take_bytes(self.id_signature, tail);
    }
}

impl Identity {
    /// Appends the wire form to `out`.
    pub fn write(&self, out: &mut Vec<u8>)
        ensures
            final(out)@ == old(out)@ + self@.wire(),
    {
        put_tag32(out, PREFIX_ED25519_PUB);
        put_bytes(out, self.id_public_key.as_slice());
        put_tag32(out, PREFIX_ED25519_SIG);
        put_bytes(out, self.id_signature.as_slice());
    }

    /// The wire form.
    pub fn to_wire(&self) -> (bytes: Vec<u8>)
        ensures
            bytes@ == self@.wire(),
    {
        let mut bytes: Vec<u8> = Vec::new();
        self.write(&mut bytes);
        bytes
    }

    /// Decodes an identity from the head of `input` and hands back the rest.
    pub fn from_wire_partial<'a>(input: &'a [u8]) -> (r: Result<(Identity, &'a [u8]), DecodeError>)
        ensures
            match r {
                Ok((v, rest)) => IdentityView::parse(input@) == Ok::<_, DecodeError>((v@, rest@)),
                Err(e) => IdentityView::parse(input@) == Err::<(IdentityView, Seq<u8>), _>(e),
            },
    {
        let input = match read_tag32(input, PREFIX_ED25519_PUB) {
            Some(rest) => rest,
            None => return Err(DecodeError::Malformed),
        };
        let (id_public_key, input) = match read_array::<32>(input) {
            Some(found) => found,
            None => return Err(DecodeError::Malformed),
        };
        let input = match read_tag32(input, PREFIX_ED25519_SIG) {
            Some(rest) => rest,
            None => return Err(DecodeError::Malformed),
        };
        let (id_signature, input) = match read_array::<64>(input) {
            Some(found) => found,
            None => return Err(DecodeError::Malformed),
        };
        Ok((Identity { id_public_key, id_signature }, input))
    }

    /// Decodes an identity from all of `input`.
    pub fn from_wire(input: &[u8]) -> (r: Result<Identity, DecodeError>)
        ensures
            match r {
                Ok(v) => IdentityView::parse_all(input@) == Ok::<_, DecodeError>(v@),
                Err(e) => IdentityView::parse_all(input@) == Err::<IdentityView, _>(e),
            },
    {
        let (v, rest) = Self::from_wire_partial(input)?;
        if rest.len() != 0 {
            return Err(DecodeError::TrailingBytes);
        }
        Ok(v)
    }
}

} // verus!
