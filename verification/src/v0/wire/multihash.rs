//! The wire form of a multihash.

use crate::v0::wire::{lemma_take_bytes, put_bytes, read_bytes, take_bytes, to_vec, DecodeError};
use crate::v0::{Multihash, MultihashView};
use crate::varint::{lemma_take_u64_of_varint, put_u64, read_u64, take_u64, varint};
use vstd::prelude::*;

verus! {

impl MultihashView {
    /// The code, the length of the digest, the digest.
    pub open spec fn wire(self) -> Seq<u8> {
        varint(self.code as nat) + varint(self.digest.len()) + self.digest
    }

    /// The multihash at the head of `input` and what follows it. A digest of
    /// more than 64 bytes is refused.
    pub open spec fn parse(input: Seq<u8>) -> Result<(MultihashView, Seq<u8>), DecodeError> {
        match take_u64(input) {
            Some((code, input)) => match take_u64(input) {
                Some((size, input)) => if size <= Self::max_digest_len() {
                    match take_bytes(input, size as nat) {
                        Some((digest, input)) => Ok((MultihashView { code, digest }, input)),
                        None => Err(DecodeError::Malformed),
                    }
                } else {
                    Err(DecodeError::Malformed)
                },
                None => Err(DecodeError::Malformed),
            },
            None => Err(DecodeError::Malformed),
        }
    }

    /// A well-formed multihash that was written is read, and what followed
    /// it is left.
    pub proof fn lemma_parse_wire(self, tail: Seq<u8>)
        requires
            self.wf(),
        ensures
            Self::parse(self.wire() + tail) == Ok::<_, DecodeError>((self, tail)),
    {
        let t2 = self.digest + tail;
        let t1 = varint(self.digest.len()) + t2;
        assert(self.wire() + tail =~= varint(self.code as nat) + t1);
        lemma_take_u64_of_varint(self.code, t1);
        lemma_take_u64_of_varint(self.digest.len() as u64, t2);
        lemma_take_bytes(self.digest, tail);
    }
}

impl Multihash {
    /// Appends the wire form to `out`.
    pub fn write(&self, out: &mut Vec<u8>)
        ensures
            final(out)@ == old(out)@ + self@.wire(),
    {
        put_u64(out, self.code);
        put_u64(out, self.digest.len() as u64);
        put_bytes(out, self.digest.as_slice());
    }

    /// The wire form.
    pub fn to_bytes(&self) -> (bytes: Vec<u8>)
        ensures
            bytes@ == self@.wire(),
    {
        let mut bytes: Vec<u8> = Vec::new();
        self.write(&mut bytes);
        bytes
    }

    /// Decodes a multihash from the head of `input` and hands back the rest.
    pub fn from_wire_partial<'a>(input: &'a [u8]) -> (r: Result<(Multihash, &'a [u8]), DecodeError>)
        ensures
            match r {
                Ok((v, rest)) => MultihashView::parse(input@) == Ok::<_, DecodeError>((v@, rest@)),
                Err(e) => MultihashView::parse(input@) == Err::<(MultihashView, Seq<u8>), _>(e),
            },
    {
        let (code, input) = match read_u64(input) {
            Some(found) => found,
            None => return Err(DecodeError::Malformed),
        };
        let (size, input) = match read_u64(input) {
            Some(found) => found,
            None => return Err(DecodeError::Malformed),
        };
        if size > 64 {
            return Err(DecodeError::Malformed);
        }
        let (digest, input) = match read_bytes(input, size as usize) {
            Some(found) => found,
            None => return Err(DecodeError::Malformed),
        };
        Ok((Multihash { code, digest: to_vec(digest) }, input))
    }
}

} // verus!
