//! The wire form of a share.

use crate::shamir::{Shard, ShardView};
use crate::v0::wire::{
    blob, lemma_take_blob, lemma_take_bytes, put_blob, read_blob, read_bytes, take_blob,
    take_bytes, DecodeError,
};
use vstd::prelude::*;

verus! {

impl ShardView {
    /// The point, then the values behind their number.
    pub open spec fn wire(self) -> Seq<u8> {
        seq![self.x] + blob(self.ys)
    }

    /// The share at the head of `input` and what follows it. A share at 0 is
    /// refused.
    pub open spec fn parse(input: Seq<u8>) -> Result<(ShardView, Seq<u8>), DecodeError> {
        match take_bytes(input, 1) {
            Some((point, input)) => if point[0] != 0 {
                match take_blob(input) {
                    Some((ys, input)) => Ok((ShardView { x: point[0], ys }, input)),
                    None => Err(DecodeError::Malformed),
                }
            } else {
                Err(DecodeError::Malformed)
            },
            None => Err(DecodeError::Malformed),
        }
    }

    /// A well-formed share that was written is read, and what followed it is
    /// left.
    pub proof fn lemma_parse_wire(self, tail: Seq<u8>)
        requires
            self.wf(),
        ensures
            Self::parse(self.wire() + tail) == Ok::<_, DecodeError>((self, tail)),
    {
        let t1 = blob(self.ys) + tail;
        assert(self.wire() + tail =~= seq![self.x] + t1);
        lemma_take_bytes(seq![self.x], t1);
        lemma_take_blob(self.ys, tail);
    }
}

impl Shard {
    /// Appends the wire form to `out`.
    pub fn write(&self, out: &mut Vec<u8>)
        ensures
            final(out)@ == old(out)@ + self@.wire(),
    {
        out.push(self.x);
        put_blob(out, self.ys.as_slice());
    }

    /// Decodes a share from the head of `input` and hands back the rest.
    pub fn from_wire_partial<'a>(input: &'a [u8]) -> (r: Result<(Shard, &'a [u8]), DecodeError>)
        ensures
            match r {
                Ok((v, rest)) => ShardView::parse(input@) == Ok::<_, DecodeError>((v@, rest@)),
                Err(e) => ShardView::parse(input@) == Err::<(ShardView, Seq<u8>), _>(e),
            },
    {
        let (point, input) = match read_bytes(input, 1) {
            Some(found) => found,
            None => return Err(DecodeError::Malformed),
        };
        let x = point[0];
        if x == 0 {
            return Err(DecodeError::Malformed);
        }
        let (ys, input) = match read_blob(input) {
            Some(found) => found,
            None => return Err(DecodeError::Malformed),
        };
        Ok((Shard { x, ys }, input))
    }
}

} // verus!
