//! The wire form of a shard secret: what the shares of a backup hide.

use crate::v0::wire::prefixes::{PREFIX_CHACHA20POLY1305_KEY, PREFIX_ED25519_SECRET};
use crate::v0::wire::{
    lemma_take_bytes, lemma_take_tag32, lemma_take_tag64, put_bytes, put_tag32, put_tag64,
    read_array, read_tag32, read_tag64, take_bytes, take_tag32, take_tag64,
};
use crate::v0::{ShardSecret, ShardSecretView};
use crate::varint::varint;
use vstd::prelude::*;

verus! {

impl ShardSecretView {
    /// The prefix of a key and the key to the main document; where the
    /// private key is part of the secret, the prefix of a private key and
    /// that key.
    pub open spec fn wire(self) -> Seq<u8> {
        varint(PREFIX_CHACHA20POLY1305_KEY as nat) + self.doc_key + match self.id_private_key {
            Some(key) => varint(PREFIX_ED25519_SECRET as nat) + key,
            None => Seq::<u8>::empty(),
        }
    }

    /// The shard secret that all of `input` holds, or `None` where the
    /// input holds none.
    pub open spec fn parse_all(input: Seq<u8>) -> Option<ShardSecretView> {
        match take_tag64(input, PREFIX_CHACHA20POLY1305_KEY) {
            Some(input) => match take_bytes(input, 32) {
                Some((doc_key, input)) => if input.len() == 0 {
                    Some(ShardSecretView { doc_key, id_private_key: None })
                } else {
                    match take_tag32(input, PREFIX_ED25519_SECRET) {
                        Some(input) => match take_bytes(input, 32) {
                            Some((key, input)) => if input.len() == 0 {
                                Some(ShardSecretView { doc_key, id_private_key: Some(key) })
                            } else {
                                None
                            },
                            None => None,
                        },
                        None => None,
                    }
                },
                None => None,
            },
            None => None,
        }
    }

    /// A well-formed shard secret that was written is read, with the
    /// private key where it had one and without it where it had none.
    pub proof fn lemma_parse_wire(self)
        requires
            self.wf(),
        ensures
            Self::parse_all(self.wire()) == Some(self),
    {
        match self.id_private_key {
            Some(key) => {
                let t2 = varint(PREFIX_ED25519_SECRET as nat) + key;
                let t1 = self.doc_key + t2;
                assert(self.wire() =~= varint(PREFIX_CHACHA20POLY1305_KEY as nat) + t1);
                lemma_take_tag64(PREFIX_CHACHA20POLY1305_KEY, t1);
                lemma_take_bytes(self.doc_key, t2);
                lemma_take_tag32(PREFIX_ED25519_SECRET, key + Seq::<u8>::empty());
                lemma_take_bytes(key, Seq::<u8>::empty());
            },
            None => {
                let t1 = self.doc_key + Seq::<u8>::empty();
                lemma_take_tag64(PREFIX_CHACHA20POLY1305_KEY, t1);
                lemma_take_bytes(self.doc_key, Seq::<u8>::empty());
            },
        }
    }
}

impl ShardSecret {
    /// The wire form.
    pub fn to_wire(&self) -> (bytes: Vec<u8>)
        ensures
            bytes@ == self@.wire(),
    {
        let mut bytes: Vec<u8> = Vec::new();
        put_tag64(&mut bytes, PREFIX_CHACHA20POLY1305_KEY);
        put_bytes(&mut bytes, self.doc_key.as_slice());
        match &self.id_private_key {
            Some(key) => {
                put_tag32(&mut bytes, PREFIX_ED25519_SECRET);
                put_bytes(&mut bytes, key.as_slice());
            },
            None => {},
        }
        bytes
    }

    /// Decodes a shard secret from all of `input`.
    pub fn from_wire(input: &[u8]) -> (r: Option<ShardSecret>)
        ensures
            match r {
                Some(v) => ShardSecretView::parse_all(input@) == Some(v@),
                None => ShardSecretView::parse_all(input@) is None,
            },
    {
        let input = match read_tag64(input, PREFIX_CHACHA20POLY1305_KEY) {
            Some(rest) => rest,
            None => return None,
        };
        let (doc_key, input) = match read_array::<32>(input) {
            Some(found) => found,
            None => return None,
        };
        if input.len() == 0 {
            return Some(ShardSecret { doc_key, id_private_key: None });
        }
        let input = match read_tag32(input, PREFIX_ED25519_SECRET) {
            Some(rest) => rest,
            None => return None,
        };
        let (key, input) = match read_array::<32>(input) {
            Some(found) => found,
            None => return None,
        };
        if input.len() != 0 {
            return None;
        }
        Some(ShardSecret { doc_key, id_private_key: Some(key) })
    }
}

} // verus!
