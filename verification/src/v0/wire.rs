//! The wire form of the documents: every field behind a prefix or a length,
//! every number a varint. Decoding is strict.

use crate::varint::{
    lemma_take_u32_of_varint, lemma_take_u64_of_varint, lemma_take_usize_of_varint, put_u32,
    put_u64, put_usize, read_u32, read_u64, read_usize, take_u32, take_u64, take_usize, varint,
};
use vstd::prelude::*;
use vstd::slice::slice_subrange;
use vstd::string::StringExecFns;

pub mod identity;
pub mod key_shard;
pub mod main_document;
pub mod multihash;
pub mod prefixes;
pub mod shard;
pub mod shard_secret;

verus! {

/// Why bytes were not decoded.
#[derive(Clone, Copy, Debug, PartialEq, Eq, Structural)]
pub enum DecodeError {
    /// A number, a prefix or a length is not what the format asks for, or the
    /// input ends too early.
    Malformed,
    /// Bytes follow the value where all of the input was to be decoded.
    TrailingBytes,
    /// The value decodes, and its version is not 0.
    UnsupportedVersion,
}

impl DecodeError {
    /// What the error says.
    pub open spec fn text(self) -> Seq<char> {
        match self {
            DecodeError::Malformed => "malformed or truncated input"@,
            DecodeError::TrailingBytes => "trailing bytes"@,
            DecodeError::UnsupportedVersion => "version must be 0"@,
        }
    }

    /// What the error says.
    pub fn message(&self) -> (s: String)
        ensures
            s@ == self.text(),
    {
        match self {
            DecodeError::Malformed => String::from_str("malformed or truncated input"),
            DecodeError::TrailingBytes => String::from_str("trailing bytes"),
            DecodeError::UnsupportedVersion => String::from_str("version must be 0"),
        }
    }
}

/// The input behind the 32-bit prefix `tag`.
pub open spec fn take_tag32(input: Seq<u8>, tag: u32) -> Option<Seq<u8>> {
    match take_u32(input) {
        Some((found, rest)) => if found == tag {
            Some(rest)
        } else {
            None
        },
        None => None,
    }
}

/// The input behind the 64-bit prefix `tag`.
pub open spec fn take_tag64(input: Seq<u8>, tag: u64) -> Option<Seq<u8>> {
    match take_u64(input) {
        Some((found, rest)) => if found == tag {
            Some(rest)
        } else {
            None
        },
        None => None,
    }
}

/// The first `n` bytes of the input, and what follows them.
pub open spec fn take_bytes(input: Seq<u8>, n: nat) -> Option<(Seq<u8>, Seq<u8>)> {
    if input.len() >= n {
        Some((input.take(n as int), input.skip(n as int)))
    } else {
        None
    }
}

/// A length and as many bytes.
pub open spec fn blob(bytes: Seq<u8>) -> Seq<u8> {
    varint(bytes.len()) + bytes
}

/// The bytes behind a length at the head of the input, and what follows them.
pub open spec fn take_blob(input: Seq<u8>) -> Option<(Seq<u8>, Seq<u8>)> {
    match take_usize(input) {
        Some((n, rest)) => take_bytes(rest, n as nat),
        None => None,
    }
}

/// Reads the prefix `tag`.
pub fn read_tag32<'a>(input: &'a [u8], tag: u32) -> (r: Option<&'a [u8]>)
    ensures
        match r {
            Some(rest) => take_tag32(input@, tag) == Some(rest@),
            None => take_tag32(input@, tag) is None,
        },
{
    match read_u32(input) {
        Some((found, rest)) => if found == tag {
            Some(rest)
        } else {
            None
        },
        None => None,
    }
}

/// Reads the prefix `tag`.
pub fn read_tag64<'a>(input: &'a [u8], tag: u64) -> (r: Option<&'a [u8]>)
    ensures
        match r {
            Some(rest) => take_tag64(input@, tag) == Some(rest@),
            None => take_tag64(input@, tag) is None,
        },
{
    match read_u64(input) {
        Some((found, rest)) => if found == tag {
            Some(rest)
        } else {
            None
        },
        None => None,
    }
}

/// Splits `n` bytes off the input.
pub fn read_bytes<'a>(input: &'a [u8], n: usize) -> (r: Option<(&'a [u8], &'a [u8])>)
    ensures
        match r {
            Some((head, rest)) => take_bytes(input@, n as nat) == Some((head@, rest@)),
            None => take_bytes(input@, n as nat) is None,
        },
{
    if input.len() < n {
        None
    } else {
        let head = slice_subrange(input, 0, n);
        let rest = slice_subrange(input, n, input.len());
        Some((head, rest))
    }
}

/// The bytes of a slice of length `N` as an array.
pub(crate) fn array_from_slice<const N: usize>(bytes: &[u8]) -> (out: [u8; N])
    requires
        bytes@.len() == N,
    ensures
        out@ == bytes@,
{
    let mut out: [u8; N] = vstd::array::array_fill_for_copy_types(0u8);
    let mut i: usize = 0;
    while i < N
        invariant
            i <= N,
            bytes@.len() == N,
            forall|j: int| 0 <= j < i ==> out@[j] == bytes@[j],
        decreases N - i,
    {
        out[i] = bytes[i];
        i += 1;
    }
    out
}

/// Splits `N` bytes off the input, as an array.
pub fn read_array<'a, const N: usize>(input: &'a [u8]) -> (r: Option<([u8; N], &'a [u8])>)
    ensures
        match r {
            Some((head, rest)) => take_bytes(input@, N as nat) == Some((head@, rest@)),
            None => take_bytes(input@, N as nat) is None,
        },
{
    match read_bytes(input, N) {
        Some((head, rest)) => Some((array_from_slice(head), rest)),
        None => None,
    }
}

/// A copy of a slice.
pub fn to_vec(bytes: &[u8]) -> (out: Vec<u8>)
    ensures
        out@ == bytes@,
{
    let mut out: Vec<u8> = Vec::new();
    out.extend_from_slice(bytes);
    out
}

/// Reads a length and splits as many bytes off the input.
pub fn read_blob<'a>(input: &'a [u8]) -> (r: Option<(Vec<u8>, &'a [u8])>)
    ensures
        match r {
            Some((bytes, rest)) => take_blob(input@) == Some((bytes@, rest@)),
            None => take_blob(input@) is None,
        },
{
    match read_usize(input) {
        Some((n, rest)) => match read_bytes(rest, n) {
            Some((bytes, rest)) => Some((to_vec(bytes), rest)),
            None => None,
        },
        None => None,
    }
}

/// Appends the prefix `tag` to `out`.
pub fn put_tag32(out: &mut Vec<u8>, tag: u32)
    ensures
        final(out)@ == old(out)@ + varint(tag as nat),
{
    put_u32(out, tag);
}

/// Appends the prefix `tag` to `out`.
pub fn put_tag64(out: &mut Vec<u8>, tag: u64)
    ensures
        final(out)@ == old(out)@ + varint(tag as nat),
{
    put_u64(out, tag);
}

/// Appends `bytes` to `out`.
pub fn put_bytes(out: &mut Vec<u8>, bytes: &[u8])
    ensures
        final(out)@ == old(out)@ + bytes@,
{
    out.extend_from_slice(bytes);
}

/// Appends the length of `bytes` and `bytes` to `out`.
pub fn put_blob(out: &mut Vec<u8>, bytes: &[u8])
    ensures
        final(out)@ == old(out)@ + blob(bytes@),
{
    put_usize(out, bytes.len());
    out.extend_from_slice(bytes);
}

/// A prefix that was written is read, and what followed it is left.
pub proof fn lemma_take_tag32(tag: u32, tail: Seq<u8>)
    ensures
        take_tag32(varint(tag as nat) + tail, tag) == Some(tail),
{
    lemma_take_u32_of_varint(tag, tail);
}

/// A prefix that was written is read, and what followed it is left.
pub proof fn lemma_take_tag64(tag: u64, tail: Seq<u8>)
    ensures
        take_tag64(varint(tag as nat) + tail, tag) == Some(tail),
{
    lemma_take_u64_of_varint(tag, tail);
}

/// Bytes that were written are read, and what followed them is left.
pub proof fn lemma_take_bytes(bytes: Seq<u8>, tail: Seq<u8>)
    ensures
        take_bytes(bytes + tail, bytes.len()) == Some((bytes, tail)),
{
}

/// A length and bytes that were written are read, and what followed them is
/// left.
pub proof fn lemma_take_blob(bytes: Seq<u8>, tail: Seq<u8>)
    requires
        bytes.len() <= usize::MAX,
    ensures
        take_blob(blob(bytes) + tail) == Some((bytes, tail)),
{
    assert(blob(bytes) + tail =~= varint(bytes.len()) + (bytes + tail));
    lemma_take_usize_of_varint(bytes.len() as usize, bytes + tail);
}

} // verus!
