//! Unsigned variable-length integers: base 128, least significant group
//! first, the high bit of a byte set while more bytes follow.
//!
//! Encoding and decoding are done by the `unsigned-varint` crate. The model
//! of the decoder follows that crate step by step, so that what it accepts
//! beyond the canonical encodings is part of the model too.

use vstd::prelude::*;

verus! {

/// The encoding of `n`.
pub open spec fn varint(n: nat) -> Seq<u8>
    decreases n,
{
    if n < 128 {
        seq![n as u8]
    } else {
        seq![(n % 128 + 128) as u8] + varint(n / 128)
    }
}

/// The decoder for 32-bit values at byte `i` of `buf`, with `acc` gathered
/// from the bytes before: the value and the number of bytes read, or `None`
/// where the decoder rejects. It reads at most five bytes, rejects a final
/// zero byte that is not the first one, and drops the bits of the fifth
/// byte that do not fit.
pub open spec fn scan_u32(buf: Seq<u8>, i: nat, acc: u32) -> Option<(u32, nat)>
    decreases buf.len() - i,
{
    if i >= buf.len() {
        None
    } else {
        let b = buf[i as int];
        let acc = acc | (((b & 0x7f) as u32) << ((i * 7) as u32));
        if b & 0x80 == 0 {
            if b == 0 && i > 0 {
                None
            } else {
                Some((acc, i + 1))
            }
        } else if i == 4 {
            None
        } else {
            scan_u32(buf, i + 1, acc)
        }
    }
}

/// The decoder for 64-bit values, as [`scan_u32`] with at most ten bytes.
pub open spec fn scan_u64(buf: Seq<u8>, i: nat, acc: u64) -> Option<(u64, nat)>
    decreases buf.len() - i,
{
    if i >= buf.len() {
        None
    } else {
        let b = buf[i as int];
        let acc = acc | (((b & 0x7f) as u64) << ((i * 7) as u64));
        if b & 0x80 == 0 {
            if b == 0 && i > 0 {
                None
            } else {
                Some((acc, i + 1))
            }
        } else if i == 9 {
            None
        } else {
            scan_u64(buf, i + 1, acc)
        }
    }
}

/// The decoder for sizes: the 64-bit decoder where `usize` has 64 bits, the
/// 32-bit decoder otherwise.
pub open spec fn scan_usize(buf: Seq<u8>) -> Option<(usize, nat)> {
    if usize::BITS == 64 {
        match scan_u64(buf, 0, 0) {
            Some((n, k)) => Some((n as usize, k)),
            None => None,
        }
    } else {
        match scan_u32(buf, 0, 0) {
            Some((n, k)) => Some((n as usize, k)),
            None => None,
        }
    }
}

/// A 32-bit value at the head of `input`, and what follows it.
pub open spec fn take_u32(input: Seq<u8>) -> Option<(u32, Seq<u8>)> {
    match scan_u32(input, 0, 0) {
        Some((n, k)) => Some((n, input.skip(k as int))),
        None => None,
    }
}

/// A 64-bit value at the head of `input`, and what follows it.
pub open spec fn take_u64(input: Seq<u8>) -> Option<(u64, Seq<u8>)> {
    match scan_u64(input, 0, 0) {
        Some((n, k)) => Some((n, input.skip(k as int))),
        None => None,
    }
}

/// A size at the head of `input`, and what follows it.
pub open spec fn take_usize(input: Seq<u8>) -> Option<(usize, Seq<u8>)> {
    match scan_usize(input) {
        Some((n, k)) => Some((n, input.skip(k as int))),
        None => None,
    }
}

/// `unsigned_varint::encode::u32`: the bytes written are the encoding of `n`.
#[verifier::external_body]
fn encode_u32(n: u32) -> (out: Vec<u8>)
    ensures
        out@ == varint(n as nat),
{
    unsigned_varint::encode::u32(n, &mut unsigned_varint::encode::u32_buffer()).to_vec()
}

/// `unsigned_varint::encode::u64`: the bytes written are the encoding of `n`.
#[verifier::external_body]
fn encode_u64(n: u64) -> (out: Vec<u8>)
    ensures
        out@ == varint(n as nat),
{
    unsigned_varint::encode::u64(n, &mut unsigned_varint::encode::u64_buffer()).to_vec()
}

/// `unsigned_varint::encode::usize`: the bytes written are the encoding of `n`.
#[verifier::external_body]
fn encode_usize(n: usize) -> (out: Vec<u8>)
    ensures
        out@ == varint(n as nat),
{
    unsigned_varint::encode::usize(n, &mut unsigned_varint::encode::usize_buffer()).to_vec()
}

/// `unsigned_varint::decode::u32`: it succeeds where [`scan_u32`] does, with
/// that value, and hands back the input behind the bytes read.
#[verifier::external_body]
pub(crate) fn read_u32<'a>(buf: &'a [u8]) -> (r: Option<(u32, &'a [u8])>)
    ensures
        match r {
            Some((n, rest)) => take_u32(buf@) == Some((n, rest@)),
            None => take_u32(buf@) is None,
        },
{
    unsigned_varint::decode::u32(buf).ok()
}

/// `unsigned_varint::decode::u64`: it succeeds where [`scan_u64`] does, with
/// that value, and hands back the input behind the bytes read.
#[verifier::external_body]
pub(crate) fn read_u64<'a>(buf: &'a [u8]) -> (r: Option<(u64, &'a [u8])>)
    ensures
        match r {
            Some((n, rest)) => take_u64(buf@) == Some((n, rest@)),
            None => take_u64(buf@) is None,
        },
{
    unsigned_varint::decode::u64(buf).ok()
}

/// `unsigned_varint::decode::usize`: it succeeds where [`scan_usize`] does,
/// with that value, and hands back the input behind the bytes read.
#[verifier::external_body]
pub(crate) fn read_usize<'a>(buf: &'a [u8]) -> (r: Option<(usize, &'a [u8])>)
    ensures
        match r {
            Some((n, rest)) => take_usize(buf@) == Some((n, rest@)),
            None => take_usize(buf@) is None,
        },
{
    unsigned_varint::decode::usize(buf).ok()
}

/// Appends the encoding of `n` to `out`.
pub fn put_u32(out: &mut Vec<u8>, n: u32)
    ensures
        final(out)@ == old(out)@ + varint(n as nat),
{
    let bytes = encode_u32(n);
    out.extend_from_slice(bytes.as_slice());
}

/// Appends the encoding of `n` to `out`.
pub fn put_u64(out: &mut Vec<u8>, n: u64)
    ensures
        final(out)@ == old(out)@ + varint(n as nat),
{
    let bytes = encode_u64(n);
    out.extend_from_slice(bytes.as_slice());
}

/// Appends the encoding of `n` to `out`.
pub fn put_usize(out: &mut Vec<u8>, n: usize)
    ensures
        final(out)@ == old(out)@ + varint(n as nat),
{
    let bytes = encode_usize(n);
    out.extend_from_slice(bytes.as_slice());
}

proof fn lemma_low_group_u32(n: u32, s: u32, acc: u32, b: u8)
    by (bit_vector)
    requires
        s <= 28,
        s % 7 == 0,
        acc == n & !(u32::MAX << s),
        (n >> s) < 128,
        b as u32 == n >> s,
    ensures
        b & 0x80 == 0,
        acc | (((b & 0x7f) as u32) << s) == n,
        b == 0 ==> n >> s == 0,
{
}

proof fn lemma_high_group_u32(n: u32, s: u32, s2: u32, acc: u32, b: u8)
    by (bit_vector)
    requires
        s <= 28,
        s % 7 == 0,
        acc == n & !(u32::MAX << s),
        (n >> s) >= 128,
        s2 == s + 7,
        b as u32 == (n >> s) % 128 + 128,
    ensures
        b & 0x80 != 0,
        s <= 21,
        acc | (((b & 0x7f) as u32) << s) == n & !(u32::MAX << s2),
        (n >> s) / 128 == n >> s2,
        n >> s2 > 0,
{
}

proof fn lemma_low_group_u64(n: u64, s: u64, acc: u64, b: u8)
    by (bit_vector)
    requires
        s <= 63,
        s % 7 == 0,
        acc == n & !(u64::MAX << s),
        (n >> s) < 128,
        b as u64 == n >> s,
    ensures
        b & 0x80 == 0,
        acc | (((b & 0x7f) as u64) << s) == n,
        b == 0 ==> n >> s == 0,
{
}

proof fn lemma_high_group_u64(n: u64, s: u64, s2: u64, acc: u64, b: u8)
    by (bit_vector)
    requires
        s <= 63,
        s % 7 == 0,
        acc == n & !(u64::MAX << s),
        (n >> s) >= 128,
        s2 == s + 7,
        b as u64 == (n >> s) % 128 + 128,
    ensures
        b & 0x80 != 0,
        s <= 56,
        acc | (((b & 0x7f) as u64) << s) == n & !(u64::MAX << s2),
        (n >> s) / 128 == n >> s2,
        n >> s2 > 0,
{
}

/// The 32-bit decoder, set on the encoding of the groups of `n` from group
/// `i` on, with the groups below gathered in `acc`, reads `n`.
proof fn lemma_scan_u32(buf: Seq<u8>, i: nat, acc: u32, n: u32, m: nat)
    requires
        i <= 4,
        m == n >> ((i * 7) as u32),
        acc == n & !(u32::MAX << ((i * 7) as u32)),
        i > 0 ==> m > 0,
        buf.len() >= i + varint(m).len(),
        buf.subrange(i as int, (i + varint(m).len()) as int) == varint(m),
    ensures
        scan_u32(buf, i, acc) == Some((n, i + varint(m).len())),
    decreases 4 - i,
{
    let s = (i * 7) as u32;
    let b = buf[i as int];
    assert(b == buf.subrange(i as int, (i + varint(m).len()) as int)[0]);
    if m < 128 {
        lemma_low_group_u32(n, s, acc, b);
    } else {
        let s2 = ((i + 1) * 7) as u32;
        lemma_high_group_u32(n, s, s2, acc, b);
        let next = acc | (((b & 0x7f) as u32) << s);
        let rest = varint(m / 128);
        assert(buf.subrange((i + 1) as int, (i + 1 + rest.len()) as int) =~= rest) by {
            assert forall|j: int| 0 <= j < rest.len() implies buf[i + 1 + j] == rest[j] by {
                let written = buf.subrange(i as int, (i + varint(m).len()) as int);
                assert(written[j + 1] == varint(m)[j + 1]);
            }
        }
        lemma_scan_u32(buf, i + 1, next, n, m / 128);
    }
}

/// The 64-bit decoder, set on the encoding of the groups of `n` from group
/// `i` on, with the groups below gathered in `acc`, reads `n`.
proof fn lemma_scan_u64(buf: Seq<u8>, i: nat, acc: u64, n: u64, m: nat)
    requires
        i <= 9,
        m == n >> ((i * 7) as u64),
        acc == n & !(u64::MAX << ((i * 7) as u64)),
        i > 0 ==> m > 0,
        buf.len() >= i + varint(m).len(),
        buf.subrange(i as int, (i + varint(m).len()) as int) == varint(m),
    ensures
        scan_u64(buf, i, acc) == Some((n, i + varint(m).len())),
    decreases 9 - i,
{
    let s = (i * 7) as u64;
    let b = buf[i as int];
    assert(b == buf.subrange(i as int, (i + varint(m).len()) as int)[0]);
    if m < 128 {
        lemma_low_group_u64(n, s, acc, b);
    } else {
        let s2 = ((i + 1) * 7) as u64;
        lemma_high_group_u64(n, s, s2, acc, b);
        let next = acc | (((b & 0x7f) as u64) << s);
        let rest = varint(m / 128);
        assert(buf.subrange((i + 1) as int, (i + 1 + rest.len()) as int) =~= rest) by {
            assert forall|j: int| 0 <= j < rest.len() implies buf[i + 1 + j] == rest[j] by {
                let written = buf.subrange(i as int, (i + varint(m).len()) as int);
                assert(written[j + 1] == varint(m)[j + 1]);
            }
        }
        lemma_scan_u64(buf, i + 1, next, n, m / 128);
    }
}

/// Decoding the encoding of a 32-bit value gives the value back and leaves
/// what followed it.
pub proof fn lemma_take_u32_of_varint(n: u32, tail: Seq<u8>)
    ensures
        take_u32(varint(n as nat) + tail) == Some((n, tail)),
{
    let buf = varint(n as nat) + tail;
    assert(n >> 0u32 == n) by (bit_vector);
    assert(0u32 == n & !(u32::MAX << 0u32)) by (bit_vector);
    assert(buf.subrange(0, varint(n as nat).len() as int) =~= varint(n as nat));
    lemma_scan_u32(buf, 0, 0, n, n as nat);
}

/// Decoding the encoding of a 64-bit value gives the value back and leaves
/// what followed it.
pub proof fn lemma_take_u64_of_varint(n: u64, tail: Seq<u8>)
    ensures
        take_u64(varint(n as nat) + tail) == Some((n, tail)),
{
    let buf = varint(n as nat) + tail;
    assert(n >> 0u64 == n) by (bit_vector);
    assert(0u64 == n & !(u64::MAX << 0u64)) by (bit_vector);
    assert(buf.subrange(0, varint(n as nat).len() as int) =~= varint(n as nat));
    lemma_scan_u64(buf, 0, 0, n, n as nat);
}

/// Decoding the encoding of a size gives the size back and leaves what
/// followed it.
pub proof fn lemma_take_usize_of_varint(n: usize, tail: Seq<u8>)
    ensures
        take_usize(varint(n as nat) + tail) == Some((n, tail)),
{
    if usize::BITS == 64 {
        lemma_take_u64_of_varint(n as u64, tail);
    } else {
        lemma_take_u32_of_varint(n as u32, tail);
    }
}

} // verus!
