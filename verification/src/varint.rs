//! The variable-length integer of the wire format.
//!
//! An integer below 2^62 is written big-endian in 1, 2, 4 or 8 bytes. The
//! two highest bits of the first byte tell the length (00, 01, 10, 11), the
//! remaining bits hold the value.

use crate::buffer::{advance, bytes_mut_view, bytes_view, peek, put_slice};
use bytes::{Bytes, BytesMut};
use vstd::prelude::*;
use vstd::slice::slice_subrange;

verus! {

/// The most bytes that one encoded integer takes.
pub const MAX_SIZE: usize = 8;

/// The largest integer that the format can carry, 2^62 - 1.
pub const MAX_VALUE: u64 = 0x3fff_ffff_ffff_ffff;

/// The input ended before the integer did.
#[derive(Debug, Clone, Copy, PartialEq, Eq, Structural)]
pub struct UnexpectedEnd;

/// The integer is above [`MAX_VALUE`] and has no encoding.
#[derive(Debug, Clone, Copy, PartialEq, Eq, Structural)]
pub struct VarIntBoundsExceeded;

/// The number that a byte string spells when read big-endian.
pub open spec fn be_value(s: Seq<u8>) -> nat
    decreases s.len(),
{
    if s.len() == 0 {
        0
    } else {
        be_value(s.drop_last()) * 256 + s.last() as nat
    }
}

/// The `n` lowest base-256 digits of `v`, most significant first.
pub open spec fn be_bytes(v: nat, n: nat) -> Seq<u8>
    decreases n,
{
    if n == 0 {
        Seq::empty()
    } else {
        be_bytes(v / 256, (n - 1) as nat).push((v % 256) as u8)
    }
}

/// 256 to the power of `n`.
pub open spec fn pow256(n: nat) -> nat
    decreases n,
{
    if n == 0 {
        1
    } else {
        256 * pow256((n - 1) as nat)
    }
}

/// How many bytes the shortest encoding of `v` takes.
pub open spec fn encoded_len(v: u64) -> nat {
    if v < 0x40 {
        1
    } else if v < 0x4000 {
        2
    } else if v < 0x4000_0000 {
        4
    } else {
        8
    }
}

/// The length tag of an `n`-byte encoding, at the place it has in the
/// big-endian number: the two highest of its `8 * n` bits.
pub open spec fn length_tag(n: nat) -> nat {
    if n == 1 {
        0
    } else if n == 2 {
        0x4000
    } else if n == 4 {
        0x8000_0000
    } else {
        0xc000_0000_0000_0000
    }
}

/// How many values an `n`-byte encoding can tell apart: its bits, less the
/// two of the length tag.
pub open spec fn payload_limit(n: nat) -> nat {
    if n == 1 {
        0x40
    } else if n == 2 {
        0x4000
    } else if n == 4 {
        0x4000_0000
    } else {
        0x4000_0000_0000_0000
    }
}

/// The wire form of `v`: the shortest of the four encodings that holds it.
pub open spec fn encoding(v: u64) -> Seq<u8>
    recommends
        v <= MAX_VALUE,
{
    let n = encoded_len(v);
    be_bytes(length_tag(n) + v as nat, n)
}

/// How many bytes an encoding takes whose first byte is `first`.
pub open spec fn prefix_len(first: u8) -> nat {
    if first < 0x40 {
        1
    } else if first < 0x80 {
        2
    } else if first < 0xc0 {
        4
    } else {
        8
    }
}

/// What the front of `s` decodes to: the integer, and the number of bytes
/// that spell it. `None` where `s` ends before the encoding does.
pub open spec fn decoding(s: Seq<u8>) -> Option<(u64, nat)> {
    if s.len() == 0 || s.len() < prefix_len(s[0]) {
        None
    } else {
        let n = prefix_len(s[0]);
        Some(((be_value(s.take(n as int)) - length_tag(n)) as u64, n))
    }
}

/// Takes one integer off the front of `buf`.
///
/// Where `buf` ends before the integer does, nothing is taken and the
/// buffer stays as it was.
pub fn read_varint(buf: &mut Bytes) -> (r: Result<u64, UnexpectedEnd>)
    ensures
        match decoding(bytes_view(*old(buf))) {
            Some((v, n)) => {
                &&& r == Ok::<u64, UnexpectedEnd>(v)
                &&& v <= MAX_VALUE
                &&& bytes_view(*final(buf)) == bytes_view(*old(buf)).skip(n as int)
            },
            None => r == Err::<u64, UnexpectedEnd>(UnexpectedEnd) && *final(buf) == *old(buf),
        },
{
    let chunk = peek(buf);
    if chunk.len() == 0 {
        return Err(UnexpectedEnd);
    }
    let n = announced_len(chunk[0]);
    if chunk.len() < n {
        return Err(UnexpectedEnd);
    }
    let spelled = big_endian_value(chunk, n);
    proof {
        lemma_decoding_range(chunk@);
    }
    let v = spelled - tag_of(n);
    advance(buf, n);
    Ok(v)
}

/// Appends the shortest encoding of `v` to `buf`.
///
/// An integer above [`MAX_VALUE`] has no encoding: it is refused and the
/// buffer stays as it was.
pub fn write_varint(buf: &mut BytesMut, v: u64) -> (r: Result<(), VarIntBoundsExceeded>)
    requires
        v <= MAX_VALUE ==> bytes_mut_view(*old(buf)).len() + encoded_len(v) <= isize::MAX,
    ensures
        v <= MAX_VALUE ==> r is Ok && bytes_mut_view(*final(buf)) == bytes_mut_view(*old(buf))
            + encoding(v),
        v > MAX_VALUE ==> r is Err && *final(buf) == *old(buf),
{
    if v > MAX_VALUE {
        return Err(VarIntBoundsExceeded);
    }
    let n = size(v);
    let bytes = big_endian(tag_of(n) + v, n);
    put_slice(buf, slice_subrange(bytes.as_slice(), 8 - n, 8));
    Ok(())
}

/// The length of the shortest encoding of `v`.
fn size(v: u64) -> (n: usize)
    ensures
        n == encoded_len(v),
        1 <= n <= MAX_SIZE,
{
    if v < 0x40 {
        1
    } else if v < 0x4000 {
        2
    } else if v < 0x4000_0000 {
        4
    } else {
        8
    }
}

/// The length that the two highest bits of `first` announce.
fn announced_len(first: u8) -> (n: usize)
    ensures
        n == prefix_len(first),
{
    if first < 0x40 {
        1
    } else if first < 0x80 {
        2
    } else if first < 0xc0 {
        4
    } else {
        8
    }
}

/// The length tag of an `n`-byte encoding, in place.
fn tag_of(n: usize) -> (tag: u64)
    ensures
        tag == length_tag(n as nat),
{
    if n == 1 {
        0
    } else if n == 2 {
        0x4000
    } else if n == 4 {
        0x8000_0000
    } else {
        0xc000_0000_0000_0000
    }
}

/// Fills the end of `bytes` with the base-256 digits of `v`.
fn big_endian(v: u64, n: usize) -> (bytes: [u8; 8])
    requires
        n <= 8,
    ensures
        bytes@.subrange(8 - n, 8) == be_bytes(v as nat, n as nat),
{
    let mut bytes: [u8; 8] = [0; 8];
    let mut rest: u64 = v;
    let mut i: usize = 8;
    while i > 8 - n
        invariant
            n <= 8,
            8 - n <= i <= 8,
            be_bytes(v as nat, n as nat) == be_bytes(rest as nat, (i - (8 - n)) as nat)
                + bytes@.subrange(i as int, 8),
        decreases i,
    {
        i -= 1;
        bytes[i] = (rest % 256) as u8;
        proof {
            assert(bytes@.subrange(i as int, 8) =~= seq![(rest % 256) as u8] + bytes@.subrange(
                i + 1,
                8,
            ));
        }
        rest = rest / 256;
    }
    proof {
        assert(be_bytes(rest as nat, 0) =~= Seq::<u8>::empty());
    }
    bytes
}

/// The number that the first `n` bytes of `bytes` spell.
fn big_endian_value(bytes: &[u8], n: usize) -> (v: u64)
    requires
        n <= 8,
        n <= bytes@.len(),
    ensures
        v == be_value(bytes@.take(n as int)),
{
    let mut v: u64 = 0;
    let mut i: usize = 0;
    while i < n
        invariant
            i <= n <= 8,
            n <= bytes@.len(),
            v == be_value(bytes@.take(i as int)),
        decreases n - i,
    {
        proof {
            lemma_be_value_bound(bytes@.take(i as int));
            lemma_be_value_bound(bytes@.take(i + 1));
            lemma_pow256_values();
            assert(bytes@.take(i + 1).drop_last() =~= bytes@.take(i as int));
        }
        v = v * 256 + bytes[i] as u64;
        i += 1;
    }
    v
}

/// Decoding what was encoded gives the integer back and stops where the
/// encoding ends, whatever follows it.
pub proof fn lemma_decode_encode(v: u64, rest: Seq<u8>)
    requires
        v <= MAX_VALUE,
    ensures
        encoding(v).len() == encoded_len(v),
        decoding(encoding(v) + rest) == Some((v, encoded_len(v))),
{
    let n = encoded_len(v);
    let spelled = length_tag(n) + v as nat;
    let wire = encoding(v);
    lemma_be_bytes_len(spelled, n);
    lemma_be_value_of_be_bytes(spelled, n);
    lemma_pow256_values();
    assert(be_value(wire) == spelled) by {
        vstd::arithmetic::div_mod::lemma_small_mod(spelled, pow256(n));
    }
    lemma_leading_byte(wire);
    assert((wire + rest)[0] == wire[0]);
    assert((wire + rest).take(n as int) =~= wire);
}

/// An encoding that is cut short does not decode: none of its proper
/// prefixes holds an integer.
pub proof fn lemma_truncated_encoding(v: u64, k: nat)
    requires
        v <= MAX_VALUE,
        k < encoded_len(v),
    ensures
        decoding(encoding(v).take(k as int)) is None,
{
    lemma_decode_encode(v, Seq::empty());
    assert(encoding(v) + Seq::<u8>::empty() =~= encoding(v));
}

/// Whatever decodes is a value that the format can carry, spelled in 1, 2,
/// 4 or 8 bytes that the input has.
pub proof fn lemma_decoding_range(s: Seq<u8>)
    ensures
        decoding(s) matches Some((v, n)) ==> {
            &&& v <= MAX_VALUE
            &&& v == be_value(s.take(n as int)) - length_tag(n)
            &&& n == prefix_len(s[0])
            &&& 1 <= n <= s.len()
            &&& n <= MAX_SIZE
        },
{
    if decoding(s) is Some {
        lemma_leading_byte(s.take(prefix_len(s[0]) as int));
    }
}

/// In a string of 1, 2, 4 or 8 bytes the first byte announces the string's
/// own length exactly when the number spelled carries the tag of that length.
pub proof fn lemma_leading_byte(s: Seq<u8>)
    requires
        s.len() == 1 || s.len() == 2 || s.len() == 4 || s.len() == 8,
    ensures
        prefix_len(s[0]) == s.len() <==> length_tag(s.len()) <= be_value(s) < length_tag(s.len())
            + payload_limit(s.len()),
{
    let first = s[0] as nat;
    let tail = s.skip(1);
    let scale = pow256(tail.len());
    assert(s =~= seq![s[0]] + tail);
    assert(be_value(seq![s[0]]) == first) by {
        reveal_with_fuel(be_value, 2);
        assert(seq![s[0]].drop_last() =~= Seq::<u8>::empty());
    }
    lemma_be_value_concat(seq![s[0]], tail);
    lemma_be_value_bound(tail);
    lemma_pow256_values();
    assert(be_value(s) == first * scale + be_value(tail));
    if s.len() == 1 {
        assert(first * scale == first) by (nonlinear_arith)
            requires
                scale == 1,
        ;
    } else if s.len() == 2 {
        assert(first * scale == first * 0x100) by (nonlinear_arith)
            requires
                scale == 0x100,
        ;
    } else if s.len() == 4 {
        assert(first * scale == first * 0x100_0000) by (nonlinear_arith)
            requires
                scale == 0x100_0000,
        ;
    } else {
        assert(first * scale == first * 0x100_0000_0000_0000) by (nonlinear_arith)
            requires
                scale == 0x100_0000_0000_0000,
        ;
    }
}

/// Spelling a number in `n` bytes and reading it back keeps it, as far as
/// `n` bytes can hold it.
pub proof fn lemma_be_value_of_be_bytes(v: nat, n: nat)
    ensures
        be_value(be_bytes(v, n)) == v % pow256(n),
    decreases n,
{
    if n > 0 {
        let m = (n - 1) as nat;
        let front = be_bytes(v / 256, m);
        lemma_be_value_of_be_bytes(v / 256, m);
        lemma_be_bytes_len(v / 256, m);
        assert(be_bytes(v, n).drop_last() =~= front);
        lemma_pow256_positive(m);
        vstd::arithmetic::div_mod::lemma_mod_breakdown(v as int, 256, pow256(m) as int);
    }
}

/// Reading `a` and then `b` shifts what `a` spells by the length of `b`.
pub proof fn lemma_be_value_concat(a: Seq<u8>, b: Seq<u8>)
    ensures
        be_value(a + b) == be_value(a) * pow256(b.len()) + be_value(b),
    decreases b.len(),
{
    if b.len() == 0 {
        assert(a + b =~= a);
        assert(be_value(a) * 1 == be_value(a)) by (nonlinear_arith);
    } else {
        let front = b.drop_last();
        let p = pow256(front.len());
        assert((a + b).drop_last() =~= a + front);
        assert((a + b).last() == b.last());
        lemma_be_value_concat(a, front);
        assert(pow256(b.len()) == 256 * p);
        assert((be_value(a) * p + be_value(front)) * 256 + b.last() as nat == be_value(a) * (256
            * p) + (be_value(front) * 256 + b.last() as nat)) by (nonlinear_arith);
    }
}

/// A string of `n` bytes spells a number below 256^n.
pub proof fn lemma_be_value_bound(s: Seq<u8>)
    ensures
        be_value(s) < pow256(s.len()),
    decreases s.len(),
{
    if s.len() > 0 {
        lemma_be_value_bound(s.drop_last());
    }
}

/// `be_bytes(v, n)` has `n` bytes.
pub proof fn lemma_be_bytes_len(v: nat, n: nat)
    ensures
        be_bytes(v, n).len() == n,
    decreases n,
{
    if n > 0 {
        lemma_be_bytes_len(v / 256, (n - 1) as nat);
    }
}

/// The powers of 256 that the four lengths need.
pub proof fn lemma_pow256_values()
    ensures
        pow256(0) == 1,
        pow256(1) == 0x100,
        pow256(2) == 0x1_0000,
        pow256(3) == 0x100_0000,
        pow256(4) == 0x1_0000_0000,
        pow256(5) == 0x100_0000_0000,
        pow256(6) == 0x1_0000_0000_0000,
        pow256(7) == 0x100_0000_0000_0000,
        pow256(8) == 0x1_0000_0000_0000_0000,
{
    reveal_with_fuel(pow256, 9);
}

/// No power of 256 is zero.
pub proof fn lemma_pow256_positive(n: nat)
    ensures
        pow256(n) > 0,
    decreases n,
{
    if n > 0 {
        lemma_pow256_positive((n - 1) as nat);
    }
}

} // verus!
