//! Binary cursor primitives.
//!
//! Byte-aligned and bit-aligned readers over a borrowed byte span.  Each
//! reader leaves its input untouched and hands back the decoded value
//! together with the span that follows it.  The reading itself is done by
//! `nom`; the functions whose names start with `nom_` are the only places
//! where this crate trusts code it has not verified, and each of them says
//! in its doc comment what is taken on trust.

use vstd::prelude::*;
use vstd::arithmetic::power2::pow2;
use vstd::arithmetic::power2::lemma_pow2_unfold;
use vstd::arithmetic::power2::lemma_pow2_pos;
use vstd::slice::slice_subrange;
use crate::protocols::types::ErrorKind;

verus! {

/// The big-endian value of the first two bytes of `s`.
pub open spec fn spec_be_u16(s: Seq<u8>) -> int
    recommends
        s.len() >= 2,
{
    s[0] as int * 0x100 + s[1] as int
}

/// The big-endian value of the first three bytes of `s`.
pub open spec fn spec_be_u24(s: Seq<u8>) -> int
    recommends
        s.len() >= 3,
{
    s[0] as int * 0x1_0000 + s[1] as int * 0x100 + s[2] as int
}

/// The big-endian value of the first four bytes of `s`.
pub open spec fn spec_be_u32(s: Seq<u8>) -> int
    recommends
        s.len() >= 4,
{
    s[0] as int * 0x100_0000 + s[1] as int * 0x1_0000 + s[2] as int * 0x100 + s[3] as int
}

/// The little-endian value of the first two bytes of `s`.
pub open spec fn spec_le_u16(s: Seq<u8>) -> int
    recommends
        s.len() >= 2,
{
    s[1] as int * 0x100 + s[0] as int
}

/// The little-endian value of the first four bytes of `s`.
pub open spec fn spec_le_u32(s: Seq<u8>) -> int
    recommends
        s.len() >= 4,
{
    s[3] as int * 0x100_0000 + s[2] as int * 0x1_0000 + s[1] as int * 0x100 + s[0] as int
}

/// A 32-bit pattern `v` read as a two's-complement signed number.
pub open spec fn spec_as_i32(v: int) -> int
    recommends
        0 <= v < 0x1_0000_0000,
{
    if v < 0x8000_0000 {
        v
    } else {
        v - 0x1_0000_0000
    }
}

/// Bit number `i` of `s`, counting from the most significant bit of the
/// first byte.
pub open spec fn bit_at(s: Seq<u8>, i: int) -> int
    recommends
        0 <= i < 8 * s.len(),
{
    (s[i / 8] as int / pow2((7 - i % 8) as nat) as int) % 2
}

/// The unsigned number written by the `count` bits of `s` that start at bit
/// `start`, most significant bit first.
pub open spec fn bits_value(s: Seq<u8>, start: int, count: nat) -> int
    recommends
        0 <= start,
        start + count <= 8 * s.len(),
    decreases count,
{
    if count == 0 {
        0
    } else {
        2 * bits_value(s, start, (count - 1) as nat) + bit_at(s, start + count - 1)
    }
}

/// A run of `count` bits is a number below `2^count`.
pub proof fn lemma_bits_value_bound(s: Seq<u8>, start: int, count: nat)
    ensures
        0 <= bits_value(s, start, count) < pow2(count),
    decreases count,
{
    if count == 0 {
        lemma_pow2_pos(0);
    } else {
        lemma_bits_value_bound(s, start, (count - 1) as nat);
        lemma_pow2_unfold(count);
    }
}

/// Dropping whole bytes in front shifts the bit numbering by eight per byte.
pub proof fn lemma_bits_value_skip(s: Seq<u8>, k: int, start: int, count: nat)
    requires
        0 <= k,
        0 <= start,
        8 * k + start + count <= 8 * s.len(),
    ensures
        bits_value(s.skip(k), start, count) == bits_value(s, 8 * k + start, count),
    decreases count,
{
    if count > 0 {
        lemma_bits_value_skip(s, k, start, (count - 1) as nat);
        let i = start + count - 1;
        assert((8 * k + i) / 8 == k + i / 8 && (8 * k + i) % 8 == i % 8) by (nonlinear_arith)
            requires
                0 <= k,
                0 <= i,
        ;
        assert(s.skip(k)[i / 8] == s[k + i / 8]);
    }
}

/// A run of bits depends only on the bytes it lies in.
pub proof fn lemma_bits_value_prefix(s: Seq<u8>, t: Seq<u8>, start: int, count: nat)
    requires
        0 <= start,
        start + count <= 8 * t.len(),
        t.len() <= s.len(),
        forall|j: int| 0 <= j < t.len() ==> t[j] == s[j],
    ensures
        bits_value(t, start, count) == bits_value(s, start, count),
    decreases count,
{
    if count > 0 {
        lemma_bits_value_prefix(s, t, start, (count - 1) as nat);
        let i = start + count - 1;
        assert(0 <= i / 8 < t.len()) by (nonlinear_arith)
            requires
                0 <= i < 8 * t.len(),
        ;
    }
}

/// What a bit-aligned read of `count` bits from `(i, bit_offset)` yields:
/// the cursor after the read and the value, or `None` when the input is
/// too short.  A read of no bits succeeds on any input and moves nothing.
pub open spec fn spec_take_bits(i: Seq<u8>, bit_offset: int, count: nat) -> Option<
    (Seq<u8>, int, int),
> {
    if count == 0 {
        Some((i, bit_offset, 0))
    } else if i.len() * 8 < count + bit_offset {
        None
    } else {
        Some(
            (
                i.skip((count + bit_offset) / 8),
                (count + bit_offset) % 8,
                bits_value(i, bit_offset, count),
            ),
        )
    }
}

/// A read at bit `p` of `s`, made through the cursor that stands there:
/// the bytes from byte `p / 8` on, and the offset `p % 8`.
pub proof fn lemma_take_bits_at(s: Seq<u8>, p: int, count: nat)
    requires
        0 <= p,
        p / 8 <= s.len(),
        count >= 1,
    ensures
        s.len() * 8 < p + count ==> spec_take_bits(s.skip(p / 8), p % 8, count) is None,
        s.len() * 8 >= p + count ==> spec_take_bits(s.skip(p / 8), p % 8, count) == Some(
            (s.skip((p + count) / 8), (p + count) % 8, bits_value(s, p, count)),
        ),
{
    let t = s.skip(p / 8);
    if s.len() * 8 >= p + count {
        lemma_bits_value_skip(s, p / 8, p % 8, count);
        assert(t.skip((count + p % 8) / 8) =~= s.skip((p + count) / 8));
    }
}

/// `nom::number::complete::be_u8`: fails on empty input, otherwise yields
/// the first byte and the input after it.
#[verifier::external_body]
fn nom_be_u8<'a>(i: &'a [u8]) -> (r: Option<(&'a [u8], u8)>)
    ensures
        i@.len() < 1 ==> r is None,
        i@.len() >= 1 ==> r is Some && r->Some_0.0@ == i@.skip(1) && r->Some_0.1 == i@[0],
{
    match nom::number::complete::be_u8::<(&[u8], nom::error::ErrorKind)>(i) {
        Ok((rest, v)) => Some((rest, v)),
        Err(_) => None,
    }
}

/// `nom::number::complete::be_u16`: fails on fewer than two bytes,
/// otherwise yields their big-endian value and the input after them.
#[verifier::external_body]
fn nom_be_u16<'a>(i: &'a [u8]) -> (r: Option<(&'a [u8], u16)>)
    ensures
        i@.len() < 2 ==> r is None,
        i@.len() >= 2 ==> r is Some && r->Some_0.0@ == i@.skip(2) && r->Some_0.1 == spec_be_u16(
            i@,
        ),
{
    match nom::number::complete::be_u16::<(&[u8], nom::error::ErrorKind)>(i) {
        Ok((rest, v)) => Some((rest, v)),
        Err(_) => None,
    }
}

/// `nom::number::complete::be_u24`: fails on fewer than three bytes,
/// otherwise yields their big-endian value and the input after them.
#[verifier::external_body]
fn nom_be_u24<'a>(i: &'a [u8]) -> (r: Option<(&'a [u8], u32)>)
    ensures
        i@.len() < 3 ==> r is None,
        i@.len() >= 3 ==> r is Some && r->Some_0.0@ == i@.skip(3) && r->Some_0.1 == spec_be_u24(
            i@,
        ),
{
    match nom::number::complete::be_u24::<(&[u8], nom::error::ErrorKind)>(i) {
        Ok((rest, v)) => Some((rest, v)),
        Err(_) => None,
    }
}

/// `nom::number::complete::be_u32`: fails on fewer than four bytes,
/// otherwise yields their big-endian value and the input after them.
#[verifier::external_body]
fn nom_be_u32<'a>(i: &'a [u8]) -> (r: Option<(&'a [u8], u32)>)
    ensures
        i@.len() < 4 ==> r is None,
        i@.len() >= 4 ==> r is Some && r->Some_0.0@ == i@.skip(4) && r->Some_0.1 == spec_be_u32(
            i@,
        ),
{
    match nom::number::complete::be_u32::<(&[u8], nom::error::ErrorKind)>(i) {
        Ok((rest, v)) => Some((rest, v)),
        Err(_) => None,
    }
}

/// `nom::bytes::complete::take`: fails when the input holds fewer than
/// `count` bytes, otherwise splits it there and yields the tail first and
/// the `count` leading bytes second.
#[verifier::external_body]
fn nom_take<'a>(i: &'a [u8], count: usize) -> (r: Option<(&'a [u8], &'a [u8])>)
    ensures
        i@.len() < count ==> r is None,
        i@.len() >= count ==> r is Some && r->Some_0.0@ == i@.skip(count as int) && r->Some_0.1@
            == i@.take(count as int),
{
    match nom::bytes::complete::take::<usize, &[u8], (&[u8], nom::error::ErrorKind)>(count)(i) {
        Ok((rest, taken)) => Some((rest, taken)),
        Err(_) => None,
    }
}

/// `nom::bits::complete::take` with a 32-bit result: a read of `count`
/// bits at `bit_offset` bits into the first byte of `i`.  It fails when
/// `i` holds fewer than `bit_offset + count` bits; otherwise it yields the
/// bits as an unsigned number, most significant first, together with the
/// input from the byte that holds the next unread bit and that bit's
/// offset in it.  A read of no bits hands the cursor back.  The bounds
/// keep nom's shifts below the width of the result and its bit count
/// inside `usize`.
#[verifier::external_body]
fn nom_take_bits<'a>(i: &'a [u8], bit_offset: usize, count: usize) -> (r: Option<
    ((&'a [u8], usize), u32),
>)
    requires
        bit_offset < 8,
        count <= 32,
        i@.len() <= 8,
    ensures
        spec_take_bits(i@, bit_offset as int, count as nat) is None ==> r is None,
        spec_take_bits(i@, bit_offset as int, count as nat) is Some ==> r is Some && (
        r->Some_0.0.0@, r->Some_0.0.1 as int, r->Some_0.1 as int) == spec_take_bits(
            i@,
            bit_offset as int,
            count as nat,
        )->Some_0,
{
    match nom::bits::complete::take::<&[u8], u32, usize, ((&[u8], usize), nom::error::ErrorKind)>(
        count,
    )((i, bit_offset)) {
        Ok((cursor, v)) => Some((cursor, v)),
        Err(_) => None,
    }
}

/// `nom::number::streaming::be_u16`: asks for more input on fewer than two
/// bytes, otherwise yields their big-endian value and the input after them.
#[verifier::external_body]
pub(crate) fn nom_streaming_be_u16<'a>(i: &'a [u8]) -> (r: Option<(&'a [u8], u16)>)
    ensures
        i@.len() < 2 ==> r is None,
        i@.len() >= 2 ==> r is Some && r->Some_0.0@ == i@.skip(2) && r->Some_0.1 == spec_be_u16(
            i@,
        ),
{
    match nom::number::streaming::be_u16::<(&[u8], nom::error::ErrorKind)>(i) {
        Ok((rest, v)) => Some((rest, v)),
        Err(_) => None,
    }
}

/// `nom::number::streaming::be_u32`: asks for more input on fewer than four
/// bytes, otherwise yields their big-endian value and the input after them.
#[verifier::external_body]
pub(crate) fn nom_streaming_be_u32<'a>(i: &'a [u8]) -> (r: Option<(&'a [u8], u32)>)
    ensures
        i@.len() < 4 ==> r is None,
        i@.len() >= 4 ==> r is Some && r->Some_0.0@ == i@.skip(4) && r->Some_0.1 == spec_be_u32(
            i@,
        ),
{
    match nom::number::streaming::be_u32::<(&[u8], nom::error::ErrorKind)>(i) {
        Ok((rest, v)) => Some((rest, v)),
        Err(_) => None,
    }
}

/// `nom::number::streaming::be_i32`: as `be_u32`, with the four bytes read
/// as a two's-complement number.
#[verifier::external_body]
pub(crate) fn nom_streaming_be_i32<'a>(i: &'a [u8]) -> (r: Option<(&'a [u8], i32)>)
    ensures
        i@.len() < 4 ==> r is None,
        i@.len() >= 4 ==> r is Some && r->Some_0.0@ == i@.skip(4) && r->Some_0.1 == spec_as_i32(
            spec_be_u32(i@),
        ),
{
    match nom::number::streaming::be_i32::<(&[u8], nom::error::ErrorKind)>(i) {
        Ok((rest, v)) => Some((rest, v)),
        Err(_) => None,
    }
}

/// `nom::number::streaming::le_u16`: asks for more input on fewer than two
/// bytes, otherwise yields their little-endian value and the input after
/// them.
#[verifier::external_body]
pub(crate) fn nom_streaming_le_u16<'a>(i: &'a [u8]) -> (r: Option<(&'a [u8], u16)>)
    ensures
        i@.len() < 2 ==> r is None,
        i@.len() >= 2 ==> r is Some && r->Some_0.0@ == i@.skip(2) && r->Some_0.1 == spec_le_u16(
            i@,
        ),
{
    match nom::number::streaming::le_u16::<(&[u8], nom::error::ErrorKind)>(i) {
        Ok((rest, v)) => Some((rest, v)),
        Err(_) => None,
    }
}

/// `nom::number::streaming::le_u32`: asks for more input on fewer than four
/// bytes, otherwise yields their little-endian value and the input after
/// them.
#[verifier::external_body]
pub(crate) fn nom_streaming_le_u32<'a>(i: &'a [u8]) -> (r: Option<(&'a [u8], u32)>)
    ensures
        i@.len() < 4 ==> r is None,
        i@.len() >= 4 ==> r is Some && r->Some_0.0@ == i@.skip(4) && r->Some_0.1 == spec_le_u32(
            i@,
        ),
{
    match nom::number::streaming::le_u32::<(&[u8], nom::error::ErrorKind)>(i) {
        Ok((rest, v)) => Some((rest, v)),
        Err(_) => None,
    }
}

/// `nom::number::streaming::le_i32`: as `le_u32`, with the four bytes read
/// as a two's-complement number.
#[verifier::external_body]
pub(crate) fn nom_streaming_le_i32<'a>(i: &'a [u8]) -> (r: Option<(&'a [u8], i32)>)
    ensures
        i@.len() < 4 ==> r is None,
        i@.len() >= 4 ==> r is Some && r->Some_0.0@ == i@.skip(4) && r->Some_0.1 == spec_as_i32(
            spec_le_u32(i@),
        ),
{
    match nom::number::streaming::le_i32::<(&[u8], nom::error::ErrorKind)>(i) {
        Ok((rest, v)) => Some((rest, v)),
        Err(_) => None,
    }
}

/// `nom::bytes::streaming::take`: asks for more input when fewer than
/// `count` bytes are there, otherwise splits the input there and yields the
/// tail first and the `count` leading bytes second.
#[verifier::external_body]
pub(crate) fn nom_streaming_take<'a>(i: &'a [u8], count: usize) -> (r: Option<
    (&'a [u8], &'a [u8]),
>)
    ensures
        i@.len() < count ==> r is None,
        i@.len() >= count ==> r is Some && r->Some_0.0@ == i@.skip(count as int) && r->Some_0.1@
            == i@.take(count as int),
{
    match nom::bytes::streaming::take::<usize, &[u8], (&[u8], nom::error::ErrorKind)>(count)(i) {
        Ok((rest, taken)) => Some((rest, taken)),
        Err(_) => None,
    }
}

/// Reads one byte.
pub fn be_u8<'a>(i: &'a [u8]) -> (r: Result<(&'a [u8], u8), ErrorKind>)
    ensures
        i@.len() < 1 ==> r is Err && r->Err_0 == ErrorKind::NotEnoughBytes,
        i@.len() >= 1 ==> r is Ok && r->Ok_0.0@ == i@.skip(1) && r->Ok_0.1 == i@[0],
{
    match nom_be_u8(i) {
        Some(x) => Ok(x),
        None => Err(ErrorKind::NotEnoughBytes),
    }
}

/// Reads a big-endian 16-bit number.
pub fn be_u16<'a>(i: &'a [u8]) -> (r: Result<(&'a [u8], u16), ErrorKind>)
    ensures
        i@.len() < 2 ==> r is Err && r->Err_0 == ErrorKind::NotEnoughBytes,
        i@.len() >= 2 ==> r is Ok && r->Ok_0.0@ == i@.skip(2) && r->Ok_0.1 == spec_be_u16(i@),
{
    match nom_be_u16(i) {
        Some(x) => Ok(x),
        None => Err(ErrorKind::NotEnoughBytes),
    }
}

/// Reads a big-endian 24-bit number.
pub fn be_u24<'a>(i: &'a [u8]) -> (r: Result<(&'a [u8], u32), ErrorKind>)
    ensures
        i@.len() < 3 ==> r is Err && r->Err_0 == ErrorKind::NotEnoughBytes,
        i@.len() >= 3 ==> r is Ok && r->Ok_0.0@ == i@.skip(3) && r->Ok_0.1 == spec_be_u24(i@),
{
    match nom_be_u24(i) {
        Some(x) => Ok(x),
        None => Err(ErrorKind::NotEnoughBytes),
    }
}

/// Reads a big-endian 32-bit number.
pub fn be_u32<'a>(i: &'a [u8]) -> (r: Result<(&'a [u8], u32), ErrorKind>)
    ensures
        i@.len() < 4 ==> r is Err && r->Err_0 == ErrorKind::NotEnoughBytes,
        i@.len() >= 4 ==> r is Ok && r->Ok_0.0@ == i@.skip(4) && r->Ok_0.1 == spec_be_u32(i@),
{
    match nom_be_u32(i) {
        Some(x) => Ok(x),
        None => Err(ErrorKind::NotEnoughBytes),
    }
}

/// Splits off the first `count` bytes: the result holds the tail first and
/// the leading bytes second.
pub fn take<'a>(i: &'a [u8], count: usize) -> (r: Result<(&'a [u8], &'a [u8]), ErrorKind>)
    ensures
        i@.len() < count ==> r is Err && r->Err_0 == ErrorKind::NotEnoughBytes,
        i@.len() >= count ==> r is Ok && r->Ok_0.0@ == i@.skip(count as int) && r->Ok_0.1@
            == i@.take(count as int),
{
    match nom_take(i, count) {
        Some(x) => Ok(x),
        None => Err(ErrorKind::NotEnoughBytes),
    }
}

/// Reads `count` bits, most significant first, starting `bit_offset` bits
/// into the first byte of `i`.  The result holds the advanced cursor (the
/// input from the byte with the next unread bit, and that bit's offset) and
/// the value.
pub fn take_bits<'a>(i: &'a [u8], bit_offset: usize, count: usize) -> (r: Result<
    ((&'a [u8], usize), u32),
    ErrorKind,
>)
    requires
        bit_offset < 8,
        count <= 32,
    ensures
        spec_take_bits(i@, bit_offset as int, count as nat) is None ==> r is Err && r->Err_0
            == ErrorKind::NotEnoughBits,
        spec_take_bits(i@, bit_offset as int, count as nat) is Some ==> r is Ok && (
        r->Ok_0.0.0@, r->Ok_0.0.1 as int, r->Ok_0.1 as int) == spec_take_bits(
            i@,
            bit_offset as int,
            count as nat,
        )->Some_0,
{
    // No read reaches past the fifth byte, so nom sees at most eight.
    let window = if i.len() > 8 {
        slice_subrange(i, 0, 8)
    } else {
        i
    };
    match nom_take_bits(window, bit_offset, count) {
        None => Err(ErrorKind::NotEnoughBits),
        Some(((_, end), v)) => {
            if count == 0 {
                Ok(((i, bit_offset), v))
            } else {
                let consumed = (count + bit_offset) / 8;
                proof {
                    lemma_bits_value_prefix(i@, window@, bit_offset as int, count as nat);
                }
                let rest = slice_subrange(i, consumed, i.len());
                assert(rest@ == i@.skip(consumed as int));
                Ok(((rest, end), v))
            }
        },
    }
}

} // verus!
