//! User-plane IQ messages: the packed resource blocks and their expansion
//! into signed samples.

use vstd::prelude::*;
use vstd::arithmetic::power2::lemma2_to64;
use vstd::arithmetic::power2::lemma_pow2_strictly_increases;
use vstd::arithmetic::power2::lemma_pow2_unfold;
use vstd::arithmetic::power2::pow2;
use vstd::bits::lemma_u32_shl_is_mul;
use vstd::pervasive::unreached;
use vstd::slice::slice_to_vec;
use crate::cursor::be_u16;
use crate::cursor::be_u8;
use crate::cursor::bits_value;
use crate::cursor::lemma_bits_value_bound;
use crate::cursor::lemma_take_bits_at;
use crate::cursor::spec_be_u16;
use crate::cursor::take;
use crate::cursor::take_bits;
use crate::protocols::ecpri::split_timing_word;
use crate::protocols::ecpri::spec_slot_id;
use crate::protocols::ecpri::spec_subframe_id;
use crate::protocols::ecpri::spec_symbol_id;
use crate::protocols::ecpri::DataDirection;
use crate::protocols::ecpri::FilterIndex;
use crate::protocols::ecpri::SectionHeader;
use crate::protocols::ecpri::RE_NUM;
use crate::protocols::types::ErrorKind;

verus! {

/// The signed number that the `width`-bit pattern `u` stands for in two's
/// complement.
pub open spec fn spec_sign_extend(u: int, width: nat) -> int
    recommends
        width >= 1,
        0 <= u < pow2(width),
{
    if u < pow2((width - 1) as nat) {
        u
    } else {
        u - pow2(width)
    }
}

/// A sign-extended `width`-bit pattern lies between `-2^(width-1)` and
/// `2^(width-1) - 1`.
pub proof fn lemma_sign_extend_range(u: int, width: nat)
    requires
        width >= 1,
        0 <= u < pow2(width),
    ensures
        -pow2((width - 1) as nat) <= spec_sign_extend(u, width) <= pow2((width - 1) as nat) - 1,
{
    lemma_pow2_unfold(width);
}

/// Sample number `k` of the resource block packed in `s`: the two
/// `mantissa`-bit numbers at bit `start + 2 * k * mantissa`, the in-phase
/// value first.
pub open spec fn spec_sample(s: Seq<u8>, start: int, mantissa: nat, k: int) -> (int, int) {
    (
        spec_sign_extend(bits_value(s, start + 2 * k * mantissa, mantissa), mantissa),
        spec_sign_extend(bits_value(s, start + (2 * k + 1) * mantissa, mantissa), mantissa),
    )
}

/// Every decoded sample value, whatever the packed bits are, lies between
/// `-2^(mantissa-1)` and `2^(mantissa-1) - 1`.
pub proof fn lemma_sample_range(s: Seq<u8>, start: int, mantissa: nat, k: int)
    requires
        mantissa >= 1,
    ensures
        -pow2((mantissa - 1) as nat) <= spec_sample(s, start, mantissa, k).0 <= pow2(
            (mantissa - 1) as nat,
        ) - 1,
        -pow2((mantissa - 1) as nat) <= spec_sample(s, start, mantissa, k).1 <= pow2(
            (mantissa - 1) as nat,
        ) - 1,
{
    lemma_bits_value_bound(s, start + 2 * k * mantissa, mantissa);
    lemma_bits_value_bound(s, start + (2 * k + 1) * mantissa, mantissa);
    lemma_sign_extend_range(bits_value(s, start + 2 * k * mantissa, mantissa), mantissa);
    lemma_sign_extend_range(bits_value(s, start + (2 * k + 1) * mantissa, mantissa), mantissa);
}

/// Whether `v` holds the first `n` samples of the resource block packed
/// in `s` from bit `start` on.
pub open spec fn are_samples_of(
    v: Seq<(i16, i16)>,
    s: Seq<u8>,
    start: int,
    mantissa: nat,
    n: nat,
) -> bool {
    &&& v.len() == n
    &&& forall|k: int|
        0 <= k < n ==> (#[trigger] v[k]).0 == spec_sample(s, start, mantissa, k).0 && v[k].1
            == spec_sample(s, start, mantissa, k).1
}

/// Whether a resource block can be expanded with `mantissa`-bit samples:
/// its exponent fits four bits and it holds all twelve pairs.
pub open spec fn spec_block_well_formed(prb: IQPrbuData, mantissa: u16) -> bool {
    &&& prb.exponent <= 15
    &&& prb.iq_sample@.len() >= 3 * mantissa
}

/// Whether every block of `prbu` can be expanded.
pub open spec fn spec_blocks_well_formed(prbu: Seq<IQPrbuData>, mantissa: u16) -> bool {
    forall|k: int| 0 <= k < prbu.len() ==> spec_block_well_formed(#[trigger] prbu[k], mantissa)
}

/// Appending sample number `n` to the first `n` samples gives the first
/// `n + 1`.
proof fn lemma_push_sample(
    v: Seq<(i16, i16)>,
    pair: (i16, i16),
    s: Seq<u8>,
    start: int,
    mantissa: nat,
    n: nat,
)
    requires
        are_samples_of(v, s, start, mantissa, n),
        pair.0 == spec_sample(s, start, mantissa, n as int).0,
        pair.1 == spec_sample(s, start, mantissa, n as int).1,
    ensures
        are_samples_of(v.push(pair), s, start, mantissa, n + 1),
{
    let w = v.push(pair);
    assert forall|k: int| 0 <= k < n + 1 implies (#[trigger] w[k]).0 == spec_sample(
        s,
        start,
        mantissa,
        k,
    ).0 && w[k].1 == spec_sample(s, start, mantissa, k).1 by {
        if k < n {
            assert(w[k] == v[k]);
        }
    }
}

/// One physical resource block of a user-plane message: a byte with the
/// block's exponent, then twelve packed IQ pairs.
#[derive(Clone, Debug)]
pub struct IQPrbuData {
    /// The high four bits of the first byte.
    pub reserved: u8,
    /// Block-floating-point exponent: the low four bits of the first byte.
    pub exponent: u8,
    /// The packed samples: twelve pairs of `mantissa`-bit numbers.
    pub iq_sample: Vec<u8>,
}

impl IQPrbuData {
    /// Number of bytes that twelve packed IQ pairs take.
    pub open spec fn spec_iq_data_size(mantissa: u16) -> int {
        mantissa * 2 * 12 / 8
    }

    /// Number of bytes that one resource block takes on the wire.
    pub open spec fn spec_len(mantissa: u16) -> int {
        1 + Self::spec_iq_data_size(mantissa)
    }

    /// Whether `self` is the resource block written at the start of `s`.
    pub open spec fn is_parse_of(self, s: Seq<u8>, mantissa: u16) -> bool
        recommends
            s.len() >= Self::spec_len(mantissa),
    {
        &&& self.reserved == s[0] / 16
        &&& self.exponent == s[0] % 16
        &&& self.iq_sample@ == s.subrange(1, Self::spec_len(mantissa))
    }

    /// Reads one resource block whose samples are `mantissa` bits wide; the
    /// result holds the input after it, then the block.
    pub fn parse<'a>(data: &'a [u8], mantissa: u16) -> (r: Result<
        (&'a [u8], IQPrbuData),
        ErrorKind,
    >)
        ensures
            data@.len() < Self::spec_len(mantissa) ==> r is Err && r->Err_0
                == ErrorKind::NotEnoughBytes,
            data@.len() >= Self::spec_len(mantissa) ==> r is Ok && r->Ok_0.0@ == data@.skip(
                Self::spec_len(mantissa),
            ) && r->Ok_0.1.is_parse_of(data@, mantissa) && spec_block_well_formed(
                r->Ok_0.1,
                mantissa,
            ),
    {
        let iq_data_size: usize = (mantissa as usize) * 2 * 12 / 8;
        let (i1, byte_u8) = be_u8(data)?;
        let (i2, iq_sample) = take(i1, iq_data_size)?;
        proof {
            assert(i2@ == data@.skip(1 + iq_data_size));
            assert(iq_sample@ == data@.subrange(1, 1 + iq_data_size));
            assert(byte_u8 >> 4 == byte_u8 / 16 && byte_u8 & 0x0F == byte_u8 % 16)
                by (bit_vector);
        }
        Ok(
            (
                i2,
                IQPrbuData {
                    reserved: byte_u8 >> 4,
                    exponent: byte_u8 & 0x0F,
                    iq_sample: slice_to_vec(iq_sample),
                },
            ),
        )
    }

    /// Reads a `mantissa`-bit pattern as a two's-complement number.
    fn fix_two_complement(v: u32, mantissa: u16) -> (r: i16)
        requires
            1 <= mantissa <= 16,
            v < pow2(mantissa as nat),
        ensures
            r == spec_sign_extend(v as int, mantissa as nat),
    {
        let shift: u32 = (mantissa - 1) as u32;
        proof {
            lemma2_to64();
            lemma_pow2_unfold(mantissa as nat);
            if mantissa < 16 {
                lemma_pow2_strictly_increases(mantissa as nat, 16);
            }
            lemma_u32_shl_is_mul(1u32, shift);
        }
        let half: u32 = 1u32 << shift;
        if v < half {
            v as i16
        } else {
            (v as i32 - 2 * (half as i32)) as i16
        }
    }

    /// Reads twelve IQ pairs from a bit cursor; the result holds the cursor
    /// behind them, then the pairs.
    fn _get_iq_samples<'a>(data: (&'a [u8], usize), mantissa: u16) -> (r: Result<
        ((&'a [u8], usize), Vec<(i16, i16)>),
        ErrorKind,
    >)
        requires
            1 <= mantissa <= 16,
            data.1 < 8,
        ensures
            data.0@.len() * 8 < data.1 + 24 * mantissa ==> r is Err && r->Err_0
                == ErrorKind::NotEnoughBits,
            data.0@.len() * 8 >= data.1 + 24 * mantissa ==> r is Ok && r->Ok_0.0.0@
                == data.0@.skip((data.1 + 24 * mantissa) / 8) && r->Ok_0.0.1 == (data.1 + 24
                * mantissa) % 8 && are_samples_of(
                r->Ok_0.1@,
                data.0@,
                data.1 as int,
                mantissa as nat,
                12,
            ),
    {
        let mut iq_data: Vec<(i16, i16)> = Vec::new();
        let mut remain = data;
        let ghost s = data.0@;
        let ghost start = data.1 as int;
        let ghost m = mantissa as int;
        let ghost mut p = start;
        let mut k: usize = 0;
        while k < RE_NUM
            invariant
                k <= RE_NUM,
                1 <= mantissa <= 16,
                m == mantissa,
                s == data.0@,
                start == data.1,
                0 <= start < 8,
                p == start + 2 * k * m,
                p / 8 <= s.len(),
                k > 0 ==> s.len() * 8 >= p,
                remain.0@ == s.skip(p / 8),
                remain.1 == p % 8,
                are_samples_of(iq_data@, s, start, m as nat, k as nat),
            decreases RE_NUM - k,
        {
            proof {
                assert(start + (2 * k + 1) * m == p + m && start + 2 * (k + 1) * m == p + 2 * m
                    && p + 2 * m <= start + 24 * m) by (nonlinear_arith)
                    requires
                        p == start + 2 * k * m,
                        k < 12,
                        m >= 1,
                ;
                lemma_take_bits_at(s, p, m as nat);
                lemma_bits_value_bound(s, p, m as nat);
            }
            let (other, i_real) = take_bits(remain.0, remain.1, mantissa as usize)?;
            proof {
                lemma_take_bits_at(s, p + m, m as nat);
                lemma_bits_value_bound(s, p + m, m as nat);
            }
            let (other2, q_imag) = take_bits(other.0, other.1, mantissa as usize)?;
            let pair = (
                Self::fix_two_complement(i_real, mantissa),
                Self::fix_two_complement(q_imag, mantissa),
            );
            proof {
                lemma_push_sample(iq_data@, pair, s, start, m as nat, k as nat);
                p = p + 2 * m;
            }
            iq_data.push(pair);
            remain = other2;
            k = k + 1;
        }
        Ok((remain, iq_data))
    }

    /// Unpacks the twelve IQ pairs of the block, each value `mantissa` bits
    /// wide and sign-extended.  The result holds the bytes of the block
    /// behind the samples, then the pairs, the in-phase value first.
    /// The width has to lie between 1 and 16.
    pub fn get_iq_data<'a>(&'a self, mantissa: u16) -> (r: Result<
        (&'a [u8], Vec<(i16, i16)>),
        ErrorKind,
    >)
        requires
            1 <= mantissa <= 16,
        ensures
            self.iq_sample@.len() < 3 * mantissa ==> r is Err && r->Err_0
                == ErrorKind::NotEnoughBits,
            self.iq_sample@.len() >= 3 * mantissa ==> r is Ok && r->Ok_0.0@
                == self.iq_sample@.skip(3 * mantissa) && are_samples_of(
                r->Ok_0.1@,
                self.iq_sample@,
                0,
                mantissa as nat,
                12,
            ),
    {
        let input = self.iq_sample.as_slice();
        let ((rest, offset), res) = Self::_get_iq_samples((input, 0), mantissa)?;
        // A partly read byte would be dropped here; twelve pairs always end
        // on a byte boundary.
        let byte_index: usize = if offset % 8 == 0 {
            0
        } else {
            1
        };
        let tail = vstd::slice::slice_subrange(rest, byte_index, rest.len());
        Ok((tail, res))
    }
}

/// A user-plane IQ message: timing fields, one section header and the
/// resource blocks that the section header counts.
#[derive(Clone, Debug)]
pub struct UPlaneIQData {
    /// Data direction: the highest bit of the first byte.
    pub dir: DataDirection,
    /// Payload version: the next three bits.
    pub payload_ver: u8,
    /// Filter index: the low four bits of the first byte.
    pub filter_index: FilterIndex,
    /// Counter of 10 ms frames.
    pub frame_id: u8,
    /// Counter of 1 ms sub-frames in a frame; four bits.
    pub subframe_id: u8,
    /// Slot number in a sub-frame; six bits.
    pub slot_id: u8,
    /// Symbol that the samples belong to; six bits.
    pub start_symbol_id: u8,
    /// The single section header of the message.
    pub section_hdr: SectionHeader,
    /// The resource blocks, `section_hdr.num_prbc` of them.
    pub iq_prbu: Vec<IQPrbuData>,
}

impl UPlaneIQData {
    /// Whether the filter index in the first byte of `s` is one that this
    /// decoder knows.
    pub open spec fn spec_filter_known(s: Seq<u8>) -> bool
        recommends
            s.len() >= 1,
    {
        FilterIndex::spec_from_u8((s[0] % 16) as u8) is Some
    }

    /// Number of bytes that the message at the start of `s` takes.
    pub open spec fn spec_len(s: Seq<u8>, mantissa: u16) -> int
        recommends
            s.len() >= 8,
    {
        8 + s[7] * IQPrbuData::spec_len(mantissa)
    }

    /// Why decoding `s` fails, or `None` when it succeeds.
    pub open spec fn spec_check(s: Seq<u8>, mantissa: u16) -> Option<ErrorKind> {
        if s.len() < 8 {
            Some(ErrorKind::NotEnoughBytes)
        } else if !Self::spec_filter_known(s) {
            Some(ErrorKind::UnsupportedFilterIndex)
        } else if s.len() < Self::spec_len(s, mantissa) {
            Some(ErrorKind::NotEnoughBytes)
        } else {
            None
        }
    }

    /// Whether the fields in front of the resource blocks are those
    /// written in the first eight bytes of `s`.
    pub open spec fn is_header_of(self, s: Seq<u8>) -> bool
        recommends
            s.len() >= 8,
            Self::spec_filter_known(s),
    {
        &&& Some(self.dir) == DataDirection::spec_from_u8((s[0] / 128) as u8)
        &&& self.payload_ver == s[0] / 16 % 8
        &&& Some(self.filter_index) == FilterIndex::spec_from_u8((s[0] % 16) as u8)
        &&& self.frame_id == s[1]
        &&& self.subframe_id == spec_subframe_id(spec_be_u16(s.skip(2)))
        &&& self.slot_id == spec_slot_id(spec_be_u16(s.skip(2)))
        &&& self.start_symbol_id == spec_symbol_id(spec_be_u16(s.skip(2)))
        &&& self.section_hdr == SectionHeader::spec_parse(s.skip(4))
    }

    /// Whether the resource blocks are the first `n` of those written in
    /// `s` behind the eight header bytes.
    pub open spec fn are_blocks_of(self, s: Seq<u8>, mantissa: u16, n: nat) -> bool {
        &&& self.iq_prbu@.len() == n
        &&& forall|k: int|
            0 <= k < n ==> (#[trigger] self.iq_prbu@[k]).is_parse_of(
                s.skip(8 + k * IQPrbuData::spec_len(mantissa)),
                mantissa,
            )
    }

    /// Whether the message holds as many resource blocks as its section
    /// header announces.
    pub open spec fn spec_counts_match(self) -> bool {
        self.iq_prbu@.len() == self.section_hdr.num_prbc
    }

    /// Whether `self` is the message written at the start of `s`.
    pub open spec fn is_parse_of(self, s: Seq<u8>, mantissa: u16) -> bool
        recommends
            Self::spec_check(s, mantissa) is None,
    {
        &&& self.is_header_of(s)
        &&& self.are_blocks_of(s, mantissa, s[7] as nat)
    }

    fn parse_without_sections<'a>(data: &'a [u8]) -> (r: Result<
        (&'a [u8], UPlaneIQData),
        ErrorKind,
    >)
        ensures
            data@.len() < 8 ==> r is Err && r->Err_0 == ErrorKind::NotEnoughBytes,
            data@.len() >= 8 && !Self::spec_filter_known(data@) ==> r is Err && r->Err_0
                == ErrorKind::UnsupportedFilterIndex,
            data@.len() >= 8 && Self::spec_filter_known(data@) ==> r is Ok && r->Ok_0.0@
                == data@.skip(8) && r->Ok_0.1.is_header_of(data@) && r->Ok_0.1.iq_prbu@.len() == 0,
    {
        let (i1, byte_u8) = be_u8(data)?;
        let (i2, frame_id) = be_u8(i1)?;
        let (i3, byte_u16) = be_u16(i2)?;
        let (i4, section_hdr) = SectionHeader::parse(i3)?;
        proof {
            assert(i2@ == data@.skip(2));
            assert(i3@ == data@.skip(4));
            assert(i4@ == data@.skip(8));
            assert(byte_u8 >> 7 == byte_u8 / 128 && (byte_u8 & 0x70) >> 4 == byte_u8 / 16 % 8
                && byte_u8 & 0x0F == byte_u8 % 16 && byte_u8 >> 7 <= 1) by (bit_vector);
        }
        let dir = match DataDirection::from_u8(byte_u8 >> 7) {
            Some(d) => d,
            None => unreached(),
        };
        let filter_index = match FilterIndex::from_u8(byte_u8 & 0x0F) {
            Some(f) => f,
            None => return Err(ErrorKind::UnsupportedFilterIndex),
        };
        let (subframe_id, slot_id, start_symbol_id) = split_timing_word(byte_u16);
        Ok(
            (
                i4,
                UPlaneIQData {
                    dir,
                    payload_ver: (byte_u8 & 0x70) >> 4,
                    filter_index,
                    frame_id,
                    subframe_id,
                    slot_id,
                    start_symbol_id,
                    section_hdr,
                    iq_prbu: Vec::new(),
                },
            ),
        )
    }

    /// Reads a user-plane IQ message whose samples are `mantissa` bits
    /// wide; the result holds the input after it, then the message.
    pub fn parse<'a>(data: &'a [u8], mantissa: u16) -> (r: Result<
        (&'a [u8], UPlaneIQData),
        ErrorKind,
    >)
        ensures
            Self::spec_check(data@, mantissa) is Some ==> r is Err && Some(r->Err_0)
                == Self::spec_check(data@, mantissa),
            Self::spec_check(data@, mantissa) is None ==> r is Ok && r->Ok_0.0@ == data@.skip(
                Self::spec_len(data@, mantissa),
            ) && r->Ok_0.1.is_parse_of(data@, mantissa) && r->Ok_0.1.spec_counts_match()
                && spec_blocks_well_formed(r->Ok_0.1.iq_prbu@, mantissa),
    {
        let (remaining, mut up_data) = UPlaneIQData::parse_without_sections(data)?;
        let num_prbc = up_data.section_hdr.num_prbc as usize;
        let ghost block = IQPrbuData::spec_len(mantissa);
        let mut remain = remaining;
        let mut iq_data: Vec<IQPrbuData> = Vec::new();
        let mut k: usize = 0;
        while k < num_prbc
            invariant
                k <= num_prbc,
                num_prbc == data@[7],
                data@.len() >= 8,
                Self::spec_filter_known(data@),
                block == IQPrbuData::spec_len(mantissa),
                block >= 1,
                data@.len() >= 8 + k * block,
                remain@ == data@.skip(8 + k * block),
                iq_data@.len() == k,
                forall|j: int|
                    0 <= j < k ==> (#[trigger] iq_data@[j]).is_parse_of(
                        data@.skip(8 + j * block),
                        mantissa,
                    ),
                spec_blocks_well_formed(iq_data@, mantissa),
                up_data.is_header_of(data@),
            decreases num_prbc - k,
        {
            proof {
                assert((k + 1) * block == k * block + block && (k + 1) * block <= num_prbc * block)
                    by (nonlinear_arith)
                    requires
                        k < num_prbc,
                        block >= 1,
                ;
            }
            let (rest, prb) = IQPrbuData::parse(remain, mantissa)?;
            proof {
                assert(rest@ == data@.skip(8 + (k + 1) * block));
                let old_v = iq_data@;
                let new_v = old_v.push(prb);
                assert forall|j: int| 0 <= j < k + 1 implies (#[trigger] new_v[j]).is_parse_of(
                    data@.skip(8 + j * block),
                    mantissa,
                ) by {
                    if j < k {
                        assert(new_v[j] == old_v[j]);
                    }
                }
                assert forall|j: int| 0 <= j < k + 1 implies spec_block_well_formed(
                    #[trigger] new_v[j],
                    mantissa,
                ) by {
                    if j < k {
                        assert(new_v[j] == old_v[j]);
                    }
                }
            }
            iq_data.push(prb);
            remain = rest;
            k = k + 1;
        }
        up_data.iq_prbu = iq_data;
        Ok((remain, up_data))
    }
}

} // verus!
