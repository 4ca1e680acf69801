//! eCPRI common header and the O-RAN control- and user-plane sections.
//!
//! Every fixed-size record has a spec function `spec_parse` that reads its
//! fields off a byte sequence by division and remainder; the executable
//! `parse` shifts and masks, and is proved to give the same record.

use vstd::prelude::*;
use vstd::pervasive::unreached;
use crate::cursor::be_u16;
use crate::cursor::be_u24;
use crate::cursor::be_u8;
use crate::cursor::spec_be_u16;
use crate::cursor::spec_be_u24;
use crate::protocols::types::ErrorKind;
use crate::protocols::uplane::spec_blocks_well_formed;
use crate::protocols::uplane::UPlaneIQData;

verus! {

/// The two bytes that mark an eCPRI payload.
pub const ECPRI_MAGIC_NUM: u16 = 0xAEFE;

/// Number of resource elements in a physical resource block.
pub const RE_NUM: usize = 12;

/// Direction of the data flow; one bit on the wire.
#[derive(Clone, Copy, Debug, PartialEq, Eq, Structural)]
pub enum DataDirection {
    /// Uplink (receive), wire value 0.
    UL,
    /// Downlink (transmit), wire value 1.
    DL,
}

impl DataDirection {
    /// The direction with wire value `item`, if there is one.
    pub open spec fn spec_from_u8(item: u8) -> Option<DataDirection> {
        if item == 0 {
            Some(DataDirection::UL)
        } else if item == 1 {
            Some(DataDirection::DL)
        } else {
            None
        }
    }

    /// The wire value.
    pub open spec fn spec_value(self) -> u8 {
        match self {
            DataDirection::UL => 0,
            DataDirection::DL => 1,
        }
    }

    /// The value with wire value `item`, if there is one.
    pub fn from_u8(item: u8) -> (r: Option<DataDirection>)
        ensures
            r == Self::spec_from_u8(item),
    {
        if item == 0 {
            Some(DataDirection::UL)
        } else if item == 1 {
            Some(DataDirection::DL)
        } else {
            None
        }
    }

    /// The wire value.
    pub fn value(&self) -> (r: u8)
        ensures
            r == self.spec_value(),
    {
        match self {
            DataDirection::UL => 0,
            DataDirection::DL => 1,
        }
    }
}

/// Index of the channel filter between IQ data and the air interface; four
/// bits on the wire.
#[allow(non_camel_case_types)]
#[derive(Clone, Copy, Debug, PartialEq, Eq, Structural)]
pub enum FilterIndex {
    /// No filter, wire value 0.
    NO_FILTER,
    /// NR PRACH formats A1 to C2, wire value 3.
    NR_PRACH,
}

impl FilterIndex {
    /// The filter index with wire value `item`, if it is a supported one.
    pub open spec fn spec_from_u8(item: u8) -> Option<FilterIndex> {
        if item == 0 {
            Some(FilterIndex::NO_FILTER)
        } else if item == 3 {
            Some(FilterIndex::NR_PRACH)
        } else {
            None
        }
    }

    /// The wire value.
    pub open spec fn spec_value(self) -> u8 {
        match self {
            FilterIndex::NO_FILTER => 0,
            FilterIndex::NR_PRACH => 3,
        }
    }

    /// The value with wire value `item`, if there is one.
    pub fn from_u8(item: u8) -> (r: Option<FilterIndex>)
        ensures
            r == Self::spec_from_u8(item),
    {
        if item == 0 {
            Some(FilterIndex::NO_FILTER)
        } else if item == 3 {
            Some(FilterIndex::NR_PRACH)
        } else {
            None
        }
    }

    /// The wire value.
    pub fn value(&self) -> (r: u8)
        ensures
            r == self.spec_value(),
    {
        match self {
            FilterIndex::NO_FILTER => 0,
            FilterIndex::NR_PRACH => 3,
        }
    }
}

/// FFT size of a frame structure; four bits on the wire.
#[allow(non_camel_case_types)]
#[derive(Clone, Copy, Debug, PartialEq, Eq, Structural)]
pub enum FFTSize {
    /// Wire value 0.
    I_NONE,
    /// Wire values 1 to 7.
    RESERVED1,
    /// Wire value 8.
    I_256,
    /// Wire value 9.
    I_512,
    /// Wire value 10.
    I_1024,
    /// Wire value 11.
    I_2048,
    /// Wire value 12.
    I_4096,
    /// Wire values 13 to 15.
    RESERVED2,
}

impl FFTSize {
    /// The FFT size with wire value `item`; none above 15.
    pub open spec fn spec_from_u8(item: u8) -> Option<FFTSize> {
        if item == 0 {
            Some(FFTSize::I_NONE)
        } else if item <= 7 {
            Some(FFTSize::RESERVED1)
        } else if item == 8 {
            Some(FFTSize::I_256)
        } else if item == 9 {
            Some(FFTSize::I_512)
        } else if item == 10 {
            Some(FFTSize::I_1024)
        } else if item == 11 {
            Some(FFTSize::I_2048)
        } else if item == 12 {
            Some(FFTSize::I_4096)
        } else if item <= 15 {
            Some(FFTSize::RESERVED2)
        } else {
            None
        }
    }

    /// The value with wire value `item`, if there is one.
    pub fn from_u8(item: u8) -> (r: Option<FFTSize>)
        ensures
            r == Self::spec_from_u8(item),
    {
        if item == 0 {
            Some(FFTSize::I_NONE)
        } else if item <= 7 {
            Some(FFTSize::RESERVED1)
        } else if item == 8 {
            Some(FFTSize::I_256)
        } else if item == 9 {
            Some(FFTSize::I_512)
        } else if item == 10 {
            Some(FFTSize::I_1024)
        } else if item == 11 {
            Some(FFTSize::I_2048)
        } else if item == 12 {
            Some(FFTSize::I_4096)
        } else if item <= 15 {
            Some(FFTSize::RESERVED2)
        } else {
            None
        }
    }
}

/// Subcarrier spacing of a frame structure; four bits on the wire.
#[allow(non_camel_case_types)]
#[derive(Clone, Copy, Debug, PartialEq, Eq, Structural)]
pub enum MU {
    /// 15 kHz, wire value 0.
    KHZ_15,
    /// 30 kHz, wire value 1.
    KHZ_30,
    /// 60 kHz, wire value 2.
    KHZ_60,
    /// 120 kHz, wire value 3.
    KHZ_120,
    /// 240 kHz, wire value 4.
    KHZ_240,
    /// 480 kHz, wire value 5.
    KHZ_480,
    /// Wire values 6 to 11.
    Reserved,
    /// 1.25 kHz, wire value 12.
    KHZ_1_25,
    /// 3.75 kHz, wire value 13.
    KHZ_3_75,
    /// 5 kHz, wire value 14.
    KHZ_5,
    /// 7.5 kHz, wire value 15.
    KHZ_7_5,
}

impl MU {
    /// The subcarrier spacing with wire value `item`; none above 15.
    pub open spec fn spec_from_u8(item: u8) -> Option<MU> {
        if item == 0 {
            Some(MU::KHZ_15)
        } else if item == 1 {
            Some(MU::KHZ_30)
        } else if item == 2 {
            Some(MU::KHZ_60)
        } else if item == 3 {
            Some(MU::KHZ_120)
        } else if item == 4 {
            Some(MU::KHZ_240)
        } else if item == 5 {
            Some(MU::KHZ_480)
        } else if item <= 11 {
            Some(MU::Reserved)
        } else if item == 12 {
            Some(MU::KHZ_1_25)
        } else if item == 13 {
            Some(MU::KHZ_3_75)
        } else if item == 14 {
            Some(MU::KHZ_5)
        } else if item == 15 {
            Some(MU::KHZ_7_5)
        } else {
            None
        }
    }

    /// The value with wire value `item`, if there is one.
    pub fn from_u8(item: u8) -> (r: Option<MU>)
        ensures
            r == Self::spec_from_u8(item),
    {
        if item == 0 {
            Some(MU::KHZ_15)
        } else if item == 1 {
            Some(MU::KHZ_30)
        } else if item == 2 {
            Some(MU::KHZ_60)
        } else if item == 3 {
            Some(MU::KHZ_120)
        } else if item == 4 {
            Some(MU::KHZ_240)
        } else if item == 5 {
            Some(MU::KHZ_480)
        } else if item <= 11 {
            Some(MU::Reserved)
        } else if item == 12 {
            Some(MU::KHZ_1_25)
        } else if item == 13 {
            Some(MU::KHZ_3_75)
        } else if item == 14 {
            Some(MU::KHZ_5)
        } else if item == 15 {
            Some(MU::KHZ_7_5)
        } else {
            None
        }
    }
}

/// eCPRI message types.
#[derive(Clone, Copy, Debug, PartialEq, Eq, Structural)]
pub enum MessageType {
    /// Wire value 0.
    IQData,
    /// Wire value 1.
    BitSequence,
    /// Wire value 2.
    RealTimeControlData,
    /// Wire value 3.
    GenericDataTransfer,
    /// Wire value 4.
    RemoteMemoryAccess,
    /// Wire value 5.
    OneWayDelayMeasurement,
    /// Wire value 6.
    RemoteReset,
    /// Wire value 7.
    EventIndication,
    /// Wire value 8.
    IWFStartUp,
    /// Wire value 9.
    IWFOperation,
    /// Wire value 10.
    IWFMapping,
    /// Wire values 12 to 63.
    Reserved,
    /// Wire values 64 to 225.
    VendorSpecific,
}

impl MessageType {
    /// The message type with wire value `item`; none for 11 and above 225.
    pub open spec fn spec_from_u16(item: u16) -> Option<MessageType> {
        if item == 0 {
            Some(MessageType::IQData)
        } else if item == 1 {
            Some(MessageType::BitSequence)
        } else if item == 2 {
            Some(MessageType::RealTimeControlData)
        } else if item == 3 {
            Some(MessageType::GenericDataTransfer)
        } else if item == 4 {
            Some(MessageType::RemoteMemoryAccess)
        } else if item == 5 {
            Some(MessageType::OneWayDelayMeasurement)
        } else if item == 6 {
            Some(MessageType::RemoteReset)
        } else if item == 7 {
            Some(MessageType::EventIndication)
        } else if item == 8 {
            Some(MessageType::IWFStartUp)
        } else if item == 9 {
            Some(MessageType::IWFOperation)
        } else if item == 10 {
            Some(MessageType::IWFMapping)
        } else if 12 <= item <= 63 {
            Some(MessageType::Reserved)
        } else if 64 <= item <= 225 {
            Some(MessageType::VendorSpecific)
        } else {
            None
        }
    }

    /// The message type with wire value `item`, if there is one.
    pub fn from_u16(item: u16) -> (r: Option<MessageType>)
        ensures
            r == Self::spec_from_u16(item),
    {
        if item == 0 {
            Some(MessageType::IQData)
        } else if item == 1 {
            Some(MessageType::BitSequence)
        } else if item == 2 {
            Some(MessageType::RealTimeControlData)
        } else if item == 3 {
            Some(MessageType::GenericDataTransfer)
        } else if item == 4 {
            Some(MessageType::RemoteMemoryAccess)
        } else if item == 5 {
            Some(MessageType::OneWayDelayMeasurement)
        } else if item == 6 {
            Some(MessageType::RemoteReset)
        } else if item == 7 {
            Some(MessageType::EventIndication)
        } else if item == 8 {
            Some(MessageType::IWFStartUp)
        } else if item == 9 {
            Some(MessageType::IWFOperation)
        } else if item == 10 {
            Some(MessageType::IWFMapping)
        } else if 12 <= item && item <= 63 {
            Some(MessageType::Reserved)
        } else if 64 <= item && item <= 225 {
            Some(MessageType::VendorSpecific)
        } else {
            None
        }
    }
}

/// eCPRI common (transport) header; eight bytes on the wire.
#[derive(Clone, Copy, Debug, PartialEq, Eq, Structural)]
pub struct CommonHeader {
    /// Protocol revision: the high four bits of the first byte.
    pub revision: u8,
    /// The three highest bits of the first byte, moved down by one place.
    pub reserved: u8,
    /// Concatenation flag: the lowest bit of the first byte.
    pub concatenation: u8,
    /// eCPRI message type.
    pub message_type: u8,
    /// Size in bytes of the payload that follows.
    pub payload_size: u16,
    /// Physical channel identifier.
    pub pcid: u16,
    /// Sequence identifier.
    pub seqid: u16,
}

impl CommonHeader {
    /// The header written in the first eight bytes of `s`.
    pub open spec fn spec_parse(s: Seq<u8>) -> CommonHeader
        recommends
            s.len() >= 8,
    {
        CommonHeader {
            revision: (s[0] / 16) as u8,
            reserved: (s[0] / 32 * 16) as u8,
            concatenation: (s[0] % 2) as u8,
            message_type: s[1],
            payload_size: spec_be_u16(s.skip(2)) as u16,
            pcid: spec_be_u16(s.skip(4)) as u16,
            seqid: spec_be_u16(s.skip(6)) as u16,
        }
    }

    /// Reads the common header; the result holds the input after it, then
    /// the header.
    pub fn parse<'a>(data: &'a [u8]) -> (r: Result<(&'a [u8], CommonHeader), ErrorKind>)
        ensures
            data@.len() < 8 ==> r is Err && r->Err_0 == ErrorKind::NotEnoughBytes,
            data@.len() >= 8 ==> r is Ok && r->Ok_0.0@ == data@.skip(8) && r->Ok_0.1
                == Self::spec_parse(data@),
    {
        let (i1, byte_u8) = be_u8(data)?;
        let (i2, message_type) = be_u8(i1)?;
        let (i3, payload_size) = be_u16(i2)?;
        let (i4, pcid) = be_u16(i3)?;
        let (i5, seqid) = be_u16(i4)?;
        proof {
            assert(i2@ == data@.skip(2));
            assert(i3@ == data@.skip(4));
            assert(i4@ == data@.skip(6));
            assert(i5@ == data@.skip(8));
            assert(byte_u8 >> 4 == byte_u8 / 16 && (byte_u8 & 0xE0) >> 1 == byte_u8 / 32 * 16
                && byte_u8 & 0x01 == byte_u8 % 2) by (bit_vector);
        }
        Ok(
            (
                i5,
                CommonHeader {
                    revision: byte_u8 >> 4,
                    reserved: (byte_u8 & 0xE0) >> 1,
                    concatenation: byte_u8 & 0x01,
                    message_type,
                    payload_size,
                    pcid,
                    seqid,
                },
            ),
        )
    }
}

/// The sub-frame number in a packed timing word: its high four bits.
pub open spec fn spec_subframe_id(word: int) -> int {
    word / 0x1000
}

/// The slot number in a packed timing word: the six bits in the middle.
pub open spec fn spec_slot_id(word: int) -> int {
    word / 0x40 % 0x40
}

/// The symbol number in a packed timing word: its low six bits.
pub open spec fn spec_symbol_id(word: int) -> int {
    word % 0x40
}

/// Splits a packed timing word into sub-frame, slot and symbol number.
pub(crate) fn split_timing_word(word: u16) -> (r: (u8, u8, u8))
    ensures
        r.0 == spec_subframe_id(word as int),
        r.1 == spec_slot_id(word as int),
        r.2 == spec_symbol_id(word as int),
{
    assert(word >> 12 == word / 0x1000 && (word & 0x0FC0) >> 6 == word / 0x40 % 0x40 && word
        & 0x003F == word % 0x40 && word >> 12 < 16 && (word & 0x0FC0) >> 6 < 64 && word & 0x003F
        < 64) by (bit_vector);
    ((word >> 12) as u8, ((word & 0x0FC0) >> 6) as u8, (word & 0x003F) as u8)
}

/// Timing header of a control-plane message; six bytes on the wire.
#[derive(Clone, Copy, Debug, PartialEq, Eq, Structural)]
pub struct TimingHeader {
    /// Data direction: the highest bit of the first byte.
    pub dir: DataDirection,
    /// Payload version: the next three bits.
    pub payload_ver: u8,
    /// Filter index: the low four bits of the first byte.
    pub filter_index: FilterIndex,
    /// Counter of 10 ms frames.
    pub frame_id: u8,
    /// Counter of 1 ms sub-frames in a frame; four bits.
    pub subframe_id: u8,
    /// Slot number in a sub-frame; six bits.
    pub slot_id: u8,
    /// First symbol that the message applies to; six bits.
    pub start_symbol_id: u8,
    /// Number of sections in the message.
    pub num_of_sections: u8,
    /// Section type of the message.
    pub section_type: u8,
}

impl TimingHeader {
    /// Whether the filter index in the first six bytes of `s` is one that
    /// this decoder knows.
    pub open spec fn spec_filter_known(s: Seq<u8>) -> bool
        recommends
            s.len() >= 1,
    {
        FilterIndex::spec_from_u8((s[0] % 16) as u8) is Some
    }

    /// The timing header written in the first six bytes of `s`.
    pub open spec fn spec_parse(s: Seq<u8>) -> TimingHeader
        recommends
            s.len() >= 6,
            Self::spec_filter_known(s),
    {
        TimingHeader {
            dir: DataDirection::spec_from_u8((s[0] / 128) as u8)->Some_0,
            payload_ver: (s[0] / 16 % 8) as u8,
            filter_index: FilterIndex::spec_from_u8((s[0] % 16) as u8)->Some_0,
            frame_id: s[1],
            subframe_id: spec_subframe_id(spec_be_u16(s.skip(2))) as u8,
            slot_id: spec_slot_id(spec_be_u16(s.skip(2))) as u8,
            start_symbol_id: spec_symbol_id(spec_be_u16(s.skip(2))) as u8,
            num_of_sections: s[4],
            section_type: s[5],
        }
    }

    /// Reads the timing header; the result holds the input after it, then
    /// the header.
    pub fn parse<'a>(data: &'a [u8]) -> (r: Result<(&'a [u8], TimingHeader), ErrorKind>)
        ensures
            data@.len() < 6 ==> r is Err && r->Err_0 == ErrorKind::NotEnoughBytes,
            data@.len() >= 6 && !Self::spec_filter_known(data@) ==> r is Err && r->Err_0
                == ErrorKind::UnsupportedFilterIndex,
            data@.len() >= 6 && Self::spec_filter_known(data@) ==> r is Ok && r->Ok_0.0@
                == data@.skip(6) && r->Ok_0.1 == Self::spec_parse(data@),
    {
        let (i1, byte_u8) = be_u8(data)?;
        let (i2, frame_id) = be_u8(i1)?;
        let (i3, byte_u16) = be_u16(i2)?;
        let (i4, num_of_sections) = be_u8(i3)?;
        let (i5, section_type) = be_u8(i4)?;
        proof {
            assert(i2@ == data@.skip(2));
            assert(i3@ == data@.skip(4));
            assert(i4@ == data@.skip(5));
            assert(i5@ == data@.skip(6));
            assert(byte_u8 >> 7 == byte_u8 / 128 && (byte_u8 >> 4) & 0x7 == byte_u8 / 16 % 8
                && byte_u8 & 0x0F == byte_u8 % 16 && byte_u8 >> 7 <= 1) by (bit_vector);
        }
        let dir = match DataDirection::from_u8(byte_u8 >> 7) {
            Some(d) => d,
            None => unreached(),
        };
        let filter_index = match FilterIndex::from_u8(byte_u8 & 0x0F) {
            Some(f) => f,
            None => return Err(ErrorKind::UnsupportedFilterIndex),
        };
        let (subframe_id, slot_id, start_symbol_id) = split_timing_word(byte_u16);
        Ok(
            (
                i5,
                TimingHeader {
                    dir,
                    payload_ver: (byte_u8 >> 4) & 0x7,
                    filter_index,
                    frame_id,
                    subframe_id,
                    slot_id,
                    start_symbol_id,
                    num_of_sections,
                    section_type,
                },
            ),
        )
    }
}

/// Section header shared by all section-bearing messages; four bytes on
/// the wire.
#[derive(Clone, Copy, Debug, PartialEq, Eq, Structural)]
pub struct SectionHeader {
    /// Section identifier; twelve bits.
    pub section_id: u16,
    /// Resource block indicator; one bit.
    pub rb: u8,
    /// Symbol number increment command; one bit.
    pub si: u8,
    /// First resource block of the section; ten bits.
    pub start_prbc: u16,
    /// Number of contiguous resource blocks.
    pub num_prbc: u8,
    /// Compression header of the longer header forms; never present here.
    pub ud_comp_hdr: Option<u8>,
    /// Reserved byte of the longer header forms; never present here.
    pub reserved: Option<u8>,
}

impl SectionHeader {
    /// The section header written in the first four bytes of `s`.
    pub open spec fn spec_parse(s: Seq<u8>) -> SectionHeader
        recommends
            s.len() >= 4,
    {
        SectionHeader {
            section_id: (spec_be_u24(s) / 0x1000) as u16,
            rb: (spec_be_u24(s) / 0x800 % 2) as u8,
            si: (spec_be_u24(s) / 0x400 % 2) as u8,
            start_prbc: (spec_be_u24(s) % 0x400) as u16,
            num_prbc: s[3],
            ud_comp_hdr: None,
            reserved: None,
        }
    }

    /// Reads the section header; the result holds the input after it, then
    /// the header.
    pub fn parse<'a>(data: &'a [u8]) -> (r: Result<(&'a [u8], SectionHeader), ErrorKind>)
        ensures
            data@.len() < 4 ==> r is Err && r->Err_0 == ErrorKind::NotEnoughBytes,
            data@.len() >= 4 ==> r is Ok && r->Ok_0.0@ == data@.skip(4) && r->Ok_0.1
                == Self::spec_parse(data@),
    {
        let (i1, byte_u24) = be_u24(data)?;
        let (i2, num_prbc) = be_u8(i1)?;
        proof {
            assert(i2@ == data@.skip(4));
            assert(byte_u24 >> 12 == byte_u24 / 0x1000 && (byte_u24 >> 11) & 0x1 == byte_u24
                / 0x800 % 2 && (byte_u24 >> 10) & 0x1 == byte_u24 / 0x400 % 2 && byte_u24 & 0x3FF
                == byte_u24 % 0x400 && (byte_u24 < 0x100_0000 ==> byte_u24 >> 12 < 0x1000)
                && byte_u24 & 0x3FF < 0x400 && (byte_u24 >> 11) & 0x1 < 2 && (byte_u24 >> 10) & 0x1
                < 2) by (bit_vector);
        }
        Ok(
            (
                i2,
                SectionHeader {
                    section_id: (byte_u24 >> 12) as u16,
                    rb: ((byte_u24 >> 11) & 0x1) as u8,
                    si: ((byte_u24 >> 10) & 0x1) as u8,
                    start_prbc: (byte_u24 & 0x3FF) as u16,
                    num_prbc,
                    ud_comp_hdr: None,
                    reserved: None,
                },
            ),
        )
    }
}

/// Frame structure: FFT size in the high four bits of a byte, subcarrier
/// spacing in the low four.
#[derive(Clone, Copy, Debug, PartialEq, Eq, Structural)]
pub struct FrameStructure {
    pub fft_size: FFTSize,
    pub mu: MU,
}

impl FrameStructure {
    /// The frame structure written in byte `item`.
    pub open spec fn spec_from(item: u8) -> FrameStructure {
        FrameStructure {
            fft_size: FFTSize::spec_from_u8((item / 16) as u8)->Some_0,
            mu: MU::spec_from_u8((item % 16) as u8)->Some_0,
        }
    }

    /// Splits a byte into FFT size and subcarrier spacing.
    pub fn from(item: u8) -> (r: FrameStructure)
        ensures
            r == Self::spec_from(item),
    {
        assert(item >> 4 == item / 16 && item & 0x0F == item % 16 && item >> 4 <= 15 && item & 0x0F
            <= 15) by (bit_vector);
        let fft_size = match FFTSize::from_u8(item >> 4) {
            Some(f) => f,
            None => unreached(),
        };
        let mu = match MU::from_u8(item & 0x0F) {
            Some(m) => m,
            None => unreached(),
        };
        FrameStructure { fft_size, mu }
    }

    /// Reads one byte as a frame structure; the result holds the input
    /// after it, then the frame structure.
    pub fn parse<'a>(data: &'a [u8]) -> (r: Result<(&'a [u8], FrameStructure), ErrorKind>)
        ensures
            data@.len() < 1 ==> r is Err && r->Err_0 == ErrorKind::NotEnoughBytes,
            data@.len() >= 1 ==> r is Ok && r->Ok_0.0@ == data@.skip(1) && r->Ok_0.1
                == Self::spec_from(data@[0]),
    {
        let (i1, byte_u8) = be_u8(data)?;
        Ok((i1, FrameStructure::from(byte_u8)))
    }
}

/// The resource-element mask in the first word behind a section header:
/// its high twelve bits.
pub open spec fn spec_re_mask(word: int) -> int {
    word / 16
}

/// The symbol count in the first word behind a section header: its low
/// four bits.
pub open spec fn spec_num_symbol(word: int) -> int {
    word % 16
}

/// The extension flag in the second word behind a section header: its
/// highest bit.
pub open spec fn spec_ef(word: int) -> int {
    word / 0x8000
}

/// The low fifteen bits of the second word behind a section header.
pub open spec fn spec_low15(word: int) -> int {
    word % 0x8000
}

/// Splits the two words behind a section header into mask, symbol count,
/// extension flag and the fifteen bits that follow the flag.
fn split_section_words(w1: u16, w2: u16) -> (r: (u16, u8, u8, u16))
    ensures
        r.0 == spec_re_mask(w1 as int),
        r.1 == spec_num_symbol(w1 as int),
        r.2 == spec_ef(w2 as int),
        r.3 == spec_low15(w2 as int),
{
    assert(w1 >> 4 == w1 / 16 && w1 & 0x000F == w1 % 16 && w1 & 0x000F < 16 && w2 >> 15 == w2
        / 0x8000 && w2 >> 15 < 2 && w2 & 0x7FFF == w2 % 0x8000) by (bit_vector);
    (w1 >> 4, (w1 & 0x000F) as u8, (w2 >> 15) as u8, w2 & 0x7FFF)
}

/// One section of a type 0 message; eight bytes on the wire.
#[allow(non_camel_case_types)]
#[derive(Clone, Copy, Debug, PartialEq, Eq, Structural)]
pub struct _SectionType0Data {
    pub section_hdr: SectionHeader,
    /// Resource-element mask; twelve bits.
    pub re_mask: u16,
    /// Number of symbols; four bits.
    pub num_symbol: u8,
    /// Extension flag; one bit.
    pub ef: u8,
    /// Reserved; fifteen bits.
    pub reserved: u16,
}

impl _SectionType0Data {
    /// The section written in the first eight bytes of `s`.
    pub open spec fn spec_parse(s: Seq<u8>) -> _SectionType0Data
        recommends
            s.len() >= 8,
    {
        _SectionType0Data {
            section_hdr: SectionHeader::spec_parse(s),
            re_mask: spec_re_mask(spec_be_u16(s.skip(4))) as u16,
            num_symbol: spec_num_symbol(spec_be_u16(s.skip(4))) as u8,
            ef: spec_ef(spec_be_u16(s.skip(6))) as u8,
            reserved: spec_low15(spec_be_u16(s.skip(6))) as u16,
        }
    }

    /// Reads one section; the result holds the input after it, then the
    /// section.
    pub fn parse<'a>(data: &'a [u8]) -> (r: Result<(&'a [u8], _SectionType0Data), ErrorKind>)
        ensures
            data@.len() < 8 ==> r is Err && r->Err_0 == ErrorKind::NotEnoughBytes,
            data@.len() >= 8 ==> r is Ok && r->Ok_0.0@ == data@.skip(8) && r->Ok_0.1
                == Self::spec_parse(data@),
    {
        let (i1, section_hdr) = SectionHeader::parse(data)?;
        let (i2, byte_u16_1) = be_u16(i1)?;
        let (i3, byte_u16_2) = be_u16(i2)?;
        proof {
            assert(i2@ == data@.skip(6));
            assert(i3@ == data@.skip(8));
        }
        let (re_mask, num_symbol, ef, reserved) = split_section_words(byte_u16_1, byte_u16_2);
        Ok((i3, _SectionType0Data { section_hdr, re_mask, num_symbol, ef, reserved }))
    }
}

/// One section of a type 1 message; eight bytes on the wire.
#[allow(non_camel_case_types)]
#[derive(Clone, Copy, Debug, PartialEq, Eq, Structural)]
pub struct _SectionType1Data {
    pub section_hdr: SectionHeader,
    /// Resource-element mask; twelve bits.
    pub re_mask: u16,
    /// Number of symbols; four bits.
    pub num_symbol: u8,
    /// Extension flag; one bit.
    pub ef: u8,
    /// Beam identifier; fifteen bits.
    pub beam_id: u16,
}

impl _SectionType1Data {
    /// The section written in the first eight bytes of `s`.
    pub open spec fn spec_parse(s: Seq<u8>) -> _SectionType1Data
        recommends
            s.len() >= 8,
    {
        _SectionType1Data {
            section_hdr: SectionHeader::spec_parse(s),
            re_mask: spec_re_mask(spec_be_u16(s.skip(4))) as u16,
            num_symbol: spec_num_symbol(spec_be_u16(s.skip(4))) as u8,
            ef: spec_ef(spec_be_u16(s.skip(6))) as u8,
            beam_id: spec_low15(spec_be_u16(s.skip(6))) as u16,
        }
    }

    /// Reads one section; the result holds the input after it, then the
    /// section.
    pub fn parse<'a>(data: &'a [u8]) -> (r: Result<(&'a [u8], _SectionType1Data), ErrorKind>)
        ensures
            data@.len() < 8 ==> r is Err && r->Err_0 == ErrorKind::NotEnoughBytes,
            data@.len() >= 8 ==> r is Ok && r->Ok_0.0@ == data@.skip(8) && r->Ok_0.1
                == Self::spec_parse(data@),
    {
        let (i1, section_hdr) = SectionHeader::parse(data)?;
        let (i2, byte_u16_1) = be_u16(i1)?;
        let (i3, byte_u16_2) = be_u16(i2)?;
        proof {
            assert(i2@ == data@.skip(6));
            assert(i3@ == data@.skip(8));
        }
        let (re_mask, num_symbol, ef, beam_id) = split_section_words(byte_u16_1, byte_u16_2);
        Ok((i3, _SectionType1Data { section_hdr, re_mask, num_symbol, ef, beam_id }))
    }
}

/// One section of a type 3 message; eleven bytes on the wire.
#[allow(non_camel_case_types)]
#[derive(Clone, Copy, Debug, PartialEq, Eq, Structural)]
pub struct _SectionType3Data {
    pub section_hdr: SectionHeader,
    /// Resource-element mask; twelve bits.
    pub re_mask: u16,
    /// Number of symbols; four bits.
    pub num_symbol: u8,
    /// Extension flag; one bit.
    pub ef: u8,
    /// Beam identifier; fifteen bits.
    pub beam_id: u16,
    /// Frequency offset.
    pub freq_offset: u16,
    /// Reserved byte.
    pub reserved: u8,
}

impl _SectionType3Data {
    /// The section written in the first eleven bytes of `s`.
    pub open spec fn spec_parse(s: Seq<u8>) -> _SectionType3Data
        recommends
            s.len() >= 11,
    {
        _SectionType3Data {
            section_hdr: SectionHeader::spec_parse(s),
            re_mask: spec_re_mask(spec_be_u16(s.skip(4))) as u16,
            num_symbol: spec_num_symbol(spec_be_u16(s.skip(4))) as u8,
            ef: spec_ef(spec_be_u16(s.skip(6))) as u8,
            beam_id: spec_low15(spec_be_u16(s.skip(6))) as u16,
            freq_offset: spec_be_u16(s.skip(8)) as u16,
            reserved: s[10],
        }
    }

    /// Reads one section; the result holds the input after it, then the
    /// section.
    pub fn parse<'a>(data: &'a [u8]) -> (r: Result<(&'a [u8], _SectionType3Data), ErrorKind>)
        ensures
            data@.len() < 11 ==> r is Err && r->Err_0 == ErrorKind::NotEnoughBytes,
            data@.len() >= 11 ==> r is Ok && r->Ok_0.0@ == data@.skip(11) && r->Ok_0.1
                == Self::spec_parse(data@),
    {
        let (i1, section_hdr) = SectionHeader::parse(data)?;
        let (i2, byte_u16_1) = be_u16(i1)?;
        let (i3, byte_u16_2) = be_u16(i2)?;
        let (i4, freq_offset) = be_u16(i3)?;
        let (i5, reserved) = be_u8(i4)?;
        proof {
            assert(i2@ == data@.skip(6));
            assert(i3@ == data@.skip(8));
            assert(i4@ == data@.skip(10));
            assert(i5@ == data@.skip(11));
        }
        let (re_mask, num_symbol, ef, beam_id) = split_section_words(byte_u16_1, byte_u16_2);
        Ok(
            (
                i5,
                _SectionType3Data {
                    section_hdr,
                    re_mask,
                    num_symbol,
                    ef,
                    beam_id,
                    freq_offset,
                    reserved,
                },
            ),
        )
    }
}

/// Body of a type 0 message (idle and guard periods): six bytes, then the
/// sections.
#[derive(Clone, Debug)]
pub struct FCPSectionType0 {
    pub time_offset: u16,
    pub frame_structure: FrameStructure,
    pub cp_length: u16,
    pub reserved: u8,
    pub sections: Vec<_SectionType0Data>,
}

impl FCPSectionType0 {
    /// Whether `self` is the message body written at the start of `s`,
    /// with `n` sections.
    pub open spec fn is_parse_of(self, s: Seq<u8>, n: nat) -> bool
        recommends
            s.len() >= 6 + 8 * n,
    {
        &&& self.time_offset == spec_be_u16(s)
        &&& self.frame_structure == FrameStructure::spec_from(s[2])
        &&& self.cp_length == spec_be_u16(s.skip(3))
        &&& self.reserved == s[5]
        &&& self.sections@ == Seq::new(
            n,
            |k: int| _SectionType0Data::spec_parse(s.skip(6 + 8 * k)),
        )
    }

    fn parse_without_sections<'a>(data: &'a [u8]) -> (r: Result<
        (&'a [u8], FCPSectionType0),
        ErrorKind,
    >)
        ensures
            data@.len() < 6 ==> r is Err && r->Err_0 == ErrorKind::NotEnoughBytes,
            data@.len() >= 6 ==> r is Ok && r->Ok_0.0@ == data@.skip(6) && r->Ok_0.1.is_parse_of(
                data@,
                0,
            ),
    {
        let (i1, time_offset) = be_u16(data)?;
        let (i2, frame_struct) = be_u8(i1)?;
        let (i3, cp_length) = be_u16(i2)?;
        let (i4, reserved) = be_u8(i3)?;
        proof {
            assert(i2@ == data@.skip(3));
            assert(i3@ == data@.skip(5));
            assert(i4@ == data@.skip(6));
        }
        let r = FCPSectionType0 {
            time_offset,
            frame_structure: FrameStructure::from(frame_struct),
            cp_length,
            reserved,
            sections: Vec::new(),
        };
        assert(r.sections@ =~= Seq::new(
            0,
            |k: int| _SectionType0Data::spec_parse(data@.skip(6 + 8 * k)),
        ));
        Ok((i4, r))
    }

    /// Reads the body of a type 0 message with `num_of_sections` sections;
    /// the result holds the input after it, then the body.
    pub fn parse<'a>(data: &'a [u8], num_of_sections: usize) -> (r: Result<
        (&'a [u8], FCPSectionType0),
        ErrorKind,
    >)
        ensures
            data@.len() < 6 + 8 * num_of_sections ==> r is Err && r->Err_0
                == ErrorKind::NotEnoughBytes,
            data@.len() >= 6 + 8 * num_of_sections ==> r is Ok && r->Ok_0.0@ == data@.skip(
                6 + 8 * num_of_sections,
            ) && r->Ok_0.1.is_parse_of(data@, num_of_sections as nat),
    {
        let (remaining, mut section_type0) = FCPSectionType0::parse_without_sections(data)?;
        let mut remain = remaining;
        let mut sections: Vec<_SectionType0Data> = Vec::new();
        let mut k: usize = 0;
        while k < num_of_sections
            invariant
                k <= num_of_sections,
                data@.len() >= 6 + 8 * k,
                remain@ == data@.skip(6 + 8 * k),
                sections@ == Seq::new(
                    k as nat,
                    |j: int| _SectionType0Data::spec_parse(data@.skip(6 + 8 * j)),
                ),
            decreases num_of_sections - k,
        {
            let (rest, section) = _SectionType0Data::parse(remain)?;
            proof {
                assert(rest@ == data@.skip(6 + 8 * (k + 1)));
                assert(sections@.push(section) =~= Seq::new(
                    (k + 1) as nat,
                    |j: int| _SectionType0Data::spec_parse(data@.skip(6 + 8 * j)),
                ));
            }
            sections.push(section);
            remain = rest;
            k = k + 1;
        }
        section_type0.sections = sections;
        Ok((remain, section_type0))
    }
}

/// Body of a type 1 message (uplink and downlink channels): two bytes,
/// then the sections.  Type 2 messages share the layout.
#[derive(Clone, Debug)]
pub struct FCPSectionType1 {
    pub ud_comp_hdr: u8,
    pub reserved: u8,
    pub sections: Vec<_SectionType1Data>,
}

impl FCPSectionType1 {
    /// Whether `self` is the message body written at the start of `s`,
    /// with `n` sections.
    pub open spec fn is_parse_of(self, s: Seq<u8>, n: nat) -> bool
        recommends
            s.len() >= 2 + 8 * n,
    {
        &&& self.ud_comp_hdr == s[0]
        &&& self.reserved == s[1]
        &&& self.sections@ == Seq::new(
            n,
            |k: int| _SectionType1Data::spec_parse(s.skip(2 + 8 * k)),
        )
    }

    fn parse_without_sections<'a>(data: &'a [u8]) -> (r: Result<
        (&'a [u8], FCPSectionType1),
        ErrorKind,
    >)
        ensures
            data@.len() < 2 ==> r is Err && r->Err_0 == ErrorKind::NotEnoughBytes,
            data@.len() >= 2 ==> r is Ok && r->Ok_0.0@ == data@.skip(2) && r->Ok_0.1.is_parse_of(
                data@,
                0,
            ),
    {
        let (i1, ud_comp_hdr) = be_u8(data)?;
        let (i2, reserved) = be_u8(i1)?;
        proof {
            assert(i2@ == data@.skip(2));
        }
        let r = FCPSectionType1 { ud_comp_hdr, reserved, sections: Vec::new() };
        assert(r.sections@ =~= Seq::new(
            0,
            |k: int| _SectionType1Data::spec_parse(data@.skip(2 + 8 * k)),
        ));
        Ok((i2, r))
    }

    /// Reads the body of a type 1 message with `num_of_sections` sections;
    /// the result holds the input after it, then the body.
    pub fn parse<'a>(data: &'a [u8], num_of_sections: usize) -> (r: Result<
        (&'a [u8], FCPSectionType1),
        ErrorKind,
    >)
        ensures
            data@.len() < 2 + 8 * num_of_sections ==> r is Err && r->Err_0
                == ErrorKind::NotEnoughBytes,
            data@.len() >= 2 + 8 * num_of_sections ==> r is Ok && r->Ok_0.0@ == data@.skip(
                2 + 8 * num_of_sections,
            ) && r->Ok_0.1.is_parse_of(data@, num_of_sections as nat),
    {
        let (remaining, mut section_type1) = FCPSectionType1::parse_without_sections(data)?;
        let mut remain = remaining;
        let mut sections: Vec<_SectionType1Data> = Vec::new();
        let mut k: usize = 0;
        while k < num_of_sections
            invariant
                k <= num_of_sections,
                data@.len() >= 2 + 8 * k,
                remain@ == data@.skip(2 + 8 * k),
                sections@ == Seq::new(
                    k as nat,
                    |j: int| _SectionType1Data::spec_parse(data@.skip(2 + 8 * j)),
                ),
            decreases num_of_sections - k,
        {
            let (rest, section) = _SectionType1Data::parse(remain)?;
            proof {
                assert(rest@ == data@.skip(2 + 8 * (k + 1)));
                assert(sections@.push(section) =~= Seq::new(
                    (k + 1) as nat,
                    |j: int| _SectionType1Data::spec_parse(data@.skip(2 + 8 * j)),
                ));
            }
            sections.push(section);
            remain = rest;
            k = k + 1;
        }
        section_type1.sections = sections;
        Ok((remain, section_type1))
    }
}

/// Body of a type 3 message (PRACH and mixed numerology): eight bytes that
/// carry their own section count, then the sections.
#[derive(Clone, Debug)]
pub struct FCPSectionType3 {
    pub num_of_sections: u8,
    pub section_type: u8,
    pub time_offset: u16,
    pub frame_structure: FrameStructure,
    pub cp_length: u16,
    pub ud_comp_hdr: u8,
    pub sections: Vec<_SectionType3Data>,
}

impl FCPSectionType3 {
    /// Number of bytes that the message body at the start of `s` takes.
    pub open spec fn spec_len(s: Seq<u8>) -> int
        recommends
            s.len() >= 1,
    {
        8 + 11 * s[0]
    }

    /// Whether `s` holds the whole message body that starts it.
    pub open spec fn spec_fits(s: Seq<u8>) -> bool {
        s.len() >= 8 && s.len() >= Self::spec_len(s)
    }

    /// Whether `self` holds the eight leading bytes of `s` and the first
    /// `n` sections behind them.
    pub open spec fn is_parse_of(self, s: Seq<u8>, n: nat) -> bool
        recommends
            s.len() >= 8 + 11 * n,
    {
        &&& self.num_of_sections == s[0]
        &&& self.section_type == s[1]
        &&& self.time_offset == spec_be_u16(s.skip(2))
        &&& self.frame_structure == FrameStructure::spec_from(s[4])
        &&& self.cp_length == spec_be_u16(s.skip(5))
        &&& self.ud_comp_hdr == s[7]
        &&& self.sections@ == Seq::new(
            n,
            |k: int| _SectionType3Data::spec_parse(s.skip(8 + 11 * k)),
        )
    }

    fn parse_without_sections<'a>(data: &'a [u8]) -> (r: Result<
        (&'a [u8], FCPSectionType3),
        ErrorKind,
    >)
        ensures
            data@.len() < 8 ==> r is Err && r->Err_0 == ErrorKind::NotEnoughBytes,
            data@.len() >= 8 ==> r is Ok && r->Ok_0.0@ == data@.skip(8) && r->Ok_0.1.is_parse_of(
                data@,
                0,
            ),
    {
        let (i1, num_of_sections) = be_u8(data)?;
        let (i2, section_type) = be_u8(i1)?;
        let (i3, time_offset) = be_u16(i2)?;
        let (i4, byte_one) = be_u8(i3)?;
        let (i5, cp_length) = be_u16(i4)?;
        let (i6, ud_comp_hdr) = be_u8(i5)?;
        proof {
            assert(i2@ == data@.skip(2));
            assert(i3@ == data@.skip(4));
            assert(i4@ == data@.skip(5));
            assert(i5@ == data@.skip(7));
            assert(i6@ == data@.skip(8));
        }
        let r = FCPSectionType3 {
            num_of_sections,
            section_type,
            time_offset,
            frame_structure: FrameStructure::from(byte_one),
            cp_length,
            ud_comp_hdr,
            sections: Vec::new(),
        };
        assert(r.sections@ =~= Seq::new(
            0,
            |k: int| _SectionType3Data::spec_parse(data@.skip(8 + 11 * k)),
        ));
        Ok((i6, r))
    }

    /// Reads the body of a type 3 message, with as many sections as its
    /// first byte says; the result holds the input after it, then the body.
    pub fn parse<'a>(data: &'a [u8]) -> (r: Result<(&'a [u8], FCPSectionType3), ErrorKind>)
        ensures
            !Self::spec_fits(data@) ==> r is Err && r->Err_0 == ErrorKind::NotEnoughBytes,
            Self::spec_fits(data@) ==> r is Ok && r->Ok_0.0@ == data@.skip(Self::spec_len(data@))
                && r->Ok_0.1.is_parse_of(data@, data@[0] as nat),
    {
        let (remaining, mut section_type3) = FCPSectionType3::parse_without_sections(data)?;
        let num_of_sections = section_type3.num_of_sections as usize;
        let mut remain = remaining;
        let mut sections: Vec<_SectionType3Data> = Vec::new();
        let mut k: usize = 0;
        while k < num_of_sections
            invariant
                k <= num_of_sections,
                num_of_sections == data@[0],
                data@.len() >= 8 + 11 * k,
                remain@ == data@.skip(8 + 11 * k),
                sections@ == Seq::new(
                    k as nat,
                    |j: int| _SectionType3Data::spec_parse(data@.skip(8 + 11 * j)),
                ),
            decreases num_of_sections - k,
        {
            let (rest, section) = _SectionType3Data::parse(remain)?;
            proof {
                assert(rest@ == data@.skip(8 + 11 * (k + 1)));
                assert(sections@.push(section) =~= Seq::new(
                    (k + 1) as nat,
                    |j: int| _SectionType3Data::spec_parse(data@.skip(8 + 11 * j)),
                ));
            }
            sections.push(section);
            remain = rest;
            k = k + 1;
        }
        section_type3.sections = sections;
        Ok((remain, section_type3))
    }
}

/// The decoded application part of an eCPRI message.
#[derive(Clone, Debug)]
pub enum EcpriType {
    /// User-plane IQ data.
    IQData(Box<UPlaneIQData>),
    /// Control plane, section type 0.
    FCPType0(Box<FCPSectionType0>),
    /// Control plane, section type 1.
    FCPType1(Box<FCPSectionType1>),
    /// Control plane, section type 3.
    FCPType3(Box<FCPSectionType3>),
}

/// Whether the eCPRI marker stands in bytes 2 and 3 of `s`.
pub open spec fn spec_is_ecpri(s: Seq<u8>) -> bool
    recommends
        s.len() >= 4,
{
    spec_be_u16(s.skip(2)) == ECPRI_MAGIC_NUM
}

/// Why decoding the control-plane message `b` fails, or `None` when it
/// succeeds.  `b` starts with the timing header.
pub open spec fn spec_cplane_check(b: Seq<u8>) -> Option<ErrorKind> {
    if b.len() < 6 {
        Some(ErrorKind::NotEnoughBytes)
    } else if !TimingHeader::spec_filter_known(b) {
        Some(ErrorKind::UnsupportedFilterIndex)
    } else if b[5] == 0 {
        if b.len() < 12 + 8 * b[4] {
            Some(ErrorKind::NotEnoughBytes)
        } else {
            None
        }
    } else if b[5] == 1 {
        if b.len() < 8 + 8 * b[4] {
            Some(ErrorKind::NotEnoughBytes)
        } else {
            None
        }
    } else if b[5] == 3 {
        if !FCPSectionType3::spec_fits(b.skip(6)) {
            Some(ErrorKind::NotEnoughBytes)
        } else {
            None
        }
    } else {
        Some(ErrorKind::UnsupportedSectionType)
    }
}

/// Why decoding the application part `b` of a message of type
/// `message_type` fails, or `None` when it succeeds.
pub open spec fn spec_message_check(message_type: u8, b: Seq<u8>, mantissa: u16) -> Option<
    ErrorKind,
> {
    if message_type == 0 {
        UPlaneIQData::spec_check(b, mantissa)
    } else if message_type == 2 {
        spec_cplane_check(b)
    } else {
        Some(ErrorKind::UnsupportedMessageType)
    }
}

/// Why decoding the Ethernet payload `s` as eCPRI fails, or `None` when
/// it succeeds.
pub open spec fn spec_ecpri_check(s: Seq<u8>, mantissa: u16) -> Option<ErrorKind> {
    if s.len() < 4 {
        Some(ErrorKind::NotEnoughBytes)
    } else if !spec_is_ecpri(s) {
        Some(ErrorKind::NotEcpri)
    } else if s.len() < 12 {
        Some(ErrorKind::NotEnoughBytes)
    } else {
        spec_message_check(s[5], s.skip(12), mantissa)
    }
}

/// Whether `t` is the application part `b` of a message of type
/// `message_type`, decoded.
pub open spec fn is_message_of(t: EcpriType, message_type: u8, b: Seq<u8>, mantissa: u16) -> bool
    recommends
        spec_message_check(message_type, b, mantissa) is None,
{
    match t {
        EcpriType::IQData(u) => message_type == 0 && u.is_parse_of(b, mantissa),
        EcpriType::FCPType0(c) => message_type == 2 && b[5] == 0 && c.is_parse_of(
            b.skip(6),
            b[4] as nat,
        ),
        EcpriType::FCPType1(c) => message_type == 2 && b[5] == 1 && c.is_parse_of(
            b.skip(6),
            b[4] as nat,
        ),
        EcpriType::FCPType3(c) => message_type == 2 && b[5] == 3 && c.is_parse_of(
            b.skip(6),
            b[6] as nat,
        ),
    }
}

/// Whether a decoded message can go on to reassembly with
/// `mantissa`-bit samples: a user-plane message holds as many resource
/// blocks as it announces, and each of them can be expanded.
pub open spec fn is_well_formed(t: EcpriType, mantissa: u16) -> bool {
    match t {
        EcpriType::IQData(u) => u.spec_counts_match() && spec_blocks_well_formed(
            u.iq_prbu@,
            mantissa,
        ),
        _ => true,
    }
}

/// Reads the four bytes in front of the common header and says whether
/// the last two are the eCPRI marker; the first two are passed over.  The
/// result holds the input after the four bytes, then the answer.
pub fn is_ecpri_data<'a>(data: &'a [u8]) -> (r: Result<(&'a [u8], bool), ErrorKind>)
    ensures
        data@.len() < 4 ==> r is Err && r->Err_0 == ErrorKind::NotEnoughBytes,
        data@.len() >= 4 ==> r is Ok && r->Ok_0.0@ == data@.skip(4) && r->Ok_0.1 == spec_is_ecpri(
            data@,
        ),
{
    let (i1, _) = be_u16(data)?;
    let (i2, magic_num) = be_u16(i1)?;
    proof {
        assert(i2@ == data@.skip(4));
    }
    Ok((i2, magic_num == ECPRI_MAGIC_NUM))
}

/// Decodes the payload of an Ethernet frame as one eCPRI message with
/// `mantissa`-bit IQ samples: the marker, the common header, and the
/// user-plane or control-plane part that the message type calls for.
pub fn ecpri_parse(data: &[u8], mantissa: u16) -> (r: Result<(CommonHeader, EcpriType), ErrorKind>)
    ensures
        spec_ecpri_check(data@, mantissa) is Some ==> r is Err && Some(r->Err_0)
            == spec_ecpri_check(data@, mantissa),
        spec_ecpri_check(data@, mantissa) is None ==> r is Ok && r->Ok_0.0
            == CommonHeader::spec_parse(data@.skip(4)) && is_message_of(
            r->Ok_0.1,
            r->Ok_0.0.message_type,
            data@.skip(12),
            mantissa,
        ),
        r is Ok ==> is_well_formed(r->Ok_0.1, mantissa),
{
    let (remain, is_ecpri) = is_ecpri_data(data)?;
    if !is_ecpri {
        return Err(ErrorKind::NotEcpri);
    }
    let (remain, header) = CommonHeader::parse(remain)?;
    proof {
        assert(remain@ == data@.skip(12));
        assert(data@.skip(4)[1] == data@[5]);
    }
    if header.message_type == 0 {
        let (_, iq_data) = UPlaneIQData::parse(remain, mantissa)?;
        Ok((header, EcpriType::IQData(Box::new(iq_data))))
    } else if header.message_type == 2 {
        let (body, timing_header) = TimingHeader::parse(remain)?;
        let num_of_sections = timing_header.num_of_sections as usize;
        if timing_header.section_type == 0 {
            let (_, fcp_sect_type0) = FCPSectionType0::parse(body, num_of_sections)?;
            Ok((header, EcpriType::FCPType0(Box::new(fcp_sect_type0))))
        } else if timing_header.section_type == 1 {
            let (_, fcp_sect_type1) = FCPSectionType1::parse(body, num_of_sections)?;
            Ok((header, EcpriType::FCPType1(Box::new(fcp_sect_type1))))
        } else if timing_header.section_type == 3 {
            let (_, fcp_sect_type3) = FCPSectionType3::parse(body)?;
            proof {
                assert(body@[0] == remain@[6]);
            }
            Ok((header, EcpriType::FCPType3(Box::new(fcp_sect_type3))))
        } else {
            Err(ErrorKind::UnsupportedSectionType)
        }
    } else {
        Err(ErrorKind::UnsupportedMessageType)
    }
}

} // verus!
