//! Legacy PCAP container: the global header and the per-record framing.
//!
//! Both parsers are streaming parsers: when the input ends before the item
//! does, they answer [`PcapError::Incomplete`] so that the caller can fetch
//! more bytes and try again from the same position.

use vstd::prelude::*;
use crate::cursor::nom_streaming_be_i32;
use crate::cursor::nom_streaming_be_u16;
use crate::cursor::nom_streaming_be_u32;
use crate::cursor::nom_streaming_le_i32;
use crate::cursor::nom_streaming_le_u16;
use crate::cursor::nom_streaming_le_u32;
use crate::cursor::nom_streaming_take;
use crate::cursor::spec_as_i32;
use crate::cursor::spec_be_u16;
use crate::cursor::spec_be_u32;
use crate::cursor::spec_le_u16;
use crate::cursor::spec_le_u32;

verus! {

/// Magic number of a capture written in the reader's byte order.
pub const MAGIC_NATIVE: u32 = 0xa1b2_c3d4;

/// Magic number of a capture written in the opposite byte order.
pub const MAGIC_SWAPPED: u32 = 0xd4c3_b2a1;

/// Magic number of a capture with nanosecond timestamps.
pub const MAGIC_NATIVE_NANO: u32 = 0xa1b2_3c4d;

/// Magic number of a byte-swapped capture with nanosecond timestamps.
pub const MAGIC_SWAPPED_NANO: u32 = 0x4d3c_b2a1;

/// Length in bytes of the global header.
pub const PCAP_HEADER_LEN: usize = 24;

/// Length in bytes of the header in front of each record's data.
pub const PCAP_RECORD_HEADER_LEN: usize = 16;

/// Why reading a capture stopped.
#[derive(Clone, Copy, Debug, PartialEq, Eq, Structural)]
pub enum PcapError {
    /// The capture ended at a record boundary.
    Eof,
    /// The underlying stream failed.
    IoError,
    /// The input ends inside the item; more bytes are needed.
    Incomplete,
    /// The first bytes are not a magic number of a known container.
    UnrecognizedFormat,
    /// A record is malformed.
    InvalidCapture,
    /// The capture ended inside a record.
    TruncatedPacket,
}

/// Data link type of the captured frames.
#[derive(Clone, Copy, Debug, PartialEq, Eq, Structural)]
pub struct Linktype(pub i32);

/// PCAP global header.
#[derive(Clone, Copy, Debug)]
pub struct PcapHeader {
    /// File format and byte ordering, as read in little-endian order.
    pub magic_number: u32,
    /// Version major number (currently 2).
    pub version_major: u16,
    /// Version minor number (currently 4).
    pub version_minor: u16,
    /// Correction in seconds between UTC and the timestamps' time zone.
    pub thiszone: i32,
    /// Accuracy of the timestamps; in practice 0.
    pub sigfigs: u32,
    /// Maximum length of a captured packet, in octets.
    pub snaplen: u32,
    /// Data link type.
    pub network: Linktype,
}

/// One record of a legacy capture: its header and the captured bytes.
pub struct LegacyPcapBlock<'a> {
    pub ts_sec: u32,
    pub ts_usec: u32,
    pub caplen: u32,
    pub origlen: u32,
    pub data: &'a [u8],
}

/// Whether `magic`, read in little-endian order, opens a legacy capture.
pub open spec fn is_pcap_magic(magic: int) -> bool {
    magic == MAGIC_NATIVE || magic == MAGIC_SWAPPED || magic == MAGIC_NATIVE_NANO || magic
        == MAGIC_SWAPPED_NANO
}

/// Whether the fields after `magic` are stored in big-endian order.
pub open spec fn is_swapped_magic(magic: int) -> bool {
    magic == MAGIC_SWAPPED || magic == MAGIC_SWAPPED_NANO
}

/// A 16-bit field in the given byte order.
pub open spec fn spec_u16(s: Seq<u8>, big_endian: bool) -> int {
    if big_endian {
        spec_be_u16(s)
    } else {
        spec_le_u16(s)
    }
}

/// A 32-bit field in the given byte order.
pub open spec fn spec_u32(s: Seq<u8>, big_endian: bool) -> int {
    if big_endian {
        spec_be_u32(s)
    } else {
        spec_le_u32(s)
    }
}

/// The global header written in the first 24 bytes of `s`.
pub open spec fn spec_pcap_header(s: Seq<u8>) -> PcapHeader
    recommends
        s.len() >= 24,
{
    let magic = spec_le_u32(s);
    let big = is_swapped_magic(magic);
    PcapHeader {
        magic_number: magic as u32,
        version_major: spec_u16(s.skip(4), big) as u16,
        version_minor: spec_u16(s.skip(6), big) as u16,
        thiszone: spec_as_i32(spec_u32(s.skip(8), big)) as i32,
        sigfigs: spec_u32(s.skip(12), big) as u32,
        snaplen: spec_u32(s.skip(16), big) as u32,
        network: Linktype(spec_as_i32(spec_u32(s.skip(20), big)) as i32),
    }
}

impl PcapHeader {
    /// The header of an empty Ethernet capture in native byte order.
    pub fn new() -> (r: PcapHeader)
        ensures
            r == (PcapHeader {
                magic_number: MAGIC_NATIVE,
                version_major: 2,
                version_minor: 4,
                thiszone: 0,
                sigfigs: 0,
                snaplen: 0,
                network: Linktype(1),
            }),
    {
        PcapHeader {
            magic_number: MAGIC_NATIVE,
            version_major: 2,
            version_minor: 4,
            thiszone: 0,
            sigfigs: 0,
            snaplen: 0,
            network: Linktype(1),
        }
    }

    /// Length of the header in the file.
    pub fn size(&self) -> (r: usize)
        ensures
            r == PCAP_HEADER_LEN,
    {
        PCAP_HEADER_LEN
    }

    /// Whether the capture was written in the opposite byte order.
    pub fn is_bigendian(&self) -> (r: bool)
        ensures
            r == (self.magic_number == MAGIC_SWAPPED),
    {
        self.magic_number == MAGIC_SWAPPED
    }
}

impl Default for PcapHeader {
    fn default() -> (r: PcapHeader)
        ensures
            r == (PcapHeader {
                magic_number: MAGIC_NATIVE,
                version_major: 2,
                version_minor: 4,
                thiszone: 0,
                sigfigs: 0,
                snaplen: 0,
                network: Linktype(1),
            }),
    {
        PcapHeader::new()
    }
}

/// Reads a 16-bit field in the given byte order.
fn read_u16<'a>(i: &'a [u8], big_endian: bool) -> (r: Option<(&'a [u8], u16)>)
    ensures
        i@.len() < 2 ==> r is None,
        i@.len() >= 2 ==> r is Some && r->Some_0.0@ == i@.skip(2) && r->Some_0.1 == spec_u16(
            i@,
            big_endian,
        ),
{
    if big_endian {
        nom_streaming_be_u16(i)
    } else {
        nom_streaming_le_u16(i)
    }
}

/// Reads a 32-bit field in the given byte order.
fn read_u32<'a>(i: &'a [u8], big_endian: bool) -> (r: Option<(&'a [u8], u32)>)
    ensures
        i@.len() < 4 ==> r is None,
        i@.len() >= 4 ==> r is Some && r->Some_0.0@ == i@.skip(4) && r->Some_0.1 == spec_u32(
            i@,
            big_endian,
        ),
{
    if big_endian {
        nom_streaming_be_u32(i)
    } else {
        nom_streaming_le_u32(i)
    }
}

/// Reads a signed 32-bit field in the given byte order.
fn read_i32<'a>(i: &'a [u8], big_endian: bool) -> (r: Option<(&'a [u8], i32)>)
    ensures
        i@.len() < 4 ==> r is None,
        i@.len() >= 4 ==> r is Some && r->Some_0.0@ == i@.skip(4) && r->Some_0.1 == spec_as_i32(
            spec_u32(i@, big_endian),
        ),
{
    if big_endian {
        nom_streaming_be_i32(i)
    } else {
        nom_streaming_le_i32(i)
    }
}

/// Reads the six fields that follow the magic number.
fn parse_header_fields<'a>(i: &'a [u8], magic: u32, big_endian: bool) -> (r: Result<
    (&'a [u8], PcapHeader),
    PcapError,
>)
    ensures
        i@.len() < 20 ==> r is Err && r->Err_0 == PcapError::Incomplete,
        i@.len() >= 20 ==> r is Ok && r->Ok_0.0@ == i@.skip(20) && r->Ok_0.1 == (PcapHeader {
            magic_number: magic,
            version_major: spec_u16(i@, big_endian) as u16,
            version_minor: spec_u16(i@.skip(2), big_endian) as u16,
            thiszone: spec_as_i32(spec_u32(i@.skip(4), big_endian)) as i32,
            sigfigs: spec_u32(i@.skip(8), big_endian) as u32,
            snaplen: spec_u32(i@.skip(12), big_endian) as u32,
            network: Linktype(spec_as_i32(spec_u32(i@.skip(16), big_endian)) as i32),
        }),
{
    let (i1, major) = match read_u16(i, big_endian) {
        Some(x) => x,
        None => return Err(PcapError::Incomplete),
    };
    let (i2, minor) = match read_u16(i1, big_endian) {
        Some(x) => x,
        None => return Err(PcapError::Incomplete),
    };
    let (i3, zone) = match read_i32(i2, big_endian) {
        Some(x) => x,
        None => return Err(PcapError::Incomplete),
    };
    let (i4, sigfigs) = match read_u32(i3, big_endian) {
        Some(x) => x,
        None => return Err(PcapError::Incomplete),
    };
    let (i5, snaplen) = match read_u32(i4, big_endian) {
        Some(x) => x,
        None => return Err(PcapError::Incomplete),
    };
    let (i6, network) = match read_i32(i5, big_endian) {
        Some(x) => x,
        None => return Err(PcapError::Incomplete),
    };
    proof {
        assert(i1@ == i@.skip(2));
        assert(i2@ == i@.skip(4));
        assert(i3@ == i@.skip(8));
        assert(i4@ == i@.skip(12));
        assert(i5@ == i@.skip(16));
        assert(i6@ == i@.skip(20));
    }
    Ok(
        (
            i6,
            PcapHeader {
                magic_number: magic,
                version_major: major,
                version_minor: minor,
                thiszone: zone,
                sigfigs,
                snaplen,
                network: Linktype(network),
            },
        ),
    )
}

/// Reads the PCAP global header.
///
/// The magic number is read in little-endian order and kept as read; it
/// decides the byte order of the six fields behind it.  The result holds
/// the input after the header, then the header.
pub fn parse_pcap_header<'a>(i: &'a [u8]) -> (r: Result<(&'a [u8], PcapHeader), PcapError>)
    ensures
        i@.len() < 4 ==> r is Err && r->Err_0 == PcapError::Incomplete,
        i@.len() >= 4 && !is_pcap_magic(spec_le_u32(i@)) ==> r is Err && r->Err_0
            == PcapError::UnrecognizedFormat,
        4 <= i@.len() < 24 && is_pcap_magic(spec_le_u32(i@)) ==> r is Err && r->Err_0
            == PcapError::Incomplete,
        i@.len() >= 24 && is_pcap_magic(spec_le_u32(i@)) ==> r is Ok && r->Ok_0.0@ == i@.skip(24)
            && r->Ok_0.1 == spec_pcap_header(i@),
{
    let (rest, magic) = match nom_streaming_le_u32(i) {
        Some(x) => x,
        None => return Err(PcapError::Incomplete),
    };
    proof {
        if i@.len() >= 24 {
            assert(rest@.skip(2) == i@.skip(6));
            assert(rest@.skip(4) == i@.skip(8));
            assert(rest@.skip(8) == i@.skip(12));
            assert(rest@.skip(12) == i@.skip(16));
            assert(rest@.skip(16) == i@.skip(20));
            assert(rest@.skip(20) == i@.skip(24));
        }
    }
    if magic == MAGIC_NATIVE {
        parse_header_fields(rest, MAGIC_NATIVE, false)
    } else if magic == MAGIC_SWAPPED {
        parse_header_fields(rest, MAGIC_SWAPPED, true)
    } else if magic == MAGIC_NATIVE_NANO {
        parse_header_fields(rest, MAGIC_NATIVE_NANO, false)
    } else if magic == MAGIC_SWAPPED_NANO {
        parse_header_fields(rest, MAGIC_SWAPPED_NANO, true)
    } else {
        Err(PcapError::UnrecognizedFormat)
    }
}

/// Total length of the record that starts `s`: its header and its data.
pub open spec fn spec_frame_len(s: Seq<u8>, big_endian: bool) -> int
    recommends
        s.len() >= 16,
{
    16 + spec_u32(s.skip(8), big_endian)
}

/// Whether `s` holds the whole record that starts it.
pub open spec fn holds_frame(s: Seq<u8>, big_endian: bool) -> bool {
    s.len() >= 16 && s.len() >= spec_frame_len(s, big_endian)
}

/// Whether `b` is the record that starts `s`.
pub open spec fn is_frame_of(b: LegacyPcapBlock, s: Seq<u8>, big_endian: bool) -> bool
    recommends
        holds_frame(s, big_endian),
{
    &&& b.ts_sec == spec_u32(s, big_endian)
    &&& b.ts_usec == spec_u32(s.skip(4), big_endian)
    &&& b.caplen == spec_u32(s.skip(8), big_endian)
    &&& b.origlen == spec_u32(s.skip(12), big_endian)
    &&& b.data@ == s.subrange(16, spec_frame_len(s, big_endian))
}

fn inner_parse_pcap_frame<'a>(i: &'a [u8], big_endian: bool) -> (r: Result<
    (&'a [u8], LegacyPcapBlock<'a>),
    PcapError,
>)
    ensures
        !holds_frame(i@, big_endian) ==> r is Err && r->Err_0 == PcapError::Incomplete,
        holds_frame(i@, big_endian) ==> r is Ok && r->Ok_0.0@ == i@.skip(
            spec_frame_len(i@, big_endian),
        ) && is_frame_of(r->Ok_0.1, i@, big_endian),
{
    let (i1, ts_sec) = match read_u32(i, big_endian) {
        Some(x) => x,
        None => return Err(PcapError::Incomplete),
    };
    let (i2, ts_usec) = match read_u32(i1, big_endian) {
        Some(x) => x,
        None => return Err(PcapError::Incomplete),
    };
    let (i3, caplen) = match read_u32(i2, big_endian) {
        Some(x) => x,
        None => return Err(PcapError::Incomplete),
    };
    let (i4, origlen) = match read_u32(i3, big_endian) {
        Some(x) => x,
        None => return Err(PcapError::Incomplete),
    };
    proof {
        assert(i1@ == i@.skip(4));
        assert(i2@ == i@.skip(8));
        assert(i3@ == i@.skip(12));
        assert(i4@ == i@.skip(16));
    }
    let (i5, data) = match nom_streaming_take(i4, caplen as usize) {
        Some(x) => x,
        None => return Err(PcapError::Incomplete),
    };
    proof {
        assert(i5@ == i@.skip(16 + caplen));
        assert(data@ == i@.subrange(16, 16 + caplen));
    }
    Ok((i5, LegacyPcapBlock { ts_sec, ts_usec, caplen, origlen, data }))
}

/// Reads one record of a capture in native byte order: the 16-byte record
/// header and the `caplen` bytes of data behind it.  The result holds the
/// input after the record, then the record.
pub fn parse_pcap_frame<'a>(i: &'a [u8]) -> (r: Result<
    (&'a [u8], LegacyPcapBlock<'a>),
    PcapError,
>)
    ensures
        !holds_frame(i@, false) ==> r is Err && r->Err_0 == PcapError::Incomplete,
        holds_frame(i@, false) ==> r is Ok && r->Ok_0.0@ == i@.skip(spec_frame_len(i@, false))
            && is_frame_of(r->Ok_0.1, i@, false),
{
    inner_parse_pcap_frame(i, false)
}

/// Reads one record of a byte-swapped capture.
pub fn parse_pcap_frame_be<'a>(i: &'a [u8]) -> (r: Result<
    (&'a [u8], LegacyPcapBlock<'a>),
    PcapError,
>)
    ensures
        !holds_frame(i@, true) ==> r is Err && r->Err_0 == PcapError::Incomplete,
        holds_frame(i@, true) ==> r is Ok && r->Ok_0.0@ == i@.skip(spec_frame_len(i@, true))
            && is_frame_of(r->Ok_0.1, i@, true),
{
    inner_parse_pcap_frame(i, true)
}

} // verus!
