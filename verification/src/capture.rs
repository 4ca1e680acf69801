//! Container adapter: which capture format a file starts with, and what
//! the next block of a legacy capture is.
//!
//! The adapter holds no bytes.  Its caller keeps the buffer, hands the
//! unread part of it to [`LegacyPcapReader::next`], drops as many bytes as
//! the answer says were used, and fetches more when the answer is
//! [`PcapError::Incomplete`].

use vstd::prelude::*;
use crate::cursor::nom_streaming_be_u32;
use crate::cursor::nom_streaming_le_u32;
use crate::cursor::spec_be_u32;
use crate::cursor::spec_le_u32;
use crate::pcap::holds_frame;
use crate::pcap::is_frame_of;
use crate::pcap::is_pcap_magic;
use crate::pcap::parse_pcap_frame;
use crate::pcap::parse_pcap_frame_be;
use crate::pcap::parse_pcap_header;
use crate::pcap::spec_frame_len;
use crate::pcap::spec_pcap_header;
use crate::pcap::LegacyPcapBlock;
use crate::pcap::Linktype;
use crate::pcap::PcapError;
use crate::pcap::PcapHeader;
use crate::pcap::MAGIC_SWAPPED;
use crate::pcap::PCAP_HEADER_LEN;

verus! {

/// Block type of a PCAPNG section header; it reads the same in both byte
/// orders.
pub const PCAPNG_SECTION_HEADER: u32 = 0x0A0D_0D0A;

/// Byte-order magic of a PCAPNG section header.
pub const PCAPNG_BYTE_ORDER_MAGIC: u32 = 0x1A2B_3C4D;

/// Generic access to the properties of a capture.
pub trait Capture {
    /// Data link type of the captured frames.
    fn get_datalink(&self) -> Linktype;

    /// Maximum length of a captured packet.
    fn get_snaplen(&self) -> u32;
}

/// The container formats that a capture can start with.
#[derive(Clone, Copy, Debug)]
pub enum Reader {
    /// A PCAPNG capture; this library does not read its blocks.
    PcapNG,
    /// A legacy PCAP capture and the reader for its blocks.
    Legacy(LegacyPcapReader),
}

/// One block of a legacy capture.
pub enum PcapBlockOwned<'a> {
    /// The global header.
    LegacyHeader(PcapHeader),
    /// One captured record.
    Legacy(LegacyPcapBlock<'a>),
}

/// Reading position in a legacy capture: the global header, and whether
/// it has been handed out yet.
#[derive(Clone, Copy, Debug)]
pub struct LegacyPcapReader {
    pub header: PcapHeader,
    pub header_sent: bool,
}

/// Whether `s` starts with a PCAPNG section header: the block type, four
/// bytes of length, then the byte-order magic in either byte order.
pub open spec fn is_pcapng_start(s: Seq<u8>) -> bool {
    &&& s.len() >= 12
    &&& spec_le_u32(s) == PCAPNG_SECTION_HEADER
    &&& (spec_le_u32(s.skip(8)) == PCAPNG_BYTE_ORDER_MAGIC || spec_be_u32(s.skip(8))
        == PCAPNG_BYTE_ORDER_MAGIC)
}

/// Whether `s` starts with a complete legacy PCAP global header.
pub open spec fn is_pcap_start(s: Seq<u8>) -> bool {
    s.len() >= 24 && is_pcap_magic(spec_le_u32(s))
}

/// Says whether `data` starts with a PCAPNG section header.
fn starts_pcapng(data: &[u8]) -> (r: bool)
    ensures
        r == is_pcapng_start(data@),
{
    let (i1, block_type) = match nom_streaming_le_u32(data) {
        Some(x) => x,
        None => return false,
    };
    let (i2, _) = match nom_streaming_le_u32(i1) {
        Some(x) => x,
        None => return false,
    };
    proof {
        assert(i2@ == data@.skip(8));
    }
    let magic_le = match nom_streaming_le_u32(i2) {
        Some((_, m)) => m,
        None => return false,
    };
    let magic_be = match nom_streaming_be_u32(i2) {
        Some((_, m)) => m,
        None => return false,
    };
    block_type == PCAPNG_SECTION_HEADER && (magic_le == PCAPNG_BYTE_ORDER_MAGIC || magic_be
        == PCAPNG_BYTE_ORDER_MAGIC)
}

/// Probes the first bytes of a capture, for PCAPNG first and for legacy
/// PCAP second, and makes the reader for it.  Nothing is consumed: the
/// first block that the reader hands out is the global header.
pub fn create_reader(data: &[u8]) -> (r: Result<Reader, PcapError>)
    ensures
        is_pcapng_start(data@) ==> r is Ok && r->Ok_0 is PcapNG,
        !is_pcapng_start(data@) && is_pcap_start(data@) ==> r is Ok && r->Ok_0 is Legacy
            && r->Ok_0->Legacy_0.header == spec_pcap_header(data@)
            && !r->Ok_0->Legacy_0.header_sent,
        !is_pcapng_start(data@) && !is_pcap_start(data@) ==> r is Err && r->Err_0
            == PcapError::UnrecognizedFormat,
{
    if starts_pcapng(data) {
        Ok(Reader::PcapNG)
    } else {
        match parse_pcap_header(data) {
            Ok((_, header)) => Ok(Reader::Legacy(LegacyPcapReader { header, header_sent: false })),
            Err(_) => Err(PcapError::UnrecognizedFormat),
        }
    }
}

impl LegacyPcapReader {
    /// Byte order of the records.
    pub open spec fn spec_big_endian(self) -> bool {
        self.header.magic_number == MAGIC_SWAPPED
    }

    /// Makes the reader for the capture whose first bytes are `data`.
    pub fn from_buffer(data: &[u8]) -> (r: Result<LegacyPcapReader, PcapError>)
        ensures
            data@.len() < 4 ==> r is Err && r->Err_0 == PcapError::Incomplete,
            data@.len() >= 4 && !is_pcap_magic(spec_le_u32(data@)) ==> r is Err && r->Err_0
                == PcapError::UnrecognizedFormat,
            4 <= data@.len() < 24 && is_pcap_magic(spec_le_u32(data@)) ==> r is Err && r->Err_0
                == PcapError::Incomplete,
            is_pcap_start(data@) ==> r is Ok && r->Ok_0.header == spec_pcap_header(data@)
                && !r->Ok_0.header_sent,
    {
        match parse_pcap_header(data) {
            Ok((_, header)) => Ok(LegacyPcapReader { header, header_sent: false }),
            Err(e) => Err(e),
        }
    }

    /// The next block of the capture.  `data` is the part of the capture
    /// that has been fetched and not yet consumed; `exhausted` says that
    /// the stream has no byte left behind it.  The result holds the
    /// number of bytes that the block takes, then the block.
    ///
    /// The first block is the global header.  After it, each call reads
    /// one record.  Without a whole record in `data`, the answer is
    /// `Incomplete` while the stream may hold more, `Eof` when the capture
    /// ended at a record boundary, and `TruncatedPacket` when it ended
    /// inside a record.
    pub fn next<'a>(&mut self, data: &'a [u8], exhausted: bool) -> (r: Result<
        (usize, PcapBlockOwned<'a>),
        PcapError,
    >)
        ensures
            final(self).header == old(self).header,
            final(self).header_sent,
            !old(self).header_sent ==> r is Ok && r->Ok_0.0 == PCAP_HEADER_LEN
                && r->Ok_0.1 is LegacyHeader && r->Ok_0.1->LegacyHeader_0 == old(self).header,
            old(self).header_sent && holds_frame(data@, old(self).spec_big_endian()) ==> r is Ok
                && r->Ok_0.0 == spec_frame_len(data@, old(self).spec_big_endian()) && r->Ok_0.1 is Legacy
                && is_frame_of(r->Ok_0.1->Legacy_0, data@, old(self).spec_big_endian()),
            old(self).header_sent && !holds_frame(data@, old(self).spec_big_endian()) ==> r is Err
                && r->Err_0 == (if !exhausted {
                PcapError::Incomplete
            } else if data@.len() == 0 {
                PcapError::Eof
            } else {
                PcapError::TruncatedPacket
            }),
    {
        if !self.header_sent {
            self.header_sent = true;
            return Ok((self.header.size(), PcapBlockOwned::LegacyHeader(self.header)));
        }
        if data.len() == 0 && exhausted {
            return Err(PcapError::Eof);
        }
        let parsed = if self.header.is_bigendian() {
            parse_pcap_frame_be(data)
        } else {
            parse_pcap_frame(data)
        };
        match parsed {
            Ok((rem, b)) => {
                let offset = data.len() - rem.len();
                Ok((offset, PcapBlockOwned::Legacy(b)))
            },
            Err(_) => {
                if exhausted {
                    Err(PcapError::TruncatedPacket)
                } else {
                    Err(PcapError::Incomplete)
                }
            },
        }
    }
}

impl Capture for LegacyPcapReader {
    fn get_datalink(&self) -> (r: Linktype)
        ensures
            r == self.header.network,
    {
        self.header.network
    }

    fn get_snaplen(&self) -> (r: u32)
        ensures
            r == self.header.snaplen,
    {
        self.header.snaplen
    }
}

} // verus!
