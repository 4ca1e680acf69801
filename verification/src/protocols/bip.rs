//! BIP header: eight bytes in front of a BIP payload.
//!
//! ```text
//! | type (4 bit) | stream id (12 bit) | payload size (16 bit) | timestamp / pointer (32 bit) |
//! ```
//!
//! The highest bit of the type is 0 for a BIP message; the other three
//! name the sub-type.  The stream id tells streams of one type apart.

use vstd::prelude::*;
use crate::cursor::nom_streaming_be_u16;
use crate::cursor::nom_streaming_be_u32;
use crate::cursor::spec_be_u16;
use crate::cursor::spec_be_u32;
use crate::protocols::types::ErrorKind;

verus! {

/// EtherType of BIP traffic.
pub const BIP_MAGIC_NUMBER: u16 = 0x8951;

/// The header of a BIP message.
#[derive(Clone, Copy, Debug, PartialEq, Eq, Structural)]
pub struct BIPHeader {
    /// Message type; four bits.
    pub msg_type: u8,
    /// Stream identifier; twelve bits.
    pub stream_id: u16,
    /// Size of the upper-layer message.
    pub payload_size: u16,
    /// Timestamp or pointer, as the upper layer reads it.
    pub timestamp: u32,
}

/// Sub-types of a BIP message.
#[allow(non_camel_case_types)]
#[derive(Clone, Copy, Debug, PartialEq, Eq, Structural)]
pub enum BIPType {
    ExtendedHeader,
    Streaming_LTE_IQ,
    EventChaining,
    BICMP,
    RMWA_22_bit,
    RMWA_12_bit,
    Reserved,
}

/// Reasons to turn a BIP message down.
#[derive(Clone, Debug)]
pub enum ParseBIPError {
    NotBIPType(String),
    NotSupportType(String),
    UnknownError(String),
}

impl BIPHeader {
    /// The header written in the first eight bytes of `s`.
    pub open spec fn spec_parse(s: Seq<u8>) -> BIPHeader
        recommends
            s.len() >= 8,
    {
        BIPHeader {
            msg_type: (spec_be_u16(s) / 0x1000) as u8,
            stream_id: (spec_be_u16(s) % 0x1000) as u16,
            payload_size: spec_be_u16(s.skip(2)) as u16,
            timestamp: spec_be_u32(s.skip(4)) as u32,
        }
    }

    /// Reads the BIP header; the result holds the input after it, then
    /// the header.
    pub fn parse<'a>(i: &'a [u8]) -> (r: Result<(&'a [u8], BIPHeader), ErrorKind>)
        ensures
            i@.len() < 8 ==> r is Err && r->Err_0 == ErrorKind::NotEnoughBytes,
            i@.len() >= 8 ==> r is Ok && r->Ok_0.0@ == i@.skip(8) && r->Ok_0.1 == Self::spec_parse(
                i@,
            ),
    {
        let (i1, msg_type) = match nom_streaming_be_u16(i) {
            Some(x) => x,
            None => return Err(ErrorKind::NotEnoughBytes),
        };
        let (i2, payload_size) = match nom_streaming_be_u16(i1) {
            Some(x) => x,
            None => return Err(ErrorKind::NotEnoughBytes),
        };
        let (i3, timestamp) = match nom_streaming_be_u32(i2) {
            Some(x) => x,
            None => return Err(ErrorKind::NotEnoughBytes),
        };
        proof {
            assert(i2@ == i@.skip(4));
            assert(i3@ == i@.skip(8));
            assert(msg_type & 0xFFFu16 == msg_type % 0x1000 && msg_type >> 12 == msg_type / 0x1000
                && msg_type >> 12 < 16) by (bit_vector);
        }
        let stream_id = msg_type & 0xFFFu16;
        let msg_type = (msg_type >> 12) as u8;
        Ok((i3, BIPHeader { msg_type, stream_id, payload_size, timestamp }))
    }

    /// Checks that `i` starts with the BIP EtherType; the result holds the
    /// input after it, then the EtherType.
    pub fn is_bip_packet<'a>(i: &'a [u8]) -> (r: Result<(&'a [u8], u16), ErrorKind>)
        ensures
            i@.len() < 2 ==> r is Err && r->Err_0 == ErrorKind::NotEnoughBytes,
            i@.len() >= 2 && spec_be_u16(i@) != BIP_MAGIC_NUMBER ==> r is Err && r->Err_0
                == ErrorKind::NotBip,
            i@.len() >= 2 && spec_be_u16(i@) == BIP_MAGIC_NUMBER ==> r is Ok && r->Ok_0.0@
                == i@.skip(2) && r->Ok_0.1 == BIP_MAGIC_NUMBER,
    {
        let (remain_data, data_type) = match nom_streaming_be_u16(i) {
            Some(x) => x,
            None => return Err(ErrorKind::NotEnoughBytes),
        };
        if data_type != BIP_MAGIC_NUMBER {
            Err(ErrorKind::NotBip)
        } else {
            Ok((remain_data, data_type))
        }
    }
}

} // verus!
