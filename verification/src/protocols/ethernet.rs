//! Ethernet framing: the fourteen-byte header and the classification of
//! the payload by EtherType.

use vstd::prelude::*;
use vstd::std_specs::convert::FromSpecImpl;
use crate::cursor::be_u16;
use crate::cursor::spec_be_u16;
use crate::cursor::take;
use crate::protocols::types::ErrorKind;

verus! {

/// EtherType of BIP traffic.
pub const ETHER_TYPE_BIP: u16 = 0x8951;

/// EtherType under which this system finds eCPRI traffic.
pub const ETHER_TYPE_ECPRI: u16 = 0x8100;

/// EtherType of PTP traffic.
pub const ETHER_TYPE_PTP: u16 = 0x88F7;

/// What an Ethernet frame carries, by its EtherType.
#[derive(Clone, Copy, Debug, PartialEq, Eq, Structural)]
pub enum PacketDataType {
    /// EtherType `0x8951`.
    BIP,
    /// EtherType `0x8100`.
    ECPRI,
    /// EtherType `0x88F7`.
    PTP,
    /// Any other EtherType.
    UNKNOWN,
}

impl PacketDataType {
    /// The payload kind that EtherType `item` announces.
    pub open spec fn spec_from(item: u16) -> PacketDataType {
        if item == ETHER_TYPE_BIP {
            PacketDataType::BIP
        } else if item == ETHER_TYPE_ECPRI {
            PacketDataType::ECPRI
        } else if item == ETHER_TYPE_PTP {
            PacketDataType::PTP
        } else {
            PacketDataType::UNKNOWN
        }
    }

    /// The name of the payload kind.
    pub fn value(&self) -> (r: &'static str)
        ensures
            *self == PacketDataType::BIP ==> r@ == "BIP"@,
            *self == PacketDataType::ECPRI ==> r@ == "eCPRI"@,
            *self == PacketDataType::PTP ==> r@ == "PTPv2"@,
            *self == PacketDataType::UNKNOWN ==> r@ == "Unknown"@,
    {
        match *self {
            PacketDataType::BIP => "BIP",
            PacketDataType::ECPRI => "eCPRI",
            PacketDataType::PTP => "PTPv2",
            PacketDataType::UNKNOWN => "Unknown",
        }
    }
}

impl From<u16> for PacketDataType {
    fn from(item: u16) -> (r: PacketDataType) {
        if item == ETHER_TYPE_BIP {
            PacketDataType::BIP
        } else if item == ETHER_TYPE_ECPRI {
            PacketDataType::ECPRI
        } else if item == ETHER_TYPE_PTP {
            PacketDataType::PTP
        } else {
            PacketDataType::UNKNOWN
        }
    }
}

impl FromSpecImpl<u16> for PacketDataType {
    open spec fn obeys_from_spec() -> bool {
        true
    }

    open spec fn from_spec(item: u16) -> PacketDataType {
        PacketDataType::spec_from(item)
    }
}

/// A MAC address.
#[derive(Clone, Copy, Debug, PartialEq, Eq)]
pub struct MacAddr(pub [u8; 6]);

impl MacAddr {
    /// The address made of the first six bytes of `data`, which has to
    /// hold that many.
    pub fn new(data: &[u8]) -> (r: MacAddr)
        requires
            data@.len() >= 6,
        ensures
            r.0@ == data@.take(6),
    {
        let addr = MacAddr([data[0], data[1], data[2], data[3], data[4], data[5]]);
        assert(addr.0@ =~= data@.take(6));
        addr
    }

    /// Reads a MAC address; the result holds the input after it, then the
    /// address.
    pub fn parse<'a>(i: &'a [u8]) -> (r: Result<(&'a [u8], MacAddr), ErrorKind>)
        ensures
            i@.len() < 6 ==> r is Err && r->Err_0 == ErrorKind::NotEnoughBytes,
            i@.len() >= 6 ==> r is Ok && r->Ok_0.0@ == i@.skip(6) && r->Ok_0.1.0@ == i@.take(6),
    {
        let (rest, bytes) = take(i, 6)?;
        let addr = MacAddr::new(bytes);
        assert(bytes@.take(6) == bytes@);
        Ok((rest, addr))
    }
}

/// The Layer-2 header of a captured frame.
#[derive(Clone, Copy, Debug)]
pub struct Ethernet {
    pub dst_mac_addr: MacAddr,
    pub src_mac_addr: MacAddr,
    pub ether_type: u16,
}

impl Ethernet {
    /// Whether `self` is the header written in the first fourteen bytes
    /// of `s`.
    pub open spec fn is_parse_of(self, s: Seq<u8>) -> bool
        recommends
            s.len() >= 14,
    {
        &&& self.dst_mac_addr.0@ == s.subrange(0, 6)
        &&& self.src_mac_addr.0@ == s.subrange(6, 12)
        &&& self.ether_type == spec_be_u16(s.skip(12))
    }

    /// Reads the Ethernet header; the result holds the payload, then the
    /// header.
    pub fn parse<'a>(i: &'a [u8]) -> (r: Result<(&'a [u8], Ethernet), ErrorKind>)
        ensures
            i@.len() < 14 ==> r is Err && r->Err_0 == ErrorKind::NotEnoughBytes,
            i@.len() >= 14 ==> r is Ok && r->Ok_0.0@ == i@.skip(14) && r->Ok_0.1.is_parse_of(i@),
    {
        let (i1, dst_mac_addr) = MacAddr::parse(i)?;
        let (i2, src_mac_addr) = MacAddr::parse(i1)?;
        let (i3, ether_type) = be_u16(i2)?;
        proof {
            assert(i2@ == i@.skip(12));
            assert(i3@ == i@.skip(14));
            assert(i@.take(6) == i@.subrange(0, 6));
            assert(i1@.take(6) == i@.subrange(6, 12));
        }
        Ok((i3, Ethernet { dst_mac_addr, src_mac_addr, ether_type }))
    }
}

} // verus!
