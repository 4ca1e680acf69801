//! The ingestion pipeline: what to do with each answer of the capture
//! reader, with each captured frame, and which reassembled entries to
//! write out at the end.
//!
//! The driver never touches a file.  Its caller runs the loop: it asks the
//! reader for the next block, hands the answer to [`Driver::step`], and
//! does what the returned [`Action`] says.

use vstd::prelude::*;
use crate::capture::PcapBlockOwned;
use crate::pcap::PcapError;
use crate::protocols::bip::BIPHeader;
use crate::protocols::ecpri::ecpri_parse;
use crate::protocols::ecpri::is_message_of;
use crate::protocols::ecpri::spec_ecpri_check;
use crate::protocols::ecpri::CommonHeader;
use crate::protocols::ethernet::Ethernet;
use crate::protocols::ethernet::PacketDataType;
use crate::protocols::types::ErrorKind;
use crate::cursor::spec_be_u16;
use crate::utility::ecpri_analysis::spec_expandable;
use crate::utility::ecpri_analysis::spec_record_counts_match;
use crate::utility::ecpri_analysis::EcpriData;
use crate::utility::ecpri_analysis::EcpriDataVec;
use crate::utility::ecpri_analysis::Frame;
use crate::utility::ecpri_analysis::FrameKey;

verus! {

/// Default width in bits of a compressed IQ value.
pub const MANTISSA: u16 = 9;

/// Default ceiling on the number of records that are processed.
pub const MAX_PACKET_COUNT: u32 = 10000;

/// What became of one captured frame.
#[derive(Clone, Copy, Debug, PartialEq, Eq, Structural)]
pub enum RecordOutcome {
    /// A BIP frame; its header was decoded and nothing was stored.
    Bip(BIPHeader),
    /// A PTP frame; it was passed over.
    Ptp,
    /// A frame of another EtherType; it was passed over.
    Unknown(u16),
    /// An eCPRI message; it was decoded and stored.
    Ecpri,
    /// The frame could not be decoded and was passed over.  The flag says
    /// whether the failure is to be reported: an unsupported message type
    /// and an unsupported section type are reported once each, any other
    /// failure every time.
    Skipped(ErrorKind, bool),
}

/// What the caller has to do after one answer of the reader.
#[derive(Clone, Copy, Debug, PartialEq, Eq, Structural)]
pub enum Action {
    /// Drop this many bytes from the buffer and ask for the next block.
    Consume(usize),
    /// Drop this many bytes from the buffer and stop reading: the packet
    /// budget is used up.
    ConsumeAndStop(usize),
    /// Fetch more bytes and ask again.
    Refill,
    /// Stop reading: the capture has ended, at a record boundary or inside
    /// a record that is dropped.
    Stop,
    /// Give up: the capture cannot be read.
    Abort(PcapError),
}

/// State of the ingestion: the configuration, the counters and the
/// messages decoded so far.
#[derive(Debug)]
pub struct Driver {
    mantissa: u16,
    max_packet_count: u32,
    num_blocks: u32,
    skipped: u32,
    logged_message_type: bool,
    logged_section_type: bool,
    ecpri_data: EcpriDataVec,
}

/// Whether a failure of kind `kind` is to be reported, given what has been
/// reported before.
pub open spec fn spec_reports(
    kind: ErrorKind,
    logged_message_type: bool,
    logged_section_type: bool,
) -> bool {
    match kind {
        ErrorKind::UnsupportedMessageType => !logged_message_type,
        ErrorKind::UnsupportedSectionType => !logged_section_type,
        _ => true,
    }
}

/// What becomes of the captured frame `s`, apart from the stored message.
pub open spec fn spec_outcome(
    s: Seq<u8>,
    mantissa: u16,
    logged_message_type: bool,
    logged_section_type: bool,
) -> RecordOutcome {
    if s.len() < 14 {
        RecordOutcome::Skipped(ErrorKind::NotEnoughBytes, true)
    } else {
        let ether_type = spec_be_u16(s.skip(12)) as u16;
        let payload = s.skip(14);
        match PacketDataType::spec_from(ether_type) {
            PacketDataType::BIP => if payload.len() < 8 {
                RecordOutcome::Skipped(ErrorKind::NotEnoughBytes, true)
            } else {
                RecordOutcome::Bip(BIPHeader::spec_parse(payload))
            },
            PacketDataType::PTP => RecordOutcome::Ptp,
            PacketDataType::UNKNOWN => RecordOutcome::Unknown(ether_type),
            PacketDataType::ECPRI => match spec_ecpri_check(payload, mantissa) {
                Some(kind) => RecordOutcome::Skipped(
                    kind,
                    spec_reports(kind, logged_message_type, logged_section_type),
                ),
                None => RecordOutcome::Ecpri,
            },
        }
    }
}

/// Whether `d` is the eCPRI message in the captured frame `s`, stamped
/// with the capture time.
pub open spec fn is_record_of(
    d: EcpriData,
    ts_sec: u32,
    ts_usec: u32,
    s: Seq<u8>,
    mantissa: u16,
) -> bool
    recommends
        s.len() >= 14,
        spec_ecpri_check(s.skip(14), mantissa) is None,
{
    &&& d.ts_sec == ts_sec
    &&& d.ts_usec == ts_usec
    &&& d.header == CommonHeader::spec_parse(s.skip(14).skip(4))
    &&& is_message_of(d.data, d.header.message_type, s.skip(14).skip(12), mantissa)
}

/// A count that stops at the largest value instead of wrapping.
pub open spec fn spec_count_up(n: u32) -> u32 {
    if n < u32::MAX {
        (n + 1) as u32
    } else {
        n
    }
}

/// Counts one up, stopping at the largest value.
fn count_up(n: u32) -> (r: u32)
    ensures
        r == spec_count_up(n),
{
    if n < u32::MAX {
        n + 1
    } else {
        n
    }
}

impl Driver {
    /// The invariant of the driver: the sample width is one that the
    /// decoder is defined for, and every stored message can be expanded
    /// with it and holds as many resource blocks as it announces.
    pub closed spec fn wf(&self) -> bool {
        &&& 1 <= self.mantissa <= 16
        &&& spec_expandable(self.ecpri_data.0@, self.mantissa)
        &&& forall|i: int|
            0 <= i < self.ecpri_data.0@.len() ==> spec_record_counts_match(
                #[trigger] self.ecpri_data.0@[i],
            )
    }

    /// Width in bits of a compressed IQ value.
    pub closed spec fn spec_mantissa(&self) -> u16 {
        self.mantissa
    }

    /// Ceiling on the number of records that are processed.
    pub closed spec fn spec_max_packet_count(&self) -> u32 {
        self.max_packet_count
    }

    /// Number of blocks taken from the reader, the global header among
    /// them.
    pub closed spec fn spec_num_blocks(&self) -> u32 {
        self.num_blocks
    }

    /// Number of frames that could not be decoded.
    pub closed spec fn spec_skipped(&self) -> u32 {
        self.skipped
    }

    /// Whether an unsupported message type has been reported.
    pub closed spec fn spec_logged_message_type(&self) -> bool {
        self.logged_message_type
    }

    /// Whether an unsupported section type has been reported.
    pub closed spec fn spec_logged_section_type(&self) -> bool {
        self.logged_section_type
    }

    /// The messages decoded so far, in capture order.
    pub closed spec fn spec_records(&self) -> Seq<EcpriData> {
        self.ecpri_data.0@
    }

    /// Whether everything but the stored messages and the counters that
    /// `process_record` moves is the same in `self` and `before`.
    pub open spec fn same_config(&self, before: &Driver) -> bool {
        &&& self.spec_mantissa() == before.spec_mantissa()
        &&& self.spec_max_packet_count() == before.spec_max_packet_count()
    }

    /// A driver with the default sample width and packet budget.
    pub fn new() -> (r: Driver)
        ensures
            r.wf(),
            r.spec_mantissa() == MANTISSA,
            r.spec_max_packet_count() == MAX_PACKET_COUNT,
            r.spec_num_blocks() == 0,
            r.spec_skipped() == 0,
            !r.spec_logged_message_type(),
            !r.spec_logged_section_type(),
            r.spec_records().len() == 0,
    {
        Driver::with_config(MANTISSA, MAX_PACKET_COUNT)
    }

    /// A driver for `mantissa`-bit samples that processes at most
    /// `max_packet_count` records.  The width has to lie between 1 and 16.
    pub fn with_config(mantissa: u16, max_packet_count: u32) -> (r: Driver)
        requires
            1 <= mantissa <= 16,
        ensures
            r.wf(),
            r.spec_mantissa() == mantissa,
            r.spec_max_packet_count() == max_packet_count,
            r.spec_num_blocks() == 0,
            r.spec_skipped() == 0,
            !r.spec_logged_message_type(),
            !r.spec_logged_section_type(),
            r.spec_records().len() == 0,
    {
        Driver {
            mantissa,
            max_packet_count,
            num_blocks: 0,
            skipped: 0,
            logged_message_type: false,
            logged_section_type: false,
            ecpri_data: EcpriDataVec::new(),
        }
    }

    /// Width in bits of a compressed IQ value.
    pub fn mantissa(&self) -> (r: u16)
        ensures
            r == self.spec_mantissa(),
    {
        self.mantissa
    }

    /// Number of blocks taken from the reader so far, the global header
    /// among them.
    pub fn num_blocks(&self) -> (r: u32)
        ensures
            r == self.spec_num_blocks(),
    {
        self.num_blocks
    }

    /// Number of packets skipped so far.
    pub fn skipped(&self) -> (r: u32)
        ensures
            r == self.spec_skipped(),
    {
        self.skipped
    }

    /// The messages decoded so far.
    pub fn records(&self) -> (r: &EcpriDataVec)
        ensures
            r.0@ == self.spec_records(),
    {
        &self.ecpri_data
    }

    /// Hands the decoded messages over for reassembly.
    pub fn into_records(self) -> (r: EcpriDataVec)
        requires
            self.wf(),
        ensures
            r.0@ == self.spec_records(),
            spec_expandable(r.0@, self.spec_mantissa()),
            1 <= self.spec_mantissa() <= 16,
            forall|i: int| 0 <= i < r.0@.len() ==> spec_record_counts_match(#[trigger] r.0@[i]),
    {
        self.ecpri_data
    }

    /// Notes a failure and says whether it is to be reported.
    fn note_failure(&mut self, kind: ErrorKind) -> (r: RecordOutcome)
        requires
            old(self).wf(),
        ensures
            final(self).wf(),
            final(self).same_config(old(self)),
            final(self).spec_records() == old(self).spec_records(),
            final(self).spec_num_blocks() == old(self).spec_num_blocks(),
            final(self).spec_skipped() == spec_count_up(old(self).spec_skipped()),
            r == RecordOutcome::Skipped(
                kind,
                spec_reports(
                    kind,
                    old(self).spec_logged_message_type(),
                    old(self).spec_logged_section_type(),
                ),
            ),
            final(self).spec_logged_message_type() == (old(self).spec_logged_message_type() || kind
                == ErrorKind::UnsupportedMessageType),
            final(self).spec_logged_section_type() == (old(self).spec_logged_section_type() || kind
                == ErrorKind::UnsupportedSectionType),
    {
        self.skipped = count_up(self.skipped);
        match kind {
            ErrorKind::UnsupportedMessageType => {
                let report = !self.logged_message_type;
                self.logged_message_type = true;
                RecordOutcome::Skipped(kind, report)
            },
            ErrorKind::UnsupportedSectionType => {
                let report = !self.logged_section_type;
                self.logged_section_type = true;
                RecordOutcome::Skipped(kind, report)
            },
            _ => RecordOutcome::Skipped(kind, true),
        }
    }

    /// Decodes one captured frame: strips the Ethernet header, classifies
    /// the payload by EtherType, and stores the message of an eCPRI frame.
    /// A frame that fails to decode is counted and leaves the stored
    /// messages as they were.
    pub fn process_record(&mut self, ts_sec: u32, ts_usec: u32, data: &[u8]) -> (r: RecordOutcome)
        requires
            old(self).wf(),
        ensures
            final(self).wf(),
            final(self).same_config(old(self)),
            final(self).spec_num_blocks() == old(self).spec_num_blocks(),
            r == spec_outcome(
                data@,
                old(self).spec_mantissa(),
                old(self).spec_logged_message_type(),
                old(self).spec_logged_section_type(),
            ),
            r is Skipped ==> final(self).spec_skipped() == spec_count_up(old(self).spec_skipped()),
            !(r is Skipped) ==> final(self).spec_skipped() == old(self).spec_skipped(),
            final(self).spec_logged_message_type() == (old(self).spec_logged_message_type() || (
            r is Skipped && r->Skipped_0 == ErrorKind::UnsupportedMessageType)),
            final(self).spec_logged_section_type() == (old(self).spec_logged_section_type() || (
            r is Skipped && r->Skipped_0 == ErrorKind::UnsupportedSectionType)),
            !(r is Ecpri) ==> final(self).spec_records() == old(self).spec_records(),
            r is Ecpri ==> final(self).spec_records().len() == old(self).spec_records().len() + 1
                && final(self).spec_records().drop_last() == old(self).spec_records()
                && is_record_of(
                final(self).spec_records().last(),
                ts_sec,
                ts_usec,
                data@,
                old(self).spec_mantissa(),
            ),
    {
        let (ether_data, ether_header) = match Ethernet::parse(data) {
            Ok(x) => x,
            Err(e) => return self.note_failure(e),
        };
        match PacketDataType::from(ether_header.ether_type) {
            PacketDataType::BIP => {
                match BIPHeader::parse(ether_data) {
                    Ok((_, bip_header)) => RecordOutcome::Bip(bip_header),
                    Err(e) => self.note_failure(e),
                }
            },
            PacketDataType::PTP => RecordOutcome::Ptp,
            PacketDataType::ECPRI => {
                match ecpri_parse(ether_data, self.mantissa) {
                    Ok((header, message)) => {
                        let ghost before = self.ecpri_data.0@;
                        let record = EcpriData { ts_sec, ts_usec, header, data: message };
                        self.ecpri_data.append(record);
                        proof {
                            let after = self.ecpri_data.0@;
                            assert(after.drop_last() =~= before);
                            assert forall|i: int| 0 <= i < after.len() implies spec_record_counts_match(
                                #[trigger] after[i],
                            ) && crate::utility::ecpri_analysis::spec_record_expandable(
                                after[i],
                                self.mantissa,
                            ) by {
                                if i < before.len() {
                                    assert(after[i] == before[i]);
                                }
                            }
                        }
                        RecordOutcome::Ecpri
                    },
                    Err(e) => self.note_failure(e),
                }
            },
            PacketDataType::UNKNOWN => RecordOutcome::Unknown(ether_header.ether_type),
        }
    }

    /// Takes one answer of the capture reader and says what to do next.
    ///
    /// A block is processed (the global header holds nothing to process),
    /// counted and consumed; once more blocks have been counted than the
    /// packet budget allows, reading stops.  `Eof` ends the reading, and so
    /// does `TruncatedPacket`, which counts as one skipped packet;
    /// `Incomplete` asks for more bytes; any other failure is fatal.  The
    /// second part of the result says what became of a captured record.
    pub fn step<'a>(&mut self, event: Result<(usize, PcapBlockOwned<'a>), PcapError>) -> (r: (
        Action,
        Option<RecordOutcome>,
    ))
        requires
            old(self).wf(),
        ensures
            final(self).wf(),
            final(self).same_config(old(self)),
            match event {
                Ok((offset, block)) => {
                    &&& final(self).spec_num_blocks() == spec_count_up(old(self).spec_num_blocks())
                    &&& r.0 == (if final(self).spec_num_blocks() > old(self).spec_max_packet_count() {
                        Action::ConsumeAndStop(offset)
                    } else {
                        Action::Consume(offset)
                    })
                    &&& match block {
                        PcapBlockOwned::LegacyHeader(_) => r.1 is None && final(self).spec_records()
                            == old(self).spec_records() && final(self).spec_skipped() == old(
                            self,
                        ).spec_skipped(),
                        PcapBlockOwned::Legacy(b) => r.1 == Some(
                            spec_outcome(
                                b.data@,
                                old(self).spec_mantissa(),
                                old(self).spec_logged_message_type(),
                                old(self).spec_logged_section_type(),
                            ),
                        ) && (r.1->Some_0 is Ecpri ==> final(self).spec_records().len() == old(
                            self,
                        ).spec_records().len() + 1 && final(self).spec_records().drop_last() == old(
                            self,
                        ).spec_records() && is_record_of(
                            final(self).spec_records().last(),
                            b.ts_sec,
                            b.ts_usec,
                            b.data@,
                            old(self).spec_mantissa(),
                        )) && (!(r.1->Some_0 is Ecpri) ==> final(self).spec_records() == old(
                            self,
                        ).spec_records()),
                    }
                },
                Err(e) => {
                    &&& r.1 is None
                    &&& final(self).spec_num_blocks() == old(self).spec_num_blocks()
                    &&& final(self).spec_records() == old(self).spec_records()
                    &&& final(self).spec_skipped() == (if e == PcapError::TruncatedPacket {
                        spec_count_up(old(self).spec_skipped())
                    } else {
                        old(self).spec_skipped()
                    })
                    &&& r.0 == (match e {
                        PcapError::Eof => Action::Stop,
                        PcapError::TruncatedPacket => Action::Stop,
                        PcapError::Incomplete => Action::Refill,
                        _ => Action::Abort(e),
                    })
                },
            },
    {
        match event {
            Ok((offset, block)) => {
                let outcome = match block {
                    PcapBlockOwned::LegacyHeader(_) => None,
                    PcapBlockOwned::Legacy(b) => Some(
                        self.process_record(b.ts_sec, b.ts_usec, b.data),
                    ),
                };
                self.num_blocks = count_up(self.num_blocks);
                if self.num_blocks > self.max_packet_count {
                    (Action::ConsumeAndStop(offset), outcome)
                } else {
                    (Action::Consume(offset), outcome)
                }
            },
            Err(PcapError::Eof) => (Action::Stop, None),
            Err(PcapError::TruncatedPacket) => {
                self.skipped = count_up(self.skipped);
                (Action::Stop, None)
            },
            Err(PcapError::Incomplete) => (Action::Refill, None),
            Err(e) => (Action::Abort(e), None),
        }
    }
}

/// Whether an entry opens a radio frame: sub-frame, slot and symbol are 0.
pub open spec fn is_frame_start(f: Frame) -> bool {
    f.subframe_id == 0 && f.slot_id == 0 && f.symb_id == 0
}

/// Whether some entry opens a radio frame.
pub open spec fn has_frame_start(entries: Seq<(FrameKey, Frame)>) -> bool {
    exists|i: int| 0 <= i < entries.len() && is_frame_start((#[trigger] entries[i]).1)
}

/// Whether the entries from `start` up to `end` are those that are written
/// out: `start` is the first entry that opens a radio frame, and `end` is
/// the first entry behind it with another frame number, or the end of the
/// list.
pub open spec fn is_emit_range(entries: Seq<(FrameKey, Frame)>, start: int, end: int) -> bool {
    &&& 0 <= start < end <= entries.len()
    &&& is_frame_start(entries[start].1)
    &&& forall|i: int| 0 <= i < start ==> !is_frame_start((#[trigger] entries[i]).1)
    &&& forall|i: int|
        start <= i < end ==> (#[trigger] entries[i]).1.frame_id == entries[start].1.frame_id
    &&& end < entries.len() ==> entries[end].1.frame_id != entries[start].1.frame_id
}

/// Says whether an entry opens a radio frame.
fn opens_frame(f: &Frame) -> (r: bool)
    ensures
        r == is_frame_start(*f),
{
    f.subframe_id == 0 && f.slot_id == 0 && f.symb_id == 0
}

/// Picks the entries to write out from the drained reassembly: one radio
/// frame, from the first entry that opens a frame up to the first entry
/// with another frame number.  Entries in front of the first frame start
/// are left out, since the capture may have begun in the middle of a
/// frame.  The result holds the index of the first entry to write and the
/// index behind the last; there is none when no entry opens a frame.
pub fn select_frame(entries: &Vec<(FrameKey, Frame)>) -> (r: Option<(usize, usize)>)
    ensures
        !has_frame_start(entries@) ==> r is None,
        has_frame_start(entries@) ==> r is Some && is_emit_range(
            entries@,
            r->Some_0.0 as int,
            r->Some_0.1 as int,
        ),
{
    let mut start: usize = 0;
    while start < entries.len() && !opens_frame(&entries[start].1)
        invariant
            start <= entries@.len(),
            forall|i: int| 0 <= i < start ==> !is_frame_start((#[trigger] entries@[i]).1),
        decreases entries@.len() - start,
    {
        start = start + 1;
    }
    if start == entries.len() {
        return None;
    }
    assert(is_frame_start(entries@[start as int].1));
    let previous_frame = entries[start].1.frame_id;
    let mut end: usize = start + 1;
    while end < entries.len() && entries[end].1.frame_id == previous_frame
        invariant
            start < end <= entries@.len(),
            previous_frame == entries@[start as int].1.frame_id,
            forall|i: int| start <= i < end ==> (#[trigger] entries@[i]).1.frame_id == previous_frame,
        decreases entries@.len() - end,
    {
        end = end + 1;
    }
    Some((start, end))
}

} // verus!
