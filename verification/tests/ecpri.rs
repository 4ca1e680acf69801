use ecpri_pcap_parser::protocols::ecpri::ecpri_parse;
use ecpri_pcap_parser::protocols::ecpri::is_ecpri_data;
use ecpri_pcap_parser::protocols::ecpri::CommonHeader;
use ecpri_pcap_parser::protocols::ecpri::DataDirection;
use ecpri_pcap_parser::protocols::ecpri::EcpriType;
use ecpri_pcap_parser::protocols::ecpri::FCPSectionType0;
use ecpri_pcap_parser::protocols::ecpri::FCPSectionType1;
use ecpri_pcap_parser::protocols::ecpri::FCPSectionType3;
use ecpri_pcap_parser::protocols::ecpri::FFTSize;
use ecpri_pcap_parser::protocols::ecpri::FilterIndex;
use ecpri_pcap_parser::protocols::ecpri::FrameStructure;
use ecpri_pcap_parser::protocols::ecpri::MessageType;
use ecpri_pcap_parser::protocols::ecpri::SectionHeader;
use ecpri_pcap_parser::protocols::ecpri::TimingHeader;
use ecpri_pcap_parser::protocols::ecpri::_SectionType0Data;
use ecpri_pcap_parser::protocols::ecpri::_SectionType1Data;
use ecpri_pcap_parser::protocols::ecpri::_SectionType3Data;
use ecpri_pcap_parser::protocols::ecpri::MU;
use ecpri_pcap_parser::protocols::types::ErrorKind;

// Two bytes that are passed over, the marker, and a common header with the
// given message type.
fn preamble(message_type: u8) -> Vec<u8> {
    vec![0x00, 0x64, 0xAE, 0xFE, 0x10, message_type, 0x00, 0x20, 0x00, 0x01, 0x00, 0x07]
}

fn section_entry(section_id: u16, num_prbc: u8) -> Vec<u8> {
    let word: u32 = (u32::from(section_id) << 12) | (1 << 11) | 0x155;
    vec![
        (word >> 16) as u8,
        (word >> 8) as u8,
        word as u8,
        num_prbc,
        0xAB,
        0xC5,
        0x92,
        0x34,
    ]
}

#[test]
fn common_header_fields() {
    let bytes = [0x10, 0x02, 0x01, 0x2C, 0xBE, 0xEF, 0x12, 0x34, 0x99];
    let (rest, hdr) = CommonHeader::parse(&bytes).unwrap();
    assert_eq!(rest, &[0x99]);
    assert_eq!(hdr.revision, 1);
    assert_eq!(hdr.reserved, 0);
    assert_eq!(hdr.concatenation, 0);
    assert_eq!(hdr.message_type, 2);
    assert_eq!(hdr.payload_size, 300);
    assert_eq!(hdr.pcid, 0xBEEF);
    assert_eq!(hdr.seqid, 0x1234);
}

#[test]
fn common_header_first_byte_is_split_as_documented() {
    let (_, hdr) = CommonHeader::parse(&[0xF1, 0, 0, 0, 0, 0, 0, 0]).unwrap();
    assert_eq!(hdr.revision, 0xF);
    assert_eq!(hdr.reserved, 0x70);
    assert_eq!(hdr.concatenation, 1);
    let (_, hdr) = CommonHeader::parse(&[0x3E, 0, 0, 0, 0, 0, 0, 0]).unwrap();
    assert_eq!(hdr.revision, 0x3);
    assert_eq!(hdr.reserved, 0x10);
    assert_eq!(hdr.concatenation, 0);
}

#[test]
fn common_header_too_short() {
    assert_eq!(CommonHeader::parse(&[0u8; 7]).err(), Some(ErrorKind::NotEnoughBytes));
    assert_eq!(CommonHeader::parse(&[]).err(), Some(ErrorKind::NotEnoughBytes));
}

#[test]
fn timing_header_fields() {
    // DL, version 1, PRACH filter; frame 200; sub-frame 9, slot 33, symbol 13.
    let bytes = [0x93, 200, 0x98, 0x4D, 3, 1, 0x77];
    let (rest, hdr) = TimingHeader::parse(&bytes).unwrap();
    assert_eq!(rest, &[0x77]);
    assert_eq!(hdr.dir, DataDirection::DL);
    assert_eq!(hdr.payload_ver, 1);
    assert_eq!(hdr.filter_index, FilterIndex::NR_PRACH);
    assert_eq!(hdr.frame_id, 200);
    assert_eq!(hdr.subframe_id, 9);
    assert_eq!(hdr.slot_id, 33);
    assert_eq!(hdr.start_symbol_id, 13);
    assert_eq!(hdr.num_of_sections, 3);
    assert_eq!(hdr.section_type, 1);
}

#[test]
fn timing_header_extremes() {
    let (_, hdr) = TimingHeader::parse(&[0x70, 0xFF, 0xFF, 0xFF, 0xFF, 0xFF]).unwrap();
    assert_eq!(hdr.dir, DataDirection::UL);
    assert_eq!(hdr.payload_ver, 7);
    assert_eq!(hdr.filter_index, FilterIndex::NO_FILTER);
    assert_eq!(hdr.subframe_id, 15);
    assert_eq!(hdr.slot_id, 63);
    assert_eq!(hdr.start_symbol_id, 63);
}

#[test]
fn timing_header_failures() {
    assert_eq!(TimingHeader::parse(&[0x10, 1, 2, 3, 4]).err(), Some(ErrorKind::NotEnoughBytes));
    assert_eq!(
        TimingHeader::parse(&[0x15, 1, 2, 3, 4, 5]).err(),
        Some(ErrorKind::UnsupportedFilterIndex)
    );
    // Too short wins over a filter index that is not known.
    assert_eq!(TimingHeader::parse(&[0x15, 1]).err(), Some(ErrorKind::NotEnoughBytes));
}

#[test]
fn section_header_fields() {
    // section 0xABC, rb 1, symInc 0, first block 0x155, 17 blocks.
    let bytes = [0xAB, 0xC9, 0x55, 17, 0x01];
    let (rest, hdr) = SectionHeader::parse(&bytes).unwrap();
    assert_eq!(rest, &[0x01]);
    assert_eq!(hdr.section_id, 0xABC);
    assert_eq!(hdr.rb, 1);
    assert_eq!(hdr.si, 0);
    assert_eq!(hdr.start_prbc, 0x155);
    assert_eq!(hdr.num_prbc, 17);
    assert_eq!(hdr.ud_comp_hdr, None);
    assert_eq!(hdr.reserved, None);
}

#[test]
fn section_header_single_bits() {
    let (_, hdr) = SectionHeader::parse(&[0x00, 0x04, 0x00, 0]).unwrap();
    assert_eq!((hdr.section_id, hdr.rb, hdr.si, hdr.start_prbc), (0, 0, 1, 0));
    let (_, hdr) = SectionHeader::parse(&[0xFF, 0xFF, 0xFF, 0xFF]).unwrap();
    assert_eq!((hdr.section_id, hdr.rb, hdr.si, hdr.start_prbc), (0xFFF, 1, 1, 0x3FF));
    assert_eq!(hdr.num_prbc, 255);
    assert_eq!(SectionHeader::parse(&[1, 2, 3]).err(), Some(ErrorKind::NotEnoughBytes));
}

#[test]
fn frame_structure_splits_the_byte() {
    let fs = FrameStructure::from(0xB1);
    assert_eq!(fs.fft_size, FFTSize::I_2048);
    assert_eq!(fs.mu, MU::KHZ_30);
    let fs = FrameStructure::from(0x00);
    assert_eq!(fs.fft_size, FFTSize::I_NONE);
    assert_eq!(fs.mu, MU::KHZ_15);
    let fs = FrameStructure::from(0xFF);
    assert_eq!(fs.fft_size, FFTSize::RESERVED2);
    assert_eq!(fs.mu, MU::KHZ_7_5);
    let (rest, fs) = FrameStructure::parse(&[0x8C, 0x01]).unwrap();
    assert_eq!(rest, &[0x01]);
    assert_eq!(fs, FrameStructure { fft_size: FFTSize::I_256, mu: MU::KHZ_1_25 });
    assert_eq!(FrameStructure::parse(&[]).err(), Some(ErrorKind::NotEnoughBytes));
}

#[test]
fn enums_from_wire_values() {
    assert_eq!(DataDirection::from_u8(0), Some(DataDirection::UL));
    assert_eq!(DataDirection::from_u8(1), Some(DataDirection::DL));
    assert_eq!(DataDirection::from_u8(2), None);
    assert_eq!(DataDirection::UL.value(), 0);
    assert_eq!(DataDirection::DL.value(), 1);
    assert_eq!(FilterIndex::from_u8(0), Some(FilterIndex::NO_FILTER));
    assert_eq!(FilterIndex::from_u8(3), Some(FilterIndex::NR_PRACH));
    assert_eq!(FilterIndex::from_u8(1), None);
    assert_eq!(FilterIndex::NR_PRACH.value(), 3);
    assert_eq!(FilterIndex::NO_FILTER.value(), 0);
    assert_eq!(FFTSize::from_u8(0), Some(FFTSize::I_NONE));
    assert_eq!(FFTSize::from_u8(1), Some(FFTSize::RESERVED1));
    assert_eq!(FFTSize::from_u8(7), Some(FFTSize::RESERVED1));
    assert_eq!(FFTSize::from_u8(8), Some(FFTSize::I_256));
    assert_eq!(FFTSize::from_u8(9), Some(FFTSize::I_512));
    assert_eq!(FFTSize::from_u8(10), Some(FFTSize::I_1024));
    assert_eq!(FFTSize::from_u8(11), Some(FFTSize::I_2048));
    assert_eq!(FFTSize::from_u8(12), Some(FFTSize::I_4096));
    assert_eq!(FFTSize::from_u8(13), Some(FFTSize::RESERVED2));
    assert_eq!(FFTSize::from_u8(15), Some(FFTSize::RESERVED2));
    assert_eq!(FFTSize::from_u8(16), None);
    assert_eq!(MU::from_u8(0), Some(MU::KHZ_15));
    assert_eq!(MU::from_u8(2), Some(MU::KHZ_60));
    assert_eq!(MU::from_u8(3), Some(MU::KHZ_120));
    assert_eq!(MU::from_u8(4), Some(MU::KHZ_240));
    assert_eq!(MU::from_u8(5), Some(MU::KHZ_480));
    assert_eq!(MU::from_u8(6), Some(MU::Reserved));
    assert_eq!(MU::from_u8(11), Some(MU::Reserved));
    assert_eq!(MU::from_u8(13), Some(MU::KHZ_3_75));
    assert_eq!(MU::from_u8(14), Some(MU::KHZ_5));
    assert_eq!(MU::from_u8(16), None);
}

#[test]
fn message_types_from_wire_values() {
    assert_eq!(MessageType::from_u16(0), Some(MessageType::IQData));
    assert_eq!(MessageType::from_u16(1), Some(MessageType::BitSequence));
    assert_eq!(MessageType::from_u16(2), Some(MessageType::RealTimeControlData));
    assert_eq!(MessageType::from_u16(3), Some(MessageType::GenericDataTransfer));
    assert_eq!(MessageType::from_u16(4), Some(MessageType::RemoteMemoryAccess));
    assert_eq!(MessageType::from_u16(5), Some(MessageType::OneWayDelayMeasurement));
    assert_eq!(MessageType::from_u16(6), Some(MessageType::RemoteReset));
    assert_eq!(MessageType::from_u16(7), Some(MessageType::EventIndication));
    assert_eq!(MessageType::from_u16(8), Some(MessageType::IWFStartUp));
    assert_eq!(MessageType::from_u16(9), Some(MessageType::IWFOperation));
    assert_eq!(MessageType::from_u16(10), Some(MessageType::IWFMapping));
    assert_eq!(MessageType::from_u16(11), None);
    assert_eq!(MessageType::from_u16(12), Some(MessageType::Reserved));
    assert_eq!(MessageType::from_u16(63), Some(MessageType::Reserved));
    assert_eq!(MessageType::from_u16(64), Some(MessageType::VendorSpecific));
    assert_eq!(MessageType::from_u16(225), Some(MessageType::VendorSpecific));
    assert_eq!(MessageType::from_u16(226), None);
    assert_eq!(MessageType::from_u16(0xFFFF), None);
}

#[test]
fn section_entries_of_each_type() {
    let mut bytes = section_entry(0x123, 4);
    let (rest, s0) = _SectionType0Data::parse(&bytes).unwrap();
    assert!(rest.is_empty());
    assert_eq!(s0.section_hdr.section_id, 0x123);
    assert_eq!(s0.section_hdr.rb, 1);
    assert_eq!(s0.section_hdr.start_prbc, 0x155);
    assert_eq!(s0.section_hdr.num_prbc, 4);
    assert_eq!(s0.re_mask, 0xABC);
    assert_eq!(s0.num_symbol, 5);
    assert_eq!(s0.ef, 1);
    assert_eq!(s0.reserved, 0x1234);

    let (_, s1) = _SectionType1Data::parse(&bytes).unwrap();
    assert_eq!(s1.re_mask, 0xABC);
    assert_eq!(s1.num_symbol, 5);
    assert_eq!(s1.ef, 1);
    assert_eq!(s1.beam_id, 0x1234);

    bytes.extend_from_slice(&[0xCA, 0xFE, 0x5A, 0xEE]);
    let (rest, s3) = _SectionType3Data::parse(&bytes).unwrap();
    assert_eq!(rest, &[0xEE]);
    assert_eq!(s3.section_hdr.section_id, 0x123);
    assert_eq!(s3.re_mask, 0xABC);
    assert_eq!(s3.num_symbol, 5);
    assert_eq!(s3.ef, 1);
    assert_eq!(s3.beam_id, 0x1234);
    assert_eq!(s3.freq_offset, 0xCAFE);
    assert_eq!(s3.reserved, 0x5A);

    assert_eq!(_SectionType0Data::parse(&bytes[..7]).err(), Some(ErrorKind::NotEnoughBytes));
    assert_eq!(_SectionType1Data::parse(&bytes[..7]).err(), Some(ErrorKind::NotEnoughBytes));
    assert_eq!(_SectionType3Data::parse(&bytes[..10]).err(), Some(ErrorKind::NotEnoughBytes));
}

#[test]
fn type0_body_with_sections() {
    let mut bytes = vec![0x12, 0x34, 0xA2, 0x00, 0x90, 0x07];
    bytes.extend(section_entry(1, 10));
    bytes.extend(section_entry(2, 20));
    bytes.push(0xEE);
    let (rest, body) = FCPSectionType0::parse(&bytes, 2).unwrap();
    assert_eq!(rest, &[0xEE]);
    assert_eq!(body.time_offset, 0x1234);
    assert_eq!(body.frame_structure, FrameStructure { fft_size: FFTSize::I_1024, mu: MU::KHZ_60 });
    assert_eq!(body.cp_length, 0x0090);
    assert_eq!(body.reserved, 7);
    assert_eq!(body.sections.len(), 2);
    assert_eq!(body.sections[0].section_hdr.section_id, 1);
    assert_eq!(body.sections[0].section_hdr.num_prbc, 10);
    assert_eq!(body.sections[1].section_hdr.section_id, 2);
    assert_eq!(body.sections[1].section_hdr.num_prbc, 20);

    let (rest, body) = FCPSectionType0::parse(&bytes, 0).unwrap();
    assert_eq!(rest.len(), 17);
    assert!(body.sections.is_empty());
    assert_eq!(FCPSectionType0::parse(&bytes, 3).err(), Some(ErrorKind::NotEnoughBytes));
    assert_eq!(FCPSectionType0::parse(&bytes[..5], 0).err(), Some(ErrorKind::NotEnoughBytes));
}

#[test]
fn type1_body_with_sections() {
    let mut bytes = vec![0x91, 0x00];
    bytes.extend(section_entry(7, 1));
    bytes.extend(section_entry(8, 2));
    bytes.extend(section_entry(9, 3));
    let (rest, body) = FCPSectionType1::parse(&bytes, 3).unwrap();
    assert!(rest.is_empty());
    assert_eq!(body.ud_comp_hdr, 0x91);
    assert_eq!(body.reserved, 0);
    assert_eq!(body.sections.len(), 3);
    assert_eq!(body.sections[2].section_hdr.section_id, 9);
    assert_eq!(body.sections[2].beam_id, 0x1234);
    assert_eq!(FCPSectionType1::parse(&bytes, 4).err(), Some(ErrorKind::NotEnoughBytes));
    assert_eq!(FCPSectionType1::parse(&bytes[..1], 0).err(), Some(ErrorKind::NotEnoughBytes));
}

#[test]
fn type3_body_counts_its_own_sections() {
    let mut bytes = vec![2, 3, 0x00, 0x10, 0xC3, 0x01, 0x00, 0x91];
    for id in [5u16, 6] {
        bytes.extend(section_entry(id, 1));
        bytes.extend_from_slice(&[0x00, 0x2A, 0x00]);
    }
    bytes.push(0xEE);
    let (rest, body) = FCPSectionType3::parse(&bytes).unwrap();
    assert_eq!(rest, &[0xEE]);
    assert_eq!(body.num_of_sections, 2);
    assert_eq!(body.section_type, 3);
    assert_eq!(body.time_offset, 0x0010);
    assert_eq!(
        body.frame_structure,
        FrameStructure { fft_size: FFTSize::I_4096, mu: MU::KHZ_120 }
    );
    assert_eq!(body.cp_length, 0x0100);
    assert_eq!(body.ud_comp_hdr, 0x91);
    assert_eq!(body.sections.len(), 2);
    assert_eq!(body.sections[0].section_hdr.section_id, 5);
    assert_eq!(body.sections[1].section_hdr.section_id, 6);
    assert_eq!(body.sections[1].freq_offset, 0x002A);
    assert_eq!(FCPSectionType3::parse(&bytes[..29]).err(), Some(ErrorKind::NotEnoughBytes));
    assert_eq!(FCPSectionType3::parse(&bytes[..7]).err(), Some(ErrorKind::NotEnoughBytes));
}

#[test]
fn marker_is_looked_for_behind_two_bytes() {
    assert_eq!(is_ecpri_data(&[0x12, 0x34, 0xAE, 0xFE, 0x55]), Ok((&[0x55][..], true)));
    assert_eq!(is_ecpri_data(&[0xAE, 0xFE, 0x00, 0x00]), Ok((&[][..], false)));
    assert_eq!(is_ecpri_data(&[0x00, 0x00, 0xFE, 0xAE]), Ok((&[][..], false)));
    assert_eq!(is_ecpri_data(&[0x00, 0x00, 0xAE]).err(), Some(ErrorKind::NotEnoughBytes));
}

#[test]
fn user_plane_message_is_dispatched() {
    let mut bytes = preamble(0);
    bytes.extend_from_slice(&[0x10, 10, 0x00, 0x00, 0x00, 0x00, 0x00, 1, 0x00]);
    bytes.extend_from_slice(&[0u8; 27]);
    let (hdr, msg) = ecpri_parse(&bytes, 9).unwrap();
    assert_eq!(hdr.revision, 1);
    assert_eq!(hdr.message_type, 0);
    assert_eq!(hdr.payload_size, 32);
    assert_eq!(hdr.pcid, 1);
    assert_eq!(hdr.seqid, 7);
    match msg {
        EcpriType::IQData(iq) => {
            assert_eq!(iq.dir, DataDirection::UL);
            assert_eq!(iq.frame_id, 10);
            assert_eq!(iq.section_hdr.num_prbc, 1);
            assert_eq!(iq.iq_prbu.len(), 1);
            assert_eq!(iq.iq_prbu[0].iq_sample, vec![0u8; 27]);
        }
        other => panic!("unexpected message: {:?}", other),
    }
}

#[test]
fn control_plane_messages_are_dispatched_on_section_type() {
    let mut t0 = preamble(2);
    t0.extend_from_slice(&[0x90, 1, 0x10, 0x41, 1, 0]);
    t0.extend_from_slice(&[0, 1, 0xB1, 0, 2, 0]);
    t0.extend(section_entry(3, 9));
    match ecpri_parse(&t0, 9).unwrap().1 {
        EcpriType::FCPType0(body) => {
            assert_eq!(body.time_offset, 1);
            assert_eq!(body.sections.len(), 1);
            assert_eq!(body.sections[0].section_hdr.section_id, 3);
        }
        other => panic!("unexpected message: {:?}", other),
    }

    let mut t1 = preamble(2);
    t1.extend_from_slice(&[0x90, 1, 0x10, 0x41, 2, 1]);
    t1.extend_from_slice(&[0x91, 0]);
    t1.extend(section_entry(3, 9));
    t1.extend(section_entry(4, 9));
    match ecpri_parse(&t1, 9).unwrap().1 {
        EcpriType::FCPType1(body) => {
            assert_eq!(body.ud_comp_hdr, 0x91);
            assert_eq!(body.sections.len(), 2);
        }
        other => panic!("unexpected message: {:?}", other),
    }

    let mut t3 = preamble(2);
    t3.extend_from_slice(&[0x93, 1, 0x10, 0x41, 9, 3]);
    t3.extend_from_slice(&[1, 3, 0, 0, 0xB1, 0, 0, 0x91]);
    t3.extend(section_entry(3, 9));
    t3.extend_from_slice(&[0, 0, 0]);
    match ecpri_parse(&t3, 9).unwrap().1 {
        EcpriType::FCPType3(body) => {
            // The body's own count is used, not that of the timing header.
            assert_eq!(body.num_of_sections, 1);
            assert_eq!(body.sections.len(), 1);
        }
        other => panic!("unexpected message: {:?}", other),
    }
}

#[test]
fn messages_that_are_turned_down() {
    // No marker.
    let mut bytes = preamble(0);
    bytes[3] = 0xFF;
    assert_eq!(ecpri_parse(&bytes, 9).err(), Some(ErrorKind::NotEcpri));
    // Nothing at all.
    assert_eq!(ecpri_parse(&[], 9).err(), Some(ErrorKind::NotEnoughBytes));
    assert_eq!(ecpri_parse(&[0, 0, 0xAE], 9).err(), Some(ErrorKind::NotEnoughBytes));
    // Marker, but the common header is cut.
    assert_eq!(ecpri_parse(&preamble(0)[..11], 9).err(), Some(ErrorKind::NotEnoughBytes));
    // Message types other than 0 and 2.
    for message_type in [1u8, 3, 5, 64, 255] {
        assert_eq!(
            ecpri_parse(&preamble(message_type), 9).err(),
            Some(ErrorKind::UnsupportedMessageType)
        );
    }
    // Section types other than 0, 1 and 3.
    let mut bytes = preamble(2);
    bytes.extend_from_slice(&[0x90, 1, 0x10, 0x41, 0, 2]);
    assert_eq!(ecpri_parse(&bytes, 9).err(), Some(ErrorKind::UnsupportedSectionType));
    // A filter index that is not known.
    let mut bytes = preamble(2);
    bytes.extend_from_slice(&[0x92, 1, 0x10, 0x41, 0, 1, 0, 0]);
    assert_eq!(ecpri_parse(&bytes, 9).err(), Some(ErrorKind::UnsupportedFilterIndex));
    let mut bytes = preamble(0);
    bytes.extend_from_slice(&[0x1F, 10, 0, 0, 0, 0, 0, 0]);
    assert_eq!(ecpri_parse(&bytes, 9).err(), Some(ErrorKind::UnsupportedFilterIndex));
    // A resource block that is cut.
    let mut bytes = preamble(0);
    bytes.extend_from_slice(&[0x10, 10, 0x00, 0x00, 0x00, 0x00, 0x00, 1, 0x00]);
    bytes.extend_from_slice(&[0u8; 26]);
    assert_eq!(ecpri_parse(&bytes, 9).err(), Some(ErrorKind::NotEnoughBytes));
    // A control-plane body that is cut.
    let mut bytes = preamble(2);
    bytes.extend_from_slice(&[0x90, 1, 0x10, 0x41, 1, 1, 0x91, 0, 1, 2, 3]);
    assert_eq!(ecpri_parse(&bytes, 9).err(), Some(ErrorKind::NotEnoughBytes));
}
