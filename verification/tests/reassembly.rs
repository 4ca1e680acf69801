use std::collections::BTreeMap;

use ecpri_pcap_parser::driver::select_frame;
use ecpri_pcap_parser::protocols::ecpri::ecpri_parse;
use ecpri_pcap_parser::protocols::ecpri::CommonHeader;
use ecpri_pcap_parser::protocols::ecpri::EcpriType;
use ecpri_pcap_parser::protocols::uplane::IQPrbuData;
use ecpri_pcap_parser::utility::drain::drain;
use ecpri_pcap_parser::utility::ecpri_analysis::ingest;
use ecpri_pcap_parser::utility::ecpri_analysis::EcpriData;
use ecpri_pcap_parser::utility::ecpri_analysis::EcpriDataVec;
use ecpri_pcap_parser::utility::ecpri_analysis::Frame;
use ecpri_pcap_parser::utility::ecpri_analysis::FrameKey;

fn pack_iq(samples: &[(i32, i32)], mantissa: u32) -> Vec<u8> {
    let mut bits: Vec<bool> = Vec::new();
    for &(i, q) in samples {
        for v in [i, q] {
            for b in (0..mantissa).rev() {
                bits.push((v >> b) & 1 == 1);
            }
        }
    }
    let mut bytes = vec![0u8; (bits.len() + 7) / 8];
    for (n, bit) in bits.iter().enumerate() {
        if *bit {
            bytes[n / 8] |= 0x80 >> (n % 8);
        }
    }
    bytes
}

// The samples (k + offset, -(k + offset)) for k = 0..12.
fn ramp(offset: i32) -> Vec<(i32, i32)> {
    (0..12).map(|k| (k + offset, -(k + offset))).collect()
}

fn scaled(samples: &[(i32, i32)], factor: i32) -> Vec<(i32, i32)> {
    samples.iter().map(|&(i, q)| (i * factor, q * factor)).collect()
}

// An eCPRI user-plane payload: two bytes that are passed over, the marker,
// the common header, the timing fields, one section header and the blocks.
fn uplane_payload(
    pcid: u16,
    downlink: bool,
    frame: u8,
    subframe: u8,
    slot: u8,
    symbol: u8,
    blocks: &[(u8, Vec<(i32, i32)>)],
) -> Vec<u8> {
    let size = 8 + 28 * blocks.len();
    let mut bytes = vec![0x00, 0x64, 0xAE, 0xFE, 0x10, 0x00];
    bytes.extend_from_slice(&(size as u16).to_be_bytes());
    bytes.extend_from_slice(&pcid.to_be_bytes());
    bytes.extend_from_slice(&[0x00, 0x00]);
    bytes.push(if downlink { 0x90 } else { 0x10 });
    bytes.push(frame);
    let word: u16 = (u16::from(subframe) << 12) | (u16::from(slot) << 6) | u16::from(symbol);
    bytes.extend_from_slice(&word.to_be_bytes());
    bytes.extend_from_slice(&[0x00, 0x00, 0x00, blocks.len() as u8]);
    for (exponent, samples) in blocks {
        bytes.push(*exponent);
        bytes.extend(pack_iq(samples, 9));
    }
    bytes
}

fn record(payload: &[u8]) -> EcpriData {
    let (header, data) = ecpri_parse(payload, 9).unwrap();
    EcpriData { ts_sec: 0, ts_usec: 0, header, data }
}

fn reassemble(payloads: &[Vec<u8>]) -> BTreeMap<FrameKey, Frame> {
    let mut all = EcpriDataVec::new();
    for p in payloads {
        all.append(record(p));
    }
    assert!(all.is_expandable(9));
    all.parse_iq_data(9)
}

fn frame(frame_id: u8, subframe_id: u8, slot_id: u8, symb_id: u8) -> (FrameKey, Frame) {
    (
        (1, frame_id, subframe_id, slot_id, symb_id),
        Frame { pcid: 1, frame_id, subframe_id, slot_id, slot_dir: 0, symb_id, iq: vec![(1, 1)] },
    )
}

#[test]
fn samples_are_scaled_by_two_to_the_exponent_minus_one() {
    let samples = ramp(-6);
    for (exponent, factor) in [(0u8, 0i32), (1, 1), (2, 3), (4, 15), (9, 511), (15, 32767)] {
        let prbu = vec![IQPrbuData { reserved: 0, exponent, iq_sample: pack_iq(&samples, 9) }];
        let out = EcpriDataVec::get_prbu_data(&prbu, 9);
        assert_eq!(out, scaled(&samples, factor));
    }
}

#[test]
fn scaling_does_not_wrap() {
    let mut samples = vec![(0, 0); 12];
    samples[0] = (-32768, 32767);
    samples[1] = (-256, 255);
    let prbu = vec![IQPrbuData { reserved: 0, exponent: 15, iq_sample: pack_iq(&samples, 16) }];
    let out = EcpriDataVec::get_prbu_data(&prbu, 16);
    assert_eq!(out[0], (-1_073_709_056, 1_073_676_289));
    assert_eq!(out[1], (-8_388_352, 8_355_585));
    assert_eq!(out[2], (0, 0));
}

#[test]
fn blocks_are_expanded_one_after_the_other() {
    let a = ramp(0);
    let b = ramp(100);
    let prbu = vec![
        IQPrbuData { reserved: 0, exponent: 1, iq_sample: pack_iq(&a, 9) },
        IQPrbuData { reserved: 0, exponent: 2, iq_sample: pack_iq(&b, 9) },
    ];
    let out = EcpriDataVec::get_prbu_data(&prbu, 9);
    assert_eq!(out.len(), 24);
    assert_eq!(&out[..12], &a[..]);
    assert_eq!(&out[12..], &scaled(&b, 3)[..]);
    assert!(EcpriDataVec::get_prbu_data(&Vec::new(), 9).is_empty());
}

#[test]
fn no_compression_is_the_identity_up_to_the_scale() {
    let samples: Vec<(i32, i32)> = (0..12).map(|k| (k * 5000 - 30000, 30000 - k * 5000)).collect();
    let identity = vec![IQPrbuData { reserved: 0, exponent: 1, iq_sample: pack_iq(&samples, 16) }];
    assert_eq!(EcpriDataVec::get_prbu_data(&identity, 16), samples);
    let scaled_by_7 = vec![IQPrbuData { reserved: 0, exponent: 3, iq_sample: pack_iq(&samples, 16) }];
    assert_eq!(EcpriDataVec::get_prbu_data(&scaled_by_7, 16), scaled(&samples, 7));
}

#[test]
fn exponent_zero_blanks_the_samples() {
    let prbu = vec![IQPrbuData { reserved: 0, exponent: 0, iq_sample: pack_iq(&ramp(50), 9) }];
    assert_eq!(EcpriDataVec::get_prbu_data(&prbu, 9), vec![(0, 0); 12]);
}

#[test]
fn single_uplink_symbol_with_one_block() {
    let payload = uplane_payload(1, false, 10, 0, 0, 0, &[(0, vec![(0, 0); 12])]);
    assert_eq!(payload.len(), 4 + 8 + 8 + 28);
    let map = reassemble(&[payload]);
    assert_eq!(map.len(), 1);
    let entry = &map[&(1, 10, 0, 0, 0)];
    assert_eq!(entry.pcid, 1);
    assert_eq!(entry.frame_id, 10);
    assert_eq!(entry.subframe_id, 0);
    assert_eq!(entry.slot_id, 0);
    assert_eq!(entry.symb_id, 0);
    assert_eq!(entry.slot_dir, 0);
    assert_eq!(entry.iq, vec![(0, 0); 12]);
}

#[test]
fn two_packets_of_one_symbol_are_appended_in_capture_order() {
    let first = uplane_payload(1, false, 10, 0, 0, 0, &[(1, ramp(1))]);
    let second = uplane_payload(1, false, 10, 0, 0, 0, &[(1, ramp(40))]);
    let map = reassemble(&[first, second]);
    assert_eq!(map.len(), 1);
    let entry = &map[&(1, 10, 0, 0, 0)];
    assert_eq!(entry.iq.len(), 24);
    assert_eq!(&entry.iq[..12], &ramp(1)[..]);
    assert_eq!(&entry.iq[12..], &ramp(40)[..]);
}

#[test]
fn direction_is_that_of_the_first_packet() {
    let first = uplane_payload(2, true, 1, 0, 0, 3, &[(1, ramp(0))]);
    let second = uplane_payload(2, false, 1, 0, 0, 3, &[(1, ramp(0))]);
    let map = reassemble(&[first, second]);
    assert_eq!(map[&(2, 1, 0, 0, 3)].slot_dir, 1);
    assert_eq!(map[&(2, 1, 0, 0, 3)].iq.len(), 24);
}

#[test]
fn every_entry_holds_twelve_samples_per_block() {
    let payloads = vec![
        uplane_payload(1, false, 3, 0, 0, 0, &[(1, ramp(0)), (1, ramp(1)), (1, ramp(2))]),
        uplane_payload(1, false, 3, 0, 0, 1, &[(1, ramp(3))]),
        uplane_payload(1, false, 3, 0, 0, 0, &[(1, ramp(4)), (1, ramp(5))]),
        uplane_payload(1, false, 3, 0, 0, 1, &[]),
    ];
    let map = reassemble(&payloads);
    assert_eq!(map.len(), 2);
    assert_eq!(map[&(1, 3, 0, 0, 0)].iq.len(), 12 * 5);
    assert_eq!(map[&(1, 3, 0, 0, 1)].iq.len(), 12 * 1);
    assert_eq!(&map[&(1, 3, 0, 0, 0)].iq[36..48], &ramp(4)[..]);
}

#[test]
fn message_without_blocks_still_makes_its_entry() {
    let map = reassemble(&[uplane_payload(1, false, 10, 2, 1, 5, &[])]);
    assert_eq!(map.len(), 1);
    assert!(map[&(1, 10, 2, 1, 5)].iq.is_empty());

    // Behind an earlier packet of the same symbol it changes nothing.
    let map = reassemble(&[
        uplane_payload(1, false, 10, 2, 1, 5, &[(1, ramp(9))]),
        uplane_payload(1, false, 10, 2, 1, 5, &[]),
    ]);
    assert_eq!(map.len(), 1);
    assert_eq!(map[&(1, 10, 2, 1, 5)].iq, ramp(9));
}

#[test]
fn frame_number_wrapping_keeps_frames_apart() {
    let map = reassemble(&[
        uplane_payload(1, false, 255, 0, 0, 0, &[(1, ramp(1))]),
        uplane_payload(1, false, 0, 0, 0, 0, &[(1, ramp(2))]),
    ]);
    assert_eq!(map.len(), 2);
    assert_eq!(map[&(1, 255, 0, 0, 0)].iq, ramp(1));
    assert_eq!(map[&(1, 0, 0, 0, 0)].iq, ramp(2));
}

#[test]
fn control_plane_messages_leave_no_entry() {
    let mut control = vec![0x00, 0x64, 0xAE, 0xFE, 0x10, 0x02, 0x00, 0x08, 0x00, 0x01, 0x00, 0x00];
    control.extend_from_slice(&[0x90, 1, 0x10, 0x41, 0, 1, 0x91, 0]);
    let map = reassemble(&[control.clone()]);
    assert!(map.is_empty());
    let map = reassemble(&[control, uplane_payload(1, false, 1, 0, 0, 0, &[(1, ramp(0))])]);
    assert_eq!(map.len(), 1);
}

#[test]
fn empty_capture_has_empty_reassembly() {
    assert!(EcpriDataVec::new().parse_iq_data(9).is_empty());
    assert!(EcpriDataVec::default().0.is_empty());
}

#[test]
fn ingest_extends_or_makes_an_entry() {
    let mut map: BTreeMap<FrameKey, Frame> = BTreeMap::new();
    let a = record(&uplane_payload(7, true, 1, 2, 3, 4, &[(2, ramp(0))]));
    ingest(&mut map, &a, 9);
    assert_eq!(map.len(), 1);
    assert_eq!(map[&(7, 1, 2, 3, 4)].slot_dir, 1);
    assert_eq!(map[&(7, 1, 2, 3, 4)].iq, scaled(&ramp(0), 3));
    let b = record(&uplane_payload(7, true, 1, 2, 3, 5, &[(1, ramp(5))]));
    ingest(&mut map, &b, 9);
    ingest(&mut map, &a, 9);
    assert_eq!(map.len(), 2);
    assert_eq!(map[&(7, 1, 2, 3, 4)].iq.len(), 24);
    assert_eq!(map[&(7, 1, 2, 3, 5)].iq, ramp(5));
}

#[test]
fn messages_that_cannot_be_expanded_are_found() {
    let header = CommonHeader {
        revision: 1,
        reserved: 0,
        concatenation: 0,
        message_type: 0,
        payload_size: 0,
        pcid: 1,
        seqid: 0,
    };
    let (_, data) = ecpri_parse(&uplane_payload(1, false, 1, 0, 0, 0, &[(1, ramp(0))]), 9).unwrap();
    let mut all = EcpriDataVec::new();
    all.append(EcpriData { ts_sec: 0, ts_usec: 0, header, data: data.clone() });
    assert!(all.is_expandable(9));
    assert!(all.is_expandable(4));
    assert!(!all.is_expandable(12));
    assert!(!all.is_expandable(0));
    assert!(!all.is_expandable(17));
    let mut broken = match data {
        EcpriType::IQData(u) => u,
        other => panic!("unexpected message: {:?}", other),
    };
    broken.iq_prbu[0].exponent = 16;
    all.append(EcpriData { ts_sec: 0, ts_usec: 0, header, data: EcpriType::IQData(broken) });
    assert!(!all.is_expandable(9));
}

#[test]
fn drain_yields_keys_in_lexicographic_order() {
    let payloads = vec![
        uplane_payload(2, false, 0, 0, 0, 0, &[(1, ramp(0))]),
        uplane_payload(1, false, 9, 1, 0, 0, &[(1, ramp(1))]),
        uplane_payload(1, false, 9, 0, 5, 13, &[(1, ramp(2))]),
        uplane_payload(1, false, 9, 0, 5, 2, &[(1, ramp(3))]),
        uplane_payload(1, false, 200, 0, 0, 0, &[(1, ramp(4))]),
        uplane_payload(1, false, 9, 0, 4, 13, &[(1, ramp(5))]),
        uplane_payload(0x0100, false, 0, 0, 0, 0, &[(1, ramp(6))]),
    ];
    let entries = drain(reassemble(&payloads));
    let keys: Vec<FrameKey> = entries.iter().map(|e| e.0).collect();
    assert_eq!(
        keys,
        vec![
            (1, 9, 0, 4, 13),
            (1, 9, 0, 5, 2),
            (1, 9, 0, 5, 13),
            (1, 9, 1, 0, 0),
            (1, 200, 0, 0, 0),
            (2, 0, 0, 0, 0),
            (0x0100, 0, 0, 0, 0),
        ]
    );
    for (key, entry) in entries.iter() {
        assert_eq!((entry.pcid, entry.frame_id, entry.subframe_id, entry.slot_id, entry.symb_id), *key);
    }
    assert_eq!(entries[0].1.iq, ramp(5));
    assert_eq!(entries[6].1.iq, ramp(6));
    assert!(drain(BTreeMap::new()).is_empty());
}

#[test]
fn capture_that_starts_inside_a_frame() {
    let entries = vec![
        frame(5, 3, 2, 4),
        frame(5, 3, 2, 5),
        frame(5, 9, 0, 0),
        frame(6, 0, 0, 0),
        frame(6, 0, 0, 1),
        frame(6, 9, 1, 13),
        frame(7, 0, 0, 0),
        frame(7, 0, 0, 1),
    ];
    // Nothing of frame 5 is written; frame 6 is written whole.
    assert_eq!(select_frame(&entries), Some((3, 6)));
}

#[test]
fn selection_runs_to_the_end_without_a_next_frame() {
    let entries = vec![frame(5, 3, 2, 4), frame(6, 0, 0, 0), frame(6, 0, 0, 1)];
    assert_eq!(select_frame(&entries), Some((1, 3)));
    let entries = vec![frame(6, 0, 0, 0)];
    assert_eq!(select_frame(&entries), Some((0, 1)));
}

#[test]
fn nothing_is_selected_without_a_frame_start() {
    assert_eq!(select_frame(&Vec::new()), None);
    let entries = vec![frame(5, 3, 2, 4), frame(5, 0, 0, 1), frame(6, 0, 1, 0), frame(7, 1, 0, 0)];
    assert_eq!(select_frame(&entries), None);
}

#[test]
fn selection_starts_at_the_first_frame_start_only() {
    let entries = vec![frame(4, 0, 0, 0), frame(5, 0, 0, 0), frame(5, 0, 0, 1)];
    assert_eq!(select_frame(&entries), Some((0, 1)));
}
