use ecpri_pcap_parser::protocols::ecpri::DataDirection;
use ecpri_pcap_parser::protocols::ecpri::FilterIndex;
use ecpri_pcap_parser::protocols::types::ErrorKind;
use ecpri_pcap_parser::protocols::uplane::IQPrbuData;
use ecpri_pcap_parser::protocols::uplane::UPlaneIQData;

// Packs signed values, `mantissa` bits each, most significant bit first.
fn pack_iq(samples: &[(i32, i32)], mantissa: u32) -> Vec<u8> {
    let mut bits: Vec<bool> = Vec::new();
    for &(i, q) in samples {
        for v in [i, q] {
            for b in (0..mantissa).rev() {
                bits.push((v >> b) & 1 == 1);
            }
        }
    }
    let mut bytes = vec![0u8; (bits.len() + 7) / 8];
    for (n, bit) in bits.iter().enumerate() {
        if *bit {
            bytes[n / 8] |= 0x80 >> (n % 8);
        }
    }
    bytes
}

fn block(exponent: u8, samples: &[(i32, i32)], mantissa: u32) -> IQPrbuData {
    IQPrbuData { reserved: 0, exponent, iq_sample: pack_iq(samples, mantissa) }
}

fn as_i32(v: &[(i16, i16)]) -> Vec<(i32, i32)> {
    v.iter().map(|&(i, q)| (i32::from(i), i32::from(q))).collect()
}

const NINE_BIT: [(i32, i32); 12] = [
    (0, 1),
    (-1, 255),
    (-256, 100),
    (-100, 17),
    (128, -128),
    (254, -255),
    (3, -3),
    (-77, 77),
    (200, -200),
    (1, 0),
    (-256, -256),
    (255, 255),
];

#[test]
fn resource_block_is_split_from_the_input() {
    let mut bytes = vec![0xA7];
    bytes.extend((1..=27).collect::<Vec<u8>>());
    bytes.extend_from_slice(&[0xEE, 0xFF]);
    let (rest, prb) = IQPrbuData::parse(&bytes, 9).unwrap();
    assert_eq!(rest, &[0xEE, 0xFF]);
    assert_eq!(prb.reserved, 0xA);
    assert_eq!(prb.exponent, 0x7);
    assert_eq!(prb.iq_sample, (1..=27).collect::<Vec<u8>>());
}

#[test]
fn resource_block_size_follows_the_mantissa() {
    let bytes = [0u8; 64];
    for (mantissa, size) in [(1u16, 3usize), (4, 12), (8, 24), (9, 27), (12, 36), (16, 48)] {
        let (rest, prb) = IQPrbuData::parse(&bytes, mantissa).unwrap();
        assert_eq!(prb.iq_sample.len(), size);
        assert_eq!(rest.len(), 64 - 1 - size);
    }
    // Widths that do not fill whole bytes are rounded down.
    let (_, prb) = IQPrbuData::parse(&bytes, 0).unwrap();
    assert!(prb.iq_sample.is_empty());
}

#[test]
fn resource_block_cut_short() {
    assert_eq!(IQPrbuData::parse(&[0u8; 27], 9).err(), Some(ErrorKind::NotEnoughBytes));
    assert_eq!(IQPrbuData::parse(&[], 9).err(), Some(ErrorKind::NotEnoughBytes));
    assert!(IQPrbuData::parse(&[0u8; 28], 9).is_ok());
}

#[test]
fn nine_bit_samples_are_recovered() {
    let prb = block(0, &NINE_BIT, 9);
    assert_eq!(prb.iq_sample.len(), 27);
    let (rest, samples) = prb.get_iq_data(9).unwrap();
    assert!(rest.is_empty());
    assert_eq!(samples.len(), 12);
    assert_eq!(as_i32(&samples), NINE_BIT.to_vec());
}

#[test]
fn any_27_bytes_give_twelve_pairs() {
    for fill in [0x00u8, 0xFF, 0x5A, 0x80] {
        let prb = IQPrbuData { reserved: 0, exponent: 3, iq_sample: vec![fill; 27] };
        let (_, samples) = prb.get_iq_data(9).unwrap();
        assert_eq!(samples.len(), 12);
        for &(i, q) in samples.iter() {
            assert!((-256..=255).contains(&i));
            assert!((-256..=255).contains(&q));
        }
    }
}

#[test]
fn sign_extension_at_the_boundaries() {
    // 0x0FF = 255 stays positive, 0x100 is the most negative value.
    let mut samples = [(0, 0); 12];
    samples[0] = (0x0FF, 0x100);
    samples[1] = (0x1FF, 0x0FE);
    samples[2] = (0x101, 0x001);
    let prb = IQPrbuData { reserved: 0, exponent: 0, iq_sample: pack_iq(&samples, 9) };
    let (_, out) = prb.get_iq_data(9).unwrap();
    assert_eq!(out[0], (255, -256));
    assert_eq!(out[1], (-1, 254));
    assert_eq!(out[2], (-255, 1));
    assert_eq!(out[3], (0, 0));
}

#[test]
fn all_ones_is_minus_one_at_every_width() {
    for mantissa in [1u16, 4, 8, 9, 12, 16] {
        let prb = IQPrbuData {
            reserved: 0,
            exponent: 0,
            iq_sample: vec![0xFF; 3 * usize::from(mantissa)],
        };
        let (rest, out) = prb.get_iq_data(mantissa).unwrap();
        assert!(rest.is_empty());
        assert_eq!(out, vec![(-1i16, -1i16); 12]);
    }
}

#[test]
fn sixteen_bit_samples_are_the_identity() {
    let samples: [(i32, i32); 12] = [
        (0, -1),
        (32767, -32768),
        (-32768, 32767),
        (1, 2),
        (-2, -3),
        (0x1234, -0x1234),
        (256, -256),
        (255, -255),
        (12345, -12345),
        (-1, 0),
        (7, 8),
        (-9, 10),
    ];
    let prb = block(0, &samples, 16);
    assert_eq!(prb.iq_sample.len(), 48);
    let (_, out) = prb.get_iq_data(16).unwrap();
    assert_eq!(as_i32(&out), samples.to_vec());
}

#[test]
fn other_widths_are_recovered() {
    let four: Vec<(i32, i32)> = (0..12).map(|k| (k - 8, 7 - k)).collect();
    let (_, out) = block(0, &four, 4).get_iq_data(4).unwrap();
    assert_eq!(as_i32(&out), four);
    let eight: Vec<(i32, i32)> = (0..12).map(|k| (k * 20 - 128, 127 - k * 23)).collect();
    let (_, out) = block(0, &eight, 8).get_iq_data(8).unwrap();
    assert_eq!(as_i32(&out), eight);
    let twelve: Vec<(i32, i32)> = (0..12).map(|k| (k * 300 - 2048, 2047 - k * 370)).collect();
    let (_, out) = block(0, &twelve, 12).get_iq_data(12).unwrap();
    assert_eq!(as_i32(&out), twelve);
}

#[test]
fn bytes_behind_the_samples_are_handed_back() {
    let mut prb = block(0, &NINE_BIT, 9);
    prb.iq_sample.extend_from_slice(&[0xDE, 0xAD]);
    let (rest, out) = prb.get_iq_data(9).unwrap();
    assert_eq!(rest, &[0xDE, 0xAD]);
    assert_eq!(as_i32(&out), NINE_BIT.to_vec());
}

#[test]
fn too_few_packed_bytes() {
    let prb = IQPrbuData { reserved: 0, exponent: 0, iq_sample: vec![0; 26] };
    assert_eq!(prb.get_iq_data(9).err(), Some(ErrorKind::NotEnoughBits));
    let prb = IQPrbuData { reserved: 0, exponent: 0, iq_sample: vec![] };
    assert_eq!(prb.get_iq_data(1).err(), Some(ErrorKind::NotEnoughBits));
    // Twelve bytes are enough for width 4 and not for width 9.
    let prb = IQPrbuData { reserved: 0, exponent: 0, iq_sample: vec![0; 12] };
    assert!(prb.get_iq_data(4).is_ok());
    assert_eq!(prb.get_iq_data(9).err(), Some(ErrorKind::NotEnoughBits));
}

#[test]
fn user_plane_message_fields() {
    // DL, version 1, PRACH filter; frame 77; sub-frame 9, slot 33, symbol 13.
    let mut bytes = vec![0x93, 77, 0x98, 0x4D, 0xAB, 0xC9, 0x55, 2];
    bytes.push(0x05);
    bytes.extend(pack_iq(&NINE_BIT, 9));
    bytes.push(0xF2);
    bytes.extend_from_slice(&[0x11; 27]);
    bytes.push(0x99);
    let (rest, msg) = UPlaneIQData::parse(&bytes, 9).unwrap();
    assert_eq!(rest, &[0x99]);
    assert_eq!(msg.dir, DataDirection::DL);
    assert_eq!(msg.payload_ver, 1);
    assert_eq!(msg.filter_index, FilterIndex::NR_PRACH);
    assert_eq!(msg.frame_id, 77);
    assert_eq!(msg.subframe_id, 9);
    assert_eq!(msg.slot_id, 33);
    assert_eq!(msg.start_symbol_id, 13);
    assert_eq!(msg.section_hdr.section_id, 0xABC);
    assert_eq!(msg.section_hdr.rb, 1);
    assert_eq!(msg.section_hdr.si, 0);
    assert_eq!(msg.section_hdr.start_prbc, 0x155);
    assert_eq!(msg.section_hdr.num_prbc, 2);
    assert_eq!(msg.iq_prbu.len(), 2);
    assert_eq!(msg.iq_prbu[0].reserved, 0);
    assert_eq!(msg.iq_prbu[0].exponent, 5);
    assert_eq!(msg.iq_prbu[0].iq_sample, pack_iq(&NINE_BIT, 9));
    assert_eq!(msg.iq_prbu[1].reserved, 0xF);
    assert_eq!(msg.iq_prbu[1].exponent, 2);
    assert_eq!(msg.iq_prbu[1].iq_sample, vec![0x11; 27]);
}

#[test]
fn user_plane_message_without_blocks() {
    let bytes = [0x10, 1, 0x00, 0x00, 0x00, 0x00, 0x00, 0, 0x42];
    let (rest, msg) = UPlaneIQData::parse(&bytes, 9).unwrap();
    assert_eq!(rest, &[0x42]);
    assert_eq!(msg.dir, DataDirection::UL);
    assert_eq!(msg.section_hdr.num_prbc, 0);
    assert!(msg.iq_prbu.is_empty());
}

#[test]
fn user_plane_message_failures() {
    assert_eq!(UPlaneIQData::parse(&[0x10, 1, 0, 0, 0, 0, 0], 9).err(), Some(ErrorKind::NotEnoughBytes));
    assert_eq!(
        UPlaneIQData::parse(&[0x11, 1, 0, 0, 0, 0, 0, 0], 9).err(),
        Some(ErrorKind::UnsupportedFilterIndex)
    );
    let mut bytes = vec![0x10, 1, 0, 0, 0, 0, 0, 2];
    bytes.extend_from_slice(&[0u8; 28]);
    bytes.extend_from_slice(&[0u8; 27]);
    assert_eq!(UPlaneIQData::parse(&bytes, 9).err(), Some(ErrorKind::NotEnoughBytes));
    bytes.push(0);
    assert!(UPlaneIQData::parse(&bytes, 9).is_ok());
    // The same bytes hold two blocks of width 9 and not of width 12.
    assert_eq!(UPlaneIQData::parse(&bytes, 12).err(), Some(ErrorKind::NotEnoughBytes));
}
