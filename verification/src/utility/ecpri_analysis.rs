//! IQ expansion and reassembly.
//!
//! The decoded user-plane messages of a capture are grouped by the radio
//! symbol they belong to, `(pc_id, frame, sub-frame, slot, symbol)`, and
//! the samples of each group are laid end to end in capture order.

use vstd::prelude::*;
use std::collections::BTreeMap;
use vstd::arithmetic::power2::lemma2_to64;
use vstd::arithmetic::power2::lemma_pow2_strictly_increases;
use vstd::arithmetic::power2::pow2;
use vstd::bits::lemma_u32_shl_is_mul;
use crate::protocols::ecpri::CommonHeader;
use crate::protocols::ecpri::EcpriType;
use crate::protocols::uplane::are_samples_of;
use crate::protocols::uplane::lemma_sign_extend_range;
use crate::protocols::uplane::spec_block_well_formed;
use crate::protocols::uplane::spec_blocks_well_formed;
use crate::protocols::uplane::spec_sample;
use crate::protocols::uplane::IQPrbuData;
use crate::cursor::lemma_bits_value_bound;

verus! {

/// One decoded eCPRI message with the time at which it was captured.
#[derive(Clone, Debug)]
pub struct EcpriData {
    /// Capture time: seconds since the epoch.
    pub ts_sec: u32,
    /// Capture time: microseconds within the second.
    pub ts_usec: u32,
    pub header: CommonHeader,
    pub data: EcpriType,
}

/// The samples of one radio symbol, reassembled.
#[derive(Clone, Debug)]
pub struct Frame {
    /// eCPRI physical channel identifier.
    pub pcid: u16,
    pub frame_id: u8,
    pub subframe_id: u8,
    pub slot_id: u8,
    /// Direction: 0 for uplink, 1 for downlink.
    pub slot_dir: u8,
    pub symb_id: u8,
    /// The samples, in-phase value first.
    pub iq: Vec<(i32, i32)>,
}

/// The decoded messages of a capture, in capture order.
#[derive(Clone, Debug)]
pub struct EcpriDataVec(pub Vec<EcpriData>);

/// The factor by which the samples of a block with the given exponent are
/// multiplied.
pub open spec fn spec_scaler(exponent: u8) -> int {
    pow2(exponent as nat) - 1
}

/// Sample number `k` of a resource block, scaled by the block's exponent.
/// For a block that can be expanded the products fit 32 bits (see
/// `lemma_scaled_sample_fits`), so nothing is cut off.
pub open spec fn spec_scaled_sample(prb: IQPrbuData, mantissa: u16, k: int) -> (i32, i32) {
    (
        (spec_sample(prb.iq_sample@, 0, mantissa as nat, k).0 * spec_scaler(prb.exponent)) as i32,
        (spec_sample(prb.iq_sample@, 0, mantissa as nat, k).1 * spec_scaler(prb.exponent)) as i32,
    )
}

/// The twelve scaled samples of a resource block.
pub open spec fn spec_block_iq(prb: IQPrbuData, mantissa: u16) -> Seq<(i32, i32)> {
    Seq::new(12, |k: int| spec_scaled_sample(prb, mantissa, k))
}

/// The scaled samples of a run of resource blocks, block after block.
pub open spec fn spec_prbu_iq(prbu: Seq<IQPrbuData>, mantissa: u16) -> Seq<(i32, i32)>
    decreases prbu.len(),
{
    if prbu.len() == 0 {
        Seq::empty()
    } else {
        spec_prbu_iq(prbu.drop_last(), mantissa) + spec_block_iq(prbu.last(), mantissa)
    }
}

/// Every resource block expands to twelve samples.
pub proof fn lemma_prbu_iq_len(prbu: Seq<IQPrbuData>, mantissa: u16)
    ensures
        spec_prbu_iq(prbu, mantissa).len() == 12 * prbu.len(),
    decreases prbu.len(),
{
    if prbu.len() > 0 {
        lemma_prbu_iq_len(prbu.drop_last(), mantissa);
    }
}

/// A scaled sample is the sign-extended sample times `2^exponent - 1`,
/// without wrap-around: the product fits 32 bits.
pub proof fn lemma_scaled_sample_fits(sample: int, mantissa: u16, exponent: u8)
    requires
        1 <= mantissa <= 16,
        exponent <= 15,
        -pow2((mantissa - 1) as nat) <= sample <= pow2((mantissa - 1) as nat) - 1,
    ensures
        -0x4000_0000 <= sample * spec_scaler(exponent) <= 0x4000_0000,
        0 <= spec_scaler(exponent) <= 0x7FFF,
{
    lemma2_to64();
    if mantissa < 16 {
        lemma_pow2_strictly_increases((mantissa - 1) as nat, 15);
    }
    if exponent < 15 {
        lemma_pow2_strictly_increases(exponent as nat, 15);
    }
    let s = spec_scaler(exponent);
    assert(-0x8000 * 0x7FFF <= sample * s <= 0x8000 * 0x7FFF) by (nonlinear_arith)
        requires
            -0x8000 <= sample <= 0x7FFF,
            0 <= s <= 0x7FFF,
    ;
}

/// The scale factor of a block: `2^exponent - 1`.
fn scaler_of(exponent: u8) -> (r: i32)
    requires
        exponent <= 15,
    ensures
        r == spec_scaler(exponent),
        0 <= r <= 0x7FFF,
{
    proof {
        lemma2_to64();
        if exponent < 15 {
            lemma_pow2_strictly_increases(exponent as nat, 15);
        }
        lemma_u32_shl_is_mul(1u32, exponent as u32);
    }
    let p: u32 = 1u32 << (exponent as u32);
    (p - 1) as i32
}

/// Says whether every block of `prbu` can be expanded with
/// `mantissa`-bit samples.
fn blocks_expandable(prbu: &Vec<IQPrbuData>, mantissa: u16) -> (r: bool)
    requires
        1 <= mantissa <= 16,
    ensures
        r == spec_blocks_well_formed(prbu@, mantissa),
{
    let need: usize = 3 * (mantissa as usize);
    let mut k: usize = 0;
    while k < prbu.len()
        invariant
            k <= prbu@.len(),
            need == 3 * mantissa,
            forall|j: int| 0 <= j < k ==> spec_block_well_formed(#[trigger] prbu@[j], mantissa),
        decreases prbu@.len() - k,
    {
        if prbu[k].exponent > 15 || prbu[k].iq_sample.len() < need {
            assert(!spec_block_well_formed(prbu@[k as int], mantissa));
            return false;
        }
        k = k + 1;
    }
    true
}

impl Default for EcpriDataVec {
    fn default() -> (r: EcpriDataVec)
        ensures
            r.0@.len() == 0,
    {
        EcpriDataVec(Vec::new())
    }
}

impl EcpriDataVec {
    /// An empty list.
    pub fn new() -> (r: EcpriDataVec)
        ensures
            r.0@.len() == 0,
    {
        EcpriDataVec(Vec::new())
    }

    /// Adds a message at the end.
    pub fn append(&mut self, data: EcpriData)
        ensures
            final(self).0@ == old(self).0@.push(data),
    {
        self.0.push(data);
    }

    /// Expands the resource blocks of one message: each block is unpacked
    /// into twelve sign-extended pairs, and each value is multiplied by
    /// `2^exponent - 1` with the block's exponent.  The width has to lie
    /// between 1 and 16, and each block has to hold its twelve pairs and
    /// an exponent of at most 15.
    pub fn get_prbu_data(prbu: &Vec<IQPrbuData>, mantissa: u16) -> (r: Vec<(i32, i32)>)
        requires
            1 <= mantissa <= 16,
            spec_blocks_well_formed(prbu@, mantissa),
        ensures
            r@ == spec_prbu_iq(prbu@, mantissa),
            r@.len() == 12 * prbu@.len(),
    {
        let mut iq_data: Vec<(i32, i32)> = Vec::new();
        let mut n: usize = 0;
        while n < prbu.len()
            invariant
                n <= prbu@.len(),
                1 <= mantissa <= 16,
                spec_blocks_well_formed(prbu@, mantissa),
                iq_data@ == spec_prbu_iq(prbu@.take(n as int), mantissa),
            decreases prbu@.len() - n,
        {
            let iq = &prbu[n];
            let scaler = scaler_of(iq.exponent);
            let samples = match iq.get_iq_data(mantissa) {
                Ok((_, samples)) => samples,
                Err(_) => vstd::pervasive::unreached(),
            };
            let ghost before = iq_data@;
            let mut k: usize = 0;
            while k < 12
                invariant
                    k <= 12,
                    1 <= mantissa <= 16,
                    iq.exponent <= 15,
                    scaler == spec_scaler(iq.exponent),
                    are_samples_of(samples@, iq.iq_sample@, 0, mantissa as nat, 12),
                    iq_data@ == before + spec_block_iq(*iq, mantissa).take(k as int),
                decreases 12 - k,
            {
                let d = samples[k];
                proof {
                    let m = mantissa as nat;
                    lemma_bits_value_bound(iq.iq_sample@, 0 + 2 * k * m, m);
                    lemma_bits_value_bound(iq.iq_sample@, 0 + (2 * k + 1) * m, m);
                    lemma_sign_extend_range(
                        crate::cursor::bits_value(iq.iq_sample@, 0 + 2 * k * m, m),
                        m,
                    );
                    lemma_sign_extend_range(
                        crate::cursor::bits_value(iq.iq_sample@, 0 + (2 * k + 1) * m, m),
                        m,
                    );
                    lemma_scaled_sample_fits(d.0 as int, mantissa, iq.exponent);
                    lemma_scaled_sample_fits(d.1 as int, mantissa, iq.exponent);
                }
                let pair = ((d.0 as i32) * scaler, (d.1 as i32) * scaler);
                proof {
                    assert(pair == spec_scaled_sample(*iq, mantissa, k as int));
                    assert(spec_block_iq(*iq, mantissa).take(k + 1) =~= spec_block_iq(
                        *iq,
                        mantissa,
                    ).take(k as int).push(pair));
                }
                iq_data.push(pair);
                k = k + 1;
            }
            proof {
                assert(spec_block_iq(*iq, mantissa).take(12) =~= spec_block_iq(*iq, mantissa));
                assert(prbu@.take(n + 1).drop_last() =~= prbu@.take(n as int));
                assert(prbu@.take(n + 1).last() == prbu@[n as int]);
            }
            n = n + 1;
        }
        proof {
            assert(prbu@.take(prbu@.len() as int) =~= prbu@);
            lemma_prbu_iq_len(prbu@, mantissa);
        }
        iq_data
    }
}

/// What the samples of a capture are grouped by: physical channel, frame,
/// sub-frame, slot and symbol.
pub type FrameKey = (u16, u8, u8, u8, u8);

/// The radio symbol that a message carries samples for; none for a
/// control-plane message.
pub open spec fn spec_key(d: EcpriData) -> Option<FrameKey> {
    match d.data {
        EcpriType::IQData(u) => Some(
            (d.header.pcid, u.frame_id, u.subframe_id, u.slot_id, u.start_symbol_id),
        ),
        _ => None,
    }
}

/// The expanded samples of a message; none for a control-plane message.
pub open spec fn spec_record_iq(d: EcpriData, mantissa: u16) -> Seq<(i32, i32)> {
    match d.data {
        EcpriType::IQData(u) => spec_prbu_iq(u.iq_prbu@, mantissa),
        _ => Seq::empty(),
    }
}

/// The direction of a user-plane message as a number; 0 for a
/// control-plane message.
pub open spec fn spec_record_dir(d: EcpriData) -> u8 {
    match d.data {
        EcpriType::IQData(u) => u.dir.spec_value(),
        _ => 0,
    }
}

/// The number of resource blocks that the section header of a message
/// announces; 0 for a control-plane message.
pub open spec fn spec_record_num_prbc(d: EcpriData) -> nat {
    match d.data {
        EcpriType::IQData(u) => u.section_hdr.num_prbc as nat,
        _ => 0,
    }
}

/// Whether the resource blocks of a message can be expanded with
/// `mantissa`-bit samples.
pub open spec fn spec_record_expandable(d: EcpriData, mantissa: u16) -> bool {
    match d.data {
        EcpriType::IQData(u) => spec_blocks_well_formed(u.iq_prbu@, mantissa),
        _ => true,
    }
}

/// Whether all messages of a capture can be expanded.
pub open spec fn spec_expandable(records: Seq<EcpriData>, mantissa: u16) -> bool {
    forall|i: int|
        0 <= i < records.len() ==> spec_record_expandable(#[trigger] records[i], mantissa)
}

/// Whether a message holds as many resource blocks as its section header
/// announces.
pub open spec fn spec_record_counts_match(d: EcpriData) -> bool {
    match d.data {
        EcpriType::IQData(u) => u.spec_counts_match(),
        _ => true,
    }
}

/// Whether some message of the capture belongs to `key`.
pub open spec fn spec_has_key(records: Seq<EcpriData>, key: FrameKey) -> bool {
    exists|i: int| 0 <= i < records.len() && spec_key(#[trigger] records[i]) == Some(key)
}

/// The samples of `key`: those of its messages, laid end to end in
/// capture order.
pub open spec fn spec_key_iq(records: Seq<EcpriData>, key: FrameKey, mantissa: u16) -> Seq<
    (i32, i32),
>
    decreases records.len(),
{
    if records.len() == 0 {
        Seq::empty()
    } else if spec_key(records.last()) == Some(key) {
        spec_key_iq(records.drop_last(), key, mantissa) + spec_record_iq(records.last(), mantissa)
    } else {
        spec_key_iq(records.drop_last(), key, mantissa)
    }
}

/// The direction of `key`: that of the first of its messages.
pub open spec fn spec_key_dir(records: Seq<EcpriData>, key: FrameKey) -> u8
    decreases records.len(),
{
    if records.len() == 0 {
        0
    } else if spec_has_key(records.drop_last(), key) {
        spec_key_dir(records.drop_last(), key)
    } else {
        spec_record_dir(records.last())
    }
}

/// The number of resource blocks that the messages of `key` announce,
/// summed over the capture.
pub open spec fn spec_key_num_prbc(records: Seq<EcpriData>, key: FrameKey) -> nat
    decreases records.len(),
{
    if records.len() == 0 {
        0
    } else if spec_key(records.last()) == Some(key) {
        spec_key_num_prbc(records.drop_last(), key) + spec_record_num_prbc(records.last())
    } else {
        spec_key_num_prbc(records.drop_last(), key)
    }
}

/// Whether `f` is the reassembled entry of `key` for the capture.
pub open spec fn is_frame_of(
    f: Frame,
    key: FrameKey,
    records: Seq<EcpriData>,
    mantissa: u16,
) -> bool {
    &&& f.pcid == key.0
    &&& f.frame_id == key.1
    &&& f.subframe_id == key.2
    &&& f.slot_id == key.3
    &&& f.symb_id == key.4
    &&& f.slot_dir == spec_key_dir(records, key)
    &&& f.iq@ == spec_key_iq(records, key, mantissa)
}

/// Whether `map` is the reassembly of the capture: it has an entry for
/// each radio symbol that a message belongs to and for no other, and each
/// entry holds the samples of its symbol in capture order.
pub open spec fn is_reassembly_of(
    map: Map<FrameKey, Frame>,
    records: Seq<EcpriData>,
    mantissa: u16,
) -> bool {
    forall|key: FrameKey|
        (#[trigger] map.contains_key(key) <==> spec_has_key(records, key)) && (map.contains_key(key)
            ==> is_frame_of(map[key], key, records, mantissa))
}

/// Whether `after` is `before` with one more message taken in: a
/// control-plane message changes nothing; a user-plane message extends the
/// entry of its radio symbol, or makes one with its direction.
pub open spec fn is_ingested(
    before: Map<FrameKey, Frame>,
    after: Map<FrameKey, Frame>,
    d: EcpriData,
    mantissa: u16,
) -> bool {
    match spec_key(d) {
        None => after == before,
        Some(key) => {
            &&& after.dom() == before.dom().insert(key)
            &&& forall|k: FrameKey|
                k != key && #[trigger] before.contains_key(k) ==> after[k] == before[k]
            &&& if before.contains_key(key) {
                &&& after[key].pcid == before[key].pcid
                &&& after[key].frame_id == before[key].frame_id
                &&& after[key].subframe_id == before[key].subframe_id
                &&& after[key].slot_id == before[key].slot_id
                &&& after[key].symb_id == before[key].symb_id
                &&& after[key].slot_dir == before[key].slot_dir
                &&& after[key].iq@ == before[key].iq@ + spec_record_iq(d, mantissa)
            } else {
                &&& after[key].pcid == key.0
                &&& after[key].frame_id == key.1
                &&& after[key].subframe_id == key.2
                &&& after[key].slot_id == key.3
                &&& after[key].symb_id == key.4
                &&& after[key].slot_dir == spec_record_dir(d)
                &&& after[key].iq@ == spec_record_iq(d, mantissa)
            }
        },
    }
}

/// A capture with one more message has the keys of the capture and that
/// of the message.
pub proof fn lemma_has_key_push(records: Seq<EcpriData>, d: EcpriData, key: FrameKey)
    ensures
        spec_has_key(records.push(d), key) <==> spec_has_key(records, key) || spec_key(d) == Some(
            key,
        ),
{
    let longer = records.push(d);
    if spec_has_key(records, key) {
        let i = choose|i: int| 0 <= i < records.len() && spec_key(#[trigger] records[i]) == Some(key);
        assert(longer[i] == records[i]);
    }
    if spec_key(d) == Some(key) {
        assert(longer[records.len() as int] == d);
    }
    if spec_has_key(longer, key) {
        let i = choose|i: int| 0 <= i < longer.len() && spec_key(#[trigger] longer[i]) == Some(key);
        if i < records.len() {
            assert(longer[i] == records[i]);
        }
    }
}

/// A radio symbol that no message belongs to has no samples.
pub proof fn lemma_absent_key_iq(records: Seq<EcpriData>, key: FrameKey, mantissa: u16)
    requires
        !spec_has_key(records, key),
    ensures
        spec_key_iq(records, key, mantissa) == Seq::<(i32, i32)>::empty(),
    decreases records.len(),
{
    if records.len() > 0 {
        let shorter = records.drop_last();
        assert(records =~= shorter.push(records.last()));
        lemma_has_key_push(shorter, records.last(), key);
        lemma_absent_key_iq(shorter, key, mantissa);
    }
}

/// Taking one more message into the reassembly of a capture gives the
/// reassembly of the capture with that message at its end.
pub proof fn lemma_ingest_step(
    before: Map<FrameKey, Frame>,
    after: Map<FrameKey, Frame>,
    records: Seq<EcpriData>,
    d: EcpriData,
    mantissa: u16,
)
    requires
        is_reassembly_of(before, records, mantissa),
        is_ingested(before, after, d, mantissa),
    ensures
        is_reassembly_of(after, records.push(d), mantissa),
{
    let longer = records.push(d);
    assert(longer.drop_last() =~= records);
    assert(longer.last() == d);
    assert forall|key: FrameKey|
        (#[trigger] after.contains_key(key) <==> spec_has_key(longer, key)) && (after.contains_key(
            key,
        ) ==> is_frame_of(after[key], key, longer, mantissa)) by {
        lemma_has_key_push(records, d, key);
        assert(before.contains_key(key) <==> spec_has_key(records, key));
        if spec_key(d) == Some(key) {
            assert(after.dom().contains(key));
            if before.contains_key(key) {
                assert(is_frame_of(before[key], key, records, mantissa));
            } else {
                lemma_absent_key_iq(records, key, mantissa);
                assert(Seq::<(i32, i32)>::empty() + spec_record_iq(d, mantissa) =~= spec_record_iq(
                    d,
                    mantissa,
                ));
            }
            assert(is_frame_of(after[key], key, longer, mantissa));
        } else {
            assert(after.dom().contains(key) <==> before.dom().contains(key));
            if before.contains_key(key) {
                assert(is_frame_of(before[key], key, records, mantissa));
                assert(after[key] == before[key]);
                assert(is_frame_of(after[key], key, longer, mantissa));
            }
        }
    }
}

/// Each reassembled entry holds twelve samples for every resource block
/// that the messages of its radio symbol announce, provided that each
/// message holds as many blocks as it announces.
pub proof fn lemma_key_iq_len(records: Seq<EcpriData>, key: FrameKey, mantissa: u16)
    requires
        forall|i: int| 0 <= i < records.len() ==> spec_record_counts_match(#[trigger] records[i]),
    ensures
        spec_key_iq(records, key, mantissa).len() == 12 * spec_key_num_prbc(records, key),
    decreases records.len(),
{
    if records.len() > 0 {
        let shorter = records.drop_last();
        assert forall|i: int| 0 <= i < shorter.len() implies spec_record_counts_match(
            #[trigger] shorter[i],
        ) by {
            assert(shorter[i] == records[i]);
        }
        lemma_key_iq_len(shorter, key, mantissa);
        let d = records.last();
        assert(spec_record_counts_match(d));
        if spec_key(d) == Some(key) {
            match d.data {
                EcpriType::IQData(u) => {
                    lemma_prbu_iq_len(u.iq_prbu@, mantissa);
                },
                _ => {},
            }
        }
    }
}

/// In the reassembly of a capture whose messages hold as many resource
/// blocks as they announce, each entry holds twelve samples for every
/// block announced for its radio symbol.
pub proof fn lemma_entry_len(
    map: Map<FrameKey, Frame>,
    records: Seq<EcpriData>,
    key: FrameKey,
    mantissa: u16,
)
    requires
        is_reassembly_of(map, records, mantissa),
        forall|i: int| 0 <= i < records.len() ==> spec_record_counts_match(#[trigger] records[i]),
        map.contains_key(key),
    ensures
        map[key].iq@.len() == 12 * spec_key_num_prbc(records, key),
{
    lemma_key_iq_len(records, key, mantissa);
}

/// A user-plane message without resource blocks still gets the entry of
/// its radio symbol: a new entry holds no samples, and an entry that was
/// there keeps the samples it had.
pub proof fn lemma_ingest_empty_message(
    before: Map<FrameKey, Frame>,
    after: Map<FrameKey, Frame>,
    d: EcpriData,
    mantissa: u16,
)
    requires
        is_ingested(before, after, d, mantissa),
        spec_key(d) is Some,
        d.data->IQData_0.iq_prbu@.len() == 0,
    ensures
        after.contains_key(spec_key(d)->Some_0),
        !before.contains_key(spec_key(d)->Some_0) ==> after[spec_key(d)->Some_0].iq@.len() == 0,
        before.contains_key(spec_key(d)->Some_0) ==> after[spec_key(d)->Some_0].iq@
            == before[spec_key(d)->Some_0].iq@,
{
    let key = spec_key(d)->Some_0;
    assert(after.dom().contains(key));
    assert(spec_record_iq(d, mantissa) =~= Seq::<(i32, i32)>::empty());
    if before.contains_key(key) {
        assert(before[key].iq@ + Seq::<(i32, i32)>::empty() =~= before[key].iq@);
    }
}

/// Takes one message into the reassembly map.  The message has to be one
/// that can be expanded with `mantissa`-bit samples.
pub fn ingest(frame_data: &mut BTreeMap<FrameKey, Frame>, record: &EcpriData, mantissa: u16)
    requires
        1 <= mantissa <= 16,
        spec_record_expandable(*record, mantissa),
    ensures
        is_ingested(old(frame_data)@, final(frame_data)@, *record, mantissa),
{
    broadcast use vstd::laws_cmp::group_laws_cmp;

    assert(vstd::laws_cmp::obeys_cmp::<FrameKey>());
    match &record.data {
        EcpriType::IQData(iq_data) => {
            let pcid = record.header.pcid;
            let frame_id = iq_data.frame_id;
            let subframe_id = iq_data.subframe_id;
            let slot_id = iq_data.slot_id;
            let symb_id = iq_data.start_symbol_id;
            let key = (pcid, frame_id, subframe_id, slot_id, symb_id);
            let mut iq = EcpriDataVec::get_prbu_data(&iq_data.iq_prbu, mantissa);
            match frame_data.remove(&key) {
                None => {
                    frame_data.insert(
                        key,
                        Frame {
                            pcid,
                            frame_id,
                            subframe_id,
                            slot_id,
                            slot_dir: iq_data.dir.value(),
                            symb_id,
                            iq,
                        },
                    );
                },
                Some(frame) => {
                    let mut frame = frame;
                    frame.iq.append(&mut iq);
                    frame_data.insert(key, frame);
                },
            }
            proof {
                assert(final(frame_data)@.dom() =~= old(frame_data)@.dom().insert(key));
            }
        },
        _ => {},
    }
}

impl EcpriDataVec {
    /// Says whether every stored message can be expanded with
    /// `mantissa`-bit samples, which is what `parse_iq_data` asks for.
    pub fn is_expandable(&self, mantissa: u16) -> (r: bool)
        ensures
            r == (1 <= mantissa <= 16 && spec_expandable(self.0@, mantissa)),
    {
        if mantissa < 1 || mantissa > 16 {
            return false;
        }
        let mut n: usize = 0;
        while n < self.0.len()
            invariant
                n <= self.0@.len(),
                1 <= mantissa <= 16,
                forall|i: int| 0 <= i < n ==> spec_record_expandable(#[trigger] self.0@[i], mantissa),
            decreases self.0@.len() - n,
        {
            match &self.0[n].data {
                EcpriType::IQData(u) => {
                    if !blocks_expandable(&u.iq_prbu, mantissa) {
                        assert(!spec_record_expandable(self.0@[n as int], mantissa));
                        return false;
                    }
                },
                _ => {},
            }
            n = n + 1;
        }
        true
    }

    /// Reassembles the IQ samples of the capture: one entry for each radio
    /// symbol that a user-plane message belongs to, holding the expanded
    /// samples of those messages in capture order and the direction of
    /// the first of them.  The messages have to be such that
    /// `is_expandable` says yes.
    pub fn parse_iq_data(self, mantissa: u16) -> (r: BTreeMap<FrameKey, Frame>)
        requires
            1 <= mantissa <= 16,
            spec_expandable(self.0@, mantissa),
        ensures
            is_reassembly_of(r@, self.0@, mantissa),
    {
        let mut frame_data: BTreeMap<FrameKey, Frame> = BTreeMap::new();
        let mut n: usize = 0;
        proof {
            assert(self.0@.take(0) =~= Seq::<EcpriData>::empty());
        }
        while n < self.0.len()
            invariant
                n <= self.0@.len(),
                1 <= mantissa <= 16,
                spec_expandable(self.0@, mantissa),
                is_reassembly_of(frame_data@, self.0@.take(n as int), mantissa),
            decreases self.0@.len() - n,
        {
            let ghost before = frame_data@;
            ingest(&mut frame_data, &self.0[n], mantissa);
            proof {
                lemma_ingest_step(
                    before,
                    frame_data@,
                    self.0@.take(n as int),
                    self.0@[n as int],
                    mantissa,
                );
                assert(self.0@.take(n as int).push(self.0@[n as int]) =~= self.0@.take(n + 1));
            }
            n = n + 1;
        }
        proof {
            assert(self.0@.take(self.0@.len() as int) =~= self.0@);
        }
        frame_data
    }
}

} // verus!
