//! Draining the reassembly map in radio-time order.

use vstd::prelude::*;
use std::collections::BTreeMap;
use vstd::std_specs::btree::axiom_increasing_seq_meaning;
use vstd::std_specs::btree::increasing_seq;
use vstd::std_specs::btree::spec_keys_iter;
use vstd::std_specs::cmp::OrdSpec;
use vstd::std_specs::iter::IteratorSpec;
use crate::utility::ecpri_analysis::is_frame_of;
use crate::utility::ecpri_analysis::is_reassembly_of;
use crate::utility::ecpri_analysis::spec_has_key;
use crate::utility::ecpri_analysis::EcpriData;
use crate::utility::ecpri_analysis::Frame;
use crate::utility::ecpri_analysis::FrameKey;

verus! {

/// Lexicographic order of the keys: by physical channel, then frame, then
/// sub-frame, then slot, then symbol.
pub open spec fn key_lt(a: FrameKey, b: FrameKey) -> bool {
    a.0 < b.0 || (a.0 == b.0 && (a.1 < b.1 || (a.1 == b.1 && (a.2 < b.2 || (a.2 == b.2 && (a.3
        < b.3 || (a.3 == b.3 && a.4 < b.4)))))))
}

/// Whether `entries` is `map` laid out in key order: every entry of the
/// map once, under its key, each key below the next.
pub open spec fn is_drain_of(entries: Seq<(FrameKey, Frame)>, map: Map<FrameKey, Frame>) -> bool {
    &&& entries.len() == map.dom().len()
    &&& forall|i: int|
        0 <= i < entries.len() ==> map.contains_key((#[trigger] entries[i]).0) && entries[i].1
            == map[entries[i].0]
    &&& forall|i: int, j: int|
        0 <= i < j < entries.len() ==> key_lt((#[trigger] entries[i]).0, (#[trigger] entries[j]).0)
    &&& forall|k: FrameKey|
        map.contains_key(k) ==> exists|i: int|
            0 <= i < entries.len() && (#[trigger] entries[i]).0 == k
}

/// The drained reassembly of a capture lists, in key order, exactly the
/// radio symbols that a message of the capture belongs to, each with the
/// entry reassembled for it.
pub proof fn lemma_drained_reassembly(
    entries: Seq<(FrameKey, Frame)>,
    map: Map<FrameKey, Frame>,
    records: Seq<EcpriData>,
    mantissa: u16,
)
    requires
        is_reassembly_of(map, records, mantissa),
        is_drain_of(entries, map),
    ensures
        forall|i: int|
            0 <= i < entries.len() ==> spec_has_key(records, (#[trigger] entries[i]).0)
                && is_frame_of(entries[i].1, entries[i].0, records, mantissa),
        forall|k: FrameKey|
            spec_has_key(records, k) ==> exists|i: int|
                0 <= i < entries.len() && (#[trigger] entries[i]).0 == k,
        forall|i: int, j: int|
            0 <= i < j < entries.len() ==> key_lt((#[trigger] entries[i]).0, (#[trigger] entries[j]).0),
{
    assert forall|i: int| 0 <= i < entries.len() implies spec_has_key(
        records,
        (#[trigger] entries[i]).0,
    ) && is_frame_of(entries[i].1, entries[i].0, records, mantissa) by {
        assert(map.contains_key(entries[i].0));
    }
    assert forall|k: FrameKey| spec_has_key(records, k) implies exists|i: int|
        0 <= i < entries.len() && (#[trigger] entries[i]).0 == k by {
        assert(map.contains_key(k));
    }
}

/// The order in which the map keeps its keys is the lexicographic one.
proof fn lemma_key_order(a: FrameKey, b: FrameKey)
    ensures
        a.cmp_spec(&b) is Less <==> key_lt(a, b),
{
}

/// The keys of the map, lowest first.
fn sorted_keys(frame_data: &BTreeMap<FrameKey, Frame>) -> (r: Vec<FrameKey>)
    ensures
        r@.len() == frame_data@.dom().len(),
        r@.to_set() == frame_data@.dom(),
        r@.no_duplicates(),
        forall|i: int, j: int| 0 <= i < j < r@.len() ==> key_lt(#[trigger] r@[i], #[trigger] r@[j]),
{
    broadcast use vstd::laws_cmp::group_laws_cmp;

    assert(vstd::laws_cmp::obeys_cmp::<FrameKey>());
    assert(vstd::laws_cmp::obeys_cmp::<&FrameKey>());
    let mut r: Vec<FrameKey> = Vec::new();
    for k in it: frame_data.keys()
        invariant
            r@.len() == it.index(),
            forall|j: int| 0 <= j < r@.len() ==> r@[j] == *it.seq()[j],
    {
        r.push(*k);
    }
    proof {
        let ks = spec_keys_iter(frame_data).remaining();
        assert(r@ =~= ks.unref());
        assert(increasing_seq(ks));
        axiom_increasing_seq_meaning::<&FrameKey>(ks);
        assert forall|i: int, j: int| 0 <= i < j < r@.len() implies key_lt(
            #[trigger] r@[i],
            #[trigger] r@[j],
        ) by {
            assert(OrdSpec::cmp_spec(&ks[i], &ks[j]) is Less);
            lemma_key_order(*ks[i], *ks[j]);
        }
        assert forall|i: int, j: int| 0 <= i < r@.len() && 0 <= j < r@.len() && i != j implies r@[i]
            != r@[j] by {
            if i < j {
                assert(key_lt(r@[i], r@[j]));
            } else {
                assert(key_lt(r@[j], r@[i]));
            }
        }
    }
    r
}

/// Takes the entry of `key` out of the map.
fn take_entry(rest: &mut BTreeMap<FrameKey, Frame>, key: &FrameKey) -> (r: Option<Frame>)
    ensures
        final(rest)@ == old(rest)@.remove(*key),
        old(rest)@.contains_key(*key) ==> r == Some(old(rest)@[*key]),
        !old(rest)@.contains_key(*key) ==> r is None,
{
    broadcast use vstd::laws_cmp::group_laws_cmp;

    assert(vstd::laws_cmp::obeys_cmp::<FrameKey>());
    rest.remove(key)
}

/// Empties the reassembly map into a list in key order, which is
/// radio-time order within a physical channel.
pub fn drain(frame_data: BTreeMap<FrameKey, Frame>) -> (r: Vec<(FrameKey, Frame)>)
    ensures
        is_drain_of(r@, frame_data@),
{
    let keys = sorted_keys(&frame_data);
    let ghost map = frame_data@;
    let mut rest = frame_data;
    let mut r: Vec<(FrameKey, Frame)> = Vec::new();
    let mut n: usize = 0;
    while n < keys.len()
        invariant
            n <= keys@.len(),
            keys@.len() == map.dom().len(),
            keys@.to_set() == map.dom(),
            keys@.no_duplicates(),
            forall|i: int, j: int|
                0 <= i < j < keys@.len() ==> key_lt(#[trigger] keys@[i], #[trigger] keys@[j]),
            r@.len() == n,
            forall|i: int| 0 <= i < n ==> (#[trigger] r@[i]).0 == keys@[i] && r@[i].1 == map[keys@[i]],
            forall|i: int|
                n <= i < keys@.len() ==> rest@.contains_key(#[trigger] keys@[i]) && rest@[keys@[i]]
                    == map[keys@[i]],
        decreases keys@.len() - n,
    {
        let key = keys[n];
        let ghost before = rest@;
        match take_entry(&mut rest, &key) {
            Some(frame) => {
                proof {
                    assert forall|i: int| n + 1 <= i < keys@.len() implies rest@.contains_key(
                        #[trigger] keys@[i],
                    ) && rest@[keys@[i]] == map[keys@[i]] by {
                        assert(keys@[i] != keys@[n as int]);
                        assert(before.contains_key(keys@[i]));
                    }
                }
                r.push((key, frame));
            },
            None => {
                assert(before.contains_key(keys@[n as int]));
                assert(false);
            },
        }
        n = n + 1;
    }
    proof {
        assert forall|i: int| 0 <= i < r@.len() implies map.contains_key((#[trigger] r@[i]).0)
            && r@[i].1 == map[r@[i].0] by {
            assert(keys@.to_set().contains(keys@[i]));
        }
        assert forall|k: FrameKey| map.contains_key(k) implies exists|i: int|
            0 <= i < r@.len() && (#[trigger] r@[i]).0 == k by {
            assert(keys@.to_set().contains(k));
            let i = choose|i: int| 0 <= i < keys@.len() && keys@[i] == k;
            assert(r@[i].0 == k);
        }
    }
    r
}

} // verus!
