//! Removal of duplicate devices: the first device with a given name or
//! hardware text stays, later ones that share either with it are dropped.

use vstd::prelude::*;
use crate::device::{Device, DeviceView};

verus! {

/// Two devices clash when they carry the same name or the same hardware text.
pub open spec fn clashes(a: DeviceView, b: DeviceView) -> bool {
    a.name == b.name || a.mac == b.mac
}

/// Some device of `kept` clashes with `candidate`.
pub open spec fn clashes_with_any(kept: Seq<DeviceView>, candidate: DeviceView) -> bool {
    exists|i: int| 0 <= i < kept.len() && clashes(#[trigger] kept[i], candidate)
}

/// No two devices of the list share a name, and no two share a hardware text.
pub open spec fn distinct(devices: Seq<DeviceView>) -> bool {
    forall|i: int, j: int|
        0 <= i < j < devices.len() ==> !clashes(#[trigger] devices[i], #[trigger] devices[j])
}

/// The devices of `raw` that are accepted when the list is read front to
/// back and a device is accepted unless it clashes with one accepted before.
pub open spec fn dedup(raw: Seq<DeviceView>) -> Seq<DeviceView>
    decreases raw.len(),
{
    if raw.len() == 0 {
        Seq::empty()
    } else {
        let kept = dedup(raw.drop_last());
        if clashes_with_any(kept, raw.last()) {
            kept
        } else {
            kept.push(raw.last())
        }
    }
}

/// The positions in `raw` of the devices that `dedup` accepts, in rising order.
pub open spec fn kept_positions(raw: Seq<DeviceView>) -> Seq<int>
    decreases raw.len(),
{
    if raw.len() == 0 {
        Seq::empty()
    } else {
        let before = kept_positions(raw.drop_last());
        if clashes_with_any(dedup(raw.drop_last()), raw.last()) {
            before
        } else {
            before.push(raw.len() - 1)
        }
    }
}

/// Whether `candidate` shares its name or its hardware text with a device of `kept`.
pub fn device_exists(kept: &Vec<Device>, candidate: &Device) -> (found: bool)
    ensures
        found == clashes_with_any(kept.deep_view(), candidate@),
{
    let mut i: usize = 0;
    while i < kept.len()
        invariant
            i <= kept.len(),
            forall|k: int| 0 <= k < i ==> !clashes(#[trigger] kept.deep_view()[k], candidate@),
        decreases kept.len() - i,
    {
        if kept[i].name == candidate.name || kept[i].mac == candidate.mac {
            assert(clashes(kept.deep_view()[i as int], candidate@));
            return true;
        }
        i += 1;
    }
    false
}

/// Drops from `raw` every device that clashes with one accepted before it.
/// The devices that stay keep their relative order.
pub fn dedup_devices(raw: &Vec<Device>) -> (devices: Vec<Device>)
    ensures
        devices.deep_view() == dedup(raw.deep_view()),
        distinct(devices.deep_view()),
{
    let mut devices: Vec<Device> = Vec::new();
    let mut i: usize = 0;
    assert(raw.deep_view().take(0) =~= Seq::<DeviceView>::empty());
    while i < raw.len()
        invariant
            i <= raw.len(),
            devices.deep_view() == dedup(raw.deep_view().take(i as int)),
        decreases raw.len() - i,
    {
        let ghost before = devices.deep_view();
        let ghost next = raw.deep_view().take(i + 1);
        assert(next.drop_last() =~= raw.deep_view().take(i as int));
        assert(next.last() == raw[i as int]@);
        if !device_exists(&devices, &raw[i]) {
            devices.push(raw[i].clone());
            assert(devices.deep_view() =~= before.push(raw[i as int]@));
        }
        i += 1;
    }
    assert(raw.deep_view().take(raw.len() as int) =~= raw.deep_view());
    proof {
        lemma_dedup_distinct(raw.deep_view());
    }
    devices
}

/// After deduplication no two devices share a name or a hardware text.
pub proof fn lemma_dedup_distinct(raw: Seq<DeviceView>)
    ensures
        distinct(dedup(raw)),
    decreases raw.len(),
{
    if raw.len() > 0 {
        lemma_dedup_distinct(raw.drop_last());
    }
}

/// The accepted devices are the devices of `raw` at rising positions: what
/// stays, stays in the order in which it came.
pub proof fn lemma_dedup_in_order(raw: Seq<DeviceView>)
    ensures
        kept_positions(raw).len() == dedup(raw).len(),
        forall|i: int|
            0 <= i < dedup(raw).len() ==> 0 <= #[trigger] kept_positions(raw)[i] < raw.len()
                && dedup(raw)[i] == raw[kept_positions(raw)[i]],
        forall|i: int, j: int|
            0 <= i < j < dedup(raw).len() ==> #[trigger] kept_positions(raw)[i]
                < #[trigger] kept_positions(raw)[j],
    decreases raw.len(),
{
    if raw.len() > 0 {
        lemma_dedup_in_order(raw.drop_last());
    }
}

/// Deduplication invents nothing: every accepted device is one of `raw`.
pub proof fn lemma_dedup_members(raw: Seq<DeviceView>)
    ensures
        forall|i: int| 0 <= i < dedup(raw).len() ==> raw.contains(#[trigger] dedup(raw)[i]),
{
    lemma_dedup_in_order(raw);
    assert forall|i: int| 0 <= i < dedup(raw).len() implies raw.contains(
        #[trigger] dedup(raw)[i],
    ) by {
        assert(raw[kept_positions(raw)[i]] == dedup(raw)[i]);
    }
}

/// The first of several clashing devices wins: the device at position `k`
/// is accepted, or it clashes with a device accepted from an earlier position.
/// It is accepted exactly when it clashes with none accepted before it.
pub proof fn lemma_dedup_first_wins(raw: Seq<DeviceView>, k: int)
    requires
        0 <= k < raw.len(),
    ensures
        kept_positions(raw).contains(k) <==> !clashes_with_any(dedup(raw.take(k)), raw[k]),
        !kept_positions(raw).contains(k) ==> exists|i: int|
            0 <= i < dedup(raw).len() && kept_positions(raw)[i] < k && clashes(
                #[trigger] dedup(raw)[i],
                raw[k],
            ),
    decreases raw.len(),
{
    let front = raw.drop_last();
    lemma_dedup_in_order(raw);
    lemma_dedup_in_order(front);
    if k == raw.len() - 1 {
        assert(raw.take(k) =~= front);
        if clashes_with_any(dedup(front), raw.last()) {
            let i = choose|i: int| 0 <= i < dedup(front).len() && clashes(#[trigger] dedup(front)[i], raw.last());
            assert(dedup(raw)[i] == dedup(front)[i]);
            if kept_positions(raw).contains(k) {
                let j = choose|j: int| 0 <= j < kept_positions(raw).len() && kept_positions(raw)[j] == k;
                assert(kept_positions(front)[j] < front.len());
            }
        } else {
            assert(kept_positions(raw)[kept_positions(front).len() as int] == k);
        }
    } else {
        lemma_dedup_first_wins(front, k);
        assert(front.take(k) =~= raw.take(k));
        assert(front[k] == raw[k]);
        lemma_dedup_prefix(raw);
        if kept_positions(front).contains(k) {
            let j = choose|j: int| 0 <= j < kept_positions(front).len() && kept_positions(front)[j] == k;
            assert(kept_positions(raw)[j] == k);
        } else {
            if kept_positions(raw).contains(k) {
                let j = choose|j: int| 0 <= j < kept_positions(raw).len() && kept_positions(raw)[j] == k;
                if j < kept_positions(front).len() {
                    assert(kept_positions(front)[j] == k);
                }
            }
            let i = choose|i: int|
                0 <= i < dedup(front).len() && kept_positions(front)[i] < k && clashes(
                    #[trigger] dedup(front)[i],
                    front[k],
                );
            assert(dedup(raw)[i] == dedup(front)[i]);
        }
    }
}

/// Reading one more device never changes what was accepted before it.
pub proof fn lemma_dedup_prefix(raw: Seq<DeviceView>)
    requires
        raw.len() > 0,
    ensures
        dedup(raw.drop_last()).len() <= dedup(raw).len(),
        dedup(raw).take(dedup(raw.drop_last()).len() as int) == dedup(raw.drop_last()),
        kept_positions(raw).take(dedup(raw.drop_last()).len() as int) == kept_positions(
            raw.drop_last(),
        ),
{
    lemma_dedup_in_order(raw);
    lemma_dedup_in_order(raw.drop_last());
    assert(dedup(raw).take(dedup(raw.drop_last()).len() as int) =~= dedup(raw.drop_last()));
    assert(kept_positions(raw).take(dedup(raw.drop_last()).len() as int) =~= kept_positions(
        raw.drop_last(),
    ));
}

/// A list without clashes is left as it is.
pub proof fn lemma_dedup_of_distinct(raw: Seq<DeviceView>)
    requires
        distinct(raw),
    ensures
        dedup(raw) == raw,
    decreases raw.len(),
{
    if raw.len() > 0 {
        let front = raw.drop_last();
        lemma_dedup_of_distinct(front);
        assert(!clashes_with_any(front, raw.last())) by {
            if clashes_with_any(front, raw.last()) {
                let i = choose|i: int| 0 <= i < front.len() && clashes(#[trigger] front[i], raw.last());
                assert(clashes(raw[i], raw[raw.len() - 1]));
            }
        }
        assert(dedup(raw) =~= raw);
    }
}

/// Deduplicating twice gives what deduplicating once gives.
pub proof fn lemma_dedup_idempotent(raw: Seq<DeviceView>)
    ensures
        dedup(dedup(raw)) == dedup(raw),
{
    lemma_dedup_distinct(raw);
    lemma_dedup_of_distinct(dedup(raw));
}

/// The first device of a list is always accepted, and stays first.
pub proof fn lemma_dedup_keeps_head(raw: Seq<DeviceView>)
    requires
        raw.len() > 0,
    ensures
        dedup(raw).len() > 0,
        dedup(raw)[0] == raw[0],
    decreases raw.len(),
{
    if raw.len() > 1 {
        lemma_dedup_keeps_head(raw.drop_last());
    } else {
        assert(raw.drop_last() =~= Seq::<DeviceView>::empty());
        assert(dedup(raw.drop_last()) =~= Seq::<DeviceView>::empty());
    }
}

} // verus!
