//! Devices: who gets how many, and what stays free.

use vstd::prelude::*;

use crate::text;
use crate::resource::nvidia::{
    by_index_desc, demand, device_texts, effective_free, fresh_samples, held_bytes, held_exclusive,
    kept_after, lemma_by_index_desc, min_u64, reserve_outcome, select_from, selection, unit_of,
    units_bytes, units_exclusive, without_hold, CacheModel, GpuReservation, GpuSample, HoldModel,
    Selection,
};
use crate::resource::types::{JobId, ResourceQuantity};
use crate::text::Text;

verus! {

// ── What is free ──

/// A device can give `mem` bytes just when no reservation has it for itself and the bytes
/// fit beside the margin into what is free, and beside the margin and all that is reserved
/// on it into its memory.
pub proof fn lemma_room_on_a_device(s: GpuSample, holds: Seq<HoldModel>, margin: u64, mem: u64)
    ensures
        effective_free(s, holds, margin) is None <==> held_exclusive(holds, s.index),
        mem > 0 ==> ((effective_free(s, holds, margin) matches Some(free) && free >= mem) <==> (
        !held_exclusive(holds, s.index) && mem + margin <= s.free_mem && held_bytes(holds, s.index)
            + mem + margin <= s.total_mem)),
{
}

/// A reservation takes of a device what its units take of it, and has it for itself just
/// when one of them does.
pub proof fn lemma_reserved_on_a_device(holds: Seq<HoldModel>, h: HoldModel, index: u32)
    ensures
        held_bytes(Seq::empty(), index) == 0,
        held_bytes(holds.push(h), index) == held_bytes(holds, index) + units_bytes(h.units, index),
        held_exclusive(holds.push(h), index) <==> held_exclusive(holds, index) || exists|i: int|
            0 <= i < h.units.len() && (#[trigger] h.units[i]).index == index
                && h.units[i].exclusive,
{
    let more = holds.push(h);
    assert(more.drop_last() =~= holds);
    if held_exclusive(holds, index) {
        let i = choose|i: int|
            0 <= i < holds.len() && units_exclusive((#[trigger] holds[i]).units, index);
        assert(more[i] == holds[i]);
    }
    if units_exclusive(h.units, index) {
        assert(units_exclusive(more[holds.len() as int].units, index));
    }
    if held_exclusive(more, index) {
        let i = choose|i: int|
            0 <= i < more.len() && units_exclusive((#[trigger] more[i]).units, index);
        if i < holds.len() {
            assert(holds[i] == more[i]);
        }
    }
}

/// A unit takes its bytes of its own device and of no other.
pub proof fn lemma_bytes_of_a_unit(units: Seq<GpuReservation>, u: GpuReservation, index: u32)
    ensures
        units_bytes(Seq::empty(), index) == 0,
        units_bytes(units.push(u), index) - units_bytes(units, index) == if u.index == index {
            u.bytes as int
        } else {
            0
        },
{
    assert(units.push(u).drop_last() =~= units);
}

// ── Which devices are taken ──

/// A sample shows a device that can give `mem` bytes.
pub open spec fn gives(holds: Seq<HoldModel>, margin: u64, mem: u64) -> spec_fn(GpuSample) -> bool {
    |s: GpuSample| !held_exclusive(holds, s.index) && (mem > 0 ==> mem + margin <= s.free_mem
        && held_bytes(holds, s.index) + mem + margin <= s.total_mem)
}

pub open spec fn indices(samples: Seq<GpuSample>) -> Seq<u32> {
    samples.map_values(|s: GpuSample| s.index)
}

/// The first `n` of the samples, or all of them.
pub open spec fn at_most(samples: Seq<GpuSample>, n: int) -> Seq<GpuSample> {
    if n <= 0 {
        Seq::empty()
    } else if n <= samples.len() {
        samples.take(n)
    } else {
        samples
    }
}

proof fn lemma_filter_first(s: Seq<GpuSample>, i: int, p: spec_fn(GpuSample) -> bool)
    requires
        0 <= i < s.len(),
    ensures
        s.skip(i).filter(p) == if p(s[i]) {
            seq![s[i]] + s.skip(i + 1).filter(p)
        } else {
            s.skip(i + 1).filter(p)
        },
{
    let rest = s.skip(i + 1);
    assert(s.skip(i) =~= seq![s[i]] + rest);
    Seq::filter_distributes_over_add(seq![s[i]], rest, p);
    reveal(Seq::filter);
    assert(seq![s[i]].drop_last() =~= Seq::<GpuSample>::empty());
    assert(Seq::<GpuSample>::empty().filter(p) =~= Seq::<GpuSample>::empty());
    assert(seq![s[i]].filter(p) =~= if p(s[i]) {
        seq![s[i]]
    } else {
        Seq::empty()
    });
    assert(Seq::<GpuSample>::empty() + rest.filter(p) =~= rest.filter(p));
}

proof fn lemma_select_from(
    s: Seq<GpuSample>,
    i: int,
    holds: Seq<HoldModel>,
    margin: u64,
    mem: u64,
    wanted: u64,
    acc: Selection,
)
    requires
        0 <= i <= s.len(),
        acc.devices.len() < wanted,
    ensures
        ({
            let r = select_from(s, i, holds, margin, mem, wanted, acc);
            let giving = s.skip(i).filter(gives(holds, margin, mem));
            &&& r.devices == acc.devices + indices(at_most(giving, wanted - acc.devices.len()))
            &&& r.max_free >= acc.max_free
            &&& r.devices.len() < wanted ==> forall|k: int|
                i <= k < s.len() ==> match effective_free(#[trigger] s[k], holds, margin) {
                    Some(free) => free <= r.max_free,
                    None => true,
                }
            &&& r.max_free == acc.max_free || exists|k: int|
                i <= k < s.len() && effective_free(#[trigger] s[k], holds, margin) == Some(
                    r.max_free,
                )
        }),
    decreases s.len() - i,
{
    let p = gives(holds, margin, mem);
    let r = select_from(s, i, holds, margin, mem, wanted, acc);
    let giving = s.skip(i).filter(p);
    let room = wanted - acc.devices.len();
    if i < s.len() {
        lemma_filter_first(s, i, p);
        lemma_room_on_a_device(s[i], holds, margin, mem);
        let rest = s.skip(i + 1).filter(p);
        match effective_free(s[i], holds, margin) {
            None => {
                assert(!p(s[i]));
                lemma_select_from(s, i + 1, holds, margin, mem, wanted, acc);
            },
            Some(free) => {
                let max_free = if acc.max_free >= free {
                    acc.max_free
                } else {
                    free
                };
                assert(p(s[i]) == (free >= mem));
                if free >= mem {
                    let devices = acc.devices.push(s[i].index);
                    let next = Selection { devices, max_free };
                    assert(giving[0] == s[i]);
                    if devices.len() == wanted {
                        assert(at_most(giving, room) =~= seq![s[i]]);
                        assert(r.devices =~= acc.devices + indices(at_most(giving, room)));
                    } else {
                        lemma_select_from(s, i + 1, holds, margin, mem, wanted, next);
                        assert(at_most(giving, room) =~= seq![s[i]] + at_most(rest, room - 1));
                        assert(indices(at_most(giving, room)) =~= seq![s[i].index] + indices(
                            at_most(rest, room - 1),
                        ));
                        assert(r.devices =~= acc.devices + indices(at_most(giving, room)));
                    }
                } else {
                    let next = Selection { devices: acc.devices, max_free };
                    lemma_select_from(s, i + 1, holds, margin, mem, wanted, next);
                }
                assert(r.max_free >= max_free);
            },
        }
    } else {
        reveal(Seq::filter);
        assert(s.skip(i) =~= Seq::<GpuSample>::empty());
        assert(giving =~= Seq::<GpuSample>::empty());
        assert(r.devices =~= acc.devices + indices(at_most(giving, room)));
    }
}

/// Of the devices that can give what is asked, from the highest index to the lowest, as
/// many are taken as are wanted, or all of them; and where they are too few, the most that
/// is free is told.
pub proof fn lemma_first_fitting_devices(
    samples: Seq<GpuSample>,
    holds: Seq<HoldModel>,
    margin: u64,
    mem: u64,
    wanted: u64,
)
    requires
        wanted > 0,
    ensures
        ({
            let sel = selection(samples, holds, margin, mem, wanted);
            let giving = by_index_desc(samples).filter(gives(holds, margin, mem));
            &&& sel.devices == indices(at_most(giving, wanted as int))
            &&& sel.devices.len() < wanted ==> forall|k: int|
                0 <= k < samples.len() ==> match effective_free(
                    #[trigger] samples[k],
                    holds,
                    margin,
                ) {
                    Some(free) => free <= sel.max_free,
                    None => true,
                }
        }),
{
    let sorted = by_index_desc(samples);
    let none = Selection { devices: Seq::empty(), max_free: 0 };
    lemma_select_from(sorted, 0, holds, margin, mem, wanted, none);
    assert(sorted.skip(0) =~= sorted);
    let sel = selection(samples, holds, margin, mem, wanted);
    let giving = sorted.filter(gives(holds, margin, mem));
    assert(sel.devices =~= indices(at_most(giving, wanted as int)));
    if sel.devices.len() < wanted {
        lemma_by_index_desc(samples);
        sorted.to_multiset_ensures();
        samples.to_multiset_ensures();
        assert forall|k: int| 0 <= k < samples.len() implies match effective_free(
            #[trigger] samples[k],
            holds,
            margin,
        ) {
            Some(free) => free <= sel.max_free,
            None => true,
        } by {
            assert(samples.contains(samples[k]));
            assert(samples.to_multiset().count(samples[k]) > 0);
            assert(sorted.to_multiset().count(samples[k]) > 0);
            let j = sorted.index_of(samples[k]);
            assert(sorted[j] == samples[k]);
        }
    }
}

// ── What is granted ──

/// How many devices a need asks for: as many as it says, or one if it speaks of memory
/// alone.
pub open spec fn devices_asked(need: Map<Text, ResourceQuantity>, gpu: Text, mem: Text) -> nat {
    if need.dom().contains(gpu) && (need[gpu] matches ResourceQuantity::Count(n) && n > 0) {
        need[gpu]->Count_0 as nat
    } else if need.dom().contains(mem) && (need[mem] matches ResourceQuantity::Bytes(b) && b > 0) {
        1
    } else {
        0
    }
}

/// The memory that a need asks for of each device.
pub open spec fn memory_asked(need: Map<Text, ResourceQuantity>, mem: Text) -> u64 {
    if need.dom().contains(mem) && need[mem] is Bytes {
        need[mem]->Bytes_0
    } else {
        0
    }
}

/// The quantities are of the kinds that devices and memory have.
pub open spec fn well_put(need: Map<Text, ResourceQuantity>, gpu: Text, mem: Text) -> bool {
    &&& need.dom().contains(gpu) ==> need[gpu] is Count
    &&& need.dom().contains(mem) ==> need[mem] is Bytes
}

/// A grant holds as many devices as were asked for, each of them one that can give what was
/// asked, the highest first; it names them, tells their number and their memory, and what is
/// kept of it takes that memory of each of them, or the whole device if no memory was asked
/// for. It is given just when there are that many devices; else nothing is kept.
pub proof fn lemma_grant_is_what_was_asked(
    id: Text,
    gpu: Text,
    mem: Text,
    margin: u64,
    holds: Seq<HoldModel>,
    job_id: JobId,
    need: Map<Text, ResourceQuantity>,
    samples: Result<Seq<GpuSample>, Text>,
)
    ensures
        ({
            let (answer, after) = reserve_outcome(
                id,
                gpu,
                mem,
                margin,
                holds,
                job_id,
                need,
                samples,
            );
            let n = devices_asked(need, gpu, mem);
            let bytes = memory_asked(need, mem);
            let giving = by_index_desc(samples->Ok_0).filter(gives(holds, margin, bytes));
            let taken = at_most(giving, n as int);
            let name = id + "-"@ + ("J"@ + text::decimal(job_id.0 as nat));
            &&& answer is Ok <==> well_put(need, gpu, mem) && (n == 0 || samples is Ok
                && giving.len() >= n)
            &&& answer is Err ==> after == holds
            &&& answer matches Ok(grant) ==> {
                &&& grant.id == name
                &&& grant.job_id == job_id
                &&& grant.provider_id == id
                &&& n == 0 ==> after == holds && grant.env == Map::<Text, Text>::empty()
                    && grant.info == Map::<Text, ResourceQuantity>::empty()
                &&& n > 0 ==> {
                    let kept = after.last();
                    &&& taken.len() == n
                    &&& grant.info.dom().contains(gpu)
                    &&& grant.info[gpu] == ResourceQuantity::Count(n as u64)
                    &&& bytes > 0 ==> grant.info.dom().contains(mem) && (grant.info[mem]
                        matches ResourceQuantity::Bytes(b) && b == min_u64(bytes as nat * n))
                    &&& grant.env.dom().contains("CUDA_VISIBLE_DEVICES"@)
                    &&& grant.env["CUDA_VISIBLE_DEVICES"@] == text::join(
                        indices(taken).map_values(|i: u32| text::decimal(i as nat)),
                        ","@,
                    )
                    &&& grant.env.dom().contains("CUDA_DEVICE_ORDER"@)
                    &&& grant.env["CUDA_DEVICE_ORDER"@] == "PCI_BUS_ID"@
                    &&& after.len() > 0 && after.drop_last() == without_hold(holds, name)
                    &&& kept.id == name
                    &&& kept.units.len() == n
                    &&& forall|k: int|
                        0 <= k < n ==> (#[trigger] kept.units[k]) == (GpuReservation {
                            index: taken[k].index,
                            bytes,
                            exclusive: bytes == 0,
                        })
                }
            }
        }),
{
    let (answer, after) = reserve_outcome(id, gpu, mem, margin, holds, job_id, need, samples);
    let n = devices_asked(need, gpu, mem);
    let bytes = memory_asked(need, mem);
    if let Ok((wanted, m)) = demand(need, gpu, mem) {
        assert(wanted == n && m == bytes);
        if wanted > 0 {
            if let Ok(s) = samples {
                lemma_first_fitting_devices(s, holds, margin, m, wanted);
                let sel = selection(s, holds, margin, m, wanted);
                let giving = by_index_desc(s).filter(gives(holds, margin, bytes));
                let taken = at_most(giving, n as int);
                assert(indices(taken).len() == taken.len());
                assert(sel.devices == indices(taken));
                if sel.devices.len() >= wanted {
                    let exclusive = m == 0 && need.dom().contains(gpu);
                    assert(exclusive == (bytes == 0));
                    let g = answer->Ok_0;
                    reveal_strlit("CUDA_VISIBLE_DEVICES");
                    reveal_strlit("CUDA_DEVICE_ORDER");
                    assert("CUDA_VISIBLE_DEVICES"@.len() != "CUDA_DEVICE_ORDER"@.len());
                    assert(device_texts(sel.devices) =~= indices(taken).map_values(
                        |i: u32| text::decimal(i as nat),
                    ));
                    assert(after.drop_last() =~= without_hold(
                        holds,
                        id + "-"@ + ("J"@ + text::decimal(job_id.0 as nat)),
                    ));
                    let kept = after.last();
                    assert forall|k: int| 0 <= k < n implies (#[trigger] kept.units[k]) == (
                    GpuReservation { index: taken[k].index, bytes, exclusive: bytes == 0 }) by {
                        assert(sel.devices[k] == taken[k].index);
                    }
                }
            }
        }
    }
}

/// The devices of a grant are different ones, where the driver tells each device once.
pub proof fn lemma_granted_devices_differ(
    samples: Seq<GpuSample>,
    holds: Seq<HoldModel>,
    margin: u64,
    mem: u64,
    wanted: u64,
    i: int,
    j: int,
)
    requires
        wanted > 0,
        forall|a: int, b: int|
            0 <= a < b < samples.len() ==> (#[trigger] samples[a]).index != (
            #[trigger] samples[b]).index,
        0 <= i < j < selection(samples, holds, margin, mem, wanted).devices.len(),
    ensures
        selection(samples, holds, margin, mem, wanted).devices[i] > selection(
            samples,
            holds,
            margin,
            mem,
            wanted,
        ).devices[j],
{
    let sorted = by_index_desc(samples);
    let p = gives(holds, margin, mem);
    let giving = sorted.filter(p);
    lemma_first_fitting_devices(samples, holds, margin, mem, wanted);
    lemma_by_index_desc(samples);
    sorted.to_multiset_ensures();
    samples.to_multiset_ensures();
    assert forall|a: int, b: int| 0 <= a < b < sorted.len() implies (#[trigger] sorted[a]).index
        > (#[trigger] sorted[b]).index by {
        lemma_sorted_distinct(samples, a, b);
    }
    lemma_filter_descends(sorted, p);
    let taken = at_most(giving, wanted as int);
    assert(taken[i] == giving[i] && taken[j] == giving[j]);
}

proof fn lemma_sorted_distinct(samples: Seq<GpuSample>, a: int, b: int)
    requires
        forall|a: int, b: int|
            0 <= a < b < samples.len() ==> (#[trigger] samples[a]).index != (
            #[trigger] samples[b]).index,
        0 <= a < b < by_index_desc(samples).len(),
    ensures
        by_index_desc(samples)[a].index > by_index_desc(samples)[b].index,
{
    let sorted = by_index_desc(samples);
    lemma_by_index_desc(samples);
    sorted.to_multiset_ensures();
    samples.to_multiset_ensures();
    assert(samples.no_duplicates());
    samples.lemma_multiset_has_no_duplicates();
    assert(sorted.to_multiset() == samples.to_multiset());
    sorted.lemma_multiset_has_no_duplicates_conv();
    assert(sorted.no_duplicates());
    if sorted[a].index == sorted[b].index {
        let x = sorted[a];
        let y = sorted[b];
        assert(sorted.contains(x) && sorted.contains(y));
        assert(sorted.to_multiset().count(x) > 0 && sorted.to_multiset().count(y) > 0);
        assert(samples.contains(x) && samples.contains(y));
        let k = samples.index_of(x);
        let l = samples.index_of(y);
        assert(samples[k].index == samples[l].index);
        assert(k == l);
        assert(x == y);
    }
}

proof fn lemma_filter_descends(s: Seq<GpuSample>, p: spec_fn(GpuSample) -> bool)
    requires
        forall|a: int, b: int|
            0 <= a < b < s.len() ==> (#[trigger] s[a]).index > (#[trigger] s[b]).index,
    ensures
        forall|a: int, b: int|
            0 <= a < b < s.filter(p).len() ==> (#[trigger] s.filter(p)[a]).index > (
            #[trigger] s.filter(p)[b]).index,
        forall|a: int| 0 <= a < s.filter(p).len() ==> s.contains(#[trigger] s.filter(p)[a]),
    decreases s.len(),
{
    reveal(Seq::filter);
    if s.len() > 0 {
        let front = s.drop_last();
        assert forall|a: int, b: int| 0 <= a < b < front.len() implies (
        #[trigger] front[a]).index > (#[trigger] front[b]).index by {
            assert(front[a] == s[a] && front[b] == s[b]);
        }
        lemma_filter_descends(front, p);
        let f = front.filter(p);
        let all = s.filter(p);
        assert forall|a: int| 0 <= a < all.len() implies s.contains(#[trigger] all[a]) by {
            if a < f.len() {
                assert(all[a] == f[a]);
                let k = front.index_of(f[a]);
                assert(s[k] == f[a]);
            } else {
                assert(s[s.len() - 1] == all[a]);
            }
        }
        assert forall|a: int, b: int| 0 <= a < b < all.len() implies (#[trigger] all[a]).index > (
        #[trigger] all[b]).index by {
            assert(all[a] == f[a]);
            if b < f.len() {
                assert(all[b] == f[b]);
            } else {
                let k = front.index_of(f[a]);
                assert(s[k] == all[a] && s[s.len() - 1] == all[b]);
            }
        }
    }
}

// ── What is given back and kept ──

/// Giving back a grant takes away what was kept of it and nothing else.
pub proof fn lemma_only_the_grant_is_given_back(holds: Seq<HoldModel>, id: Text)
    ensures
        forall|i: int|
            0 <= i < without_hold(holds, id).len() ==> (#[trigger] without_hold(holds, id)[i]).id
                != id && holds.contains(without_hold(holds, id)[i]),
        forall|i: int|
            0 <= i < holds.len() && (#[trigger] holds[i]).id != id ==> without_hold(
                holds,
                id,
            ).contains(holds[i]),
    decreases holds.len(),
{
    reveal(Seq::filter);
    if holds.len() > 0 {
        let front = holds.drop_last();
        lemma_only_the_grant_is_given_back(front, id);
        let f = without_hold(front, id);
        let all = without_hold(holds, id);
        assert forall|i: int| 0 <= i < all.len() implies (#[trigger] all[i]).id != id
            && holds.contains(all[i]) by {
            if i < f.len() {
                assert(all[i] == f[i]);
                let k = front.index_of(f[i]);
                assert(holds[k] == f[i]);
            } else {
                assert(holds[holds.len() - 1] == all[i]);
            }
        }
        assert forall|i: int| 0 <= i < holds.len() && (#[trigger] holds[i]).id != id implies all.contains(
            holds[i],
        ) by {
            if i < front.len() {
                assert(front[i] == holds[i]);
                let k = f.index_of(holds[i]);
                assert(all[k] == holds[i]);
            } else {
                assert(all[all.len() - 1] == holds[i]);
            }
        }
    }
}

/// What the driver told is used again for less than the time to live, and not after it; an
/// answer takes the place of what was kept, and a failure leaves it.
pub proof fn lemma_answers_live_for_their_time(
    at: u64,
    age: u64,
    ttl: u64,
    samples: Seq<GpuSample>,
    kept: Option<CacheModel>,
    error: Text,
)
    requires
        at + age <= u64::MAX,
    ensures
        fresh_samples(Some(CacheModel { sampled_at: at, samples }), (at + age) as u64, ttl)
            == if age < ttl {
            Some(samples)
        } else {
            None
        },
        fresh_samples(None, at, ttl) is None,
        kept_after(kept, Ok::<Seq<GpuSample>, Text>(samples), at) == Some(
            CacheModel { sampled_at: at, samples },
        ),
        kept_after(kept, Err::<Seq<GpuSample>, Text>(error), at) == kept,
{
}

/// A snapshot tells of each device its memory, what is free and what is reserved, and what
/// a request can still get of it, unless it is taken.
pub proof fn lemma_device_shown(s: GpuSample, holds: Seq<HoldModel>, margin: u64)
    ensures
        ({
            let u = unit_of(s, holds, margin);
            &&& u.id == text::decimal(s.index as nat)
            &&& u.attrs.dom().contains("total_mem"@) && u.attrs["total_mem"@]
                == ResourceQuantity::Bytes(s.total_mem)
            &&& u.attrs.dom().contains("free_mem"@) && u.attrs["free_mem"@]
                == ResourceQuantity::Bytes(s.free_mem)
            &&& u.attrs.dom().contains("reserved_mem"@) && u.attrs["reserved_mem"@]
                == ResourceQuantity::Bytes(min_u64(held_bytes(holds, s.index)) as u64)
            &&& u.attrs.dom().contains("exclusive"@) <==> held_exclusive(holds, s.index)
            &&& u.attrs.dom().contains("effective_free_mem"@) <==> !held_exclusive(holds, s.index)
            &&& effective_free(s, holds, margin) matches Some(free)
                ==> u.attrs["effective_free_mem"@] == ResourceQuantity::Bytes(free as u64)
        }),
{
    reveal_strlit("total_mem");
    reveal_strlit("free_mem");
    reveal_strlit("reserved_mem");
    reveal_strlit("exclusive");
    reveal_strlit("effective_free_mem");
    assert("total_mem"@[0] == 't' && "free_mem"@[0] == 'f' && "reserved_mem"@[0] == 'r'
        && "exclusive"@[0] == 'e' && "effective_free_mem"@[0] == 'e');
    assert("exclusive"@.len() == 9 && "effective_free_mem"@.len() == 18);
    let base = Map::<Text, ResourceQuantity>::empty().insert(
        "total_mem"@,
        ResourceQuantity::Bytes(s.total_mem),
    ).insert("free_mem"@, ResourceQuantity::Bytes(s.free_mem)).insert(
        "reserved_mem"@,
        ResourceQuantity::Bytes(min_u64(held_bytes(holds, s.index)) as u64),
    );
    assert(!base.dom().contains("exclusive"@));
    assert(!base.dom().contains("effective_free_mem"@));
    assert(unit_of(s, holds, margin).attrs == match effective_free(s, holds, margin) {
        Some(free) => base.insert("effective_free_mem"@, ResourceQuantity::Bytes(free as u64)),
        None => base.insert("exclusive"@, ResourceQuantity::Count(1)),
    });
}

} // verus!
