//! GPU provider: selection and bookkeeping of devices.
//!
//! Where the device samples come from is the backend's business; which devices
//! a request gets, and what stays free, is decided here.

use vstd::prelude::*;
use vstd::string::*;

use super::logged::{LoggedBackend, Sighting};
use super::provider::{grant_result, recorded, Provider, ProviderCall, ReserveRequest};
use super::types::{
    bare_reject, quantity_text, Grant, GrantModel, JobId, Need, ProviderId, Reject, RejectModel,
    ReservationId, ResourceQuantity, ResourceUnit, Snapshot, UnitModel,
};
use crate::text;
use crate::text::Text;
use crate::textmap::TextMap;

verus! {

/// One device as the driver reports it.
#[derive(Debug, Clone, Copy, PartialEq, Eq, Structural)]
pub struct GpuSample {
    pub index: u32,
    pub total_mem: u64,
    pub free_mem: u64,
}

/// What one reservation takes of one device.
#[derive(Debug, Clone, Copy, PartialEq, Eq, Structural)]
pub struct GpuReservation {
    pub index: u32,
    pub bytes: u64,
    pub exclusive: bool,
}

/// Access to the driver and to a clock.
pub trait NvidiaBackend: Sized {
    /// The devices as they are now.
    fn probe(&mut self) -> Result<Vec<GpuSample>, String>;

    /// Milliseconds on a clock that does not go backwards.
    fn now_millis(&mut self) -> u64;
}

/// Names and limits of the provider.
pub struct NvidiaResourceConfig {
    pub provider_id: String,
    pub gpu_key: String,
    pub gpu_mem_key: String,
    pub safety_margin_bytes: u64,
    pub probe_ttl_ms: u64,
}

struct CachedProbe {
    sampled_at: u64,
    samples: Vec<GpuSample>,
}

/// The samples kept from the last probe, and when it was made.
pub struct CacheModel {
    pub sampled_at: u64,
    pub samples: Seq<GpuSample>,
}

impl View for CachedProbe {
    type V = CacheModel;

    closed spec fn view(&self) -> CacheModel {
        CacheModel { sampled_at: self.sampled_at, samples: self.samples@ }
    }
}

struct GpuHold {
    id: String,
    units: Vec<GpuReservation>,
}

/// A reservation and what it takes.
pub struct HoldModel {
    pub id: Text,
    pub units: Seq<GpuReservation>,
}

impl View for GpuHold {
    type V = HoldModel;

    closed spec fn view(&self) -> HoldModel {
        HoldModel { id: self.id@, units: self.units@ }
    }
}

pub struct NvidiaGpuProvider<B: NvidiaBackend> {
    id: ProviderId,
    gpu_key: String,
    gpu_mem_key: String,
    safety_margin_bytes: u64,
    probe_ttl_ms: u64,
    backend: LoggedBackend<B>,
    cached: Option<CachedProbe>,
    holds: Vec<GpuHold>,
    calls: Ghost<Seq<ProviderCall>>,
}

// ── What is reserved ──

/// The bytes that the units take of a device.
pub open spec fn units_bytes(units: Seq<GpuReservation>, index: u32) -> nat
    decreases units.len(),
{
    if units.len() == 0 {
        0
    } else {
        units_bytes(units.drop_last(), index) + if units.last().index == index {
            units.last().bytes as nat
        } else {
            0
        }
    }
}

/// The bytes that all reservations take of a device.
pub open spec fn held_bytes(holds: Seq<HoldModel>, index: u32) -> nat
    decreases holds.len(),
{
    if holds.len() == 0 {
        0
    } else {
        held_bytes(holds.drop_last(), index) + units_bytes(holds.last().units, index)
    }
}

/// Whether one of the units takes the device for itself.
pub open spec fn units_exclusive(units: Seq<GpuReservation>, index: u32) -> bool {
    exists|i: int| 0 <= i < units.len() && (#[trigger] units[i]).index == index && units[i].exclusive
}

/// Whether a reservation takes the device for itself.
pub open spec fn held_exclusive(holds: Seq<HoldModel>, index: u32) -> bool {
    exists|i: int| 0 <= i < holds.len() && units_exclusive((#[trigger] holds[i]).units, index)
}

pub open spec fn min_u64(n: nat) -> nat {
    if n <= u64::MAX {
        n
    } else {
        u64::MAX as nat
    }
}

pub open spec fn saturating_minus(a: nat, b: nat) -> nat {
    if a >= b {
        (a - b) as nat
    } else {
        0
    }
}

/// The memory of a device that a request can still get: what is free according
/// to the driver and to the reservations, less the safety margin. `None` if the
/// device is taken.
pub open spec fn effective_free(s: GpuSample, holds: Seq<HoldModel>, margin: u64) -> Option<nat> {
    if held_exclusive(holds, s.index) {
        None
    } else {
        let unreserved = saturating_minus(
            s.total_mem as nat,
            min_u64(held_bytes(holds, s.index)),
        );
        let free = if s.free_mem <= unreserved {
            s.free_mem as nat
        } else {
            unreserved
        };
        Some(saturating_minus(free, margin as nat))
    }
}

/// The reservations without the one called `id`.
pub open spec fn without_hold(holds: Seq<HoldModel>, id: Text) -> Seq<HoldModel> {
    holds.filter(|h: HoldModel| h.id != id)
}

// ── Selection ──

/// `x` put behind the samples with an index that is at least as high.
pub open spec fn insert_desc(s: Seq<GpuSample>, x: GpuSample) -> Seq<GpuSample>
    decreases s.len(),
{
    if s.len() == 0 || s.last().index >= x.index {
        s.push(x)
    } else {
        insert_desc(s.drop_last(), x).push(s.last())
    }
}

/// The samples by descending index; equal indices keep their order.
pub open spec fn by_index_desc(s: Seq<GpuSample>) -> Seq<GpuSample>
    decreases s.len(),
{
    if s.len() == 0 {
        Seq::empty()
    } else {
        insert_desc(by_index_desc(s.drop_last()), s.last())
    }
}

/// What a selection has found.
pub struct Selection {
    pub devices: Seq<u32>,
    pub max_free: nat,
}

/// The selection from sample `i` on: devices with at least `mem` bytes free are
/// taken until there are `wanted`.
pub open spec fn select_from(
    s: Seq<GpuSample>,
    i: int,
    holds: Seq<HoldModel>,
    margin: u64,
    mem: u64,
    wanted: u64,
    acc: Selection,
) -> Selection
    decreases s.len() - i,
{
    if !(0 <= i < s.len()) {
        acc
    } else {
        match effective_free(s[i], holds, margin) {
            None => select_from(s, i + 1, holds, margin, mem, wanted, acc),
            Some(free) => {
                let max_free = if acc.max_free >= free {
                    acc.max_free
                } else {
                    free
                };
                if free >= mem {
                    let devices = acc.devices.push(s[i].index);
                    if devices.len() == wanted {
                        Selection { devices, max_free }
                    } else {
                        select_from(
                            s,
                            i + 1,
                            holds,
                            margin,
                            mem,
                            wanted,
                            Selection { devices, max_free },
                        )
                    }
                } else {
                    select_from(
                        s,
                        i + 1,
                        holds,
                        margin,
                        mem,
                        wanted,
                        Selection { devices: acc.devices, max_free },
                    )
                }
            },
        }
    }
}

/// The devices for a request, highest index first.
pub open spec fn selection(
    samples: Seq<GpuSample>,
    holds: Seq<HoldModel>,
    margin: u64,
    mem: u64,
    wanted: u64,
) -> Selection {
    select_from(
        by_index_desc(samples),
        0,
        holds,
        margin,
        mem,
        wanted,
        Selection { devices: Seq::empty(), max_free: 0 },
    )
}

// ── Requests ──

/// What is asked for: a number of devices and the memory of each.
pub open spec fn demand(need: Map<Text, ResourceQuantity>, gpu_key: Text, mem_key: Text) -> Result<
    (u64, u64),
    RejectModel,
> {
    let count = if need.dom().contains(gpu_key) {
        match need[gpu_key] {
            ResourceQuantity::Count(n) => Ok(n),
            other => Err(
                bare_reject(gpu_key + " must be a count, got "@ + quantity_text(other)),
            ),
        }
    } else {
        Ok(0u64)
    };
    let mem = if need.dom().contains(mem_key) {
        match need[mem_key] {
            ResourceQuantity::Bytes(n) => Ok(n),
            other => Err(bare_reject(mem_key + " must be bytes, got "@ + quantity_text(other))),
        }
    } else {
        Ok(0u64)
    };
    match (count, mem) {
        (Err(e), _) => Err(e),
        (Ok(_), Err(e)) => Err(e),
        (Ok(n), Ok(b)) => Ok(
            (
                if n > 0 {
                    n
                } else if b > 0 {
                    1u64
                } else {
                    0u64
                },
                b,
            ),
        ),
    }
}

pub open spec fn grant_id(id: Text, job_id: JobId) -> Text {
    id + "-"@ + super::types::job_text(job_id)
}

pub open spec fn device_texts(devices: Seq<u32>) -> Seq<Text> {
    devices.map_values(|d: u32| text::decimal(d as nat))
}

pub open spec fn waiting_reject(mem_key: Text, wanted: u64, mem: u64, max_free: nat) -> RejectModel {
    let free = ResourceQuantity::Bytes(max_free as u64);
    let reason = "waiting GPU: need "@ + text::decimal(wanted as nat) + " x "@ + quantity_text(
        ResourceQuantity::Bytes(mem),
    ) + ", max effective free "@ + quantity_text(free);
    if mem > 0 {
        RejectModel {
            reason,
            demand: Some((mem_key, ResourceQuantity::Bytes(mem))),
            available: Some(free),
        }
    } else {
        bare_reject(reason)
    }
}

/// The units that a reservation takes.
pub open spec fn units_for(devices: Seq<u32>, mem: u64, exclusive: bool) -> Seq<GpuReservation> {
    devices.map_values(|d: u32| GpuReservation { index: d, bytes: mem, exclusive })
}

pub open spec fn granted_model(
    id: Text,
    gpu_key: Text,
    mem_key: Text,
    job_id: JobId,
    devices: Seq<u32>,
    mem: u64,
) -> GrantModel {
    let counted = Map::<Text, ResourceQuantity>::empty().insert(
        gpu_key,
        ResourceQuantity::Count(devices.len() as u64),
    );
    GrantModel {
        id: grant_id(id, job_id),
        job_id,
        provider_id: id,
        env: Map::<Text, Text>::empty().insert("CUDA_DEVICE_ORDER"@, "PCI_BUS_ID"@).insert(
            "CUDA_VISIBLE_DEVICES"@,
            text::join(device_texts(devices), ","@),
        ),
        info: if mem > 0 {
            counted.insert(
                mem_key,
                ResourceQuantity::Bytes(min_u64(mem as nat * devices.len()) as u64),
            )
        } else {
            counted
        },
    }
}

/// What a request comes to, and the reservations after it.
pub open spec fn reserve_outcome(
    id: Text,
    gpu_key: Text,
    mem_key: Text,
    margin: u64,
    holds: Seq<HoldModel>,
    job_id: JobId,
    need: Map<Text, ResourceQuantity>,
    samples: Result<Seq<GpuSample>, Text>,
) -> (Result<GrantModel, RejectModel>, Seq<HoldModel>) {
    match demand(need, gpu_key, mem_key) {
        Err(e) => (Err(e), holds),
        Ok((wanted, mem)) => if wanted == 0 {
            (
                Ok(
                    GrantModel {
                        id: grant_id(id, job_id),
                        job_id,
                        provider_id: id,
                        env: Map::empty(),
                        info: Map::empty(),
                    },
                ),
                holds,
            )
        } else {
            match samples {
                Err(e) => (Err(bare_reject("NVML probe failed: "@ + e)), holds),
                Ok(s) => {
                    let sel = selection(s, holds, margin, mem, wanted);
                    if sel.devices.len() < wanted {
                        (Err(waiting_reject(mem_key, wanted, mem, sel.max_free)), holds)
                    } else {
                        let exclusive = mem == 0 && need.dom().contains(gpu_key);
                        (
                            Ok(granted_model(id, gpu_key, mem_key, job_id, sel.devices, mem)),
                            without_hold(holds, grant_id(id, job_id)).push(
                                HoldModel {
                                    id: grant_id(id, job_id),
                                    units: units_for(sel.devices, mem, exclusive),
                                },
                            ),
                        )
                    }
                },
            }
        },
    }
}

pub open spec fn sample_result(r: Result<Vec<GpuSample>, String>) -> Result<Seq<GpuSample>, Text> {
    match r {
        Ok(v) => Ok(v@),
        Err(e) => Err(e@),
    }
}

/// One device as a snapshot shows it.
pub open spec fn unit_of(s: GpuSample, holds: Seq<HoldModel>, margin: u64) -> UnitModel {
    let base = Map::<Text, ResourceQuantity>::empty().insert(
        "total_mem"@,
        ResourceQuantity::Bytes(s.total_mem),
    ).insert("free_mem"@, ResourceQuantity::Bytes(s.free_mem)).insert(
        "reserved_mem"@,
        ResourceQuantity::Bytes(min_u64(held_bytes(holds, s.index)) as u64),
    );
    UnitModel {
        id: text::decimal(s.index as nat),
        attrs: match effective_free(s, holds, margin) {
            Some(free) => base.insert("effective_free_mem"@, ResourceQuantity::Bytes(free as u64)),
            None => base.insert("exclusive"@, ResourceQuantity::Count(1)),
        },
    }
}

/// The devices as a snapshot shows them.
pub open spec fn units_of(s: Seq<GpuSample>, holds: Seq<HoldModel>, margin: u64) -> Seq<UnitModel> {
    s.map_values(|x: GpuSample| unit_of(x, holds, margin))
}

/// Whether samples are less than `ttl` milliseconds old.
pub open spec fn is_fresh(sampled_at: u64, now: u64, ttl: u64) -> bool {
    now <= sampled_at && ttl > 0 || now > sampled_at && now - sampled_at < ttl
}

/// The samples that can be used again, if the ones kept are still fresh.
pub open spec fn fresh_samples(kept: Option<CacheModel>, now: u64, ttl: u64) -> Option<
    Seq<GpuSample>,
> {
    match kept {
        Some(c) => if is_fresh(c.sampled_at, now, ttl) {
            Some(c.samples)
        } else {
            None
        },
        None => None,
    }
}

/// What is kept once the driver has answered: the new samples, or what was
/// kept before if there are none.
pub open spec fn kept_after(
    kept: Option<CacheModel>,
    answer: Result<Seq<GpuSample>, Text>,
    answered: u64,
) -> Option<CacheModel> {
    match answer {
        Ok(samples) => Some(CacheModel { sampled_at: answered, samples }),
        Err(_) => kept,
    }
}

/// The devices that a question at `asked` comes to, and what is kept after it.
/// Only if nothing fresh is kept, what the driver answers counts, and the time
/// at which it has answered.
pub open spec fn probe_result(
    kept: Option<CacheModel>,
    ttl: u64,
    asked: u64,
    answer: Result<Seq<GpuSample>, Text>,
    answered: u64,
) -> (Result<Seq<GpuSample>, Text>, Option<CacheModel>) {
    match fresh_samples(kept, asked, ttl) {
        Some(samples) => (Ok(samples), kept),
        None => (answer, kept_after(kept, answer, answered)),
    }
}

/// What is looked at to answer that question: the clock, and if nothing fresh is
/// kept, the driver, and the clock again if there is something to keep.
pub open spec fn looks(
    kept: Option<CacheModel>,
    ttl: u64,
    asked: u64,
    answer: Result<Seq<GpuSample>, Text>,
    answered: u64,
) -> Seq<Sighting> {
    if fresh_samples(kept, asked, ttl) is Some {
        seq![Sighting::Clock(asked)]
    } else if answer is Ok {
        seq![Sighting::Clock(asked), Sighting::Devices(answer), Sighting::Clock(answered)]
    } else {
        seq![Sighting::Clock(asked), Sighting::Devices(answer)]
    }
}

/// The devices that a snapshot shows: none if the driver cannot be asked.
pub open spec fn shown_samples(r: Result<Seq<GpuSample>, Text>) -> Seq<GpuSample> {
    match r {
        Ok(samples) => samples,
        Err(_) => Seq::empty(),
    }
}

/// Whether a request has to know the devices.
pub open spec fn asks_driver(
    need: Map<Text, ResourceQuantity>,
    gpu_key: Text,
    mem_key: Text,
) -> bool {
    demand(need, gpu_key, mem_key) matches Ok(d) && d.0 > 0
}

/// The samples of less than `ttl` milliseconds ago may be used again.
pub fn probe_is_fresh(sampled_at: u64, now: u64, ttl: u64) -> (r: bool)
    ensures
        r == is_fresh(sampled_at, now, ttl),
{
    let age: u64 = if now > sampled_at {
        now - sampled_at
    } else {
        0
    };
    age < ttl
}

spec fn hold_models(v: Seq<GpuHold>) -> Seq<HoldModel> {
    v.map_values(|h: GpuHold| h@)
}

fn sort_desc(samples: &Vec<GpuSample>) -> (r: Vec<GpuSample>)
    ensures
        r@ == by_index_desc(samples@),
{
    let mut out: Vec<GpuSample> = Vec::new();
    let mut i: usize = 0;
    assert(samples@.take(0) =~= Seq::<GpuSample>::empty());
    while i < samples.len()
        invariant
            i <= samples@.len(),
            out@ == by_index_desc(samples@.take(i as int)),
        decreases samples@.len() - i,
    {
        let x = samples[i];
        let ghost before = out@;
        let mut at: usize = out.len();
        assert(before.take(at as int) =~= before);
        assert(before.skip(at as int) =~= Seq::<GpuSample>::empty());
        assert(insert_desc(before, x) =~= insert_desc(before.take(at as int), x) + before.skip(
            at as int,
        ));
        while at > 0 && out[at - 1].index < x.index
            invariant
                at <= out@.len(),
                out@ == before,
                insert_desc(before, x) == insert_desc(before.take(at as int), x) + before.skip(
                    at as int,
                ),
            decreases at,
        {
            proof {
                assert(before.take(at as int).drop_last() =~= before.take(at - 1));
                assert(insert_desc(before.take(at - 1), x).push(before[at - 1]) + before.skip(
                    at as int,
                ) =~= insert_desc(before.take(at - 1), x) + before.skip(at - 1));
            }
            at = at - 1;
        }
        out.insert(at, x);
        proof {
            assert(out@ =~= before.take(at as int).push(x) + before.skip(at as int));
            assert(samples@.take(i + 1).drop_last() =~= samples@.take(i as int));
        }
        i = i + 1;
    }
    assert(samples@.take(i as int) =~= samples@);
    out
}

impl<B: NvidiaBackend> NvidiaGpuProvider<B> {
    /// The reservations, oldest first.
    pub closed spec fn spec_holds(self) -> Seq<HoldModel> {
        hold_models(self.holds@)
    }

    pub closed spec fn spec_gpu_key(self) -> Text {
        self.gpu_key@
    }

    pub closed spec fn spec_mem_key(self) -> Text {
        self.gpu_mem_key@
    }

    pub closed spec fn spec_margin(self) -> u64 {
        self.safety_margin_bytes
    }

    /// How long samples can be used again, in milliseconds.
    pub closed spec fn spec_ttl(self) -> u64 {
        self.probe_ttl_ms
    }

    /// What is kept from the last probe.
    pub closed spec fn spec_cached(self) -> Option<CacheModel> {
        match self.cached {
            Some(c) => Some(c@),
            None => None,
        }
    }

    /// What the backend was asked for so far, and what it told.
    pub closed spec fn spec_seen(self) -> Seq<Sighting> {
        self.backend.seen()
    }

    /// Names and limits are the same.
    pub open spec fn same_setup(self, o: NvidiaGpuProvider<B>) -> bool {
        &&& self.spec_id() == o.spec_id()
        &&& self.spec_gpu_key() == o.spec_gpu_key()
        &&& self.spec_mem_key() == o.spec_mem_key()
        &&& self.spec_margin() == o.spec_margin()
        &&& self.spec_ttl() == o.spec_ttl()
    }

    pub fn from_backend(config: &NvidiaResourceConfig, backend: B) -> (r: NvidiaGpuProvider<B>)
        ensures
            r.wf(),
            r.spec_id() == config.provider_id@,
            r.spec_gpu_key() == config.gpu_key@,
            r.spec_mem_key() == config.gpu_mem_key@,
            r.spec_margin() == config.safety_margin_bytes,
            r.spec_ttl() == config.probe_ttl_ms,
            r.spec_cached() is None,
            r.spec_seen() == Seq::<Sighting>::empty(),
            r.spec_holds() == Seq::<HoldModel>::empty(),
            r.calls() == Seq::<ProviderCall>::empty(),
    {
        let r = NvidiaGpuProvider {
            id: ProviderId::new(config.provider_id.as_str()),
            gpu_key: config.gpu_key.clone(),
            gpu_mem_key: config.gpu_mem_key.clone(),
            safety_margin_bytes: config.safety_margin_bytes,
            probe_ttl_ms: config.probe_ttl_ms,
            backend: LoggedBackend::new(backend),
            cached: None,
            holds: Vec::new(),
            calls: Ghost(Seq::empty()),
        };
        assert(hold_models(r.holds@) =~= Seq::<HoldModel>::empty());
        r
    }

    /// The devices that were kept, while they are fresh.
    pub fn kept_samples(&self, now: u64) -> (r: Option<Vec<GpuSample>>)
        ensures
            match r {
                Some(v) => fresh_samples(self.spec_cached(), now, self.spec_ttl()) == Some(v@),
                None => fresh_samples(self.spec_cached(), now, self.spec_ttl()) is None,
            },
    {
        if let Some(cached) = &self.cached {
            if probe_is_fresh(cached.sampled_at, now, self.probe_ttl_ms) {
                let samples = cached.samples.clone();
                assert(samples@ =~= cached.samples@);
                return Some(samples);
            }
        }
        None
    }

    /// Keeps the devices that the driver reported by the time `now`.
    pub fn keep_samples(&mut self, samples: &Vec<GpuSample>, now: u64)
        ensures
            final(self).same_setup(*old(self)),
            final(self).spec_holds() == old(self).spec_holds(),
            final(self).calls() == old(self).calls(),
            final(self).spec_seen() == old(self).spec_seen(),
            final(self).spec_cached() == kept_after(
                old(self).spec_cached(),
                Ok::<Seq<GpuSample>, Text>(samples@),
                now,
            ),
    {
        let copy = samples.clone();
        assert(copy@ =~= samples@);
        self.cached = Some(CachedProbe { sampled_at: now, samples: copy });
    }

    /// The devices, from the cache while it is fresh.
    fn probe_samples(&mut self) -> (r: Result<Vec<GpuSample>, String>)
        ensures
            final(self).same_setup(*old(self)),
            final(self).spec_holds() == old(self).spec_holds(),
            final(self).calls() == old(self).calls(),
            exists|asked: u64, answer: Result<Seq<GpuSample>, Text>, answered: u64|
                {
                    &&& (sample_result(r), final(self).spec_cached()) == #[trigger] probe_result(
                        old(self).spec_cached(),
                        old(self).spec_ttl(),
                        asked,
                        answer,
                        answered,
                    )
                    &&& final(self).spec_seen() == old(self).spec_seen() + looks(
                        old(self).spec_cached(),
                        old(self).spec_ttl(),
                        asked,
                        answer,
                        answered,
                    )
                },
    {
        let ghost kept = self.spec_cached();
        let ghost ttl = self.spec_ttl();
        let ghost before = self.spec_seen();
        let asked = self.backend.now_millis();
        if let Some(samples) = self.kept_samples(asked) {
            let r = Ok(samples);
            proof {
                let told = sample_result(r);
                assert((told, self.spec_cached()) == probe_result(kept, ttl, asked, told, asked));
                assert(self.spec_seen() =~= before + looks(kept, ttl, asked, told, asked));
            }
            return r;
        }
        let answer = self.backend.probe();
        let ghost told = sample_result(answer);
        let mut answered: u64 = 0;
        if let Ok(samples) = &answer {
            answered = self.backend.now_millis();
            self.keep_samples(samples, answered);
        }
        proof {
            assert((told, self.spec_cached()) == probe_result(kept, ttl, asked, told, answered));
            assert(self.spec_seen() =~= before + looks(kept, ttl, asked, told, answered));
        }
        answer
    }

    /// The bytes reserved on a device, and whether it is taken.
    fn reserved_for_index(&self, index: u32) -> (r: (u64, bool))
        ensures
            r.0 == min_u64(held_bytes(self.spec_holds(), index)),
            r.1 == held_exclusive(self.spec_holds(), index),
    {
        let ghost holds = hold_models(self.holds@);
        let mut bytes: u64 = 0;
        let mut exclusive: bool = false;
        let mut i: usize = 0;
        assert(holds.take(0) =~= Seq::<HoldModel>::empty());
        while i < self.holds.len()
            invariant
                i <= self.holds@.len(),
                holds == hold_models(self.holds@),
                bytes == min_u64(held_bytes(holds.take(i as int), index)),
                exclusive == held_exclusive(holds.take(i as int), index),
            decreases self.holds@.len() - i,
        {
            let units = &self.holds[i].units;
            let ghost done = held_bytes(holds.take(i as int), index);
            let ghost was = exclusive;
            let mut j: usize = 0;
            assert(units@.take(0) =~= Seq::<GpuReservation>::empty());
            while j < units.len()
                invariant
                    j <= units@.len(),
                    bytes == min_u64(done + units_bytes(units@.take(j as int), index)),
                    exclusive == (was || units_exclusive(units@.take(j as int), index)),
                decreases units@.len() - j,
            {
                let unit = units[j];
                proof {
                    let t = units@.take(j as int);
                    let u = units@.take(j + 1);
                    assert(u.drop_last() =~= t);
                    assert(u.last() == unit);
                    if units_exclusive(t, index) {
                        let k = choose|k: int|
                            0 <= k < t.len() && (#[trigger] t[k]).index == index && t[k].exclusive;
                        assert(u[k] == t[k]);
                    }
                    if unit.index == index && unit.exclusive {
                        assert(u[j as int] == unit);
                    }
                    if units_exclusive(u, index) && !units_exclusive(t, index) {
                        let k = choose|k: int|
                            0 <= k < u.len() && (#[trigger] u[k]).index == index && u[k].exclusive;
                        if k < j {
                            assert(t[k] == u[k]);
                        }
                    }
                }
                if unit.index == index {
                    bytes = if unit.bytes <= u64::MAX - bytes {
                        bytes + unit.bytes
                    } else {
                        u64::MAX
                    };
                    exclusive = exclusive || unit.exclusive;
                }
                j = j + 1;
            }
            proof {
                assert(units@.take(j as int) =~= units@);
                let t = holds.take(i as int);
                let u = holds.take(i + 1);
                assert(u.drop_last() =~= t);
                assert(u.last().units == units@);
                if held_exclusive(t, index) {
                    let k = choose|k: int|
                        0 <= k < t.len() && units_exclusive((#[trigger] t[k]).units, index);
                    assert(u[k] == t[k]);
                }
                if units_exclusive(units@, index) {
                    assert(units_exclusive(u[i as int].units, index));
                }
                if held_exclusive(u, index) && !held_exclusive(t, index) {
                    let k = choose|k: int|
                        0 <= k < u.len() && units_exclusive((#[trigger] u[k]).units, index);
                    if k < i {
                        assert(t[k] == u[k]);
                    }
                }
            }
            i = i + 1;
        }
        assert(holds.take(i as int) =~= holds);
        (bytes, exclusive)
    }

    /// The memory of a device that a request can still get.
    pub fn effective_free(&self, sample: &GpuSample) -> (r: Option<u64>)
        ensures
            match r {
                Some(n) => effective_free(*sample, self.spec_holds(), self.spec_margin()) == Some(
                    n as nat,
                ),
                None => effective_free(*sample, self.spec_holds(), self.spec_margin()) is None,
            },
    {
        let (reserved, exclusive) = self.reserved_for_index(sample.index);
        if exclusive {
            return None;
        }
        let unreserved: u64 = if sample.total_mem >= reserved {
            sample.total_mem - reserved
        } else {
            0
        };
        let free: u64 = if sample.free_mem <= unreserved {
            sample.free_mem
        } else {
            unreserved
        };
        Some(
            if free >= self.safety_margin_bytes {
                free - self.safety_margin_bytes
            } else {
                0
            },
        )
    }

    /// Shows each device as the reservations leave it.
    pub fn snapshot_of(&self, samples: &Vec<GpuSample>) -> (r: Snapshot)
        ensures
            r.provider_id@ == self.spec_id(),
            super::types::unit_models(r.units@) == units_of(
                samples@,
                self.spec_holds(),
                self.spec_margin(),
            ),
    {
        let ghost holds = self.spec_holds();
        let ghost margin = self.spec_margin();
        let ghost shown = units_of(samples@, holds, margin);
        let mut units: Vec<ResourceUnit> = Vec::new();
        let mut i: usize = 0;
        assert(super::types::unit_models(units@) =~= shown.take(0));
        while i < samples.len()
            invariant
                i <= samples@.len(),
                holds == self.spec_holds(),
                margin == self.spec_margin(),
                shown == units_of(samples@, holds, margin),
                super::types::unit_models(units@) == shown.take(i as int),
            decreases samples@.len() - i,
        {
            let s = samples[i];
            let (reserved, exclusive) = self.reserved_for_index(s.index);
            let mut unit = ResourceUnit::new(text::decimal_u64(s.index as u64)).with_attr(
                "total_mem",
                ResourceQuantity::Bytes(s.total_mem),
            ).with_attr("free_mem", ResourceQuantity::Bytes(s.free_mem)).with_attr(
                "reserved_mem",
                ResourceQuantity::Bytes(reserved),
            );
            match self.effective_free(&s) {
                Some(free) => {
                    unit = unit.with_attr("effective_free_mem", ResourceQuantity::Bytes(free));
                },
                None => {},
            }
            if exclusive {
                unit = unit.with_attr("exclusive", ResourceQuantity::Count(1));
            }
            proof {
                assert(unit@ == unit_of(s, holds, margin));
                assert(super::types::unit_models(units@.push(unit)) =~= super::types::unit_models(
                    units@,
                ).push(unit@));
                assert(shown.take(i + 1) =~= shown.take(i as int).push(unit@));
            }
            units.push(unit);
            i = i + 1;
        }
        assert(shown.take(i as int) =~= shown);
        Snapshot { provider_id: self.id.clone(), units }
    }

    /// What a request asks for: a number of devices and the memory of each.
    fn read_demand(&self, need: &Need) -> (r: Result<(u64, u64), Reject>)
        requires
            need.wf(),
        ensures
            match r {
                Ok(d) => demand(need@, self.spec_gpu_key(), self.spec_mem_key()) == Ok::<
                    (u64, u64),
                    RejectModel,
                >(d),
                Err(e) => demand(need@, self.spec_gpu_key(), self.spec_mem_key()) == Err::<
                    (u64, u64),
                    RejectModel,
                >(e@),
            },
    {
        let gpu_count: u64 = match need.get(self.gpu_key.as_str()) {
            Some(ResourceQuantity::Count(n)) => n,
            Some(other) => {
                return Err(
                    Reject::new(
                        text::concat3(
                            self.gpu_key.as_str(),
                            " must be a count, got ",
                            other.text().as_str(),
                        ),
                    ),
                );
            },
            None => 0,
        };
        let mem_per_gpu: u64 = match need.get(self.gpu_mem_key.as_str()) {
            Some(ResourceQuantity::Bytes(n)) => n,
            Some(other) => {
                return Err(
                    Reject::new(
                        text::concat3(
                            self.gpu_mem_key.as_str(),
                            " must be bytes, got ",
                            other.text().as_str(),
                        ),
                    ),
                );
            },
            None => 0,
        };
        let needed: u64 = if gpu_count > 0 {
            gpu_count
        } else if mem_per_gpu > 0 {
            1
        } else {
            0
        };
        Ok((needed, mem_per_gpu))
    }

    /// The devices for a request, and the most that any device has free.
    fn select(&self, samples: &Vec<GpuSample>, mem: u64, wanted: u64) -> (r: (Vec<u32>, u64))
        requires
            wanted > 0,
        ensures
            (Selection { devices: r.0@, max_free: r.1 as nat }) == selection(
                samples@,
                self.spec_holds(),
                self.spec_margin(),
                mem,
                wanted,
            ),
            r.0@.len() <= wanted,
    {
        let sorted = sort_desc(samples);
        let ghost holds = self.spec_holds();
        let ghost margin = self.spec_margin();
        let mut selected: Vec<u32> = Vec::new();
        let mut max_free: u64 = 0;
        let mut i: usize = 0;
        while i < sorted.len()
            invariant
                i <= sorted@.len(),
                sorted@ == by_index_desc(samples@),
                holds == self.spec_holds(),
                margin == self.spec_margin(),
                selected@.len() < wanted,
                selection(samples@, holds, margin, mem, wanted) == select_from(
                    sorted@,
                    i as int,
                    holds,
                    margin,
                    mem,
                    wanted,
                    Selection { devices: selected@, max_free: max_free as nat },
                ),
            decreases sorted@.len() - i,
        {
            match self.effective_free(&sorted[i]) {
                None => {},
                Some(free) => {
                    if free > max_free {
                        max_free = free;
                    }
                    if free >= mem {
                        selected.push(sorted[i].index);
                        if selected.len() as u64 == wanted {
                            return (selected, max_free);
                        }
                    }
                },
            }
            i = i + 1;
        }
        (selected, max_free)
    }

    /// Removes the reservation called `id`.
    fn drop_hold(&mut self, id: &str)
        ensures
            final(self).same_setup(*old(self)),
            final(self).calls == old(self).calls,
            final(self).cached == old(self).cached,
            final(self).spec_seen() == old(self).spec_seen(),
            final(self).spec_holds() == without_hold(old(self).spec_holds(), id@),
    {
        let ghost pred = |h: HoldModel| h.id != id@;
        let mut rest: Vec<GpuHold> = Vec::new();
        std::mem::swap(&mut rest, &mut self.holds);
        let ghost all = rest@;
        let ghost models = hold_models(all);
        let mut kept: Vec<GpuHold> = Vec::new();
        let n: usize = rest.len();
        let mut i: usize = 0;
        proof {
            reveal(Seq::filter);
            assert(all.skip(0) =~= all);
            assert(hold_models(kept@) =~= models.take(0).filter(pred));
        }
        while i < n
            invariant
                i <= n,
                n == all.len(),
                rest@ == all.skip(i as int),
                models == hold_models(all),
                self.same_setup(*old(self)),
                self.calls == old(self).calls,
                self.cached == old(self).cached,
                self.spec_seen() == old(self).spec_seen(),
                pred == (|h: HoldModel| h.id != id@),
                hold_models(kept@) == models.take(i as int).filter(pred),
            decreases n - i,
        {
            let h = rest.remove(0);
            proof {
                reveal(Seq::filter);
                assert(rest@ =~= all.skip(i + 1));
                assert(models.take(i + 1).drop_last() =~= models.take(i as int));
                assert(models.take(i + 1).last() == h@);
                assert(hold_models(kept@.push(h)) =~= hold_models(kept@).push(h@));
            }
            if !text::str_eq(h.id.as_str(), id) {
                kept.push(h);
            }
            i = i + 1;
        }
        assert(models.take(i as int) =~= models);
        self.holds = kept;
    }

    /// Decides a request on the given samples, and records what was granted.
    pub fn reserve_inner(
        &mut self,
        req: &ReserveRequest,
        samples: Result<Vec<GpuSample>, String>,
    ) -> (r: Result<Grant, Reject>)
        requires
            req.need.wf(),
        ensures
            final(self).same_setup(*old(self)),
            final(self).calls() == old(self).calls(),
            final(self).spec_cached() == old(self).spec_cached(),
            final(self).spec_seen() == old(self).spec_seen(),
            (grant_result(r), final(self).spec_holds()) == reserve_outcome(
                old(self).spec_id(),
                old(self).spec_gpu_key(),
                old(self).spec_mem_key(),
                old(self).spec_margin(),
                old(self).spec_holds(),
                req.job_id,
                req.need@,
                sample_result(samples),
            ),
    {
        let (needed, mem) = match self.read_demand(&req.need) {
            Ok(d) => d,
            Err(e) => {
                return Err(e);
            },
        };
        let id = text::concat3(self.id.as_str(), "-", req.job_id.text().as_str());
        if needed == 0 {
            return Ok(
                Grant::empty(ReservationId::new(id.as_str()), req.job_id, self.id.clone()),
            );
        }
        let samples = match samples {
            Ok(s) => s,
            Err(e) => {
                return Err(Reject::new(text::concat2("NVML probe failed: ", e.as_str())));
            },
        };
        let (selected, max_free) = self.select(&samples, mem, needed);
        if (selected.len() as u64) < needed {
            let mut reason = text::concat5(
                "waiting GPU: need ",
                text::decimal_u64(needed).as_str(),
                " x ",
                ResourceQuantity::Bytes(mem).text().as_str(),
                ", max effective free ",
            );
            reason.append(ResourceQuantity::Bytes(max_free).text().as_str());
            let reject = Reject::new(reason);
            return Err(
                if mem > 0 {
                    reject.with_demand(
                        self.gpu_mem_key.clone(),
                        ResourceQuantity::Bytes(mem),
                    ).with_available(ResourceQuantity::Bytes(max_free))
                } else {
                    reject
                },
            );
        }
        let exclusive = mem == 0 && req.need.contains(self.gpu_key.as_str());
        let mut units: Vec<GpuReservation> = Vec::new();
        let mut shown: Vec<String> = Vec::new();
        let mut i: usize = 0;
        assert(units@ =~= units_for(selected@.take(0), mem, exclusive));
        assert(text::texts(shown@) =~= device_texts(selected@.take(0)));
        while i < selected.len()
            invariant
                i <= selected@.len(),
                units@ == units_for(selected@.take(i as int), mem, exclusive),
                text::texts(shown@) == device_texts(selected@.take(i as int)),
            decreases selected@.len() - i,
        {
            units.push(GpuReservation { index: selected[i], bytes: mem, exclusive });
            let d = text::decimal_u64(selected[i] as u64);
            proof {
                assert(text::texts(shown@.push(d)) =~= text::texts(shown@).push(d@));
                assert(device_texts(selected@.take(i + 1)) =~= device_texts(
                    selected@.take(i as int),
                ).push(d@));
            }
            shown.push(d);
            i = i + 1;
            assert(units@ =~= units_for(selected@.take(i as int), mem, exclusive));
        }
        assert(selected@.take(i as int) =~= selected@);
        self.drop_hold(id.as_str());
        let hold = GpuHold { id: id.clone(), units };
        proof {
            assert(hold_models(self.holds@.push(hold)) =~= hold_models(self.holds@).push(hold@));
        }
        self.holds.push(hold);
        let mut env: TextMap<String> = TextMap::new();
        assert(env.text_map() =~= Map::<Text, Text>::empty());
        env.insert("CUDA_DEVICE_ORDER".to_owned(), "PCI_BUS_ID".to_owned());
        env.insert("CUDA_VISIBLE_DEVICES".to_owned(), text::join_strings(&shown, ","));
        let mut info: TextMap<ResourceQuantity> = TextMap::new();
        let count: u64 = selected.len() as u64;
        info.insert(self.gpu_key.clone(), ResourceQuantity::Count(count));
        if mem > 0 {
            let total: u64 = match mem.checked_mul(count) {
                Some(t) => t,
                None => u64::MAX,
            };
            info.insert(self.gpu_mem_key.clone(), ResourceQuantity::Bytes(total));
        }
        let grant = Grant {
            id: ReservationId::new(id.as_str()),
            job_id: req.job_id,
            provider_id: self.id.clone(),
            env,
            info,
        };
        proof {
            let m = granted_model(
                self.spec_id(),
                self.spec_gpu_key(),
                self.spec_mem_key(),
                req.job_id,
                selected@,
                mem,
            );
            assert(grant.env.text_map() =~= m.env);
            assert(grant@ == m);
        }
        Ok(grant)
    }
}

impl<B: NvidiaBackend> Provider for NvidiaGpuProvider<B> {
    closed spec fn wf(&self) -> bool {
        true
    }

    closed spec fn spec_id(&self) -> Text {
        self.id@
    }

    open spec fn spec_keys(&self) -> Seq<Text> {
        seq![self.spec_gpu_key(), self.spec_mem_key()]
    }

    closed spec fn calls(&self) -> Seq<ProviderCall> {
        self.calls@
    }

    fn id(&self) -> (r: ProviderId) {
        self.id.clone()
    }

    fn keys(&self) -> (r: Vec<String>) {
        text::texts2(self.gpu_key.clone(), self.gpu_mem_key.clone())
    }

    /// Shows each device as the reservations leave it, or none if the driver
    /// cannot be asked.
    fn probe(&mut self) -> (r: Snapshot)
        ensures
            final(self).same_setup(*old(self)),
            final(self).spec_holds() == old(self).spec_holds(),
            exists|asked: u64, answer: Result<Seq<GpuSample>, Text>, answered: u64|
                {
                    let (seen, kept) = #[trigger] probe_result(
                        old(self).spec_cached(),
                        old(self).spec_ttl(),
                        asked,
                        answer,
                        answered,
                    );
                    &&& super::types::unit_models(r.units@) == units_of(
                        shown_samples(seen),
                        old(self).spec_holds(),
                        old(self).spec_margin(),
                    )
                    &&& final(self).spec_cached() == kept
                    &&& final(self).spec_seen() == old(self).spec_seen() + looks(
                        old(self).spec_cached(),
                        old(self).spec_ttl(),
                        asked,
                        answer,
                        answered,
                    )
                },
    {
        let found = self.probe_samples();
        let ghost seen = sample_result(found);
        let samples = match found {
            Ok(s) => s,
            Err(_) => Vec::new(),
        };
        assert(samples@ =~= shown_samples(seen));
        let r = self.snapshot_of(&samples);
        proof {
            self.calls@ = self.calls@.push(
                ProviderCall::Probe(super::types::unit_models(r.units@)),
            );
        }
        r
    }

    /// Decides the request on what the driver reports.
    fn reserve(&mut self, req: &ReserveRequest) -> (r: Result<Grant, Reject>)
        ensures
            final(self).same_setup(*old(self)),
            exists|asked: u64, answer: Result<Seq<GpuSample>, Text>, answered: u64|
                {
                    let (seen, kept) = #[trigger] probe_result(
                        old(self).spec_cached(),
                        old(self).spec_ttl(),
                        asked,
                        answer,
                        answered,
                    );
                    &&& (grant_result(r), final(self).spec_holds()) == reserve_outcome(
                        old(self).spec_id(),
                        old(self).spec_gpu_key(),
                        old(self).spec_mem_key(),
                        old(self).spec_margin(),
                        old(self).spec_holds(),
                        req.job_id,
                        req.need@,
                        seen,
                    )
                    &&& if asks_driver(
                        req.need@,
                        old(self).spec_gpu_key(),
                        old(self).spec_mem_key(),
                    ) {
                        &&& final(self).spec_cached() == kept
                        &&& final(self).spec_seen() == old(self).spec_seen() + looks(
                            old(self).spec_cached(),
                            old(self).spec_ttl(),
                            asked,
                            answer,
                            answered,
                        )
                    } else {
                        &&& final(self).spec_cached() == old(self).spec_cached()
                        &&& final(self).spec_seen() == old(self).spec_seen()
                    }
                },
    {
        let samples = match self.read_demand(&req.need) {
            Ok((needed, mem)) => if needed > 0 {
                self.probe_samples()
            } else {
                Ok(Vec::new())
            },
            Err(_) => Ok(Vec::new()),
        };
        let ghost start = *old(self);
        let ghost asks = asks_driver(req.need@, start.spec_gpu_key(), start.spec_mem_key());
        let ghost seen = sample_result(samples);
        let ghost kept = self.spec_cached();
        let ghost told = self.spec_seen();
        let r = self.reserve_inner(req, samples);
        proof {
            let (asked, answer, answered) = choose|
                asked: u64,
                answer: Result<Seq<GpuSample>, Text>,
                answered: u64,
            |
                {
                    &&& asks ==> (seen, kept) == #[trigger] probe_result(
                        start.spec_cached(),
                        start.spec_ttl(),
                        asked,
                        answer,
                        answered,
                    )
                    &&& asks ==> told == start.spec_seen() + looks(
                        start.spec_cached(),
                        start.spec_ttl(),
                        asked,
                        answer,
                        answered,
                    )
                };
            let found = probe_result(
                start.spec_cached(),
                start.spec_ttl(),
                asked,
                answer,
                answered,
            );
            let outcome = reserve_outcome(
                start.spec_id(),
                start.spec_gpu_key(),
                start.spec_mem_key(),
                start.spec_margin(),
                start.spec_holds(),
                req.job_id,
                req.need@,
                found.0,
            );
            assert(asks ==> (seen, kept) == found);
            assert(asks ==> told == start.spec_seen() + looks(
                start.spec_cached(),
                start.spec_ttl(),
                asked,
                answer,
                answered,
            ));
            assert((grant_result(r), self.spec_holds()) == outcome);
            self.calls@ = self.calls@.push(recorded(*req, r));
            assert((grant_result(r), self.spec_holds()) == outcome);
        }
        r
    }

    fn release(&mut self, grant_id: &ReservationId)
        ensures
            final(self).same_setup(*old(self)),
            final(self).spec_cached() == old(self).spec_cached(),
            final(self).spec_seen() == old(self).spec_seen(),
            final(self).spec_holds() == without_hold(old(self).spec_holds(), grant_id@),
    {
        self.drop_hold(grant_id.as_str());
        proof {
            self.calls@ = self.calls@.push(ProviderCall::Release(grant_id@));
        }
    }
}

/// A fixed set of devices.
pub struct StaticBackend {
    pub samples: Vec<GpuSample>,
}

impl NvidiaBackend for StaticBackend {
    fn probe(&mut self) -> (r: Result<Vec<GpuSample>, String>)
        ensures
            r matches Ok(v) && v@ == old(self).samples@,
            final(self).samples@ == old(self).samples@,
    {
        let v = self.samples.clone();
        assert(v@ =~= self.samples@);
        Ok(v)
    }

    fn now_millis(&mut self) -> (r: u64)
        ensures
            r == 0,
            final(self).samples@ == old(self).samples@,
    {
        0
    }
}

// ── Laws ──

/// The samples stay the same, from the highest index to the lowest.
pub proof fn lemma_by_index_desc(s: Seq<GpuSample>)
    ensures
        by_index_desc(s).to_multiset() == s.to_multiset(),
        forall|i: int, j: int|
            0 <= i < j < by_index_desc(s).len() ==> (#[trigger] by_index_desc(s)[i]).index >= (
            #[trigger] by_index_desc(s)[j]).index,
    decreases s.len(),
{
    broadcast use vstd::seq_lib::to_multiset_build;

    if s.len() > 0 {
        lemma_by_index_desc(s.drop_last());
        lemma_insert_desc(by_index_desc(s.drop_last()), s.last());
        assert(s =~= s.drop_last().push(s.last()));
    } else {
        assert(by_index_desc(s) =~= s);
    }
}

proof fn lemma_insert_desc(s: Seq<GpuSample>, x: GpuSample)
    requires
        forall|i: int, j: int|
            0 <= i < j < s.len() ==> (#[trigger] s[i]).index >= (#[trigger] s[j]).index,
    ensures
        insert_desc(s, x).len() == s.len() + 1,
        insert_desc(s, x).to_multiset() == s.to_multiset().insert(x),
        forall|i: int, j: int|
            0 <= i < j < insert_desc(s, x).len() ==> (#[trigger] insert_desc(s, x)[i]).index >= (
            #[trigger] insert_desc(s, x)[j]).index,
        forall|i: int| 0 <= i < insert_desc(s, x).len() ==> (#[trigger] insert_desc(s, x)[i] == x
            || s.contains(insert_desc(s, x)[i])),
    decreases s.len(),
{
    broadcast use vstd::seq_lib::to_multiset_build;

    let r = insert_desc(s, x);
    if s.len() == 0 || s.last().index >= x.index {
        assert forall|i: int| 0 <= i < r.len() implies (#[trigger] r[i] == x || s.contains(r[i])) by {
            if i < s.len() {
                assert(s[i] == r[i]);
            }
        }
        assert forall|i: int, j: int| 0 <= i < j < r.len() implies (#[trigger] r[i]).index >= (
        #[trigger] r[j]).index by {
            assert(r[i] == s[i]);
            if j < s.len() {
                assert(r[j] == s[j]);
            } else {
                assert(s[i].index >= s[s.len() - 1].index || i == s.len() - 1);
            }
        }
    } else {
        let d = s.drop_last();
        lemma_insert_desc(d, x);
        let q = insert_desc(d, x);
        assert(s =~= d.push(s.last()));
        assert(s.to_multiset() =~= d.to_multiset().insert(s.last()));
        assert(r.to_multiset() =~= s.to_multiset().insert(x));
        assert forall|i: int| 0 <= i < r.len() implies (#[trigger] r[i] == x || s.contains(r[i])) by {
            if i < q.len() {
                assert(r[i] == q[i]);
                if q[i] != x {
                    let k = d.index_of(q[i]);
                    assert(s[k] == q[i]);
                }
            } else {
                assert(s[s.len() - 1] == r[i]);
            }
        }
        assert forall|i: int, j: int| 0 <= i < j < r.len() implies (#[trigger] r[i]).index >= (
        #[trigger] r[j]).index by {
            assert(r[i] == q[i]);
            if j < q.len() {
                assert(r[j] == q[j]);
            } else if q[i] != x {
                let k = d.index_of(q[i]);
                assert(s[k].index >= s[s.len() - 1].index);
            }
        }
    }
}

/// Releasing a reservation gives back exactly what it took: the reservations
/// are those from before it was made, and so is what is free on every device.
pub proof fn lemma_release_restores(holds: Seq<HoldModel>, id: Text, units: Seq<GpuReservation>)
    requires
        forall|i: int| 0 <= i < holds.len() ==> (#[trigger] holds[i]).id != id,
    ensures
        without_hold(without_hold(holds, id).push(HoldModel { id, units }), id) == holds,
        forall|s: GpuSample, margin: u64| #[trigger]
            effective_free(
                s,
                without_hold(without_hold(holds, id).push(HoldModel { id, units }), id),
                margin,
            ) == effective_free(s, holds, margin),
{
    lemma_without_absent(holds, id);
    let h = HoldModel { id, units };
    reveal(Seq::filter);
    assert(holds.push(h).drop_last() =~= holds);
}

proof fn lemma_without_absent(holds: Seq<HoldModel>, id: Text)
    requires
        forall|i: int| 0 <= i < holds.len() ==> (#[trigger] holds[i]).id != id,
    ensures
        without_hold(holds, id) == holds,
    decreases holds.len(),
{
    reveal(Seq::filter);
    if holds.len() > 0 {
        let d = holds.drop_last();
        assert forall|i: int| 0 <= i < d.len() implies (#[trigger] d[i]).id != id by {
            assert(d[i] == holds[i]);
        }
        lemma_without_absent(d, id);
        assert(holds[holds.len() - 1].id != id);
        assert(holds =~= d.push(holds.last()));
    }
}

/// A device that a reservation takes for itself is offered to no one else.
pub proof fn lemma_exclusive_device_taken(
    holds: Seq<HoldModel>,
    h: HoldModel,
    index: u32,
    s: GpuSample,
    margin: u64,
)
    requires
        units_exclusive(h.units, index),
        s.index == index,
    ensures
        effective_free(s, holds.push(h), margin) is None,
{
    assert(holds.push(h)[holds.len() as int] == h);
}

/// A sample shows that the device can still give `mem` bytes: it is not taken,
/// and the bytes, what is reserved on it already and the margin fit into its
/// memory, as do the bytes and the margin into what is free.
pub open spec fn has_room(
    samples: Seq<GpuSample>,
    device: u32,
    holds: Seq<HoldModel>,
    margin: u64,
    mem: u64,
) -> bool {
    exists|i: int| #[trigger]
        room_in(samples[i], holds, margin, mem) && 0 <= i < samples.len() && samples[i].index
            == device
}

pub open spec fn room_in(s: GpuSample, holds: Seq<HoldModel>, margin: u64, mem: u64) -> bool {
    &&& !held_exclusive(holds, s.index)
    &&& mem > 0 ==> held_bytes(holds, s.index) + mem + margin <= s.total_mem
    &&& mem > 0 ==> mem + margin <= s.free_mem
}

proof fn lemma_selected_from(
    s: Seq<GpuSample>,
    i: int,
    holds: Seq<HoldModel>,
    margin: u64,
    mem: u64,
    wanted: u64,
    acc: Selection,
)
    requires
        0 <= i <= s.len(),
        forall|k: int|
            0 <= k < acc.devices.len() ==> has_room(
                s,
                #[trigger] acc.devices[k],
                holds,
                margin,
                mem,
            ),
    ensures
        forall|k: int|
            0 <= k < select_from(s, i, holds, margin, mem, wanted, acc).devices.len() ==> has_room(
                s,
                #[trigger] select_from(s, i, holds, margin, mem, wanted, acc).devices[k],
                holds,
                margin,
                mem,
            ),
    decreases s.len() - i,
{
    let out = select_from(s, i, holds, margin, mem, wanted, acc);
    if i < s.len() {
        match effective_free(s[i], holds, margin) {
            None => {
                lemma_selected_from(s, i + 1, holds, margin, mem, wanted, acc);
                assert(out == select_from(s, i + 1, holds, margin, mem, wanted, acc));
            },
            Some(free) => {
                let max_free = if acc.max_free >= free {
                    acc.max_free
                } else {
                    free
                };
                let devices = if free >= mem {
                    assert(room_in(s[i], holds, margin, mem));
                    acc.devices.push(s[i].index)
                } else {
                    acc.devices
                };
                assert forall|k: int| 0 <= k < devices.len() implies has_room(
                    s,
                    #[trigger] devices[k],
                    holds,
                    margin,
                    mem,
                ) by {
                    if k < acc.devices.len() {
                        assert(devices[k] == acc.devices[k]);
                    }
                }
                let next = Selection { devices, max_free };
                if free >= mem && devices.len() == wanted {
                    assert(out == next);
                    assert forall|k: int| 0 <= k < out.devices.len() implies has_room(
                        s,
                        #[trigger] out.devices[k],
                        holds,
                        margin,
                        mem,
                    ) by {
                        assert(devices[k] == out.devices[k]);
                    }
                } else {
                    assert(out == select_from(s, i + 1, holds, margin, mem, wanted, next));
                    lemma_selected_from(s, i + 1, holds, margin, mem, wanted, next);
                }
            },
        }
    } else {
        assert(out == acc);
    }
    assert forall|k: int| 0 <= k < out.devices.len() implies has_room(
        s,
        #[trigger] out.devices[k],
        holds,
        margin,
        mem,
    ) by {}
}

/// No device is promised more memory than it has: each device that is selected
/// had room for the request beside what was reserved before.
pub proof fn lemma_no_device_overcommitted(
    samples: Seq<GpuSample>,
    holds: Seq<HoldModel>,
    margin: u64,
    mem: u64,
    wanted: u64,
    k: int,
)
    requires
        0 <= k < selection(samples, holds, margin, mem, wanted).devices.len(),
    ensures
        has_room(
            samples,
            selection(samples, holds, margin, mem, wanted).devices[k],
            holds,
            margin,
            mem,
        ),
{
    let sorted = by_index_desc(samples);
    lemma_by_index_desc(samples);
    lemma_selected_from(
        sorted,
        0,
        holds,
        margin,
        mem,
        wanted,
        Selection { devices: Seq::empty(), max_free: 0 },
    );
    let device = selection(samples, holds, margin, mem, wanted).devices[k];
    assert(has_room(sorted, device, holds, margin, mem));
    let i = choose|i: int| #[trigger]
        room_in(sorted[i], holds, margin, mem) && 0 <= i < sorted.len() && sorted[i].index
            == device;
    sorted.to_multiset_ensures();
    samples.to_multiset_ensures();
    assert(sorted.contains(sorted[i]));
    assert(sorted.to_multiset().count(sorted[i]) > 0);
    assert(samples.to_multiset().count(sorted[i]) > 0);
    let j = samples.index_of(sorted[i]);
    assert(room_in(samples[j], holds, margin, mem));
}

} // verus!
