//! Looking at devices: when the driver is asked, and what is shown of what it says.

use vstd::prelude::*;

use crate::text;
use crate::resource::nvidia::{
    asks_driver, probe_result, shown_samples, units_of, CacheModel, GpuSample, HoldModel,
};
use crate::resource::types::ResourceQuantity;
use crate::text::Text;

verus! {

/// What is kept is used again as long as it is younger than its time, and the driver is not
/// asked then; otherwise the driver decides, and what it says is kept with the time at which
/// it answered. What was kept outlives an answer that failed.
pub proof fn lemma_kept_answers(
    kept: CacheModel,
    ttl: u64,
    asked: u64,
    answer: Result<Seq<GpuSample>, Text>,
    answered: u64,
)
    ensures
        asked >= kept.sampled_at && asked - kept.sampled_at < ttl ==> probe_result(
            Some(kept),
            ttl,
            asked,
            answer,
            answered,
        ) == (Ok::<Seq<GpuSample>, Text>(kept.samples), Some(kept)),
        asked >= kept.sampled_at && asked - kept.sampled_at >= ttl ==> probe_result(
            Some(kept),
            ttl,
            asked,
            answer,
            answered,
        ).0 == answer,
        probe_result(None, ttl, asked, answer, answered).0 == answer,
        answer matches Ok(samples) ==> probe_result(None, ttl, asked, answer, answered).1 == Some(
            CacheModel { sampled_at: answered, samples },
        ),
        answer is Err ==> probe_result(None, ttl, asked, answer, answered).1 is None,
        answer is Err ==> probe_result(Some(kept), ttl, asked, answer, answered).1 == Some(kept),
        asked >= kept.sampled_at && asked - kept.sampled_at >= ttl ==> (answer matches Ok(samples)
            ==> probe_result(Some(kept), ttl, asked, answer, answered).1 == Some(
            CacheModel { sampled_at: answered, samples },
        )),
{
}

/// A snapshot shows each device that the driver named, in its order and under its number;
/// none where the driver cannot be asked.
pub proof fn lemma_devices_shown(
    samples: Seq<GpuSample>,
    e: Text,
    holds: Seq<HoldModel>,
    margin: u64,
    i: int,
)
    ensures
        shown_samples(Ok(samples)) == samples,
        shown_samples(Err(e)).len() == 0,
        units_of(samples, holds, margin).len() == samples.len(),
        0 <= i < samples.len() ==> units_of(samples, holds, margin)[i].id == text::decimal(
            samples[i].index as nat,
        ),
{
}

/// A request that asks for no device and no memory has no use for the driver; one that asks
/// for a device, or for memory, has.
pub proof fn lemma_driver_asked(
    need: Map<Text, ResourceQuantity>,
    gpu: Text,
    mem: Text,
    n: u64,
    b: u64,
)
    requires
        gpu != mem,
    ensures
        need.contains_key(gpu) && need[gpu] == ResourceQuantity::Count(n) && !need.contains_key(mem)
            ==> (asks_driver(need, gpu, mem) <==> n > 0),
        need.contains_key(mem) && need[mem] == ResourceQuantity::Bytes(b) && !need.contains_key(gpu)
            ==> (asks_driver(need, gpu, mem) <==> b > 0),
        !need.contains_key(gpu) && !need.contains_key(mem) ==> !asks_driver(need, gpu, mem),
{
}

} // verus!
