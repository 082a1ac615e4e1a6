//! Resources: who is asked for what, who holds what, and how amounts are shown.

use vstd::prelude::*;

use crate::text;
use crate::resource::cli::{reserve_result, shown_units, ResponseModel};
use crate::resource::mock::{next_count, BehaviourModel};
use crate::resource::provider::{held_after, Provider, ProviderCall};
use crate::resource::registry::{
    calls_after, claims, claims_distinct, claims_of, only_job, routed, routes_of, unknown_keys,
    without_job, TrackedModel,
};
use crate::resource::types::{
    bare_reject, job_text, quantity_text, GrantModel, JobId, RejectModel, ResourceQuantity,
    UnitModel,
};
use crate::text::Text;

verus! {

// ── Choosing from a list ──

proof fn lemma_chosen<T>(s: Seq<T>, f: spec_fn(T) -> bool, x: T)
    ensures
        s.filter(f).contains(x) <==> s.contains(x) && f(x),
        s.filter(f).len() <= s.len(),
    decreases s.len(),
{
    reveal(Seq::filter);
    if s.len() > 0 {
        let front = s.drop_last();
        lemma_chosen(front, f, x);
        let kept = front.filter(f);
        if s.filter(f).contains(x) {
            let k = s.filter(f).index_of(x);
            if k < kept.len() {
                assert(kept[k] == x);
                assert(kept.contains(x));
                let j = front.index_of(x);
                assert(s[j] == x);
            } else {
                assert(s[s.len() - 1] == x);
            }
        }
        if s.contains(x) && f(x) {
            let j = s.index_of(x);
            if j < front.len() {
                assert(front[j] == x);
                assert(front.contains(x));
                let k = kept.index_of(x);
                assert(s.filter(f)[k] == x);
            } else {
                assert(s.filter(f)[kept.len() as int] == x);
            }
        }
    } else {
        assert(s.filter(f) =~= s);
    }
}

/// A provider is asked for just those parts of a need whose keys are its own.
pub proof fn lemma_asked_for_its_own(
    entries: Seq<(Text, ResourceQuantity)>,
    routes: Map<Text, usize>,
    p: int,
    key: Text,
    q: ResourceQuantity,
)
    ensures
        routed(entries, routes, p).contains((key, q)) <==> entries.contains((key, q))
            && routes.contains_key(key) && routes[key] == p,
{
    lemma_chosen(entries, crate::resource::registry::owned_by(routes, p), (key, q));
}

/// A key is unknown just when no provider has claimed it.
pub proof fn lemma_unknown_keys(keys: Seq<Text>, routes: Map<Text, usize>, key: Text)
    ensures
        unknown_keys(keys, routes).contains(key) <==> keys.contains(key) && !routes.contains_key(
            key,
        ),
{
    lemma_chosen(keys, crate::resource::registry::unowned(routes), key);
}

/// The reservations of a job are just those made for it, and the others stay without it.
pub proof fn lemma_reservations_of_a_job(v: Seq<TrackedModel>, job_id: JobId, t: TrackedModel)
    ensures
        only_job(v, job_id).contains(t) <==> v.contains(t) && t.job_id == job_id,
        without_job(v, job_id).contains(t) <==> v.contains(t) && t.job_id != job_id,
{
    lemma_chosen(v, |t: TrackedModel| t.job_id == job_id, t);
    lemma_chosen(v, |t: TrackedModel| t.job_id != job_id, t);
}

proof fn lemma_claims_made<P: Provider>(ps: Seq<P>, p: int, k: int)
    requires
        0 <= p < ps.len(),
        ps.len() <= usize::MAX,
        0 <= k < ps[p].spec_keys().len(),
    ensures
        claims(ps).contains((ps[p].spec_keys()[k], p as usize)),
    decreases ps.len(),
{
    let front = claims(ps.drop_last());
    let own = claims_of(ps.last().spec_keys(), (ps.len() - 1) as usize);
    if p < ps.len() - 1 {
        lemma_claims_made(ps.drop_last(), p, k);
        let j = front.index_of((ps[p].spec_keys()[k], p as usize));
        assert((front + own)[j] == front[j]);
    } else {
        assert((front + own)[front.len() + k] == own[k]);
        assert(own[k] == (ps[p].spec_keys()[k], p as usize));
    }
}

proof fn lemma_route_of_a_claim(c: Seq<(Text, usize)>, i: int)
    requires
        0 <= i < c.len(),
        claims_distinct(c),
    ensures
        routes_of(c).contains_key(c[i].0),
        routes_of(c)[c[i].0] == c[i].1,
    decreases c.len(),
{
    let front = c.drop_last();
    assert(c.last() == c[c.len() - 1]);
    if i < front.len() {
        assert forall|a: int, b: int| 0 <= a < b < front.len() implies (#[trigger] front[a]).0 != (
        #[trigger] front[b]).0 by {
            assert(front[a] == c[a] && front[b] == c[b]);
        }
        lemma_route_of_a_claim(front, i);
        assert(front[i] == c[i]);
        assert(c[i].0 != c[c.len() - 1].0);
    }
}

/// Each key leads to the provider that claimed it.
pub proof fn lemma_keys_lead_to_their_provider<P: Provider>(ps: Seq<P>, p: int, k: int)
    requires
        0 <= p < ps.len(),
        ps.len() <= usize::MAX,
        0 <= k < ps[p].spec_keys().len(),
        claims_distinct(claims(ps)),
    ensures
        routes_of(claims(ps)).contains_key(ps[p].spec_keys()[k]),
        routes_of(claims(ps))[ps[p].spec_keys()[k]] == p,
{
    lemma_claims_made(ps, p, k);
    let i = claims(ps).index_of((ps[p].spec_keys()[k], p as usize));
    lemma_route_of_a_claim(claims(ps), i);
}

// ── What providers hold ──

/// A grant is held from when it is given until it is released; a refusal and a look change
/// nothing.
pub proof fn lemma_grants_held(
    calls: Seq<ProviderCall>,
    job_id: JobId,
    need: Seq<(Text, ResourceQuantity)>,
    grant: GrantModel,
    reject: RejectModel,
    units: Seq<UnitModel>,
)
    ensures
        held_after(Seq::empty()) == Set::<Text>::empty(),
        held_after(calls.push(ProviderCall::Reserve { job_id, need, answer: Ok(grant) }))
            == held_after(calls).insert(grant.id),
        held_after(calls.push(ProviderCall::Reserve { job_id, need, answer: Err(reject) }))
            == held_after(calls),
        held_after(calls.push(ProviderCall::Release(grant.id))) == held_after(calls).remove(grant.id),
        held_after(calls.push(ProviderCall::Probe(units))) == held_after(calls),
{
    assert(calls.push(
        ProviderCall::Reserve { job_id, need, answer: Ok(grant) },
    ).drop_last() =~= calls);
    assert(calls.push(
        ProviderCall::Reserve { job_id, need, answer: Err(reject) },
    ).drop_last() =~= calls);
    assert(calls.push(ProviderCall::Release(grant.id)).drop_last() =~= calls);
    assert(calls.push(ProviderCall::Probe(units)).drop_last() =~= calls);
}

/// A grant that is rolled back is held no longer, and one that is not rolled back is.
pub proof fn lemma_rolled_back(
    before: Seq<ProviderCall>,
    job_id: JobId,
    need: Seq<(Text, ResourceQuantity)>,
    grant: GrantModel,
    reject: RejectModel,
)
    requires
        !held_after(before).contains(grant.id),
    ensures
        held_after(calls_after(before, job_id, need, Ok(grant), true)) == held_after(before),
        held_after(calls_after(before, job_id, need, Ok(grant), false)) == held_after(before).insert(
            grant.id,
        ),
        held_after(calls_after(before, job_id, need, Err(reject), true)) == held_after(before),
{
    let asked = before.push(ProviderCall::Reserve { job_id, need, answer: Ok(grant) });
    lemma_grants_held(before, job_id, need, grant, reject, Seq::empty());
    lemma_grants_held(asked, job_id, need, grant, reject, Seq::empty());
    assert(held_after(before).insert(grant.id).remove(grant.id) =~= held_after(before));
}

// ── Answers of commands ──

/// A command grants just when it answers, says yes and names its grant; the grant is then
/// that one, for this job, with what the answer holds. An answer that says no gives its
/// reason.
pub proof fn lemma_command_answers(id: Text, job_id: JobId, r: Result<ResponseModel, Text>)
    ensures
        reserve_result(id, job_id, r) is Ok <==> (r matches Ok(a) && a.ok && a.grant_id is Some),
        reserve_result(id, job_id, r) matches Ok(g) ==> (r matches Ok(a) && Some(g.id) == a.grant_id
            && g.job_id == job_id && g.provider_id == id && g.env == a.env && g.info == a.info),
        r matches Ok(a) ==> (!a.ok ==> (a.reason matches Some(reason) ==> reserve_result(
            id,
            job_id,
            r,
        ) == Err::<GrantModel, RejectModel>(bare_reject(reason)))),
{
}

/// A command that fails shows no units.
pub proof fn lemma_units_shown(r: Result<Seq<UnitModel>, Text>)
    ensures
        r matches Ok(units) ==> shown_units(r) == units,
        r is Err ==> shown_units(r).len() == 0,
{
}

// ── Scripted answers ──

/// A script is answered step by step, and its last step again and again; without a script
/// every request is answered alike.
pub proof fn lemma_scripted_answers(steps: Seq<Result<(), RejectModel>>, e: RejectModel)
    ensures
        BehaviourModel::AlwaysGrant.answer() is Ok,
        BehaviourModel::AlwaysGrant.answered() == BehaviourModel::AlwaysGrant,
        BehaviourModel::AlwaysReject(e).answer() == Err::<(), RejectModel>(e),
        BehaviourModel::AlwaysReject(e).answered() == BehaviourModel::AlwaysReject(e),
        steps.len() > 0 ==> BehaviourModel::Scripted(steps).answer() == steps[0],
        steps.len() > 1 ==> BehaviourModel::Scripted(steps).answered() == BehaviourModel::Scripted(
            steps.drop_first(),
        ),
        steps.len() == 1 ==> BehaviourModel::Scripted(steps).answered() == BehaviourModel::Scripted(
            steps,
        ),
        steps.len() == 0 ==> BehaviourModel::Scripted(steps).answer() is Ok,
{
    if steps.len() > 1 {
        assert(steps.skip(1) =~= steps.drop_first());
    }
}

/// Counters count up by one, and from the greatest number on start again.
pub proof fn lemma_counted(n: u64)
    ensures
        n < u64::MAX ==> next_count(n) == n + 1,
        next_count(u64::MAX) == 0,
{
}

// ── Amounts ──

/// A count is shown as its number, and bytes in the largest unit that divides them.
pub proof fn lemma_amounts_shown(n: u64)
    ensures
        quantity_text(ResourceQuantity::Count(n)) == text::decimal(n as nat),
        quantity_text(ResourceQuantity::Bytes(0)) == "0B"@,
        0 < n <= u64::MAX / 0x4000_0000 ==> quantity_text(
            ResourceQuantity::Bytes((n * 0x4000_0000) as u64),
        ) == text::decimal(n as nat) + "GiB"@,
        0 < n <= u64::MAX / 0x10_0000 && n % 1024 != 0 ==> quantity_text(
            ResourceQuantity::Bytes((n * 0x10_0000) as u64),
        ) == text::decimal(n as nat) + "MiB"@,
        0 < n <= u64::MAX / 0x400 && n % 1024 != 0 ==> quantity_text(
            ResourceQuantity::Bytes((n * 0x400) as u64),
        ) == text::decimal(n as nat) + "KiB"@,
        n % 1024 != 0 ==> quantity_text(ResourceQuantity::Bytes(n)) == text::decimal(n as nat)
            + "B"@,
{
    assert((n as int * 0x4000_0000) % 0x4000_0000 == 0 && (n as int * 0x4000_0000) / 0x4000_0000
        == n);
    assert((n as int * 0x10_0000) % 0x10_0000 == 0 && (n as int * 0x10_0000) / 0x10_0000 == n);
    assert((n as int * 0x400) % 0x400 == 0 && (n as int * 0x400) / 0x400 == n);
    assert(n % 1024 != 0 ==> (n as int * 0x10_0000) % 0x4000_0000 != 0);
    assert(n % 1024 != 0 ==> (n as int * 0x400) % 0x10_0000 != 0 && (n as int * 0x400) % 0x4000_0000
        != 0);
    assert(n % 1024 != 0 ==> n % 0x10_0000 != 0 && n % 0x4000_0000 != 0);
}

/// A job is shown as `J` and its number.
pub proof fn lemma_job_shown(n: u32)
    ensures
        job_text(JobId(n)) == seq!['J'] + text::decimal(n as nat),
{
    reveal_strlit("J");
    assert("J"@ =~= seq!['J']);
}

} // verus!
