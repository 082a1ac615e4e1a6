//! Provider registry: routing and atomic multi-provider reservation.
//!
//! 1. **Key routing.** Each provider reports the keys it owns. A key claimed
//!    twice is a configuration error.
//! 2. **Atomic reserve.** A job's needs are dispatched provider by provider in
//!    ascending order of their IDs. If any provider rejects, every prior
//!    reservation is released before the rejection is returned.
//! 3. **Per-job release.** Reservations are tracked by job, so that one
//!    `release(job_id)` gives back all of them.

use vstd::prelude::*;
use vstd::string::*;

use super::provider::{
    held_after, recorded, Provider, ProviderCall, RejectGroup, RejectGroupModel, ReserveRequest,
};
use super::types::{
    unit_models, Grant, GrantModel, JobId, Need, ProviderId, Reject, RejectModel, ReservationId,
    ResourceQuantity, Snapshot,
};
use crate::text;
use crate::text::Text;
use crate::textmap::{lemma_lt_irreflexive, lemma_lt_total, lemma_lt_transitive, str_lt, text_lt, TextMap};

verus! {

/// Tracked reservation: who holds it, the provider that must release it, and
/// the grant.
pub struct TrackedGrant {
    pub job_id: JobId,
    /// Position of the provider.
    pub provider: usize,
    pub grant: Grant,
}

/// A tracked reservation over character sequences.
pub struct TrackedModel {
    pub job_id: JobId,
    pub provider: usize,
    pub grant: GrantModel,
}

impl View for TrackedGrant {
    type V = TrackedModel;

    open spec fn view(&self) -> TrackedModel {
        TrackedModel { job_id: self.job_id, provider: self.provider, grant: self.grant@ }
    }
}

pub open spec fn tracked_models(v: Seq<TrackedGrant>) -> Seq<TrackedModel> {
    v.map_values(|t: TrackedGrant| t@)
}

pub open spec fn grant_models(v: Seq<Grant>) -> Seq<GrantModel> {
    v.map_values(|g: Grant| g@)
}

/// Provider registry — owns providers and their reservations.
pub struct ProviderRegistry<P: Provider> {
    /// Ascending by ID.
    providers: Vec<P>,
    /// Resource key → position of its provider.
    routes: TextMap<usize>,
    /// Reservations of all jobs, oldest first.
    reservations: Vec<TrackedGrant>,
    /// What each provider had been called before it was registered.
    earlier: Ghost<Seq<Seq<ProviderCall>>>,
    /// All calls of the providers since, in their order.
    log: Ghost<Seq<LoggedCall>>,
}

/// A call and the position of the provider that was called.
pub struct LoggedCall {
    pub provider: int,
    pub call: ProviderCall,
}

/// The calls of provider `p`.
pub open spec fn calls_to(log: Seq<LoggedCall>, p: int) -> Seq<ProviderCall>
    decreases log.len(),
{
    if log.len() == 0 {
        Seq::empty()
    } else if log.last().provider == p {
        calls_to(log.drop_last(), p).push(log.last().call)
    } else {
        calls_to(log.drop_last(), p)
    }
}

/// The log holds just what the providers were called since they had been called
/// this.
#[verifier::opaque]
pub open spec fn logged<P: Provider>(
    ps: Seq<P>,
    earlier: Seq<Seq<ProviderCall>>,
    log: Seq<LoggedCall>,
) -> bool {
    &&& earlier.len() == ps.len()
    &&& forall|p: int|
        0 <= p < ps.len() ==> (#[trigger] ps[p]).calls() == earlier[p] + calls_to(log, p)
}

/// One more call keeps the log true.
proof fn lemma_logged_call<P: Provider>(
    before: Seq<P>,
    now: Seq<P>,
    earlier: Seq<Seq<ProviderCall>>,
    log: Seq<LoggedCall>,
    p: int,
    call: ProviderCall,
)
    requires
        logged(before, earlier, log),
        0 <= p < before.len(),
        now == before.update(p, now[p]),
        now[p].calls() == before[p].calls().push(call),
    ensures
        logged(now, earlier, log.push(LoggedCall { provider: p, call })),
{
    reveal(logged);
    let c = LoggedCall { provider: p, call };
    assert forall|q: int| 0 <= q < now.len() implies (#[trigger] now[q]).calls() == earlier[q]
        + calls_to(log.push(c), q) by {
        lemma_calls_to_push(log, c, q);
        assert(before[q].calls() == earlier[q] + calls_to(log, q));
        assert((earlier[q] + calls_to(log, q)).push(call) =~= earlier[q] + calls_to(log, q).push(
            call,
        ));
    }
}

proof fn lemma_calls_to_push(log: Seq<LoggedCall>, c: LoggedCall, p: int)
    ensures
        calls_to(log.push(c), p) == if c.provider == p {
            calls_to(log, p).push(c.call)
        } else {
            calls_to(log, p)
        },
{
    assert(log.push(c).drop_last() =~= log);
}

/// The requests that were granted, in the order of the grants.
pub open spec fn asks(
    acquired: Seq<TrackedModel>,
    routes: Map<Text, usize>,
    job_id: JobId,
    entries: Seq<(Text, ResourceQuantity)>,
) -> Seq<LoggedCall> {
    acquired.map_values(
        |t: TrackedModel|
            LoggedCall {
                provider: t.provider as int,
                call: ProviderCall::Reserve {
                    job_id,
                    need: routed(entries, routes, t.provider as int),
                    answer: Ok(t.grant),
                },
            },
    )
}

/// The release of a grant.
pub open spec fn give_back(t: TrackedModel) -> LoggedCall {
    LoggedCall { provider: t.provider as int, call: ProviderCall::Release(t.grant.id) }
}

/// The releases of the grants, in their order.
pub open spec fn give_backs(v: Seq<TrackedModel>) -> Seq<LoggedCall> {
    v.map_values(|t: TrackedModel| give_back(t))
}

/// The looks at the capacity of each provider, in their order.
pub open spec fn looks(v: Seq<(ProviderId, Snapshot)>) -> Seq<LoggedCall> {
    Seq::new(
        v.len(),
        |i: int| LoggedCall { provider: i, call: ProviderCall::Probe(unit_models(v[i].1.units@)) },
    )
}

/// Strictly ascending IDs.
pub open spec fn ids_ascending<P: Provider>(ps: Seq<P>) -> bool {
    forall|i: int, j: int|
        0 <= i < j < ps.len() ==> text_lt(
            (#[trigger] ps[i]).spec_id(),
            (#[trigger] ps[j]).spec_id(),
        )
}

/// IDs in ascending order, possibly repeated.
pub open spec fn ids_sorted<P: Provider>(ps: Seq<P>) -> bool {
    forall|i: int, j: int|
        0 <= i < j < ps.len() ==> !text_lt(
            (#[trigger] ps[j]).spec_id(),
            (#[trigger] ps[i]).spec_id(),
        )
}

pub open spec fn all_wf<P: Provider>(ps: Seq<P>) -> bool {
    forall|i: int| 0 <= i < ps.len() ==> (#[trigger] ps[i]).wf()
}

/// Every key claimed by a provider, with the provider's position, in order.
pub open spec fn claims<P: Provider>(ps: Seq<P>) -> Seq<(Text, usize)>
    decreases ps.len(),
{
    if ps.len() == 0 {
        Seq::empty()
    } else {
        claims(ps.drop_last()) + claims_of(ps.last().spec_keys(), (ps.len() - 1) as usize)
    }
}

/// The claims of one provider.
pub open spec fn claims_of(keys: Seq<Text>, p: usize) -> Seq<(Text, usize)> {
    keys.map_values(|k: Text| (k, p))
}

/// The routes that the claims make up.
pub open spec fn routes_of(claims: Seq<(Text, usize)>) -> Map<Text, usize>
    decreases claims.len(),
{
    if claims.len() == 0 {
        Map::empty()
    } else {
        routes_of(claims.drop_last()).insert(claims.last().0, claims.last().1)
    }
}

/// Whether no key is claimed twice.
pub open spec fn claims_distinct(c: Seq<(Text, usize)>) -> bool {
    forall|i: int, j: int| 0 <= i < j < c.len() ==> (#[trigger] c[i]).0 != (#[trigger] c[j]).0
}

pub open spec fn duplicate_message(id: Text) -> Text {
    "duplicate resource provider id "@ + text::debug_text(id)
}

pub open spec fn claimed_message(key: Text, first: Text, second: Text) -> Text {
    "resource key "@ + text::debug_text(key) + " claimed by both "@ + text::debug_text(first) + " and "@
        + text::debug_text(second)
}

/// The first two providers in `s` with one ID are `i` and its successor.
pub open spec fn first_duplicate<P: Provider>(s: Seq<P>, i: int) -> bool {
    &&& 0 <= i < s.len() - 1
    &&& s[i].spec_id() == s[i + 1].spec_id()
    &&& forall|j: int|
        0 <= j < i ==> (#[trigger] s[j]).spec_id() != s[j + 1].spec_id()
}

/// Claim `i` is the first that repeats a key, namely that of claim `j`.
pub open spec fn first_repeat(c: Seq<(Text, usize)>, j: int, i: int) -> bool {
    &&& 0 <= j < i < c.len()
    &&& c[j].0 == c[i].0
    &&& claims_distinct(c.take(i))
}

/// Why providers cannot be registered: `s` is what they are in ascending order.
pub open spec fn refused<P: Provider>(s: Seq<P>, message: Text) -> bool {
    ||| exists|i: int| #[trigger] first_duplicate(s, i) && message == duplicate_message(
        s[i].spec_id(),
    )
    ||| ids_ascending(s) && exists|j: int, i: int| #[trigger]
        first_repeat(claims(s), j, i) && message == claimed_message(
            claims(s)[i].0,
            s[claims(s)[j].1 as int].spec_id(),
            s[claims(s)[i].1 as int].spec_id(),
        )
}

/// The part of a need that is routed to provider `p`.
pub open spec fn routed(
    entries: Seq<(Text, ResourceQuantity)>,
    routes: Map<Text, usize>,
    p: int,
) -> Seq<(Text, ResourceQuantity)> {
    entries.filter(owned_by(routes, p))
}

/// Whether an entry is routed to provider `p`.
pub open spec fn owned_by(routes: Map<Text, usize>, p: int) -> spec_fn((Text, ResourceQuantity)) -> bool {
    |e: (Text, ResourceQuantity)| routes.dom().contains(e.0) && routes[e.0] == p
}

/// The keys of a need that no provider owns, in ascending order.
pub open spec fn unknown_keys(keys: Seq<Text>, routes: Map<Text, usize>) -> Seq<Text> {
    keys.filter(unowned(routes))
}

/// Whether no provider owns a key.
pub open spec fn unowned(routes: Map<Text, usize>) -> spec_fn(Text) -> bool {
    |k: Text| !routes.dom().contains(k)
}

/// The rejection of a need with unknown keys.
pub open spec fn unknown_reject(need: Need, unknown: Seq<Text>) -> RejectGroupModel {
    RejectGroupModel {
        provider_id: "core"@,
        reject: RejectModel {
            reason: "unknown resource key: "@ + text::join(unknown, ", "@),
            demand: Some((unknown[0], need@[unknown[0]])),
            available: None,
        },
    }
}

/// How the call history of a provider goes on that is asked for its part of a
/// need and gives this answer; a grant that had to be given back is released.
pub open spec fn calls_after(
    before: Seq<ProviderCall>,
    job_id: JobId,
    need: Seq<(Text, ResourceQuantity)>,
    answer: Result<GrantModel, RejectModel>,
    rolled_back: bool,
) -> Seq<ProviderCall> {
    let asked = before.push(ProviderCall::Reserve { job_id, need, answer });
    match answer {
        Ok(grant) if rolled_back => asked.push(ProviderCall::Release(grant.id)),
        _ => asked,
    }
}

/// A provider granted its part of the need and was told to release it again.
pub open spec fn gave_back(
    before: Seq<ProviderCall>,
    now: Seq<ProviderCall>,
    job_id: JobId,
    need: Seq<(Text, ResourceQuantity)>,
) -> bool {
    exists|grant: GrantModel| now == #[trigger] calls_after(before, job_id, need, Ok(grant), true)
}

/// Whether one of the grants is of provider `i`.
pub open spec fn granted_by(acquired: Seq<TrackedModel>, i: int) -> bool {
    exists|k: int| 0 <= k < acquired.len() && (#[trigger] acquired[k]).provider == i
}

/// Whether one of the grants is of provider `i`.
pub open spec fn holds_of(acquired: Seq<TrackedGrant>, i: int) -> bool {
    exists|k: int| 0 <= k < acquired.len() && (#[trigger] acquired[k]).provider == i
}

/// The reservations of other jobs than `job_id`.
pub open spec fn without_job(v: Seq<TrackedModel>, job_id: JobId) -> Seq<TrackedModel> {
    v.filter(|t: TrackedModel| t.job_id != job_id)
}

/// The reservations of `job_id`.
pub open spec fn only_job(v: Seq<TrackedModel>, job_id: JobId) -> Seq<TrackedModel> {
    v.filter(|t: TrackedModel| t.job_id == job_id)
}

/// The releases that provider `p` sees when these reservations end.
pub open spec fn releases(v: Seq<TrackedModel>, p: int) -> Seq<ProviderCall>
    decreases v.len(),
{
    if v.len() == 0 {
        Seq::empty()
    } else if v.last().provider == p {
        releases(v.drop_last(), p).push(ProviderCall::Release(v.last().grant.id))
    } else {
        releases(v.drop_last(), p)
    }
}

impl<P: Provider> ProviderRegistry<P> {
    pub closed spec fn spec_providers(self) -> Seq<P> {
        self.providers@
    }

    /// Resource key → position of its provider.
    pub closed spec fn spec_routes(self) -> Map<Text, usize> {
        self.routes@
    }

    /// Reservations of all jobs, oldest first.
    pub closed spec fn spec_reservations(self) -> Seq<TrackedModel> {
        tracked_models(self.reservations@)
    }

    /// All calls of the providers since they were registered, in their order.
    pub closed spec fn spec_log(self) -> Seq<LoggedCall> {
        self.log@
    }

    /// What each provider had been called before it was registered.
    pub closed spec fn spec_earlier(self) -> Seq<Seq<ProviderCall>> {
        self.earlier@
    }

    pub closed spec fn wf(self) -> bool {
        &&& logged(self.providers@, self.earlier@, self.log@)
        &&& all_wf(self.providers@)
        &&& ids_ascending(self.providers@)
        &&& self.routes.wf()
        &&& forall|k: Text|
            self.routes@.dom().contains(k) ==> (#[trigger] self.routes@[k]) < self.providers@.len()
        &&& forall|i: int|
            0 <= i < self.reservations@.len() ==> (#[trigger] self.reservations@[i]).provider
                < self.providers@.len()
    }

    /// The log of a registry holds just what its providers were called.
    pub proof fn lemma_logged(self)
        requires
            self.wf(),
        ensures
            logged(self.spec_providers(), self.spec_earlier(), self.spec_log()),
    {
    }

    /// Only the call histories of the providers may differ.
    pub open spec fn same_providers(self, o: ProviderRegistry<P>) -> bool {
        &&& self.spec_earlier() == o.spec_earlier()
        &&& self.spec_providers().len() == o.spec_providers().len()
        &&& self.spec_routes() == o.spec_routes()
        &&& forall|i: int|
            #![trigger self.spec_providers()[i]]
            0 <= i < o.spec_providers().len() ==> self.spec_providers()[i].spec_id()
                == o.spec_providers()[i].spec_id() && self.spec_providers()[i].spec_keys()
                == o.spec_providers()[i].spec_keys()
    }

    /// A registry of these providers and routes, with nothing reserved.
    fn fresh(providers: Vec<P>, routes: TextMap<usize>) -> (r: ProviderRegistry<P>)
        requires
            all_wf(providers@),
            ids_ascending(providers@),
            routes.wf(),
            forall|k: Text|
                routes@.dom().contains(k) ==> (#[trigger] routes@[k]) < providers@.len(),
        ensures
            r.wf(),
            r.spec_providers() == providers@,
            r.spec_routes() == routes@,
            r.spec_reservations() == Seq::<TrackedModel>::empty(),
            r.spec_log() == Seq::<LoggedCall>::empty(),
    {
        let ghost s = providers@;
        let r = ProviderRegistry {
            providers,
            routes,
            reservations: Vec::new(),
            earlier: Ghost(s.map_values(|p: P| p.calls())),
            log: Ghost(Seq::empty()),
        };
        assert(tracked_models(r.reservations@) =~= Seq::<TrackedModel>::empty());
        proof {
            reveal(logged);
            assert forall|i: int| 0 <= i < s.len() implies (#[trigger] s[i]).calls()
                == r.earlier@[i] + calls_to(r.log@, i) by {
                assert(r.earlier@[i] + calls_to(r.log@, i) =~= s[i].calls());
            }
        }
        r
    }

    /// Build a registry, unless two providers share an ID or claim one key.
    #[verifier::spinoff_prover]
    pub fn from_providers(providers: Vec<P>) -> (r: Result<ProviderRegistry<P>, String>)
        requires
            all_wf(providers@),
        ensures
            match r {
                Ok(reg) => {
                    &&& reg.wf()
                    &&& reg.spec_providers().to_multiset() == providers@.to_multiset()
                    &&& ids_ascending(reg.spec_providers())
                    &&& claims_distinct(claims(reg.spec_providers()))
                    &&& reg.spec_routes() == routes_of(claims(reg.spec_providers()))
                    &&& reg.spec_reservations() == Seq::<TrackedModel>::empty()
                    &&& reg.spec_log() == Seq::<LoggedCall>::empty()
                },
                Err(m) => exists|s: Seq<P>|
                    #![trigger ids_sorted(s)]
                    s.to_multiset() == providers@.to_multiset() && ids_sorted(s) && refused(s, m@),
            },
    {
        let ghost all = providers@;
        let sorted = sort_by_id(providers);
        let ghost s = sorted@;
        let mut i: usize = 0;
        while i + 1 < sorted.len()
            invariant
                s == sorted@,
                i < sorted.len() || i == 0,
                s.to_multiset() == all.to_multiset(),
                all == providers@,
                ids_sorted(s),
                all_wf(s),
                forall|j: int| 0 <= j < i ==> (#[trigger] s[j]).spec_id() != s[j + 1].spec_id(),
            decreases sorted@.len() - i,
        {
            let a = sorted[i].id();
            let b = sorted[i + 1].id();
            if text::str_eq(a.as_str(), b.as_str()) {
                let m = text::concat2("duplicate resource provider id ", text::debug_str(a.as_str()).as_str());
                proof {
                    assert(first_duplicate(s, i as int));
                    assert(refused(s, m@));
                }
                return Err(m);
            }
            i = i + 1;
        }
        proof {
            lemma_sorted_distinct(s);
        }
        let mut routes: TextMap<usize> = TextMap::new();
        let mut p: usize = 0;
        let ghost mut sofar: Seq<(Text, usize)> = Seq::empty();
        proof {
            assert(s.take(0) =~= Seq::<P>::empty());
        }
        while p < sorted.len()
            invariant
                p <= s.len(),
                s == sorted@,
                s.to_multiset() == all.to_multiset(),
                all == providers@,
                ids_sorted(s),
                ids_ascending(s),
                all_wf(s),
                routes.wf(),
                sofar == claims(s.take(p as int)),
                claims_distinct(sofar),
                routes@ == routes_of(sofar),
                forall|k: int| 0 <= k < sofar.len() ==> (#[trigger] sofar[k]).1 < p,
            decreases s.len() - p,
        {
            let keys = sorted[p].keys();
            let ghost mine = claims_of(text::texts(keys@), p);
            let ghost earlier = sofar;
            let mut j: usize = 0;
            proof {
                assert(s.take(p + 1).drop_last() =~= s.take(p as int));
                assert(claims(s.take(p + 1)) =~= earlier + mine);
                lemma_claims_prefix(s, p + 1);
                assert(earlier + mine.take(0) =~= earlier);
            }
            while j < keys.len()
                invariant
                    j <= keys@.len(),
                    p < s.len(),
                    s == sorted@,
                    s.to_multiset() == all.to_multiset(),
                    all == providers@,
                    ids_sorted(s),
                    ids_ascending(s),
                    all_wf(s),
                    mine == claims_of(text::texts(keys@), p),
                    claims(s.take(p + 1)) == earlier + mine,
                    claims(s.take(p + 1)) == claims(s).take(claims(s.take(p + 1)).len() as int),
                    claims(s.take(p + 1)).len() <= claims(s).len(),
                    routes.wf(),
                    sofar == earlier + mine.take(j as int),
                    claims_distinct(sofar),
                    routes@ == routes_of(sofar),
                    forall|k: int| 0 <= k < sofar.len() ==> (#[trigger] sofar[k]).1 <= p,
                decreases keys@.len() - j,
            {
                let ghost key = text::texts(keys@)[j as int];
                proof {
                    assert(mine[j as int] == (key, p));
                    assert(sofar.push((key, p)) =~= earlier + mine.take(j + 1));
                    assert(sofar.push((key, p)).drop_last() =~= sofar);
                    lemma_routes_of(sofar);
                }
                if let Some(owner) = routes.get(keys[j].as_str()) {
                    let first = sorted[*owner].id();
                    let second = sorted[p].id();
                    let mut m = text::concat5(
                        "resource key ",
                        text::debug_str(keys[j].as_str()).as_str(),
                        " claimed by both ",
                        text::debug_str(first.as_str()).as_str(),
                        " and ",
                    );
                    m.append(text::debug_str(second.as_str()).as_str());
                    proof {
                        let c = claims(s);
                        let at = sofar.len() as int;
                        let k = choose|k: int|
                            0 <= k < sofar.len() && (#[trigger] sofar[k]).0 == key && sofar[k].1
                                == *owner;
                        assert(c.take(at) =~= sofar);
                        assert((earlier + mine)[at] == (key, p));
                        assert(c[at] == (key, p));
                        assert(c[k] == sofar[k]);
                        assert(first_repeat(c, k, at));
                        assert(refused(s, m@));
                    }
                    return Err(m);
                }
                routes.insert(keys[j].clone(), p);
                proof {
                    sofar = sofar.push((key, p));
                }
                j = j + 1;
            }
            proof {
                assert(mine.take(j as int) =~= mine);
            }
            p = p + 1;
        }
        proof {
            assert(s.take(p as int) =~= s);
            lemma_routes_of(sofar);
        }
        let r = Self::fresh(sorted, routes);
        Ok(r)
    }

    /// Empty registry: any need is unknown to it.
    pub fn empty() -> (r: ProviderRegistry<P>)
        ensures
            r.wf(),
            r.spec_providers() == Seq::<P>::empty(),
            r.spec_routes() == Map::<Text, usize>::empty(),
            r.spec_reservations() == Seq::<TrackedModel>::empty(),
            r.spec_log() == Seq::<LoggedCall>::empty(),
    {
        let r = ProviderRegistry {
            providers: Vec::new(),
            routes: TextMap::new(),
            reservations: Vec::new(),
            earlier: Ghost(Seq::empty()),
            log: Ghost(Seq::empty()),
        };
        proof {
            reveal(logged);
        }
        assert(tracked_models(r.reservations@) =~= Seq::<TrackedModel>::empty());
        r
    }

    /// Number of registered providers.
    pub fn len(&self) -> (r: usize)
        ensures
            r == self.spec_providers().len(),
    {
        self.providers.len()
    }

    pub fn is_empty(&self) -> (r: bool)
        ensures
            r == (self.spec_providers().len() == 0),
    {
        self.providers.len() == 0
    }

    /// The provider at a position.
    pub fn provider_at(&self, i: usize) -> (r: &P)
        requires
            i < self.spec_providers().len(),
        ensures
            *r == self.spec_providers()[i as int],
    {
        &self.providers[i]
    }

    /// All known providers' IDs, ascending.
    pub fn provider_ids(&self) -> (r: Vec<ProviderId>)
        requires
            self.wf(),
        ensures
            r@.len() == self.spec_providers().len(),
            forall|i: int|
                0 <= i < r@.len() ==> (#[trigger] r@[i])@ == self.spec_providers()[i].spec_id(),
    {
        let mut out: Vec<ProviderId> = Vec::new();
        let mut i: usize = 0;
        while i < self.providers.len()
            invariant
                i <= self.providers@.len(),
                self.wf(),
                out@.len() == i,
                forall|j: int|
                    0 <= j < i ==> (#[trigger] out@[j])@ == self.providers@[j].spec_id(),
            decreases self.providers@.len() - i,
        {
            out.push(self.providers[i].id());
            i = i + 1;
        }
        out
    }

    /// The key at each position of the routing table with its provider, in
    /// ascending order of the keys.
    pub fn key_routes(&self) -> (r: Vec<(String, ProviderId)>)
        requires
            self.wf(),
        ensures
            forall|i: int, j: int|
                0 <= i < j < r@.len() ==> text_lt((#[trigger] r@[i]).0@, (#[trigger] r@[j]).0@),
            forall|i: int|
                0 <= i < r@.len() ==> self.spec_routes().dom().contains((#[trigger] r@[i]).0@)
                    && r@[i].1@ == self.spec_providers()[self.spec_routes()[r@[i].0@] as int].spec_id(),
            forall|k: Text|
                #[trigger] self.spec_routes().dom().contains(k) ==> exists|i: int|
                    0 <= i < r@.len() && (#[trigger] r@[i]).0@ == k,
    {
        proof {
            self.routes.lemma_keys();
        }
        let mut out: Vec<(String, ProviderId)> = Vec::new();
        let mut i: usize = 0;
        let ghost keys = self.routes.spec_keys();
        while i < self.routes.len()
            invariant
                i <= keys.len(),
                self.wf(),
                keys == self.routes.spec_keys(),
                out@.len() == i,
                forall|j: int|
                    0 <= j < i ==> (#[trigger] out@[j]).0@ == keys[j]
                        && self.routes@.dom().contains(keys[j]) && out@[j].1@
                        == self.providers@[self.routes@[keys[j]] as int].spec_id(),
            decreases keys.len() - i,
        {
            let key = self.routes.key_at(i).clone();
            let p = *self.routes.value_at(i);
            assert(self.routes@[keys[i as int]] < self.providers@.len());
            out.push((key, self.providers[p].id()));
            i = i + 1;
        }
        proof {
            assert forall|k: Text| #[trigger] self.spec_routes().dom().contains(k) implies exists|
                j: int,
            |
                0 <= j < out@.len() && (#[trigger] out@[j]).0@ == k by {
                assert(keys.contains(k));
                let j = keys.index_of(k);
                assert(out@[j].0@ == k);
            }
        }
        out
    }

    /// The provider that owns `key`, if any.
    pub fn provider_for_key(&self, key: &str) -> (r: Option<ProviderId>)
        requires
            self.wf(),
        ensures
            match r {
                Some(id) => self.spec_routes().dom().contains(key@) && id@
                    == self.spec_providers()[self.spec_routes()[key@] as int].spec_id(),
                None => !self.spec_routes().dom().contains(key@),
            },
    {
        match self.routes.get(key) {
            Some(p) => {
                assert(self.routes@[key@] < self.providers@.len());
                Some(self.providers[*p].id())
            },
            None => None,
        }
    }

    /// After one call of provider `p`: its history and the log go on by it.
    spec fn called(self, o: ProviderRegistry<P>, p: int, call: ProviderCall) -> bool {
        &&& self.wf()
        &&& self.routes == o.routes
        &&& self.reservations == o.reservations
        &&& self.earlier == o.earlier
        &&& self.log@ == o.log@.push(LoggedCall { provider: p, call })
        &&& self.providers@.len() == o.providers@.len()
        &&& forall|j: int|
            #![trigger self.providers@[j]]
            0 <= j < o.providers@.len() ==> {
                &&& self.providers@[j].spec_id() == o.providers@[j].spec_id()
                &&& self.providers@[j].spec_keys() == o.providers@[j].spec_keys()
                &&& self.providers@[j].calls() == if j == p {
                    o.providers@[j].calls().push(call)
                } else {
                    o.providers@[j].calls()
                }
            }
    }

    proof fn lemma_called(self, o: ProviderRegistry<P>, p: int, call: ProviderCall)
        requires
            o.wf(),
            0 <= p < o.providers@.len(),
            self.routes == o.routes,
            self.reservations == o.reservations,
            self.earlier == o.earlier,
            self.log@ == o.log@.push(LoggedCall { provider: p, call }),
            self.providers@ == o.providers@.update(p, self.providers@[p]),
            self.providers@[p].wf(),
            self.providers@[p].spec_id() == o.providers@[p].spec_id(),
            self.providers@[p].spec_keys() == o.providers@[p].spec_keys(),
            self.providers@[p].calls() == o.providers@[p].calls().push(call),
        ensures
            self.called(o, p, call),
    {
        lemma_logged_call(
            o.providers@,
            self.providers@,
            o.earlier@,
            o.log@,
            p,
            call,
        );
        assert forall|i: int, j: int| 0 <= i < j < self.providers@.len() implies text_lt(
            (#[trigger] self.providers@[i]).spec_id(),
            (#[trigger] self.providers@[j]).spec_id(),
        ) by {
            assert(text_lt(o.providers@[i].spec_id(), o.providers@[j].spec_id()));
        }
    }

    fn probe_at(&mut self, p: usize) -> (r: Snapshot)
        requires
            old(self).wf(),
            p < old(self).providers@.len(),
        ensures
            final(self).called(
                *old(self),
                p as int,
                ProviderCall::Probe(unit_models(r.units@)),
            ),
            r.provider_id@ == old(self).providers@[p as int].spec_id(),
    {
        let r = self.providers[p].probe();
        proof {
            let call = ProviderCall::Probe(unit_models(r.units@));
            self.log@ = self.log@.push(LoggedCall { provider: p as int, call });
            self.lemma_called(*old(self), p as int, call);
        }
        r
    }

    fn reserve_at(&mut self, p: usize, req: &ReserveRequest) -> (r: Result<Grant, Reject>)
        requires
            old(self).wf(),
            p < old(self).providers@.len(),
            req.need.wf(),
        ensures
            final(self).called(*old(self), p as int, recorded(*req, r)),
    {
        let r = self.providers[p].reserve(req);
        proof {
            let call = recorded(*req, r);
            self.log@ = self.log@.push(LoggedCall { provider: p as int, call });
            self.lemma_called(*old(self), p as int, call);
        }
        r
    }

    fn release_at(&mut self, p: usize, id: &ReservationId)
        requires
            old(self).wf(),
            p < old(self).providers@.len(),
        ensures
            final(self).called(*old(self), p as int, ProviderCall::Release(id@)),
    {
        self.providers[p].release(id);
        proof {
            let call = ProviderCall::Release(id@);
            self.log@ = self.log@.push(LoggedCall { provider: p as int, call });
            self.lemma_called(*old(self), p as int, call);
        }
    }

    /// Snapshot every provider's current capacity, in ascending order of IDs.
    #[verifier::spinoff_prover]
    pub fn snapshot(&mut self) -> (r: Vec<(ProviderId, Snapshot)>)
        requires
            old(self).wf(),
        ensures
            final(self).wf(),
            final(self).same_providers(*old(self)),
            final(self).spec_reservations() == old(self).spec_reservations(),
            final(self).spec_log() == old(self).spec_log() + looks(r@),
            r@.len() == old(self).spec_providers().len(),
            forall|i: int|
                #![trigger final(self).spec_providers()[i]]
                0 <= i < r@.len() ==> {
                    &&& r@[i].0@ == old(self).spec_providers()[i].spec_id()
                    &&& r@[i].1.provider_id@ == old(self).spec_providers()[i].spec_id()
                    &&& final(self).spec_providers()[i].calls()
                        == old(self).spec_providers()[i].calls().push(
                        ProviderCall::Probe(unit_models(r@[i].1.units@)),
                    )
                },
    {
        let ghost before = self.providers@;
        let mut out: Vec<(ProviderId, Snapshot)> = Vec::new();
        let mut i: usize = 0;
        assert(self.log@ + looks(out@) =~= self.log@);
        while i < self.providers.len()
            invariant
                i <= before.len(),
                self.wf(),
                before == old(self).providers@,
                self.providers@.len() == before.len(),
                self.routes == old(self).routes,
                self.reservations == old(self).reservations,
                self.earlier == old(self).earlier,
                self.log@ == old(self).log@ + looks(out@),
                forall|j: int|
                    #![trigger self.providers@[j]]
                    0 <= j < before.len() ==> self.providers@[j].spec_id() == before[j].spec_id()
                        && self.providers@[j].spec_keys() == before[j].spec_keys()
                        && self.providers@[j].calls() == if j < i {
                        before[j].calls().push(ProviderCall::Probe(unit_models(out@[j].1.units@)))
                    } else {
                        before[j].calls()
                    },
                out@.len() == i,
                forall|j: int|
                    0 <= j < i ==> (#[trigger] out@[j]).0@ == before[j].spec_id()
                        && out@[j].1.provider_id@ == out@[j].0@,
            decreases before.len() - i,
        {
            let ghost mid = self.providers@;
            let ghost shown = out@;
            let id = self.providers[i].id();
            let snap = self.probe_at(i);
            out.push((id, snap));
            proof {
                assert forall|j: int| #![trigger self.providers@[j]] 0 <= j < before.len() implies
                    self.providers@[j].spec_id() == before[j].spec_id()
                    && self.providers@[j].spec_keys() == before[j].spec_keys()
                    && self.providers@[j].calls() == if j < i + 1 {
                    before[j].calls().push(ProviderCall::Probe(unit_models(out@[j].1.units@)))
                } else {
                    before[j].calls()
                } by {
                    assert(mid[j].spec_id() == before[j].spec_id());
                    if j < i {
                        assert(out@[j] == shown[j]);
                    }
                }
                assert(looks(out@) =~= looks(shown).push(
                    LoggedCall {
                        provider: i as int,
                        call: ProviderCall::Probe(unit_models(snap.units@)),
                    },
                ));
                assert(self.log@ =~= old(self).log@ + looks(out@));
            }
            i = i + 1;
        }
        out
    }

    /// The keys that no provider owns, in ascending order.
    fn find_unknown(&self, need: &Need) -> (r: Vec<String>)
        requires
            self.wf(),
        ensures
            text::texts(r@) == unknown_keys(need.spec_keys(), self.routes@),
    {
        let ghost pred = unowned(self.routes@);
        let ghost keys = need.spec_keys();
        let mut out: Vec<String> = Vec::new();
        let mut i: usize = 0;
        proof {
            reveal(Seq::filter);
            assert(text::texts(out@) =~= keys.take(0).filter(pred));
        }
        while i < need.len()
            invariant
                i <= keys.len(),
                keys == need.spec_keys(),
                self.wf(),
                pred == unowned(self.routes@),
                text::texts(out@) == keys.take(i as int).filter(pred),
            decreases keys.len() - i,
        {
            let key = need.key_at(i);
            proof {
                reveal(Seq::filter);
                assert(keys.take(i + 1).drop_last() =~= keys.take(i as int));
                assert(keys.take(i + 1).last() == key@);
            }
            if !self.routes.contains(key.as_str()) {
                let k = key.clone();
                proof {
                    assert(text::texts(out@.push(k)) =~= text::texts(out@).push(k@));
                }
                out.push(k);
            }
            i = i + 1;
        }
        proof {
            assert(keys.take(i as int) =~= keys);
        }
        out
    }

    /// The part of a need that is routed to provider `p`.
    fn sub_need(&self, need: &Need, p: usize) -> (r: Need)
        requires
            self.wf(),
            need.wf(),
        ensures
            r.wf(),
            r.entries() == routed(need.entries(), self.routes@, p as int),
    {
        let ghost entries = need.entries();
        let ghost routes = self.routes@;
        let ghost pred = owned_by(routes, p as int);
        let mut out = Need::new();
        let mut i: usize = 0;
        proof {
            need.lemma_keys();
            reveal(Seq::filter);
            assert(out.entries() =~= entries.take(0).filter(pred));
        }
        while i < need.len()
            invariant
                i <= entries.len(),
                entries == need.entries(),
                entries.len() == need.spec_keys().len(),
                need.wf(),
                crate::textmap::ascending(need.spec_keys()),
                self.wf(),
                out.wf(),
                routes == self.routes@,
                pred == owned_by(routes, p as int),
                out.entries() == entries.take(i as int).filter(pred),
                forall|k: Text|
                    out.spec_keys().contains(k) ==> exists|j: int|
                        0 <= j < i && #[trigger] need.spec_keys()[j] == k,
            decreases entries.len() - i,
        {
            let key = need.key_at(i);
            let q = need.quantity_at(i);
            proof {
                reveal(Seq::filter);
                assert(entries.take(i + 1).drop_last() =~= entries.take(i as int));
                assert(entries.take(i + 1).last() == (key@, q));
            }
            let mine = match self.routes.get(key.as_str()) {
                Some(owner) => *owner == p,
                None => false,
            };
            if mine {
                proof {
                    assert forall|j: int| 0 <= j < out.spec_keys().len() implies text_lt(
                        #[trigger] out.spec_keys()[j],
                        key@,
                    ) by {
                        let k = out.spec_keys()[j];
                        assert(out.spec_keys().contains(k));
                        let m = choose|m: int| 0 <= m < i && #[trigger] need.spec_keys()[m] == k;
                        assert(text_lt(need.spec_keys()[m], need.spec_keys()[i as int]));
                    }
                }
                let ghost ok = out.spec_keys();
                out.push_last(key.clone(), q);
                proof {
                    assert forall|k: Text| out.spec_keys().contains(k) implies exists|j: int|
                        0 <= j < i + 1 && #[trigger] need.spec_keys()[j] == k by {
                        let m = out.spec_keys().index_of(k);
                        if m == ok.len() {
                            assert(need.spec_keys()[i as int] == k);
                        } else {
                            assert(ok[m] == k);
                            assert(ok.contains(k));
                        }
                    }
                }
            }
            i = i + 1;
        }
        proof {
            assert(entries.take(i as int) =~= entries);
        }
        out
    }

    /// Releases the grants, newest first.
    #[verifier::spinoff_prover]
    fn roll_back(&mut self, acquired: &Vec<TrackedGrant>)
        requires
            old(self).wf(),
            forall|k: int, l: int|
                0 <= k < l < acquired@.len() ==> (#[trigger] acquired@[k]).provider < (
                #[trigger] acquired@[l]).provider,
            forall|k: int|
                0 <= k < acquired@.len() ==> (#[trigger] acquired@[k]).provider < old(self).providers@.len(),
        ensures
            final(self).wf(),
            final(self).same_providers(*old(self)),
            final(self).reservations == old(self).reservations,
            final(self).routes == old(self).routes,
            final(self).log@ == old(self).log@ + give_backs(tracked_models(acquired@)).reverse(),
            forall|k: int|
                #![trigger acquired@[k]]
                0 <= k < acquired@.len() ==> final(self).providers@[acquired@[k].provider as int].calls()
                    == old(self).providers@[acquired@[k].provider as int].calls().push(
                    ProviderCall::Release(acquired@[k].grant.id@),
                ),
            forall|p: int|
                #![trigger final(self).providers@[p]]
                0 <= p < old(self).providers@.len() && (forall|k: int|
                    0 <= k < acquired@.len() ==> (#[trigger] acquired@[k]).provider != p)
                    ==> final(self).providers@[p].calls() == old(self).providers@[p].calls(),
    {
        let ghost before = self.providers@;
        let ghost all = give_backs(tracked_models(acquired@));
        let mut i: usize = acquired.len();
        assert(self.log@ + all.skip(i as int).reverse() =~= self.log@);
        while i > 0
            invariant
                i <= acquired@.len(),
                self.wf(),
                old(self).wf(),
                self.earlier == old(self).earlier,
                all == give_backs(tracked_models(acquired@)),
                self.log@ == old(self).log@ + all.skip(i as int).reverse(),
                before == old(self).providers@,
                self.providers@.len() == before.len(),
                self.routes == old(self).routes,
                self.reservations == old(self).reservations,
                forall|k: int, l: int|
                    0 <= k < l < acquired@.len() ==> (#[trigger] acquired@[k]).provider < (
                    #[trigger] acquired@[l]).provider,
                forall|k: int|
                    0 <= k < acquired@.len() ==> (#[trigger] acquired@[k]).provider < before.len(),
                forall|j: int|
                    #![trigger self.providers@[j]]
                    0 <= j < before.len() ==> self.providers@[j].spec_id() == before[j].spec_id()
                        && self.providers@[j].spec_keys() == before[j].spec_keys(),
                forall|k: int|
                    #![trigger acquired@[k]]
                    i <= k < acquired@.len()
                        ==> self.providers@[acquired@[k].provider as int].calls()
                        == before[acquired@[k].provider as int].calls().push(
                        ProviderCall::Release(acquired@[k].grant.id@),
                    ),
                forall|p: int|
                    #![trigger self.providers@[p]]
                    0 <= p < before.len() && (forall|k: int|
                        i <= k < acquired@.len() ==> (#[trigger] acquired@[k]).provider != p)
                        ==> self.providers@[p].calls() == before[p].calls(),
            decreases i,
        {
            i = i - 1;
            let p = acquired[i].provider;
            proof {
                assert forall|k: int| i + 1 <= k < acquired@.len() implies (
                #[trigger] acquired@[k]).provider != p by {
                    assert(acquired@[i as int].provider < acquired@[k].provider);
                }
                assert(self.providers@[p as int].calls() == before[p as int].calls());
            }
            let ghost mid = *self;
            self.release_at(p, &acquired[i].grant.id);
            proof {
                assert(all[i as int] == give_back(acquired@[i as int]@));
                assert(all.skip(i as int).reverse() =~= all.skip(i + 1).reverse().push(
                    all[i as int],
                ));
                assert(self.log@ =~= old(self).log@ + all.skip(i as int).reverse());
                assert forall|j: int| #![trigger self.providers@[j]] 0 <= j < before.len() implies
                    self.providers@[j].spec_id() == before[j].spec_id()
                    && self.providers@[j].spec_keys() == before[j].spec_keys() by {
                    assert(mid.providers@[j].spec_id() == before[j].spec_id());
                }
                assert forall|k: int| #![trigger acquired@[k]] i <= k < acquired@.len() implies
                    self.providers@[acquired@[k].provider as int].calls()
                    == before[acquired@[k].provider as int].calls().push(
                    ProviderCall::Release(acquired@[k].grant.id@),
                ) by {
                    if k > i {
                        assert(acquired@[i as int].provider < acquired@[k].provider);
                    }
                }
                assert forall|q: int|
                    #![trigger self.providers@[q]]
                    0 <= q < before.len() && (forall|k: int|
                        i <= k < acquired@.len() ==> (#[trigger] acquired@[k]).provider != q)
                    implies self.providers@[q].calls() == before[q].calls() by {
                    assert(acquired@[i as int].provider != q);
                    assert(mid.providers@[q].calls() == before[q].calls());
                }
            }
        }
        assert(all.skip(0) =~= all);
    }

    proof fn lemma_still_same(self, o: ProviderRegistry<P>, first: ProviderRegistry<P>)
        requires
            self.same_providers(o),
            o.same_providers(first),
        ensures
            self.same_providers(first),
    {
        assert forall|i: int|
            #![trigger self.spec_providers()[i]]
            0 <= i < first.spec_providers().len() implies self.spec_providers()[i].spec_id()
            == first.spec_providers()[i].spec_id() && self.spec_providers()[i].spec_keys()
            == first.spec_providers()[i].spec_keys() by {
            assert(o.spec_providers()[i].spec_id() == first.spec_providers()[i].spec_id());
        }
    }

    /// How a reservation goes on by a grant of provider `p`.
    #[verifier::spinoff_prover]
    proof fn lemma_granted_step(
        self,
        first: ProviderRegistry<P>,
        start: ProviderRegistry<P>,
        job_id: JobId,
        entries: Seq<(Text, ResourceQuantity)>,
        earlier: Seq<TrackedGrant>,
        t: TrackedGrant,
        p: int,
    )
        requires
            0 <= p < first.providers@.len(),
            progress(
                first.providers@,
                start.providers@,
                first.routes@,
                job_id,
                entries,
                earlier,
                p,
            ),
            routed(entries, first.routes@, p).len() > 0,
            t.job_id == job_id,
            t.provider == p,
            start.log@ == first.log@ + asks(
                tracked_models(earlier),
                first.routes@,
                job_id,
                entries,
            ),
            self.called(
                start,
                p,
                ProviderCall::Reserve {
                    job_id,
                    need: routed(entries, first.routes@, p),
                    answer: Ok(t.grant@),
                },
            ),
        ensures
            progress(
                first.providers@,
                self.providers@,
                first.routes@,
                job_id,
                entries,
                earlier.push(t),
                p + 1,
            ),
            self.log@ == first.log@ + asks(
                tracked_models(earlier.push(t)),
                first.routes@,
                job_id,
                entries,
            ),
    {
        reveal(progress);
        let before = first.providers@;
        let routes = first.routes@;
        let acquired = earlier.push(t);
        let f = self.providers@;
        assert forall|j: int| #![trigger f[j]] 0 <= j < before.len() implies f[j].spec_id()
            == before[j].spec_id() && f[j].spec_keys() == before[j].spec_keys() && (j != p
            ==> f[j].calls() == start.providers@[j].calls()) by {
            assert(start.providers@[j].spec_id() == before[j].spec_id());
        }
        assert(start.providers@[p].calls() == before[p].calls());
        assert forall|k: int| 0 <= k < earlier.len() implies #[trigger] acquired[k]
            == earlier[k] by {}
        assert(acquired[earlier.len() as int].provider == p);
        assert forall|i: int| 0 <= i < before.len() && holds_of(earlier, i) implies #[trigger] holds_of(
            acquired,
            i,
        ) by {
            let k = choose|k: int| 0 <= k < earlier.len() && (#[trigger] earlier[k]).provider == i;
            assert(acquired[k].provider == i);
        }
        assert(holds_of(acquired, p));
        let models = tracked_models(earlier);
        assert(tracked_models(acquired) =~= models.push(t@));
        assert(asks(models.push(t@), routes, job_id, entries) =~= asks(
            models,
            routes,
            job_id,
            entries,
        ).push(self.log@.last()));
        assert(self.log@ =~= first.log@ + asks(tracked_models(acquired), routes, job_id, entries));
    }

    /// How a reservation ends by a refusal of provider `p`.
    #[verifier::spinoff_prover]
    proof fn lemma_refused_step(
        self,
        first: ProviderRegistry<P>,
        start: ProviderRegistry<P>,
        mid: ProviderRegistry<P>,
        job_id: JobId,
        entries: Seq<(Text, ResourceQuantity)>,
        acquired: Seq<TrackedGrant>,
        p: int,
        e: RejectGroupModel,
    )
        requires
            0 <= p < first.providers@.len(),
            progress(
                first.providers@,
                start.providers@,
                first.routes@,
                job_id,
                entries,
                acquired,
                p,
            ),
            routed(entries, first.routes@, p).len() > 0,
            e.provider_id == mid.providers@[p].spec_id(),
            start.log@ == first.log@ + asks(
                tracked_models(acquired),
                first.routes@,
                job_id,
                entries,
            ),
            mid.called(
                start,
                p,
                ProviderCall::Reserve {
                    job_id,
                    need: routed(entries, first.routes@, p),
                    answer: Err(e.reject),
                },
            ),
            self.log@ == mid.log@ + give_backs(tracked_models(acquired)).reverse(),
            self.providers@.len() == mid.providers@.len(),
            forall|k: int|
                #![trigger acquired[k]]
                0 <= k < acquired.len() ==> self.providers@[acquired[k].provider as int].calls()
                    == mid.providers@[acquired[k].provider as int].calls().push(
                    ProviderCall::Release(acquired[k].grant.id@),
                ),
            forall|q: int|
                #![trigger self.providers@[q]]
                0 <= q < mid.providers@.len() && (forall|k: int|
                    0 <= k < acquired.len() ==> (#[trigger] acquired[k]).provider != q)
                    ==> self.providers@[q].calls() == mid.providers@[q].calls(),
        ensures
            rejected_at(
                first.providers@,
                self.providers@,
                first.routes@,
                job_id,
                entries,
                p,
                e,
            ),
            refused_in_order(first, self, job_id, entries, p, tracked_models(acquired), e.reject),
    {
        reveal(progress);
        let before = first.providers@;
        let routes = first.routes@;
        let f = self.providers@;
        let m = mid.providers@;
        assert forall|j: int| #![trigger m[j]] 0 <= j < before.len() implies m[j].spec_id()
            == before[j].spec_id() && (j != p ==> m[j].calls() == start.providers@[j].calls()) by {
            assert(start.providers@[j].spec_id() == before[j].spec_id());
        }
        assert(start.providers@[p].calls() == before[p].calls());
        assert forall|i: int| #![trigger f[i]] 0 <= i < before.len() implies {
            if i < p && routed(entries, routes, i).len() > 0 {
                gave_back(before[i].calls(), f[i].calls(), job_id, routed(entries, routes, i))
            } else if i == p {
                f[i].calls() == calls_after(
                    before[i].calls(),
                    job_id,
                    routed(entries, routes, i),
                    Err(e.reject),
                    true,
                )
            } else {
                f[i].calls() == before[i].calls()
            }
        } by {
            assert(m[i].spec_id() == before[i].spec_id());
            assert(start.providers@[i].spec_id() == before[i].spec_id());
            if i < p && routed(entries, routes, i).len() > 0 {
                assert(holds_of(acquired, i));
                let k = choose|k: int|
                    0 <= k < acquired.len() && (#[trigger] acquired[k]).provider == i;
                assert(f[i].calls() == calls_after(
                    before[i].calls(),
                    job_id,
                    routed(entries, routes, i),
                    Ok(acquired[k].grant@),
                    true,
                ));
            }
        }
        let held = tracked_models(acquired);
        let asked = asks(held, routes, job_id, entries);
        assert(self.log@ =~= first.log@ + asked.push(mid.log@.last()) + give_backs(held).reverse());
        lemma_prefix_granted(routes, job_id, entries, acquired, p);
    }

    /// Atomically reserve `need` across all providers that own some of its
    /// keys, in ascending order of their IDs. On a rejection all prior grants
    /// are released, and the rejection is returned with its provider's ID.
    #[verifier::spinoff_prover]
    pub fn try_reserve(&mut self, job_id: JobId, need: &Need) -> (r: Result<Vec<Grant>, RejectGroup>)
        requires
            old(self).wf(),
            need.wf(),
        ensures
            final(self).wf(),
            final(self).same_providers(*old(self)),
            ({
                let unknown = unknown_keys(need.spec_keys(), old(self).spec_routes());
                if unknown.len() > 0 {
                    &&& r matches Err(e)
                    &&& e@ == unknown_reject(*need, unknown)
                    &&& *final(self) == *old(self)
                } else {
                    outcome(*old(self), *final(self), job_id, need.entries(), r)
                }
            }),
    {
        let unknown = self.find_unknown(need);
        assert(text::texts(unknown@).len() == unknown@.len());
        if unknown.len() > 0 {
            let key = unknown[0].clone();
            proof {
                need.lemma_keys();
                reveal(Seq::filter);
                lemma_filter_member(need.spec_keys(), unowned(self.routes@), 0);
                assert(text::texts(unknown@)[0] == key@);
            }
            let q = match need.get(key.as_str()) {
                Some(q) => q,
                None => vstd::pervasive::unreached(),
            };
            return Err(
                RejectGroup {
                    provider_id: ProviderId::new("core"),
                    reject: Reject::new(
                        text::concat2(
                            "unknown resource key: ",
                            text::join_strings(&unknown, ", ").as_str(),
                        ),
                    ).with_demand(key, q),
                },
            );
        }
        let ghost entries = need.entries();
        let ghost before = self.providers@;
        let ghost routes = self.routes@;
        let mut acquired: Vec<TrackedGrant> = Vec::new();
        let mut p: usize = 0;
        proof {
            reveal(progress);
            assert(self.log@ + asks(tracked_models(acquired@), routes, job_id, entries)
                =~= self.log@);
        }
        while p < self.providers.len()
            invariant
                p <= before.len(),
                self.wf(),
                old(self).wf(),
                need.wf(),
                entries == need.entries(),
                before == old(self).providers@,
                routes == old(self).routes@,
                unknown_keys(need.spec_keys(), routes).len() == 0,
                self.routes == old(self).routes,
                self.reservations == old(self).reservations,
                self.earlier == old(self).earlier,
                self.providers@.len() == before.len(),
                self.same_providers(*old(self)),
                self.log@ == old(self).log@ + asks(
                    tracked_models(acquired@),
                    routes,
                    job_id,
                    entries,
                ),
                progress(before, self.providers@, routes, job_id, entries, acquired@, p as int),
            decreases before.len() - p,
        {
            let sub = self.sub_need(need, p);
            assert(sub.entries().len() == sub.spec_keys().len());
            if sub.is_empty() {
                proof {
                    lemma_skipped(before, self.providers@, routes, job_id, entries, acquired@, p as int);
                }
            } else {
                let req = ReserveRequest::new(job_id, sub);
                let ghost start = *self;
                let ghost earlier = acquired@;
                let answer = self.reserve_at(p, &req);
                proof {
                    self.lemma_still_same(start, *old(self));
                }
                match answer {
                    Ok(grant) => {
                        let ghost t = TrackedGrant { job_id, provider: p, grant };
                        acquired.push(TrackedGrant { job_id, provider: p, grant });
                        proof {
                            self.lemma_granted_step(
                                *old(self),
                                start,
                                job_id,
                                entries,
                                earlier,
                                t,
                                p as int,
                            );
                            assert(acquired@ =~= earlier.push(t));
                        }
                    },
                    Err(reject) => {
                        let provider_id = self.providers[p].id();
                        let ghost mid = *self;
                        proof {
                            lemma_in_order(before, start.providers@, routes, job_id, entries, earlier, p as int);
                        }
                        self.roll_back(&acquired);
                        proof {
                            self.lemma_still_same(mid, *old(self));
                        }
                        let e = RejectGroup { provider_id, reject };
                        proof {
                            self.lemma_refused_step(
                                *old(self),
                                start,
                                mid,
                                job_id,
                                entries,
                                acquired@,
                                p as int,
                                e@,
                            );
                        }
                        return Err(e);
                    },
                }
            }
            p = p + 1;
        }
        let ghost held = acquired@;
        let mut grants: Vec<Grant> = Vec::new();
        let mut i: usize = 0;
        assert(grant_models(grants@) =~= grant_models_of(held).take(0));
        while i < acquired.len()
            invariant
                i <= acquired@.len(),
                held == acquired@,
                grant_models(grants@) == grant_models_of(held).take(i as int),
            decreases acquired@.len() - i,
        {
            let g = acquired[i].grant.clone();
            proof {
                assert(grant_models(grants@.push(g)) =~= grant_models(grants@).push(g@));
                assert(grant_models_of(held).take(i + 1) =~= grant_models_of(held).take(
                    i as int,
                ).push(g@));
            }
            grants.push(g);
            i = i + 1;
        }
        let ghost old_res = self.reservations@;
        self.reservations.append(&mut acquired);
        proof {
            assert(grant_models(grants@) =~= tracked_models(held).map_values(
                |t: TrackedModel| t.grant,
            ));
            assert(tracked_models(self.reservations@) =~= tracked_models(old_res) + tracked_models(
                held,
            ));
            assert forall|k: int|
                0 <= k < self.reservations@.len() implies (#[trigger] self.reservations@[k]).provider
                < self.providers@.len() by {
                if k >= old_res.len() {
                    assert(self.reservations@[k] == held[k - old_res.len()]);
                } else {
                    assert(self.reservations@[k] == old_res[k]);
                }
            }
            assert(granted(before, self.providers@, routes, job_id, entries, tracked_models(held))) by {
                assert forall|k: int| 0 <= k < held.len() implies tracked_models(held)[k]
                    == (#[trigger] held[k])@ by {}
                lemma_granted(before, self.providers@, routes, job_id, entries, held);
            }
        }
        Ok(grants)
    }

    /// Release every reservation currently held by `job_id`; returns how many
    /// there were.
    #[verifier::spinoff_prover]
    pub fn release(&mut self, job_id: JobId) -> (r: usize)
        requires
            old(self).wf(),
        ensures
            final(self).wf(),
            final(self).same_providers(*old(self)),
            r == only_job(old(self).spec_reservations(), job_id).len(),
            final(self).spec_reservations() == without_job(old(self).spec_reservations(), job_id),
            final(self).spec_log() == old(self).spec_log() + give_backs(
                only_job(old(self).spec_reservations(), job_id),
            ),
            forall|p: int|
                #![trigger final(self).spec_providers()[p]]
                0 <= p < old(self).spec_providers().len() ==> final(self).spec_providers()[p].calls() == old(self).spec_providers()[p].calls() + releases(
                    only_job(old(self).spec_reservations(), job_id),
                    p,
                ),
    {
        let ghost before = self.providers@;
        let ghost all = self.reservations@;
        let ghost models = tracked_models(all);
        let mut rest: Vec<TrackedGrant> = Vec::new();
        std::mem::swap(&mut rest, &mut self.reservations);
        let mut kept: Vec<TrackedGrant> = Vec::new();
        let mut n: usize = 0;
        let mut i: usize = 0;
        let total: usize = rest.len();
        proof {
            reveal(Seq::filter);
            assert(models.take(0) =~= Seq::<TrackedModel>::empty());
            assert(tracked_models(kept@) =~= without_job(models.take(0), job_id));
            assert(all.skip(0) =~= all);
            assert(self.log@ + give_backs(only_job(models.take(0), job_id)) =~= self.log@);
            assert forall|p: int| #![trigger self.providers@[p]] 0 <= p < before.len() implies
                self.providers@[p].calls() == before[p].calls() + releases(
                only_job(models.take(0), job_id),
                p,
            ) by {
                assert(before[p].calls() + Seq::<ProviderCall>::empty() =~= before[p].calls());
            }
        }
        while i < total
            invariant
                i <= total,
                total == all.len(),
                rest@ == all.skip(i as int),
                models == tracked_models(all),
                self.wf(),
                old(self).wf(),
                before == old(self).providers@,
                all == old(self).reservations@,
                self.providers@.len() == before.len(),
                self.routes == old(self).routes,
                self.reservations@.len() == 0,
                self.earlier == old(self).earlier,
                self.log@ == old(self).log@ + give_backs(only_job(models.take(i as int), job_id)),
                n <= i,
                n == only_job(models.take(i as int), job_id).len(),
                tracked_models(kept@) == without_job(models.take(i as int), job_id),
                forall|k: int|
                    0 <= k < kept@.len() ==> (#[trigger] kept@[k]).provider < before.len(),
                forall|j: int|
                    #![trigger self.providers@[j]]
                    0 <= j < before.len() ==> self.providers@[j].spec_id() == before[j].spec_id()
                        && self.providers@[j].spec_keys() == before[j].spec_keys(),
                forall|p: int|
                    #![trigger self.providers@[p]]
                    0 <= p < before.len() ==> self.providers@[p].calls() == before[p].calls()
                        + releases(only_job(models.take(i as int), job_id), p),
            decreases total - i,
        {
            let tg = rest.remove(0);
            proof {
                reveal(Seq::filter);
                assert(tg == all[i as int]);
                assert(rest@ =~= all.skip(i + 1));
                assert(models.take(i + 1).drop_last() =~= models.take(i as int));
                assert(models.take(i + 1).last() == tg@);
            }
            if tg.job_id == job_id {
                let p = tg.provider;
                let ghost mid = self.providers@;
                let ghost sofar = only_job(models.take(i as int), job_id);
                self.release_at(p, &tg.grant.id);
                n = n + 1;
                proof {
                    assert(give_backs(sofar.push(tg@)) =~= give_backs(sofar).push(give_back(tg@)));
                    assert(self.log@ =~= old(self).log@ + give_backs(sofar.push(tg@)));
                    assert forall|j: int| #![trigger self.providers@[j]] 0 <= j < before.len()
                        implies self.providers@[j].spec_id() == before[j].spec_id()
                        && self.providers@[j].spec_keys() == before[j].spec_keys() by {
                        assert(mid[j].spec_id() == before[j].spec_id());
                    }
                    assert(only_job(models.take(i + 1), job_id) == sofar.push(tg@));
                    assert(sofar.push(tg@).drop_last() =~= sofar);
                    assert forall|q: int|
                        #![trigger self.providers@[q]]
                        0 <= q < before.len() implies self.providers@[q].calls()
                        == before[q].calls() + releases(sofar.push(tg@), q) by {
                        assert(mid[q].calls() == before[q].calls() + releases(sofar, q));
                        if q == p {
                            assert((before[q].calls() + releases(sofar, q)).push(
                                ProviderCall::Release(tg.grant.id@),
                            ) =~= before[q].calls() + releases(sofar, q).push(
                                ProviderCall::Release(tg.grant.id@),
                            ));
                        }
                    }
                }
            } else {
                proof {
                    assert(tracked_models(kept@.push(tg)) =~= tracked_models(kept@).push(tg@));
                }
                kept.push(tg);
            }
            i = i + 1;
        }
        assert(models.take(i as int) =~= models);
        self.reservations = kept;
        n
    }

    /// Total active reservations of all jobs.
    pub fn active_reservation_count(&self) -> (r: usize)
        ensures
            r == self.spec_reservations().len(),
    {
        self.reservations.len()
    }
}

/// The providers in ascending order of their IDs.
fn sort_by_id<P: Provider>(providers: Vec<P>) -> (r: Vec<P>)
    requires
        all_wf(providers@),
    ensures
        r@.to_multiset() == providers@.to_multiset(),
        ids_sorted(r@),
        all_wf(r@),
    decreases providers@.len(),
{
    broadcast use vstd::seq_lib::to_multiset_insert, vstd::seq_lib::to_multiset_build;

    let ghost all = providers@;
    let mut providers = providers;
    match providers.pop() {
        None => {
            let none: Vec<P> = Vec::new();
            assert(none@ =~= all);
            none
        },
        Some(last) => {
            assert(all =~= providers@.push(last));
            assert(all[all.len() - 1].wf());
            assert forall|i: int| 0 <= i < providers@.len() implies (#[trigger] providers@[i]).wf() by {
                assert(all[i].wf());
            }
            let mut out = sort_by_id(providers);
            let ghost before = out@;
            let id = last.id();
            let mut at: usize = out.len();
            while at > 0 && str_lt(id.as_str(), out[at - 1].id().as_str())
                invariant
                    at <= out@.len(),
                    out@ == before,
                    all_wf(out@),
                    ids_sorted(out@),
                    id@ == last.spec_id(),
                    forall|i: int|
                        at <= i < out@.len() ==> text_lt(id@, (#[trigger] out@[i]).spec_id()),
                decreases at,
            {
                at = at - 1;
            }
            out.insert(at, last);
            proof {
                assert forall|i: int, j: int| 0 <= i < j < out@.len() implies !text_lt(
                    (#[trigger] out@[j]).spec_id(),
                    (#[trigger] out@[i]).spec_id(),
                ) by {
                    let bi = if i < at {
                        i
                    } else {
                        i - 1
                    };
                    let bj = if j < at {
                        j
                    } else {
                        j - 1
                    };
                    if i == at {
                        assert(text_lt(id@, before[bj].spec_id()));
                        if text_lt(before[bj].spec_id(), id@) {
                            lemma_lt_transitive(id@, before[bj].spec_id(), id@);
                            lemma_lt_irreflexive(id@);
                        }
                    } else if j == at {
                        if text_lt(id@, before[bi].spec_id()) && bi < at - 1 {
                            let x = before[at - 1].spec_id();
                            let y = before[bi].spec_id();
                            if x != y {
                                lemma_lt_total(x, y);
                                lemma_lt_transitive(id@, y, x);
                            }
                        }
                    } else {
                        assert(!text_lt(before[bj].spec_id(), before[bi].spec_id()));
                    }
                }
                assert forall|i: int| 0 <= i < out@.len() implies (#[trigger] out@[i]).wf() by {
                    if i != at {
                        assert(before[if i < at {
                            i
                        } else {
                            i - 1
                        }].wf());
                    }
                }
            }
            out
        },
    }
}

proof fn lemma_sorted_distinct<P: Provider>(s: Seq<P>)
    requires
        ids_sorted(s),
        forall|j: int| 0 <= j < s.len() - 1 ==> (#[trigger] s[j]).spec_id() != s[j + 1].spec_id(),
    ensures
        ids_ascending(s),
{
    assert forall|i: int, j: int| 0 <= i < j < s.len() implies text_lt(
        (#[trigger] s[i]).spec_id(),
        (#[trigger] s[j]).spec_id(),
    ) by {
        let a = s[i].spec_id();
        let b = s[i + 1].spec_id();
        let c = s[j].spec_id();
        assert(a != b);
        lemma_lt_total(a, b);
        assert(!text_lt(b, a));
        if j > i + 1 {
            assert(!text_lt(c, b));
            if b != c {
                lemma_lt_total(b, c);
                lemma_lt_transitive(a, b, c);
            }
        }
    }
}

proof fn lemma_claims_prefix<P: Provider>(s: Seq<P>, n: int)
    requires
        0 <= n <= s.len(),
    ensures
        claims(s.take(n)).len() <= claims(s).len(),
        claims(s.take(n)) == claims(s).take(claims(s.take(n)).len() as int),
    decreases s.len() - n,
{
    if n == s.len() {
        assert(s.take(n) =~= s);
        assert(claims(s).take(claims(s).len() as int) =~= claims(s));
    } else {
        lemma_claims_prefix(s, n + 1);
        assert(s.take(n + 1).drop_last() =~= s.take(n));
        let a = claims(s.take(n));
        let b = claims(s.take(n + 1));
        assert(b.take(a.len() as int) =~= a);
        assert(claims(s).take(a.len() as int) =~= claims(s).take(b.len() as int).take(
            a.len() as int,
        ));
    }
}

/// The routes hold exactly what was claimed.
proof fn lemma_routes_of(c: Seq<(Text, usize)>)
    requires
        claims_distinct(c),
    ensures
        forall|k: Text| #[trigger]
            routes_of(c).dom().contains(k) ==> exists|i: int|
                0 <= i < c.len() && (#[trigger] c[i]).0 == k && c[i].1 == routes_of(c)[k],
        forall|i: int| 0 <= i < c.len() ==> routes_of(c).dom().contains((#[trigger] c[i]).0),
    decreases c.len(),
{
    if c.len() > 0 {
        let d = c.drop_last();
        assert(claims_distinct(d)) by {
            assert forall|i: int, j: int| 0 <= i < j < d.len() implies (#[trigger] d[i]).0 != (
            #[trigger] d[j]).0 by {
                assert(c[i].0 != c[j].0);
            }
        }
        lemma_routes_of(d);
        assert forall|k: Text| #[trigger] routes_of(c).dom().contains(k) implies exists|i: int|
            0 <= i < c.len() && (#[trigger] c[i]).0 == k && c[i].1 == routes_of(c)[k] by {
            if k == c.last().0 {
                assert(c[c.len() - 1].0 == k);
            } else {
                assert(routes_of(d).dom().contains(k));
                let i = choose|i: int|
                    0 <= i < d.len() && (#[trigger] d[i]).0 == k && d[i].1 == routes_of(d)[k];
                assert(c[i] == d[i]);
            }
        }
        assert forall|i: int| 0 <= i < c.len() implies routes_of(c).dom().contains(
            (#[trigger] c[i]).0,
        ) by {
            if i < d.len() {
                assert(c[i] == d[i]);
            }
        }
    }
}

pub open spec fn grant_models_of(v: Seq<TrackedGrant>) -> Seq<GrantModel> {
    v.map_values(|t: TrackedGrant| t.grant@)
}

proof fn lemma_in_order<P: Provider>(
    before: Seq<P>,
    now: Seq<P>,
    routes: Map<Text, usize>,
    job_id: JobId,
    entries: Seq<(Text, ResourceQuantity)>,
    acquired: Seq<TrackedGrant>,
    p: int,
)
    requires
        progress(before, now, routes, job_id, entries, acquired, p),
    ensures
        now.len() == before.len(),
        forall|k: int, l: int|
            0 <= k < l < acquired.len() ==> (#[trigger] acquired[k]).provider < (
            #[trigger] acquired[l]).provider,
        forall|k: int|
            0 <= k < acquired.len() ==> (#[trigger] acquired[k]).provider < before.len(),
{
    reveal(progress);
}

proof fn lemma_skipped<P: Provider>(
    before: Seq<P>,
    now: Seq<P>,
    routes: Map<Text, usize>,
    job_id: JobId,
    entries: Seq<(Text, ResourceQuantity)>,
    acquired: Seq<TrackedGrant>,
    p: int,
)
    requires
        progress(before, now, routes, job_id, entries, acquired, p),
        routed(entries, routes, p).len() == 0,
    ensures
        progress(before, now, routes, job_id, entries, acquired, p + 1),
{
    reveal(progress);
}

/// How far a reservation has come: of the providers before `p`, those that own
/// some of the need have been asked and have granted.
#[verifier::opaque]
pub open spec fn progress<P: Provider>(
    before: Seq<P>,
    now: Seq<P>,
    routes: Map<Text, usize>,
    job_id: JobId,
    entries: Seq<(Text, ResourceQuantity)>,
    acquired: Seq<TrackedGrant>,
    p: int,
) -> bool {
    &&& now.len() == before.len()
    &&& forall|j: int|
        #![trigger now[j]]
        0 <= j < before.len() ==> now[j].spec_id() == before[j].spec_id() && now[j].spec_keys()
            == before[j].spec_keys()
    &&& forall|k: int, l: int|
        0 <= k < l < acquired.len() ==> (#[trigger] acquired[k]).provider < (
        #[trigger] acquired[l]).provider
    &&& forall|k: int|
        #![trigger acquired[k]]
        0 <= k < acquired.len() ==> {
            let i = acquired[k].provider as int;
            &&& acquired[k].job_id == job_id
            &&& i < p
            &&& i < before.len()
            &&& routed(entries, routes, i).len() > 0
            &&& now[i].calls() == calls_after(
                before[i].calls(),
                job_id,
                routed(entries, routes, i),
                Ok(acquired[k].grant@),
                false,
            )
        }
    &&& forall|i: int|
        #![trigger now[i]]
        #![trigger holds_of(acquired, i)]
        0 <= i < before.len() ==> if i < p && routed(entries, routes, i).len() > 0 {
            holds_of(acquired, i)
        } else {
            now[i].calls() == before[i].calls()
        }
}

/// Every provider that owns some of the need was asked for exactly that part
/// and granted it; the others were not called.
pub open spec fn granted<P: Provider>(
    before: Seq<P>,
    now: Seq<P>,
    routes: Map<Text, usize>,
    job_id: JobId,
    entries: Seq<(Text, ResourceQuantity)>,
    acquired: Seq<TrackedModel>,
) -> bool {
    &&& forall|k: int, l: int|
        0 <= k < l < acquired.len() ==> (#[trigger] acquired[k]).provider < (
        #[trigger] acquired[l]).provider
    &&& forall|k: int|
        #![trigger acquired[k]]
        0 <= k < acquired.len() ==> {
            let i = acquired[k].provider as int;
            &&& acquired[k].job_id == job_id
            &&& i < before.len()
            &&& routed(entries, routes, i).len() > 0
            &&& now[i].calls() == calls_after(
                before[i].calls(),
                job_id,
                routed(entries, routes, i),
                Ok(acquired[k].grant),
                false,
            )
        }
    &&& forall|i: int|
        #![trigger now[i]]
        #![trigger granted_by(acquired, i)]
        0 <= i < before.len() ==> if routed(entries, routes, i).len() > 0 {
            granted_by(acquired, i)
        } else {
            now[i].calls() == before[i].calls()
        }
}

/// Provider `p` rejected its part of the need. The providers before it that
/// had granted theirs were told to release it again; the others were not
/// called.
pub open spec fn rejected_at<P: Provider>(
    before: Seq<P>,
    now: Seq<P>,
    routes: Map<Text, usize>,
    job_id: JobId,
    entries: Seq<(Text, ResourceQuantity)>,
    p: int,
    e: RejectGroupModel,
) -> bool {
    &&& 0 <= p < before.len()
    &&& routed(entries, routes, p).len() > 0
    &&& e.provider_id == before[p].spec_id()
    &&& forall|i: int|
        #![trigger now[i]]
        0 <= i < before.len() ==> if i < p && routed(entries, routes, i).len() > 0 {
            gave_back(before[i].calls(), now[i].calls(), job_id, routed(entries, routes, i))
        } else if i == p {
            now[i].calls() == calls_after(
                before[i].calls(),
                job_id,
                routed(entries, routes, i),
                Err(e.reject),
                true,
            )
        } else {
            now[i].calls() == before[i].calls()
        }
}

/// The grants are those of the providers in front of `p` that own some of the
/// need, in ascending order.
pub open spec fn in_front_of(
    acquired: Seq<TrackedModel>,
    routes: Map<Text, usize>,
    job_id: JobId,
    entries: Seq<(Text, ResourceQuantity)>,
    p: int,
) -> bool {
    &&& forall|k: int, l: int|
        0 <= k < l < acquired.len() ==> (#[trigger] acquired[k]).provider < (
        #[trigger] acquired[l]).provider
    &&& forall|k: int|
        0 <= k < acquired.len() ==> (#[trigger] acquired[k]).provider < p && acquired[k].job_id
            == job_id && routed(entries, routes, acquired[k].provider as int).len() > 0
    &&& forall|i: int|
        0 <= i < p && routed(entries, routes, i).len() > 0 ==> #[trigger] granted_by(acquired, i)
}

/// In what order the providers were called: those in front of `p` were asked
/// and granted, then `p` refused, and then the grants were released, the newest
/// first.
pub open spec fn refused_in_order<P: Provider>(
    before: ProviderRegistry<P>,
    after: ProviderRegistry<P>,
    job_id: JobId,
    entries: Seq<(Text, ResourceQuantity)>,
    p: int,
    acquired: Seq<TrackedModel>,
    reject: RejectModel,
) -> bool {
    &&& in_front_of(acquired, before.spec_routes(), job_id, entries, p)
    &&& after.spec_log() == before.spec_log() + asks(
        acquired,
        before.spec_routes(),
        job_id,
        entries,
    ).push(
        LoggedCall {
            provider: p,
            call: ProviderCall::Reserve {
                job_id,
                need: routed(entries, before.spec_routes(), p),
                answer: Err(reject),
            },
        },
    ) + give_backs(acquired).reverse()
}

/// What a reservation of known keys comes to: all granted and tracked, or one
/// rejection with everything else rolled back.
pub open spec fn outcome<P: Provider>(
    before: ProviderRegistry<P>,
    after: ProviderRegistry<P>,
    job_id: JobId,
    entries: Seq<(Text, ResourceQuantity)>,
    r: Result<Vec<Grant>, RejectGroup>,
) -> bool {
    match r {
        Ok(grants) => exists|acquired: Seq<TrackedModel>|
            {
                &&& #[trigger] granted(
                    before.spec_providers(),
                    after.spec_providers(),
                    before.spec_routes(),
                    job_id,
                    entries,
                    acquired,
                )
                &&& after.spec_log() == before.spec_log() + asks(
                    acquired,
                    before.spec_routes(),
                    job_id,
                    entries,
                )
                &&& after.spec_reservations() == before.spec_reservations() + acquired
                &&& grant_models(grants@) == acquired.map_values(|t: TrackedModel| t.grant)
            },
        Err(e) => {
            &&& after.spec_reservations() == before.spec_reservations()
            &&& exists|p: int|
                #[trigger] rejected_at(
                    before.spec_providers(),
                    after.spec_providers(),
                    before.spec_routes(),
                    job_id,
                    entries,
                    p,
                    e@,
                ) && exists|acquired: Seq<TrackedModel>| #[trigger]
                    refused_in_order(before, after, job_id, entries, p, acquired, e@.reject)
        },
    }
}

proof fn lemma_prefix_granted(
    routes: Map<Text, usize>,
    job_id: JobId,
    entries: Seq<(Text, ResourceQuantity)>,
    held: Seq<TrackedGrant>,
    p: int,
)
    requires
        forall|k: int, l: int|
            0 <= k < l < held.len() ==> (#[trigger] held[k]).provider < (#[trigger] held[l]).provider,
        forall|k: int|
            0 <= k < held.len() ==> (#[trigger] held[k]).provider < p && held[k].job_id == job_id
                && routed(entries, routes, held[k].provider as int).len() > 0,
        forall|i: int|
            0 <= i < p && routed(entries, routes, i).len() > 0 ==> #[trigger] holds_of(held, i),
    ensures
        in_front_of(tracked_models(held), routes, job_id, entries, p),
{
    let models = tracked_models(held);
    assert forall|k: int| 0 <= k < models.len() implies #[trigger] models[k] == held[k]@ by {}
    assert forall|i: int| 0 <= i < p && routed(entries, routes, i).len() > 0 implies
        #[trigger] granted_by(models, i) by {
        assert(holds_of(held, i));
        let k = choose|k: int| 0 <= k < held.len() && (#[trigger] held[k]).provider == i;
        assert(models[k].provider == i);
    }
}

proof fn lemma_granted<P: Provider>(
    before: Seq<P>,
    now: Seq<P>,
    routes: Map<Text, usize>,
    job_id: JobId,
    entries: Seq<(Text, ResourceQuantity)>,
    held: Seq<TrackedGrant>,
)
    requires
        progress(before, now, routes, job_id, entries, held, before.len() as int),
    ensures
        granted(before, now, routes, job_id, entries, tracked_models(held)),
{
    reveal(progress);
    let models = tracked_models(held);
    assert forall|k: int| 0 <= k < models.len() implies #[trigger] models[k] == held[k]@ by {}
    assert forall|i: int|
        #![trigger now[i]]
        #![trigger granted_by(models, i)]
        0 <= i < before.len() implies if routed(entries, routes, i).len() > 0 {
        granted_by(models, i)
    } else {
        now[i].calls() == before[i].calls()
    } by {
        assert(now[i].spec_id() == before[i].spec_id());
        if routed(entries, routes, i).len() > 0 {
            let k = choose|k: int| 0 <= k < held.len() && (#[trigger] held[k]).provider == i;
            assert(models[k].provider == i);
        }
    }
}

proof fn lemma_filter_member(s: Seq<Text>, pred: spec_fn(Text) -> bool, i: int)
    requires
        0 <= i < s.filter(pred).len(),
    ensures
        s.contains(s.filter(pred)[i]),
        pred(s.filter(pred)[i]),
    decreases s.len(),
{
    reveal(Seq::filter);
    if s.len() > 0 {
        let rest = s.drop_last().filter(pred);
        if i < rest.len() {
            lemma_filter_member(s.drop_last(), pred, i);
            let j = s.drop_last().index_of(rest[i]);
            assert(s[j] == rest[i]);
        } else {
            assert(s[s.len() - 1] == s.last());
        }
    }
}

/// After a rejection no provider holds a reservation that it did not hold
/// before.
pub proof fn lemma_rejection_leaves_nothing<P: Provider>(
    before: Seq<P>,
    now: Seq<P>,
    routes: Map<Text, usize>,
    job_id: JobId,
    entries: Seq<(Text, ResourceQuantity)>,
    p: int,
    e: RejectGroupModel,
    i: int,
)
    requires
        rejected_at(before, now, routes, job_id, entries, p, e),
        now.len() == before.len(),
        0 <= i < before.len(),
    ensures
        held_after(now[i].calls()).subset_of(held_after(before[i].calls())),
{
    let b = before[i].calls();
    let part = routed(entries, routes, i);
    if i < p && part.len() > 0 {
        let grant = choose|grant: GrantModel|
            now[i].calls() == #[trigger] calls_after(b, job_id, part, Ok(grant), true);
        assert(gave_back(b, now[i].calls(), job_id, part));
        let asked = b.push(ProviderCall::Reserve { job_id, need: part, answer: Ok(grant) });
        assert(asked.drop_last() =~= b);
        assert(asked.push(ProviderCall::Release(grant.id)).drop_last() =~= asked);
        assert(held_after(asked) =~= held_after(b).insert(grant.id));
    } else if i == p {
        let asked = b.push(
            ProviderCall::Reserve { job_id, need: part, answer: Err(e.reject) },
        );
        assert(asked.drop_last() =~= b);
    }
}

/// Releasing a job twice is releasing it once.
pub proof fn lemma_release_idempotent(v: Seq<TrackedModel>, job_id: JobId)
    ensures
        only_job(without_job(v, job_id), job_id).len() == 0,
        without_job(without_job(v, job_id), job_id) == without_job(v, job_id),
    decreases v.len(),
{
    reveal(Seq::filter);
    if v.len() > 0 {
        lemma_release_idempotent(v.drop_last(), job_id);
        let w = without_job(v.drop_last(), job_id);
        if v.last().job_id != job_id {
            assert(w.push(v.last()).drop_last() =~= w);
        }
    }
}

} // verus!
