//! A provider with scripted answers, for exercising admission control.

use vstd::prelude::*;

use super::provider::{grant_result, recorded, Provider, ProviderCall, ReserveRequest};
use super::types::{
    unit_models, Grant, GrantModel, JobId, ProviderId, Reject, RejectModel, ReservationId,
    ResourceQuantity, ResourceUnit, Snapshot, UnitModel,
};
use crate::text;
use crate::text::Text;
use crate::textmap::TextMap;

verus! {

/// What the mock returns from each `reserve()` call.
#[derive(Debug)]
pub enum MockBehaviour {
    /// Always succeed; the configured environment is copied into every grant.
    AlwaysGrant,
    /// Always reject with the configured rejection.
    AlwaysReject(Reject),
    /// Return the next entry from this list; the last one is repeated.
    Scripted(Vec<Result<(), Reject>>),
}

/// A behaviour over character sequences.
pub enum BehaviourModel {
    AlwaysGrant,
    AlwaysReject(RejectModel),
    Scripted(Seq<Result<(), RejectModel>>),
}

impl View for MockBehaviour {
    type V = BehaviourModel;

    open spec fn view(&self) -> BehaviourModel {
        match self {
            MockBehaviour::AlwaysGrant => BehaviourModel::AlwaysGrant,
            MockBehaviour::AlwaysReject(e) => BehaviourModel::AlwaysReject(e@),
            MockBehaviour::Scripted(steps) => BehaviourModel::Scripted(step_models(steps@)),
        }
    }
}

pub open spec fn step_model(step: Result<(), Reject>) -> Result<(), RejectModel> {
    match step {
        Ok(_) => Ok(()),
        Err(e) => Err(e@),
    }
}

pub open spec fn step_models(v: Seq<Result<(), Reject>>) -> Seq<Result<(), RejectModel>> {
    v.map_values(|s: Result<(), Reject>| step_model(s))
}

impl BehaviourModel {
    /// What the next request is answered.
    pub open spec fn answer(self) -> Result<(), RejectModel> {
        match self {
            BehaviourModel::AlwaysGrant => Ok(()),
            BehaviourModel::AlwaysReject(e) => Err(e),
            BehaviourModel::Scripted(steps) => if steps.len() == 0 {
                Ok(())
            } else {
                steps[0]
            },
        }
    }

    /// The behaviour from the request after the next on. The last step of a
    /// script stays.
    pub open spec fn answered(self) -> BehaviourModel {
        match self {
            BehaviourModel::Scripted(steps) => if steps.len() <= 1 {
                self
            } else {
                BehaviourModel::Scripted(steps.skip(1))
            },
            _ => self,
        }
    }
}

/// What a mock will do and what it has seen.
pub struct MockModel {
    pub behaviour: BehaviourModel,
    /// The environment that grants carry.
    pub env: Map<Text, Text>,
    /// The units that snapshots show.
    pub units: Seq<UnitModel>,
    pub reserve_calls: u64,
    pub release_calls: u64,
    /// The number that the next grant gets.
    pub seq: u64,
    pub last_request: Option<(JobId, Seq<(Text, ResourceQuantity)>)>,
}

/// One more, from the start again behind the greatest number.
pub open spec fn next_count(n: u64) -> u64 {
    if n < u64::MAX {
        (n + 1) as u64
    } else {
        0
    }
}

impl MockModel {
    /// What a request comes to.
    pub open spec fn outcome(self, id: Text, req: ReserveRequest) -> Result<GrantModel, RejectModel> {
        match self.behaviour.answer() {
            Ok(_) => Ok(
                GrantModel {
                    id: id + "-"@ + text::decimal(self.seq as nat),
                    job_id: req.job_id,
                    provider_id: id,
                    env: self.env,
                    info: req.need@,
                },
            ),
            Err(e) => Err(e),
        }
    }

    /// The mock once it has answered a request.
    pub open spec fn reserved(self, req: ReserveRequest) -> MockModel {
        MockModel {
            behaviour: self.behaviour.answered(),
            reserve_calls: next_count(self.reserve_calls),
            seq: if self.behaviour.answer() is Ok {
                next_count(self.seq)
            } else {
                self.seq
            },
            last_request: Some((req.job_id, req.need.entries())),
            ..self
        }
    }
}

/// A mock that has seen nothing yet.
pub open spec fn fresh_mock(behaviour: BehaviourModel) -> MockModel {
    MockModel {
        behaviour,
        env: Map::empty(),
        units: Seq::empty(),
        reserve_calls: 0,
        release_calls: 0,
        seq: 0,
        last_request: None,
    }
}

pub open spec fn request_model(r: Option<ReserveRequest>) -> Option<
    (JobId, Seq<(Text, ResourceQuantity)>),
> {
    match r {
        Some(q) => Some((q.job_id, q.need.entries())),
        None => None,
    }
}

pub struct MockProvider {
    id: ProviderId,
    keys: Vec<String>,
    behaviour: MockBehaviour,
    env: TextMap<String>,
    reserve_calls: u64,
    release_calls: u64,
    /// Next reservation number.
    seq: u64,
    last_request: Option<ReserveRequest>,
    snapshot_units: Vec<ResourceUnit>,
    calls: Ghost<Seq<ProviderCall>>,
}

impl MockProvider {
    pub closed spec fn spec_state(self) -> MockModel {
        MockModel {
            behaviour: self.behaviour@,
            env: self.env.text_map(),
            units: unit_models(self.snapshot_units@),
            reserve_calls: self.reserve_calls,
            release_calls: self.release_calls,
            seq: self.seq,
            last_request: request_model(self.last_request),
        }
    }

    /// Only what the mock does or has seen may differ.
    pub open spec fn same_mock(self, o: MockProvider) -> bool {
        &&& self.spec_id() == o.spec_id()
        &&& self.spec_keys() == o.spec_keys()
        &&& self.calls() == o.calls()
    }

    /// Construct an always-granting provider.
    pub fn new(id: &str, keys: &[&str]) -> (r: MockProvider)
        ensures
            r.wf(),
            r.spec_id() == id@,
            r.spec_keys() == keys@.map_values(|k: &str| k@),
            r.calls() == Seq::<ProviderCall>::empty(),
            r.spec_state() == fresh_mock(BehaviourModel::AlwaysGrant),
    {
        Self::with_behaviour(id, keys, MockBehaviour::AlwaysGrant)
    }

    pub fn with_behaviour(id: &str, keys: &[&str], behaviour: MockBehaviour) -> (r: MockProvider)
        ensures
            r.wf(),
            r.spec_id() == id@,
            r.spec_keys() == keys@.map_values(|k: &str| k@),
            r.calls() == Seq::<ProviderCall>::empty(),
            r.spec_state() == fresh_mock(behaviour@),
    {
        let mut owned: Vec<String> = Vec::new();
        let mut i: usize = 0;
        let ghost all = keys@.map_values(|k: &str| k@);
        assert(text::texts(owned@) =~= all.take(0));
        while i < keys.len()
            invariant
                i <= keys@.len(),
                all == keys@.map_values(|k: &str| k@),
                text::texts(owned@) == all.take(i as int),
            decreases keys@.len() - i,
        {
            let k = keys[i].to_owned();
            proof {
                assert(text::texts(owned@.push(k)) =~= text::texts(owned@).push(k@));
                assert(all.take(i + 1) =~= all.take(i as int).push(k@));
            }
            owned.push(k);
            i = i + 1;
        }
        assert(all.take(i as int) =~= all);
        let r = MockProvider {
            id: ProviderId::new(id),
            keys: owned,
            behaviour,
            env: TextMap::new(),
            reserve_calls: 0,
            release_calls: 0,
            seq: 0,
            last_request: None,
            snapshot_units: Vec::new(),
            calls: Ghost(Seq::empty()),
        };
        proof {
            assert(r.env.text_map() =~= Map::<Text, Text>::empty());
            assert(unit_models(r.snapshot_units@) =~= Seq::<UnitModel>::empty());
        }
        r
    }

    /// Set the environment returned in every grant from now on.
    pub fn set_env(&mut self, env: TextMap<String>)
        requires
            old(self).wf(),
            env.wf(),
        ensures
            final(self).wf(),
            final(self).same_mock(*old(self)),
            final(self).spec_state() == (MockModel { env: env.text_map(), ..old(self).spec_state() }),
    {
        self.env = env;
    }

    /// Replace the configured behaviour.
    pub fn set_behaviour(&mut self, b: MockBehaviour)
        requires
            old(self).wf(),
        ensures
            final(self).wf(),
            final(self).same_mock(*old(self)),
            final(self).spec_state() == (MockModel { behaviour: b@, ..old(self).spec_state() }),
    {
        self.behaviour = b;
    }

    /// Replace the units returned by `probe()`.
    pub fn set_snapshot_units(&mut self, units: Vec<ResourceUnit>)
        requires
            old(self).wf(),
        ensures
            final(self).wf(),
            final(self).same_mock(*old(self)),
            final(self).spec_state() == (MockModel {
                units: unit_models(units@),
                ..old(self).spec_state()
            }),
    {
        self.snapshot_units = units;
    }

    pub fn reserve_calls(&self) -> (r: u64)
        ensures
            r == self.spec_state().reserve_calls,
    {
        self.reserve_calls
    }

    pub fn release_calls(&self) -> (r: u64)
        ensures
            r == self.spec_state().release_calls,
    {
        self.release_calls
    }

    /// The request that was answered last.
    pub fn last_request(&self) -> (r: Option<ReserveRequest>)
        ensures
            request_model(r) == self.spec_state().last_request,
    {
        match &self.last_request {
            Some(r) => Some(r.clone()),
            None => None,
        }
    }

    fn next_id(&mut self) -> (r: ReservationId)
        ensures
            *final(self) == (MockProvider { seq: next_count(old(self).seq), ..*old(self) }),
            r@ == old(self).id@ + "-"@ + text::decimal(old(self).seq as nat),
    {
        let n = self.seq;
        self.seq = n.wrapping_add(1);
        ReservationId::new(
            text::concat3(self.id.as_str(), "-", text::decimal_u64(n).as_str()).as_str(),
        )
    }
}

impl Provider for MockProvider {
    closed spec fn wf(&self) -> bool {
        self.env.wf()
    }

    closed spec fn spec_id(&self) -> Text {
        self.id@
    }

    closed spec fn spec_keys(&self) -> Seq<Text> {
        text::texts(self.keys@)
    }

    closed spec fn calls(&self) -> Seq<ProviderCall> {
        self.calls@
    }

    fn id(&self) -> (r: ProviderId) {
        self.id.clone()
    }

    fn keys(&self) -> (r: Vec<String>) {
        text::clone_strings(&self.keys)
    }

    fn probe(&mut self) -> (r: Snapshot)
        ensures
            unit_models(r.units@) == old(self).spec_state().units,
            final(self).spec_state() == old(self).spec_state(),
    {
        let mut units: Vec<ResourceUnit> = Vec::new();
        let ghost all = unit_models(self.snapshot_units@);
        let mut i: usize = 0;
        assert(unit_models(units@) =~= all.take(0));
        while i < self.snapshot_units.len()
            invariant
                i <= self.snapshot_units@.len(),
                *self == *old(self),
                all == unit_models(self.snapshot_units@),
                unit_models(units@) == all.take(i as int),
            decreases self.snapshot_units@.len() - i,
        {
            let u = self.snapshot_units[i].clone();
            proof {
                assert(unit_models(units@.push(u)) =~= unit_models(
                    units@,
                ).push(u@));
                assert(all.take(i + 1) =~= all.take(i as int).push(u@));
            }
            units.push(u);
            i = i + 1;
        }
        assert(all.take(i as int) =~= all);
        proof {
            self.calls@ = self.calls@.push(ProviderCall::Probe(all));
        }
        Snapshot { provider_id: self.id.clone(), units }
    }

    fn reserve(&mut self, req: &ReserveRequest) -> (r: Result<Grant, Reject>)
        ensures
            grant_result(r) == old(self).spec_state().outcome(
                old(self).spec_id(),
                *req,
            ),
            final(self).spec_state() == old(self).spec_state().reserved(*req),
    {
        self.reserve_calls = self.reserve_calls.wrapping_add(1);
        self.last_request = Some(req.clone());
        let mut behaviour = MockBehaviour::AlwaysGrant;
        std::mem::swap(&mut behaviour, &mut self.behaviour);
        let outcome: Result<(), Reject> = match &mut behaviour {
            MockBehaviour::AlwaysGrant => Ok(()),
            MockBehaviour::AlwaysReject(e) => Err(e.clone()),
            MockBehaviour::Scripted(steps) => if steps.len() == 0 {
                Ok(())
            } else if steps.len() == 1 {
                match &steps[0] {
                    Ok(_) => Ok(()),
                    Err(e) => Err(e.clone()),
                }
            } else {
                let ghost all = steps@;
                let step = steps.remove(0);
                assert(step_models(steps@) =~= step_models(all).skip(1));
                step
            },
        };
        self.behaviour = behaviour;
        let result = match outcome {
            Ok(_) => {
                let id = self.next_id();
                let info = req.need.quantities();
                Ok(
                    Grant {
                        id,
                        job_id: req.job_id,
                        provider_id: self.id.clone(),
                        env: self.env.copy(),
                        info,
                    },
                )
            },
            Err(e) => Err(e),
        };
        proof {
            self.calls@ = self.calls@.push(recorded(*req, result));
        }
        result
    }

    fn release(&mut self, grant_id: &ReservationId)
        ensures
            final(self).spec_state() == (MockModel {
                release_calls: next_count(old(self).spec_state().release_calls),
                ..old(self).spec_state()
            }),
    {
        self.release_calls = self.release_calls.wrapping_add(1);
        proof {
            self.calls@ = self.calls@.push(ProviderCall::Release(grant_id@));
        }
    }
}

/// An always-granting provider.
pub fn mock_provider(id: &str, keys: &[&str]) -> (r: MockProvider)
    ensures
        r.wf(),
        r.spec_id() == id@,
        r.spec_keys() == keys@.map_values(|k: &str| k@),
        r.calls() == Seq::<ProviderCall>::empty(),
        r.spec_state() == fresh_mock(BehaviourModel::AlwaysGrant),
{
    MockProvider::new(id, keys)
}

} // verus!
