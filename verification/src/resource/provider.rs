//! Provider abstraction.
//!
//! A `Provider` is the plug-in point for one class of resources. Providers are
//! opaque to the rest of the daemon: nothing reasons about specific resource
//! keys, needs are routed to whichever provider claims each key.

use vstd::prelude::*;

use super::types::{
    unit_models, Grant, GrantModel, JobId, Need, ProviderId, Reject, RejectModel, ReservationId,
    ResourceQuantity, Snapshot, UnitModel,
};
use crate::text;
use crate::text::Text;

verus! {

/// A single reservation request routed to one provider. `need` only contains
/// keys that this provider owns.
#[derive(Debug, PartialEq)]
pub struct ReserveRequest {
    pub job_id: JobId,
    pub need: Need,
}

impl ReserveRequest {
    pub fn new(job_id: JobId, need: Need) -> (r: ReserveRequest)
        ensures
            r.job_id == job_id,
            r.need == need,
    {
        ReserveRequest { job_id, need }
    }
}

impl Clone for ReserveRequest {
    fn clone(&self) -> (r: ReserveRequest)
        ensures
            r.job_id == self.job_id,
            r.need@ == self.need@,
            r.need.spec_keys() == self.need.spec_keys(),
            self.need.wf() ==> r.need.wf(),
    {
        ReserveRequest { job_id: self.job_id, need: self.need.clone() }
    }
}

/// Rejection annotated with the provider that produced it.
#[derive(Debug, PartialEq)]
pub struct RejectGroup {
    pub provider_id: ProviderId,
    pub reject: Reject,
}

/// A rejection over character sequences.
pub struct RejectGroupModel {
    pub provider_id: Text,
    pub reject: RejectModel,
}

impl View for RejectGroup {
    type V = RejectGroupModel;

    open spec fn view(&self) -> RejectGroupModel {
        RejectGroupModel { provider_id: self.provider_id@, reject: self.reject@ }
    }
}

impl RejectGroup {
    /// The rejection as one line.
    pub fn text(&self) -> (r: String)
        ensures
            r@ == self@.provider_id + ": "@ + self@.reject.reason,
    {
        text::concat3(self.provider_id.as_str(), ": ", self.reject.reason.as_str())
    }
}

/// One call of a provider, as it went.
pub enum ProviderCall {
    /// A look at the capacity, and the units that it found.
    Probe(Seq<UnitModel>),
    /// A request and its answer.
    Reserve {
        job_id: JobId,
        need: Seq<(Text, ResourceQuantity)>,
        answer: Result<GrantModel, RejectModel>,
    },
    Release(Text),
}

/// The reservations that a provider holds after the calls.
pub open spec fn held_after(calls: Seq<ProviderCall>) -> Set<Text>
    decreases calls.len(),
{
    if calls.len() == 0 {
        Set::empty()
    } else {
        let before = held_after(calls.drop_last());
        match calls.last() {
            ProviderCall::Probe(_) => before,
            ProviderCall::Reserve { answer: Ok(grant), .. } => before.insert(grant.id),
            ProviderCall::Reserve { answer: Err(_), .. } => before,
            ProviderCall::Release(id) => before.remove(id),
        }
    }
}

/// An answer over character sequences.
pub open spec fn grant_result(r: Result<Grant, Reject>) -> Result<GrantModel, RejectModel> {
    match r {
        Ok(g) => Ok(g@),
        Err(e) => Err(e@),
    }
}

/// What a provider answered, as it is recorded.
pub open spec fn recorded(req: ReserveRequest, r: Result<Grant, Reject>) -> ProviderCall {
    ProviderCall::Reserve {
        job_id: req.job_id,
        need: req.need.entries(),
        answer: grant_result(r),
    }
}

/// The plug-in interface implemented by every resource backend.
///
/// Each provider keeps, as ghost state, the calls that probed, reserved and
/// released, with their answers; its ID and its keys stay what they are.
pub trait Provider: Sized {
    spec fn wf(&self) -> bool;

    spec fn spec_id(&self) -> Text;

    spec fn spec_keys(&self) -> Seq<Text>;

    /// All calls so far that probed, reserved or released.
    spec fn calls(&self) -> Seq<ProviderCall>;

    /// Stable provider identifier.
    fn id(&self) -> (r: ProviderId)
        requires
            self.wf(),
        ensures
            r@ == self.spec_id(),
    ;

    /// Keys this provider owns.
    fn keys(&self) -> (r: Vec<String>)
        requires
            self.wf(),
        ensures
            text::texts(r@) == self.spec_keys(),
    ;

    /// Fresh capacity snapshot.
    fn probe(&mut self) -> (r: Snapshot)
        requires
            old(self).wf(),
        ensures
            final(self).wf(),
            final(self).spec_id() == old(self).spec_id(),
            final(self).spec_keys() == old(self).spec_keys(),
            final(self).calls() == old(self).calls().push(
                ProviderCall::Probe(unit_models(r.units@)),
            ),
            r.provider_id@ == old(self).spec_id(),
    ;

    /// Acquire the resources described by `req.need`.
    fn reserve(&mut self, req: &ReserveRequest) -> (r: Result<Grant, Reject>)
        requires
            old(self).wf(),
            req.need.wf(),
        ensures
            final(self).wf(),
            final(self).spec_id() == old(self).spec_id(),
            final(self).spec_keys() == old(self).spec_keys(),
            final(self).calls() == old(self).calls().push(recorded(*req, r)),
    ;

    /// Release a previously granted reservation. Calling on an unknown ID is
    /// a no-op.
    fn release(&mut self, grant_id: &ReservationId)
        requires
            old(self).wf(),
        ensures
            final(self).wf(),
            final(self).spec_id() == old(self).spec_id(),
            final(self).spec_keys() == old(self).spec_keys(),
            final(self).calls() == old(self).calls().push(ProviderCall::Release(grant_id@)),
    ;
}

} // verus!
