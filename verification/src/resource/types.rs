//! Quantities, needs, reservations and snapshots of resources.

use vstd::prelude::*;

use crate::text;
use crate::text::Text;
use crate::textmap::{ascending, TextMap};

verus! {

/// An amount of a resource.
#[derive(Debug, Clone, Copy, PartialEq, Eq, Structural)]
pub enum ResourceQuantity {
    Count(u64),
    Bytes(u64),
}

/// `n` bytes in the largest binary unit that divides it.
pub open spec fn bytes_text(n: u64) -> Text {
    if n == 0 {
        "0B"@
    } else if n % 1_073_741_824 == 0 {
        text::decimal((n / 1_073_741_824) as nat) + "GiB"@
    } else if n % 1_048_576 == 0 {
        text::decimal((n / 1_048_576) as nat) + "MiB"@
    } else if n % 1024 == 0 {
        text::decimal((n / 1024) as nat) + "KiB"@
    } else {
        text::decimal(n as nat) + "B"@
    }
}

/// A quantity as it is shown.
pub open spec fn quantity_text(q: ResourceQuantity) -> Text {
    match q {
        ResourceQuantity::Count(n) => text::decimal(n as nat),
        ResourceQuantity::Bytes(n) => bytes_text(n),
    }
}

impl ResourceQuantity {
    /// The quantity as it is shown.
    pub fn text(self) -> (r: String)
        ensures
            r@ == quantity_text(self),
    {
        match self {
            ResourceQuantity::Count(n) => text::decimal_u64(n),
            ResourceQuantity::Bytes(n) => {
                if n == 0 {
                    "0B".to_owned()
                } else if n % 1_073_741_824 == 0 {
                    text::concat2(text::decimal_u64(n / 1_073_741_824).as_str(), "GiB")
                } else if n % 1_048_576 == 0 {
                    text::concat2(text::decimal_u64(n / 1_048_576).as_str(), "MiB")
                } else if n % 1024 == 0 {
                    text::concat2(text::decimal_u64(n / 1024).as_str(), "KiB")
                } else {
                    text::concat2(text::decimal_u64(n).as_str(), "B")
                }
            },
        }
    }
}

/// A job, by its number.
#[derive(Debug, Clone, Copy, PartialEq, Eq, Structural)]
pub struct JobId(pub u32);

/// A job ID as it is shown.
pub open spec fn job_text(job: JobId) -> Text {
    "J"@ + text::decimal(job.0 as nat)
}

impl JobId {
    /// The ID as it is shown.
    pub fn text(self) -> (r: String)
        ensures
            r@ == job_text(self),
    {
        text::concat2("J", text::decimal_u64(self.0 as u64).as_str())
    }
}

/// Names a provider.
#[derive(Debug, PartialEq, Eq)]
pub struct ProviderId(pub String);

impl View for ProviderId {
    type V = Text;

    open spec fn view(&self) -> Text {
        self.0@
    }
}

impl ProviderId {
    pub fn new(id: &str) -> (r: ProviderId)
        ensures
            r@ == id@,
    {
        ProviderId(id.to_owned())
    }

    pub fn as_str(&self) -> (r: &str)
        ensures
            r@ == self@,
    {
        self.0.as_str()
    }
}

impl Clone for ProviderId {
    fn clone(&self) -> (r: ProviderId)
        ensures
            r@ == self@,
    {
        ProviderId(self.0.clone())
    }
}

/// Names a reservation.
#[derive(Debug, PartialEq, Eq)]
pub struct ReservationId(pub String);

impl View for ReservationId {
    type V = Text;

    open spec fn view(&self) -> Text {
        self.0@
    }
}

impl ReservationId {
    pub fn new(id: &str) -> (r: ReservationId)
        ensures
            r@ == id@,
    {
        ReservationId(id.to_owned())
    }

    pub fn as_str(&self) -> (r: &str)
        ensures
            r@ == self@,
    {
        self.0.as_str()
    }
}

impl Clone for ReservationId {
    fn clone(&self) -> (r: ReservationId)
        ensures
            r@ == self@,
    {
        ReservationId(self.0.clone())
    }
}

/// What a job needs: a quantity for each resource key.
#[derive(Debug, PartialEq)]
pub struct Need {
    map: TextMap<ResourceQuantity>,
}

/// Keys and quantities in ascending order of the keys.
pub open spec fn entries_of(keys: Seq<Text>, m: Map<Text, ResourceQuantity>) -> Seq<
    (Text, ResourceQuantity),
> {
    Seq::new(keys.len(), |i: int| (keys[i], m[keys[i]]))
}

impl View for Need {
    type V = Map<Text, ResourceQuantity>;

    closed spec fn view(&self) -> Map<Text, ResourceQuantity> {
        self.map@
    }
}

impl Need {
    pub closed spec fn wf(self) -> bool {
        self.map.wf()
    }

    /// The keys, in ascending order.
    pub closed spec fn spec_keys(self) -> Seq<Text> {
        self.map.spec_keys()
    }

    /// Keys and quantities in ascending order of the keys.
    pub open spec fn entries(self) -> Seq<(Text, ResourceQuantity)> {
        entries_of(self.spec_keys(), self@)
    }

    /// The keys enumerate what is needed.
    pub proof fn lemma_keys(self)
        requires
            self.wf(),
        ensures
            ascending(self.spec_keys()),
            forall|k: Text| self@.dom().contains(k) <==> self.spec_keys().contains(k),
    {
        self.map.lemma_keys();
    }

    pub fn new() -> (r: Need)
        ensures
            r.wf(),
            r@ == Map::<Text, ResourceQuantity>::empty(),
            r.spec_keys() == Seq::<Text>::empty(),
    {
        Need { map: TextMap::new() }
    }

    /// The needs of a list; a later quantity for a key replaces an earlier one.
    pub fn from_pairs(pairs: &[(&str, ResourceQuantity)]) -> (r: Need)
        ensures
            r.wf(),
            r@ == pairs_map(pairs@),
    {
        let mut map: TextMap<ResourceQuantity> = TextMap::new();
        let mut i: usize = 0;
        assert(pairs@.take(0) =~= Seq::<(&str, ResourceQuantity)>::empty());
        while i < pairs.len()
            invariant
                i <= pairs@.len(),
                map.wf(),
                map@ == pairs_map(pairs@.take(i as int)),
            decreases pairs@.len() - i,
        {
            proof {
                assert(pairs@.take(i + 1).drop_last() =~= pairs@.take(i as int));
            }
            map.insert(pairs[i].0.to_owned(), pairs[i].1);
            i = i + 1;
        }
        assert(pairs@.take(i as int) =~= pairs@);
        Need { map }
    }

    pub fn is_empty(&self) -> (r: bool)
        ensures
            r == (self.spec_keys().len() == 0),
    {
        self.map.len() == 0
    }

    pub fn len(&self) -> (r: usize)
        ensures
            r == self.spec_keys().len(),
    {
        self.map.len()
    }

    /// The key at position `i`.
    pub fn key_at(&self, i: usize) -> (r: &String)
        requires
            i < self.spec_keys().len(),
        ensures
            r@ == self.spec_keys()[i as int],
    {
        self.map.key_at(i)
    }

    /// The quantity at position `i`.
    pub fn quantity_at(&self, i: usize) -> (r: ResourceQuantity)
        requires
            self.wf(),
            i < self.spec_keys().len(),
        ensures
            r == self@[self.spec_keys()[i as int]],
    {
        *self.map.value_at(i)
    }

    /// The keys, in ascending order.
    pub fn keys(&self) -> (r: Vec<String>)
        ensures
            text::texts(r@) == self.spec_keys(),
    {
        let mut out: Vec<String> = Vec::new();
        let mut i: usize = 0;
        assert(text::texts(out@) =~= self.spec_keys().take(0));
        while i < self.len()
            invariant
                i <= self.spec_keys().len(),
                text::texts(out@) == self.spec_keys().take(i as int),
            decreases self.spec_keys().len() - i,
        {
            let k = self.key_at(i).clone();
            proof {
                assert(text::texts(out@.push(k)) =~= text::texts(out@).push(k@));
                assert(self.spec_keys().take(i + 1) =~= self.spec_keys().take(i as int).push(k@));
            }
            out.push(k);
            i = i + 1;
        }
        assert(self.spec_keys().take(i as int) =~= self.spec_keys());
        out
    }

    /// The quantity for a key.
    pub fn get(&self, key: &str) -> (r: Option<ResourceQuantity>)
        requires
            self.wf(),
        ensures
            r == if self@.dom().contains(key@) {
                Some(self@[key@])
            } else {
                None
            },
    {
        match self.map.get(key) {
            Some(q) => Some(*q),
            None => None,
        }
    }

    pub fn contains(&self, key: &str) -> (r: bool)
        requires
            self.wf(),
        ensures
            r == self@.dom().contains(key@),
    {
        self.map.contains(key)
    }

    /// The quantities for all keys.
    pub fn quantities(&self) -> (r: TextMap<ResourceQuantity>)
        ensures
            r@ == self@,
            self.wf() ==> r.wf(),
    {
        copy_quantities(&self.map)
    }

    /// Adds a need whose key comes behind all others.
    pub fn push_last(&mut self, key: String, q: ResourceQuantity)
        requires
            old(self).wf(),
            forall|i: int|
                0 <= i < old(self).spec_keys().len() ==> crate::textmap::text_lt(
                    #[trigger] old(self).spec_keys()[i],
                    key@,
                ),
        ensures
            final(self).wf(),
            final(self).spec_keys() == old(self).spec_keys().push(key@),
            final(self).entries() == old(self).entries().push((key@, q)),
    {
        let ghost before = *self;
        self.map.push_last(key, q);
        proof {
            before.map.lemma_keys();
            assert forall|i: int| 0 <= i < before.spec_keys().len() implies before@[before.spec_keys()[i]]
                == self@[before.spec_keys()[i]] by {
                crate::textmap::lemma_lt_irreflexive(key@);
                assert(crate::textmap::text_lt(before.spec_keys()[i], key@));
            }
            assert(self.entries() =~= before.entries().push((key@, q)));
        }
    }

    /// Adds a need.
    pub fn insert(&mut self, key: String, q: ResourceQuantity)
        requires
            old(self).wf(),
        ensures
            final(self).wf(),
            final(self)@ == old(self)@.insert(key@, q),
    {
        self.map.insert(key, q);
    }
}

impl Clone for Need {
    fn clone(&self) -> (r: Need)
        ensures
            r@ == self@,
            r.spec_keys() == self.spec_keys(),
            self.wf() ==> r.wf(),
    {
        Need { map: copy_quantities(&self.map) }
    }
}

/// The mapping that a list of pairs makes up.
pub open spec fn pairs_map(pairs: Seq<(&str, ResourceQuantity)>) -> Map<Text, ResourceQuantity>
    decreases pairs.len(),
{
    if pairs.len() == 0 {
        Map::empty()
    } else {
        pairs_map(pairs.drop_last()).insert(pairs.last().0@, pairs.last().1)
    }
}

/// A copy of a map of quantities.
pub fn copy_quantities(m: &TextMap<ResourceQuantity>) -> (r: TextMap<ResourceQuantity>)
    ensures
        r@ == m@,
        r.spec_keys() == m.spec_keys(),
        m.wf() ==> r.wf(),
{
    m.copy_values()
}

/// Why a reservation was refused.
#[derive(Debug, PartialEq)]
pub struct Reject {
    pub reason: String,
    /// The need that could not be met.
    pub demand: Option<(String, ResourceQuantity)>,
    /// What could have been had instead.
    pub available: Option<ResourceQuantity>,
}

/// A refusal over character sequences.
pub struct RejectModel {
    pub reason: Text,
    pub demand: Option<(Text, ResourceQuantity)>,
    pub available: Option<ResourceQuantity>,
}

impl View for Reject {
    type V = RejectModel;

    open spec fn view(&self) -> RejectModel {
        RejectModel {
            reason: self.reason@,
            demand: match self.demand {
                Some((k, q)) => Some((k@, q)),
                None => None,
            },
            available: self.available,
        }
    }
}

/// A refusal with a reason only.
pub open spec fn bare_reject(reason: Text) -> RejectModel {
    RejectModel { reason, demand: None, available: None }
}

impl Reject {
    pub fn new(reason: String) -> (r: Reject)
        ensures
            r@ == bare_reject(reason@),
    {
        Reject { reason, demand: None, available: None }
    }

    pub fn with_demand(self, key: String, q: ResourceQuantity) -> (r: Reject)
        ensures
            r@ == (RejectModel { demand: Some((key@, q)), ..self@ }),
    {
        Reject { reason: self.reason, demand: Some((key, q)), available: self.available }
    }

    pub fn with_available(self, q: ResourceQuantity) -> (r: Reject)
        ensures
            r@ == (RejectModel { available: Some(q), ..self@ }),
    {
        Reject { reason: self.reason, demand: self.demand, available: Some(q) }
    }
}

impl Clone for Reject {
    fn clone(&self) -> (r: Reject)
        ensures
            r@ == self@,
    {
        Reject {
            reason: self.reason.clone(),
            demand: match &self.demand {
                Some((k, q)) => Some((k.clone(), *q)),
                None => None,
            },
            available: self.available,
        }
    }
}

/// A granted reservation: what a job got from a provider, and the environment
/// that its processes get for it.
#[derive(Debug, PartialEq)]
pub struct Grant {
    pub id: ReservationId,
    pub job_id: JobId,
    pub provider_id: ProviderId,
    pub env: TextMap<String>,
    pub info: TextMap<ResourceQuantity>,
}

impl Grant {
    /// A grant that holds nothing.
    pub fn empty(id: ReservationId, job_id: JobId, provider_id: ProviderId) -> (r: Grant)
        ensures
            r@ == (GrantModel {
                id: id@,
                job_id,
                provider_id: provider_id@,
                env: Map::empty(),
                info: Map::empty(),
            }),
    {
        let r = Grant { id, job_id, provider_id, env: TextMap::new(), info: TextMap::new() };
        assert(r.env.text_map() =~= Map::<Text, Text>::empty());
        r
    }
}

/// A grant over character sequences.
pub struct GrantModel {
    pub id: Text,
    pub job_id: JobId,
    pub provider_id: Text,
    pub env: Map<Text, Text>,
    pub info: Map<Text, ResourceQuantity>,
}

impl View for Grant {
    type V = GrantModel;

    open spec fn view(&self) -> GrantModel {
        GrantModel {
            id: self.id@,
            job_id: self.job_id,
            provider_id: self.provider_id@,
            env: self.env.text_map(),
            info: self.info@,
        }
    }
}

impl Clone for Grant {
    fn clone(&self) -> (r: Grant)
        ensures
            r@ == self@,
    {
        Grant {
            id: self.id.clone(),
            job_id: self.job_id,
            provider_id: self.provider_id.clone(),
            env: self.env.copy(),
            info: copy_quantities(&self.info),
        }
    }
}

/// One unit of a resource, such as a device, and what is known of it.
#[derive(Debug, PartialEq)]
pub struct ResourceUnit {
    pub id: String,
    pub attrs: TextMap<ResourceQuantity>,
}

/// A unit over character sequences.
pub struct UnitModel {
    pub id: Text,
    pub attrs: Map<Text, ResourceQuantity>,
}

impl View for ResourceUnit {
    type V = UnitModel;

    open spec fn view(&self) -> UnitModel {
        UnitModel { id: self.id@, attrs: self.attrs@ }
    }
}

impl ResourceUnit {
    pub fn new(id: String) -> (r: ResourceUnit)
        ensures
            r.attrs.wf(),
            r@ == (UnitModel { id: id@, attrs: Map::empty() }),
    {
        ResourceUnit { id, attrs: TextMap::new() }
    }

    pub fn with_attr(self, key: &str, q: ResourceQuantity) -> (r: ResourceUnit)
        requires
            self.attrs.wf(),
        ensures
            r.attrs.wf(),
            r@ == (UnitModel { id: self@.id, attrs: self@.attrs.insert(key@, q) }),
    {
        let mut attrs = self.attrs;
        attrs.insert(key.to_owned(), q);
        ResourceUnit { id: self.id, attrs }
    }
}

impl Clone for ResourceUnit {
    fn clone(&self) -> (r: ResourceUnit)
        ensures
            r@ == self@,
    {
        ResourceUnit { id: self.id.clone(), attrs: copy_quantities(&self.attrs) }
    }
}

/// The units of a sequence over character sequences.
pub open spec fn unit_models(v: Seq<ResourceUnit>) -> Seq<UnitModel> {
    v.map_values(|u: ResourceUnit| u@)
}

/// What a provider has at one moment.
#[derive(Debug, PartialEq)]
pub struct Snapshot {
    pub provider_id: ProviderId,
    pub units: Vec<ResourceUnit>,
}

} // verus!
