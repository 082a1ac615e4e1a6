//! Providers of every kind behind one type, so that one registry can hold them.

use vstd::prelude::*;

use super::cli::{CliProvider, CliRunner};
use super::mock::MockProvider;
use super::nvidia::{NvidiaBackend, NvidiaGpuProvider};
use super::provider::{Provider, ProviderCall, ReserveRequest};
use super::types::{Grant, ProviderId, Reject, ReservationId, Snapshot};
use crate::text::Text;

verus! {

/// A provider of one of the kinds there are. Each call goes to the provider
/// inside.
pub enum AnyProvider<B: NvidiaBackend, R: CliRunner> {
    Nvidia(NvidiaGpuProvider<B>),
    Cli(CliProvider<R>),
    Mock(MockProvider),
}

impl<B: NvidiaBackend, R: CliRunner> AnyProvider<B, R> {
    /// Both are of the same kind.
    pub open spec fn same_kind(self, o: AnyProvider<B, R>) -> bool {
        match self {
            AnyProvider::Nvidia(_) => o is Nvidia,
            AnyProvider::Cli(_) => o is Cli,
            AnyProvider::Mock(_) => o is Mock,
        }
    }
}

impl<B: NvidiaBackend, R: CliRunner> Provider for AnyProvider<B, R> {
    open spec fn wf(&self) -> bool {
        match self {
            AnyProvider::Nvidia(p) => p.wf(),
            AnyProvider::Cli(p) => p.wf(),
            AnyProvider::Mock(p) => p.wf(),
        }
    }

    open spec fn spec_id(&self) -> Text {
        match self {
            AnyProvider::Nvidia(p) => p.spec_id(),
            AnyProvider::Cli(p) => p.spec_id(),
            AnyProvider::Mock(p) => p.spec_id(),
        }
    }

    open spec fn spec_keys(&self) -> Seq<Text> {
        match self {
            AnyProvider::Nvidia(p) => p.spec_keys(),
            AnyProvider::Cli(p) => p.spec_keys(),
            AnyProvider::Mock(p) => p.spec_keys(),
        }
    }

    open spec fn calls(&self) -> Seq<ProviderCall> {
        match self {
            AnyProvider::Nvidia(p) => p.calls(),
            AnyProvider::Cli(p) => p.calls(),
            AnyProvider::Mock(p) => p.calls(),
        }
    }

    fn id(&self) -> (r: ProviderId) {
        match self {
            AnyProvider::Nvidia(p) => p.id(),
            AnyProvider::Cli(p) => p.id(),
            AnyProvider::Mock(p) => p.id(),
        }
    }

    fn keys(&self) -> (r: Vec<String>) {
        match self {
            AnyProvider::Nvidia(p) => p.keys(),
            AnyProvider::Cli(p) => p.keys(),
            AnyProvider::Mock(p) => p.keys(),
        }
    }

    fn probe(&mut self) -> (r: Snapshot)
        ensures
            final(self).same_kind(*old(self)),
    {
        match self {
            AnyProvider::Nvidia(p) => p.probe(),
            AnyProvider::Cli(p) => p.probe(),
            AnyProvider::Mock(p) => p.probe(),
        }
    }

    fn reserve(&mut self, req: &ReserveRequest) -> (r: Result<Grant, Reject>)
        ensures
            final(self).same_kind(*old(self)),
    {
        match self {
            AnyProvider::Nvidia(p) => p.reserve(req),
            AnyProvider::Cli(p) => p.reserve(req),
            AnyProvider::Mock(p) => p.reserve(req),
        }
    }

    fn release(&mut self, grant_id: &ReservationId)
        ensures
            final(self).same_kind(*old(self)),
    {
        match self {
            AnyProvider::Nvidia(p) => p.release(grant_id),
            AnyProvider::Cli(p) => p.release(grant_id),
            AnyProvider::Mock(p) => p.release(grant_id),
        }
    }
}

} // verus!
