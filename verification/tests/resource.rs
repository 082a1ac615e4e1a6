use cue_shell::resource::any::AnyProvider;
use cue_shell::resource::cli::{
    exit_error, format_output_suffix, timeout_error, wait_step, CliCommand, CliProvider,
    CliResourceProviderConfig, CliRunner, ReserveResponse, WaitStep,
};
use cue_shell::resource::mock::{mock_provider, MockBehaviour, MockProvider};
use cue_shell::resource::nvidia::{
    GpuSample, NvidiaBackend, NvidiaGpuProvider, NvidiaResourceConfig, StaticBackend,
};
use cue_shell::resource::provider::{Provider, RejectGroup, ReserveRequest};
use cue_shell::resource::registry::ProviderRegistry;
use cue_shell::resource::types::{
    JobId, Need, ProviderId, Reject, ReservationId, ResourceQuantity, ResourceUnit,
};
use cue_shell::textmap::TextMap;

// ── Values ──

#[test]
fn reserve_request_is_constructible() {
    let need = Need::from_pairs(&[("gpu", ResourceQuantity::Count(1))]);
    let req = ReserveRequest::new(JobId(1), need.clone());
    assert_eq!(req.job_id, JobId(1));
    assert_eq!(req.need, need);
}

#[test]
fn reject_group_display_includes_provider() {
    let rg = RejectGroup {
        provider_id: ProviderId::new("gpu"),
        reject: Reject::new("not enough memory".to_string()),
    };
    assert_eq!(rg.text(), "gpu: not enough memory");
}

#[test]
fn quantities_are_written_with_their_unit() {
    assert_eq!(ResourceQuantity::Count(3).text(), "3");
    assert_eq!(ResourceQuantity::Bytes(24 * 1024 * 1024 * 1024).text(), "24GiB");
}

#[test]
fn needs_are_held_in_key_order() {
    let need = Need::from_pairs(&[
        ("tpu", ResourceQuantity::Count(2)),
        ("gpu", ResourceQuantity::Count(1)),
        ("tpu", ResourceQuantity::Count(5)),
    ]);
    assert_eq!(need.keys(), vec!["gpu", "tpu"]);
    assert_eq!(need.get("tpu"), Some(ResourceQuantity::Count(5)));
    assert!(!need.contains("cpu"));
}

// ── Command-line providers ──

struct LicenseServer {
    grant_id: Option<String>,
    released: Vec<String>,
}

impl CliRunner for LicenseServer {
    fn probe(&mut self, command: &CliCommand) -> Result<Vec<ResourceUnit>, String> {
        assert_eq!(command.display(), "licenses probe");
        Ok(vec![ResourceUnit::new("pool".to_string())
            .with_attr("free", ResourceQuantity::Count(3))])
    }

    fn reserve(
        &mut self,
        command: &CliCommand,
        job_id: &str,
        needs: &Need,
    ) -> Result<ReserveResponse, String> {
        assert_eq!(command.display(), "licenses reserve");
        assert!(job_id.starts_with('J'));
        let mut env = TextMap::new();
        env.insert("LICENSE_TOKEN".to_string(), "abc".to_string());
        Ok(ReserveResponse {
            ok: true,
            grant_id: self.grant_id.clone(),
            reason: None,
            env,
            info: needs.quantities(),
        })
    }

    fn release(&mut self, command: &CliCommand, grant_id: &str) {
        assert_eq!(command.display(), "licenses release");
        self.released.push(grant_id.to_string());
    }
}

fn argv(action: &str) -> Vec<String> {
    vec!["licenses".to_string(), action.to_string()]
}

fn licenses(grant_id: Option<&str>) -> CliProvider<LicenseServer> {
    let config = CliResourceProviderConfig {
        keys: vec!["license".to_string()],
        probe: argv("probe"),
        reserve: argv("reserve"),
        release: argv("release"),
        timeout_ms: 1_000,
    };
    let server = LicenseServer { grant_id: grant_id.map(str::to_string), released: Vec::new() };
    CliProvider::from_config("licenses", &config, server)
}

#[test]
fn probe_parses_units() {
    let mut provider = licenses(Some("g1"));

    let snapshot = provider.probe();
    assert_eq!(snapshot.provider_id, ProviderId::new("licenses"));
    assert_eq!(snapshot.units.len(), 1);
    assert_eq!(snapshot.units[0].id, "pool");
    assert_eq!(snapshot.units[0].attrs.get("free"), Some(&ResourceQuantity::Count(3)));
}

#[test]
fn reserve_round_trips_need_and_builds_grant() {
    let mut provider = licenses(Some("g1"));

    let need = Need::from_pairs(&[("license", ResourceQuantity::Count(1))]);
    let grant = provider.reserve(&ReserveRequest::new(JobId(7), need)).expect("grant");
    assert_eq!(grant.id, ReservationId::new("g1"));
    assert_eq!(grant.env.get("LICENSE_TOKEN").map(String::as_str), Some("abc"));
    assert_eq!(grant.info.get("license"), Some(&ResourceQuantity::Count(1)));
}

#[test]
fn reserve_rejects_ok_without_grant_id() {
    let mut provider = licenses(None);

    let err = provider
        .reserve(&ReserveRequest::new(
            JobId(1),
            Need::from_pairs(&[("license", ResourceQuantity::Count(1))]),
        ))
        .expect_err("missing grant_id should reject");
    assert!(err.reason.contains("without grant_id"));
}

#[test]
fn refusals_and_failures_of_a_command_are_rejections() {
    let provider = licenses(Some("g1"));
    let refused = ReserveResponse {
        ok: false,
        grant_id: None,
        reason: Some("all seats taken".to_string()),
        env: TextMap::new(),
        info: TextMap::new(),
    };
    let reject = provider.reserve_outcome(JobId(1), Ok(refused)).expect_err("refused");
    assert_eq!(reject.reason, "all seats taken");
    let reject = provider.reserve_outcome(JobId(1), Err("exit 2".to_string())).expect_err("failed");
    assert!(reject.reason.contains("exit 2"), "{}", reject.reason);
    assert!(provider.probe_outcome(Err("exit 2".to_string())).units.is_empty());
    assert_eq!(provider.timeout_ms(), 1_000);
}

#[test]
fn requests_become_questions_for_the_commands() {
    let provider = licenses(Some("g1"));
    let need = Need::from_pairs(&[("license", ResourceQuantity::Count(2))]);
    let call = provider.reserve_call(&ReserveRequest::new(JobId(12), need.clone()));
    assert_eq!(call.command.display(), "licenses reserve");
    assert_eq!(call.job_id, "J12");
    assert_eq!(call.needs, need);
    let call = provider.release_call(&ReservationId::new("g1"));
    assert_eq!(call.command.display(), "licenses release");
    assert_eq!(call.grant_id, "g1");
    assert_eq!(provider.probe_command().display(), "licenses probe");
}

#[test]
fn commands_are_awaited_until_their_timeout() {
    assert_eq!(wait_step(true, 5_000, 1_000), WaitStep::Collect);
    assert_eq!(wait_step(false, 1_000, 1_000), WaitStep::Kill);
    assert!(matches!(wait_step(false, 10, 1_000), WaitStep::Sleep(_)));
    let command = CliCommand::new(argv("probe"));
    assert!(timeout_error(&command, 1_000).contains("licenses probe"));
    let error = exit_error(&command, "exit status: 2", b"no seats\n", b"");
    assert!(error.contains("exit status: 2"), "{error}");
    assert!(error.contains("no seats"), "{error}");
    assert_eq!(format_output_suffix("stderr", b""), "");
    assert!(format_output_suffix("stderr", b"bad \xff byte").contains("bad \u{fffd} byte"));
    assert!(CliCommand::new(Vec::new()).split_program().is_err());
    assert_eq!(
        command.split_program().unwrap(),
        ("licenses".to_string(), vec!["probe".to_string()])
    );
}

// ── NVIDIA devices ──

fn bytes(gib: u64) -> u64 {
    gib * 1024 * 1024 * 1024
}

fn gpus(
    samples: Vec<(u32, u64, u64)>,
    safety_margin_bytes: u64,
) -> NvidiaGpuProvider<StaticBackend> {
    let config = NvidiaResourceConfig {
        provider_id: "nvidia".into(),
        gpu_key: "gpu".into(),
        gpu_mem_key: "gpu_mem".into(),
        safety_margin_bytes,
        probe_ttl_ms: 1_000,
    };
    let samples = samples
        .into_iter()
        .map(|(index, total_mem, free_mem)| GpuSample { index, total_mem, free_mem })
        .collect();
    NvidiaGpuProvider::from_backend(&config, StaticBackend { samples })
}

#[test]
fn reserve_prefers_highest_index_and_injects_cuda_env() {
    let mut provider = gpus(
        vec![(0, bytes(80), bytes(80)), (1, bytes(80), bytes(80)), (2, bytes(80), bytes(80))],
        0,
    );
    let need = Need::from_pairs(&[
        ("gpu", ResourceQuantity::Count(2)),
        ("gpu_mem", ResourceQuantity::Bytes(bytes(24))),
    ]);

    let grant = provider.reserve(&ReserveRequest::new(JobId(1), need)).expect("grant");
    assert_eq!(grant.env.get("CUDA_VISIBLE_DEVICES").map(String::as_str), Some("2,1"));
    assert_eq!(grant.env.get("CUDA_DEVICE_ORDER").map(String::as_str), Some("PCI_BUS_ID"));
}

#[test]
fn reserve_rejects_when_safety_margin_leaves_insufficient_memory() {
    let mut provider = gpus(vec![(0, bytes(80), bytes(25))], bytes(2));
    let need = Need::from_pairs(&[("gpu_mem", ResourceQuantity::Bytes(bytes(24)))]);

    let reject =
        provider.reserve(&ReserveRequest::new(JobId(1), need)).expect_err("should reject");
    assert!(reject.reason.contains("max effective free 23GiB"), "{}", reject.reason);
}

#[test]
fn release_makes_reserved_memory_available_again() {
    let mut provider = gpus(vec![(0, bytes(80), bytes(80))], 0);
    let need = Need::from_pairs(&[("gpu_mem", ResourceQuantity::Bytes(bytes(50)))]);

    let first =
        provider.reserve(&ReserveRequest::new(JobId(1), need.clone())).expect("first grant");
    assert!(provider.reserve(&ReserveRequest::new(JobId(2), need.clone())).is_err());
    provider.release(&first.id);
    assert!(provider.reserve(&ReserveRequest::new(JobId(3), need)).is_ok());
}

/// Reports one device whose index is the number of probes before; the clock
/// reads the given times in turn. The third probe fails.
struct CountingBackend {
    probes: u32,
    times: Vec<u64>,
}

impl NvidiaBackend for CountingBackend {
    fn probe(&mut self) -> Result<Vec<GpuSample>, String> {
        self.probes += 1;
        if self.probes == 3 {
            return Err("no driver".into());
        }
        Ok(vec![GpuSample { index: self.probes - 1, total_mem: bytes(80), free_mem: bytes(80) }])
    }

    fn now_millis(&mut self) -> u64 {
        self.times.remove(0)
    }
}

fn counting(times: Vec<u64>) -> NvidiaGpuProvider<CountingBackend> {
    let config = NvidiaResourceConfig {
        provider_id: "nvidia".into(),
        gpu_key: "gpu".into(),
        gpu_mem_key: "gpu_mem".into(),
        safety_margin_bytes: 0,
        probe_ttl_ms: 1_000,
    };
    NvidiaGpuProvider::from_backend(&config, CountingBackend { probes: 0, times })
}

fn shown(provider: &mut NvidiaGpuProvider<CountingBackend>) -> Vec<String> {
    provider.probe().units.into_iter().map(|unit| unit.id).collect()
}

#[test]
fn devices_are_asked_again_once_the_last_answer_is_too_old() {
    // Asked at 0 and answered at 50; fresh up to 1049; stale at 1050.
    let mut provider = counting(vec![0, 50, 1_049, 1_050, 1_060, 2_059]);
    assert_eq!(shown(&mut provider), vec!["0"]);
    assert_eq!(shown(&mut provider), vec!["0"]);
    assert_eq!(shown(&mut provider), vec!["1"]);
    assert_eq!(shown(&mut provider), vec!["1"]);
}

#[test]
fn a_failed_probe_shows_no_device_and_refuses() {
    let need = Need::from_pairs(&[("gpu", ResourceQuantity::Count(1))]);
    let mut provider = counting(vec![0, 0, 2_000, 2_000, 4_000]);
    assert_eq!(shown(&mut provider), vec!["0"]);
    assert_eq!(shown(&mut provider), vec!["1"]);
    let reject = provider.reserve(&ReserveRequest::new(JobId(1), need)).expect_err("reject");
    assert_eq!(reject.reason, "NVML probe failed: no driver");
    assert_eq!(provider.kept_samples(2_999).map(|s| s[0].index), Some(1));
    assert_eq!(provider.kept_samples(3_000), None);
}

#[test]
fn kept_samples_are_given_back_while_fresh() {
    let sample = GpuSample { index: 4, total_mem: bytes(80), free_mem: bytes(20) };
    let mut provider = counting(vec![]);
    assert_eq!(provider.kept_samples(0), None);
    provider.keep_samples(&vec![sample], 500);
    assert_eq!(provider.kept_samples(400), Some(vec![sample]));
    assert_eq!(provider.kept_samples(1_499), Some(vec![sample]));
    assert_eq!(provider.kept_samples(1_500), None);
}

#[test]
fn count_only_reservation_is_exclusive() {
    let mut provider = gpus(vec![(0, bytes(80), bytes(80))], 0);
    let need = Need::from_pairs(&[("gpu", ResourceQuantity::Count(1))]);

    let first =
        provider.reserve(&ReserveRequest::new(JobId(1), need.clone())).expect("first grant");
    assert!(provider.reserve(&ReserveRequest::new(JobId(2), need.clone())).is_err());
    provider.release(&first.id);
    assert!(provider.reserve(&ReserveRequest::new(JobId(3), need)).is_ok());
}

#[test]
fn no_device_is_promised_more_than_it_has() {
    let mut provider =
        gpus(vec![(0, bytes(80), bytes(80)), (1, bytes(80), bytes(40))], bytes(10));
    let need = Need::from_pairs(&[("gpu_mem", ResourceQuantity::Bytes(bytes(35)))]);
    let mut devices = Vec::new();
    for job in 1..=4 {
        match provider.reserve(&ReserveRequest::new(JobId(job), need.clone())) {
            Ok(grant) => devices.push(grant.env.get("CUDA_VISIBLE_DEVICES").cloned()),
            Err(reject) => assert_eq!(
                reject.reason,
                "waiting GPU: need 1 x 35GiB, max effective free 30GiB"
            ),
        }
    }
    assert_eq!(devices, vec![Some("0".to_string()), Some("0".to_string())]);
    assert_eq!(
        provider.effective_free(&GpuSample {
            index: 0,
            total_mem: bytes(80),
            free_mem: bytes(80)
        }),
        Some(0)
    );
    let snapshot = provider.probe();
    assert_eq!(snapshot.units[0].attrs.get("reserved_mem"), Some(&ResourceQuantity::Bytes(bytes(70))));
}

#[test]
fn a_failed_probe_grants_nothing() {
    let mut provider = gpus(vec![(0, bytes(80), bytes(80))], 0);
    let need = Need::from_pairs(&[("gpu", ResourceQuantity::Count(1))]);
    let reject = provider
        .reserve_inner(&ReserveRequest::new(JobId(1), need), Err("driver gone".to_string()))
        .expect_err("no samples");
    assert!(reject.reason.contains("driver gone"), "{}", reject.reason);
}

// ── Registry ──

fn count(n: u64) -> ResourceQuantity {
    ResourceQuantity::Count(n)
}

#[test]
fn key_collision_aborts_construction() {
    let p1 = MockProvider::new("a", &["gpu"]);
    let p2 = MockProvider::new("b", &["gpu"]);
    let s = ProviderRegistry::from_providers(vec![p1, p2]).err().expect("collision should fail");
    assert!(s.contains("\"gpu\""), "msg should mention key: {s}");
    assert!(
        s.contains("\"a\"") && s.contains("\"b\""),
        "msg should mention both providers: {s}"
    );
}

#[test]
fn duplicate_provider_id_aborts_construction() {
    let p1 = MockProvider::new("gpu", &["gpu"]);
    let p2 = MockProvider::new("gpu", &["tpu"]);
    let err = ProviderRegistry::from_providers(vec![p1, p2]).err().expect("dup id should fail");
    assert!(err.contains("duplicate resource provider id"));
}

#[test]
fn unknown_key_is_rejected_synthetically() {
    let p1 = MockProvider::new("gpu", &["gpu", "gpu_mem"]);
    let mut reg = ProviderRegistry::from_providers(vec![p1]).unwrap();

    let need = Need::from_pairs(&[("tpu_mem", count(1))]);
    let err = reg.try_reserve(JobId(1), &need).unwrap_err();
    assert_eq!(err.provider_id, ProviderId::new("core"));
    assert!(err.reject.reason.contains("unknown resource key"));
    assert!(err.reject.reason.contains("tpu_mem"));
}

#[test]
fn empty_need_succeeds_without_calling_providers() {
    let p1 = MockProvider::new("gpu", &["gpu"]);
    let mut reg = ProviderRegistry::from_providers(vec![p1]).unwrap();

    let grants = reg.try_reserve(JobId(1), &Need::new()).unwrap();
    assert!(grants.is_empty());
    assert_eq!(reg.provider_at(0).reserve_calls(), 0);
}

#[test]
fn routes_subneeds_to_owning_providers() {
    let gpu = MockProvider::new("gpu", &["gpu", "gpu_mem"]);
    let tpu = MockProvider::new("tpu", &["tpu"]);
    let mut reg = ProviderRegistry::from_providers(vec![gpu, tpu]).unwrap();

    let need = Need::from_pairs(&[
        ("gpu", count(1)),
        ("gpu_mem", ResourceQuantity::Bytes(24 * 1024 * 1024 * 1024)),
        ("tpu", count(2)),
    ]);
    let grants = reg.try_reserve(JobId(1), &need).unwrap();
    assert_eq!(grants.len(), 2);

    // Each provider got only its own keys.
    let gpu_calls = reg.provider_at(0).last_request().expect("gpu reserve call");
    assert_eq!(gpu_calls.need.keys(), vec!["gpu", "gpu_mem"]);
    let tpu_calls = reg.provider_at(1).last_request().expect("tpu reserve call");
    assert_eq!(tpu_calls.need.keys(), vec!["tpu"]);
}

#[test]
fn rejection_rolls_back_prior_grants() {
    let gpu = MockProvider::new("gpu", &["gpu"]);
    let tpu = MockProvider::with_behaviour(
        "tpu",
        &["tpu"],
        MockBehaviour::AlwaysReject(Reject::new("tpu unavailable".to_string())),
    );
    let mut reg = ProviderRegistry::from_providers(vec![gpu, tpu]).unwrap();

    let need = Need::from_pairs(&[("gpu", count(1)), ("tpu", count(1))]);
    let err = reg.try_reserve(JobId(1), &need).unwrap_err();
    assert_eq!(err.provider_id, ProviderId::new("tpu"));
    assert_eq!(err.reject.reason, "tpu unavailable");

    // gpu provider must have observed exactly one reserve and one
    // release (the rollback).
    assert_eq!(reg.provider_at(0).reserve_calls(), 1);
    assert_eq!(reg.provider_at(0).release_calls(), 1);
    assert_eq!(reg.active_reservation_count(), 0);
}

#[test]
fn release_clears_per_job_bookkeeping() {
    let gpu = MockProvider::new("gpu", &["gpu"]);
    let tpu = MockProvider::new("tpu", &["tpu"]);
    let mut reg = ProviderRegistry::from_providers(vec![gpu, tpu]).unwrap();

    let need = Need::from_pairs(&[("gpu", count(1)), ("tpu", count(1))]);
    let grants = reg.try_reserve(JobId(7), &need).unwrap();
    assert_eq!(grants.len(), 2);
    assert_eq!(reg.active_reservation_count(), 2);

    let n = reg.release(JobId(7));
    assert_eq!(n, 2);
    assert_eq!(reg.provider_at(0).release_calls(), 1);
    assert_eq!(reg.provider_at(1).release_calls(), 1);
    assert_eq!(reg.active_reservation_count(), 0);

    // Idempotent: releasing again is a no-op.
    assert_eq!(reg.release(JobId(7)), 0);
    assert_eq!(reg.provider_at(0).release_calls(), 1);
}

#[test]
fn snapshot_returns_one_entry_per_provider() {
    let gpu = MockProvider::new("gpu", &["gpu"]);
    let tpu = MockProvider::new("tpu", &["tpu"]);
    let mut reg = ProviderRegistry::from_providers(vec![gpu, tpu]).unwrap();

    let snaps = reg.snapshot();
    assert_eq!(snaps.len(), 2);
    // Sorted by provider id (gpu < tpu lexicographically).
    assert_eq!(snaps[0].0, ProviderId::new("gpu"));
    assert_eq!(snaps[1].0, ProviderId::new("tpu"));
}

#[test]
fn release_unknown_id_is_silent() {
    let mut gpu = MockProvider::new("gpu", &["gpu"]);

    // Provider never saw this id, but release shouldn't panic.
    gpu.release(&ReservationId::new("nonexistent"));
    assert_eq!(gpu.release_calls(), 1);

    let mut reg = ProviderRegistry::from_providers(vec![gpu]).unwrap();
    assert_eq!(reg.release(JobId(99)), 0);
}

#[test]
fn keys_are_routed_to_the_provider_that_claims_them() {
    let tpu = MockProvider::new("tpu", &["tpu"]);
    let gpu = MockProvider::new("gpu", &["gpu_mem", "gpu"]);
    let reg = ProviderRegistry::from_providers(vec![tpu, gpu]).unwrap();

    assert_eq!(reg.len(), 2);
    assert_eq!(reg.provider_ids(), vec![ProviderId::new("gpu"), ProviderId::new("tpu")]);
    assert_eq!(reg.provider_for_key("gpu_mem"), Some(ProviderId::new("gpu")));
    assert_eq!(reg.provider_for_key("cpu"), None);
    assert_eq!(
        reg.key_routes(),
        vec![
            ("gpu".to_string(), ProviderId::new("gpu")),
            ("gpu_mem".to_string(), ProviderId::new("gpu")),
            ("tpu".to_string(), ProviderId::new("tpu")),
        ]
    );
    assert!(ProviderRegistry::<MockProvider>::empty().is_empty());
}

#[test]
fn a_mock_follows_its_script() {
    let mut mock = MockProvider::new("gpu", &["gpu"]);
    let mut env = TextMap::new();
    env.insert("GPU".to_string(), "0".to_string());
    mock.set_env(env);
    mock.set_snapshot_units(vec![ResourceUnit::new("gpu0".to_string())]);
    assert_eq!(mock.probe().units[0].id, "gpu0");
    let request = ReserveRequest::new(JobId(1), Need::from_pairs(&[("gpu", count(1))]));
    let grant = mock.reserve(&request).expect("grant");
    assert_eq!(grant.env.get("GPU").map(String::as_str), Some("0"));

    mock.set_behaviour(MockBehaviour::Scripted(vec![
        Err(Reject::new("busy".to_string())),
        Ok(()),
    ]));
    assert_eq!(mock.reserve(&request).expect_err("busy").reason, "busy");
    assert!(mock.reserve(&request).is_ok());
    assert_eq!(mock.reserve_calls(), 3);
}

/// Grants until `refuse` is asked, and notes what is asked in which order.
struct NotingRunner {
    name: &'static str,
    refuse: bool,
    notes: std::rc::Rc<std::cell::RefCell<Vec<String>>>,
}

impl CliRunner for NotingRunner {
    fn probe(&mut self, _command: &CliCommand) -> Result<Vec<ResourceUnit>, String> {
        self.notes.borrow_mut().push(format!("probe {}", self.name));
        Ok(vec![ResourceUnit::new(format!("unit of {}", self.name))])
    }

    fn reserve(
        &mut self,
        _command: &CliCommand,
        job_id: &str,
        needs: &Need,
    ) -> Result<ReserveResponse, String> {
        self.notes.borrow_mut().push(format!("reserve {}", self.name));
        let mut env = TextMap::new();
        env.insert("OWNER".to_string(), self.name.to_string());
        Ok(ReserveResponse {
            ok: !self.refuse,
            grant_id: Some(format!("{}-{job_id}", self.name)),
            reason: Some(format!("{} is full", self.name)),
            env,
            info: needs.quantities(),
        })
    }

    fn release(&mut self, _command: &CliCommand, grant_id: &str) {
        self.notes.borrow_mut().push(format!("release {grant_id}"));
    }
}

fn noting(
    refusing: Option<&str>,
) -> (ProviderRegistry<CliProvider<NotingRunner>>, std::rc::Rc<std::cell::RefCell<Vec<String>>>) {
    let notes = std::rc::Rc::new(std::cell::RefCell::new(Vec::new()));
    let providers = ["c", "a", "b"]
        .into_iter()
        .map(|name| {
            let config = CliResourceProviderConfig {
                keys: vec![name.to_string()],
                probe: argv("probe"),
                reserve: argv("reserve"),
                release: argv("release"),
                timeout_ms: 1_000,
            };
            let refuse = refusing == Some(name);
            CliProvider::from_config(name, &config, NotingRunner { name, refuse, notes: notes.clone() })
        })
        .collect();
    (ProviderRegistry::from_providers(providers).expect("registry"), notes)
}

#[test]
fn grants_are_given_back_newest_first() {
    let (mut reg, notes) = noting(Some("c"));
    let need = Need::from_pairs(&[("a", count(1)), ("b", count(1)), ("c", count(1))]);

    let refusal = reg.try_reserve(JobId(1), &need).expect_err("refusal");

    assert_eq!(refusal.provider_id, ProviderId::new("c"));
    assert_eq!(refusal.reject.reason, "c is full");
    assert_eq!(
        *notes.borrow(),
        vec!["reserve a", "reserve b", "reserve c", "release b-J1", "release a-J1"]
    );
    assert_eq!(reg.active_reservation_count(), 0);
}

#[test]
fn grants_are_what_the_providers_returned() {
    let (mut reg, notes) = noting(None);
    let need = Need::from_pairs(&[("a", count(2)), ("c", count(3))]);

    let grants = reg.try_reserve(JobId(4), &need).expect("grants");

    assert_eq!(grants.len(), 2);
    assert_eq!(grants[0].id, ReservationId::new("a-J4"));
    assert_eq!(grants[0].env.get("OWNER").map(String::as_str), Some("a"));
    assert_eq!(grants[1].env.get("OWNER").map(String::as_str), Some("c"));
    assert_eq!(grants[1].info.get("c"), Some(&count(3)));
    assert_eq!(*notes.borrow(), vec!["reserve a", "reserve c"]);
    assert_eq!(reg.release(JobId(4)), 2);
    assert_eq!(notes.borrow()[2..], ["release a-J4", "release c-J4"]);
}

#[test]
fn snapshots_show_what_the_providers_found() {
    let (mut reg, notes) = noting(None);

    let shown = reg.snapshot();

    let units: Vec<&str> = shown.iter().map(|(_, s)| s.units[0].id.as_str()).collect();
    assert_eq!(units, vec!["unit of a", "unit of b", "unit of c"]);
    assert_eq!(*notes.borrow(), vec!["probe a", "probe b", "probe c"]);
}

#[test]
fn a_snapshot_shows_the_given_devices_as_the_reservations_leave_them() {
    let mut provider = gpus(vec![(0, bytes(80), bytes(80))], bytes(1));
    let need = Need::from_pairs(&[("gpu_mem", ResourceQuantity::Bytes(bytes(30)))]);
    provider.reserve(&ReserveRequest::new(JobId(1), need)).expect("grant");

    let samples = vec![
        GpuSample { index: 0, total_mem: bytes(80), free_mem: bytes(60) },
        GpuSample { index: 3, total_mem: bytes(16), free_mem: bytes(16) },
    ];
    let shown = provider.snapshot_of(&samples);

    assert_eq!(shown.provider_id, ProviderId::new("nvidia"));
    assert_eq!(shown.units.len(), 2);
    assert_eq!(shown.units[0].id, "0");
    let taken = &shown.units[0].attrs;
    assert_eq!(taken.get("reserved_mem"), Some(&ResourceQuantity::Bytes(bytes(30))));
    assert_eq!(taken.get("effective_free_mem"), Some(&ResourceQuantity::Bytes(bytes(49))));
    assert_eq!(shown.units[1].id, "3");
    let free = &shown.units[1].attrs;
    assert_eq!(free.get("reserved_mem"), Some(&ResourceQuantity::Bytes(0)));
    assert_eq!(free.get("effective_free_mem"), Some(&ResourceQuantity::Bytes(bytes(15))));
}

#[test]
fn one_registry_holds_providers_of_every_kind() {
    let providers: Vec<AnyProvider<StaticBackend, LicenseServer>> = vec![
        AnyProvider::Nvidia(gpus(vec![(0, bytes(80), bytes(80))], 0)),
        AnyProvider::Cli(licenses(Some("seat-1"))),
        AnyProvider::Mock(mock_provider("tpus", &["tpu"])),
    ];
    let mut reg = ProviderRegistry::from_providers(providers).expect("registry");
    let need = Need::from_pairs(&[("gpu", count(1)), ("license", count(1)), ("tpu", count(1))]);

    let grants = reg.try_reserve(JobId(2), &need).expect("grants");
    let owners: Vec<&str> = grants.iter().map(|grant| grant.provider_id.as_str()).collect();
    assert_eq!(owners, vec!["licenses", "nvidia", "tpus"]);
    assert!(reg.try_reserve(JobId(3), &Need::from_pairs(&[("gpu", count(1))])).is_err());
    let shown = reg.snapshot();
    assert_eq!(shown.len(), 3);
    assert_eq!(shown[1].1.units[0].id, "0");
    assert_eq!(reg.release(JobId(2)), 3);
    assert!(reg.try_reserve(JobId(3), &Need::from_pairs(&[("gpu", count(1))])).is_ok());
}
