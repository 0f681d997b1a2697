//! The parts that selection is made of: headers, workers, registries, policies, admission.

use axum::http::{HeaderMap, HeaderValue};
use std::sync::Arc;
use worker_selection::admission::{GrpcPdCandidateError, PrefillAdmission, PrefillSelectionContext};
use worker_selection::headers::{
    encode_routing_headers, extract_routing_key, extract_target_worker, hex_encode,
};
use worker_selection::multimodal::{
    encode_item_hashes, ensure_backend_supports_modalities, MultimodalIntermediate,
    UnsupportedModality,
};
use worker_selection::policy::{
    policy_filters_unavailable_workers, FnPolicy, LoadBalancingPolicy, RoundRobinPolicy,
    SelectWorkerInfo, WorkerLeg,
};
use worker_selection::policy_registry::PolicyRegistry;
use worker_selection::pool::RoutingPool;
use worker_selection::registry::{HashRing, RingPoint, WorkerRegistry};
use worker_selection::selection::{find_shared_runtime, select_pair_candidates};
use worker_selection::stage::{WorkerSelectionMode, WorkerSelectionStage};
use worker_selection::worker::{ConnectionMode, ModelCard, RuntimeType, Worker, WorkerType};

type Select = Box<dyn Fn(&Vec<Arc<Worker>>, &SelectWorkerInfo<'_>) -> Option<usize>>;

fn worker_with(
    url: &str,
    worker_type: WorkerType,
    connection_mode: ConnectionMode,
    runtime_type: RuntimeType,
) -> Worker {
    Worker::new(
        url.to_string(),
        vec![ModelCard::new("m".to_string()).with_alias("m-alias".to_string())],
        worker_type,
        connection_mode,
        runtime_type,
    )
}

fn regular(url: &str) -> Arc<Worker> {
    Arc::new(worker_with(url, WorkerType::Regular, ConnectionMode::Grpc, RuntimeType::Sglang))
}

fn leg(url: &str, worker_type: WorkerType, runtime_type: RuntimeType) -> Arc<Worker> {
    Arc::new(worker_with(url, worker_type, ConnectionMode::Grpc, runtime_type))
}

fn info(leg: WorkerLeg) -> SelectWorkerInfo<'static> {
    SelectWorkerInfo {
        request_text: None,
        tokens: None,
        headers: None,
        routing_key: None,
        rid_key: None,
        hash_ring: None,
        leg,
    }
}

fn keyed<'a>(key: &'a str, leg: WorkerLeg) -> SelectWorkerInfo<'a> {
    SelectWorkerInfo {
        request_text: None,
        tokens: None,
        headers: None,
        routing_key: Some(key),
        rid_key: None,
        hash_ring: None,
        leg,
    }
}

fn regular_stage(workers: &[Arc<Worker>]) -> WorkerSelectionStage<RoundRobinPolicy> {
    let mut registry = WorkerRegistry::new();
    for worker in workers {
        registry.register(Arc::clone(worker)).unwrap();
    }
    WorkerSelectionStage::new(
        registry,
        PolicyRegistry::new(RoundRobinPolicy::new(), RoundRobinPolicy::new()),
        WorkerSelectionMode::Regular,
        None,
    )
}

#[test]
fn hexadecimal_is_lower_case_with_the_high_digit_first() {
    assert_eq!(hex_encode(&[]), "");
    assert_eq!(hex_encode(&[0x00, 0x0f, 0x10, 0x9a, 0xa9, 0xff]), "000f109aa9ff");
}

#[test]
fn item_headers_hold_the_routing_key_and_nothing_else() {
    let headers = encode_routing_headers(&[0xde, 0xad]);
    assert_eq!(headers.len(), 1);
    assert_eq!(headers.get("x-smg-routing-key").unwrap().to_str().unwrap(), "dead");
    assert_eq!(extract_routing_key(Some(&headers)), Some("dead"));
    assert_eq!(extract_target_worker(Some(&headers)), None);
    assert_ne!(
        encode_routing_headers(&[0xde, 0xad]),
        encode_routing_headers(&[0xde, 0xae])
    );
    let empty = encode_routing_headers(&[]);
    assert_eq!(extract_routing_key(Some(&empty)), Some(""));
}

#[test]
fn headers_that_are_missing_or_not_text_are_not_read() {
    assert_eq!(extract_target_worker(None), None);
    let mut headers = HeaderMap::new();
    assert_eq!(extract_target_worker(Some(&headers)), None);
    headers.insert("x-smg-target-worker", HeaderValue::from_bytes(&[0xff, 0x80]).unwrap());
    assert_eq!(extract_target_worker(Some(&headers)), None);
    headers.insert("X-SMG-Target-Worker", "3".parse().unwrap());
    assert_eq!(extract_target_worker(Some(&headers)), Some("3"));
}

#[test]
fn a_model_is_found_by_its_id_an_alias_or_the_wildcard() {
    let mut stage = regular_stage(&[regular("grpc://r1")]);
    for model in ["m", "m-alias", "unknown"] {
        assert!(stage.select_single_worker(model, None, None, None, None).is_some());
    }
    for model in ["", "M", "m-alia", "other"] {
        assert!(stage.select_single_worker(model, None, None, None, None).is_none());
    }
}

#[test]
fn regular_selection_takes_grpc_and_zmq_but_not_http() {
    let mut stage = regular_stage(&[
        Arc::new(worker_with(
            "http://r1",
            WorkerType::Regular,
            ConnectionMode::Http,
            RuntimeType::Sglang,
        )),
        Arc::new(worker_with(
            "ipc://r2",
            WorkerType::Regular,
            ConnectionMode::Zmq,
            RuntimeType::Sglang,
        )),
        regular("grpc://r3"),
        leg("grpc://p1", WorkerType::Prefill, RuntimeType::Sglang),
    ]);
    let mut urls = Vec::new();
    for _ in 0..4 {
        urls.push(stage.select_single_worker("m", None, None, None, None).unwrap().url.clone());
    }
    assert_eq!(urls, vec!["ipc://r2", "grpc://r3", "ipc://r2", "grpc://r3"]);
    assert_eq!(stage.selections[0].connection, ConnectionMode::Zmq);
    let candidates = stage.leg_candidates("m", WorkerType::Prefill);
    assert_eq!(candidates.len(), 1);
    assert_eq!(stage.leg_candidates("m", WorkerType::Regular).len(), 2);
}

#[test]
fn unhealthy_open_and_vetoed_workers_are_unavailable() {
    let fresh = || worker_with("u", WorkerType::Regular, ConnectionMode::Grpc, RuntimeType::Sglang);
    assert!(fresh().is_available());
    let mut sick = fresh();
    sick.healthy = false;
    assert!(!sick.is_available());
    let mut open = fresh();
    open.circuit_open = true;
    assert!(!open.is_available());
    let vetoed = fresh().with_veto(true);
    assert!(!vetoed.is_available());
    assert!(vetoed.with_veto(false).is_available());
    assert_eq!(vetoed.url, "u");

    // Sickness is no pressure: the answer stays a 404.
    let mut sick = fresh();
    sick.healthy = false;
    let stage = regular_stage(&[Arc::new(sick)]);
    assert_eq!(stage.selection_failure("m", &[WorkerType::Regular]).status, 404);
    assert_eq!(stage.selection_failure("m", &[]).status, 404);
}

#[test]
fn a_url_is_registered_once() {
    let mut registry = WorkerRegistry::new();
    assert_eq!(registry.register(regular("grpc://r1")), Some(0));
    assert_eq!(registry.register(regular("grpc://r2")), Some(1));
    assert_eq!(registry.register(regular("grpc://r1")), None);
    assert_eq!(registry.get_by_url("grpc://r2").unwrap().url, "grpc://r2");
    assert!(registry.get_by_url("grpc://r3").is_none());
    let snapshot = registry.get_routing_snapshot("m");
    assert_eq!(snapshot.pool(RoutingPool::GrpcPipelineRegular).len(), 2);
    assert_eq!(snapshot.pool(RoutingPool::GrpcDecode).len(), 0);
}

#[test]
fn the_ring_that_was_set_last_counts() {
    let mut registry = WorkerRegistry::new();
    assert!(registry.get_hash_ring("m").is_none());
    let ring = |n: u64| HashRing {
        points: (0..n).map(|hash| RingPoint { hash, url: "u".to_string() }).collect(),
    };
    registry.set_hash_ring("m".to_string(), ring(1));
    registry.set_hash_ring("other".to_string(), ring(2));
    registry.set_hash_ring("m".to_string(), ring(3));
    assert_eq!(registry.get_hash_ring("m").unwrap().points.len(), 3);
    assert_eq!(registry.get_hash_ring("other").unwrap().points.len(), 2);
}

#[test]
fn round_robin_takes_turns_and_starts_over() {
    let workers = vec![regular("a"), regular("b"), regular("c")];
    let mut policy = RoundRobinPolicy::new();
    let mut picks = Vec::new();
    for _ in 0..5 {
        picks.push(policy.select_worker(&workers, &info(WorkerLeg::Single)));
    }
    assert_eq!(picks, vec![Some(0), Some(1), Some(2), Some(0), Some(1)]);
    assert_eq!(policy.select_worker(&Vec::new(), &info(WorkerLeg::Single)), None);
    assert_eq!(policy.counter, 5);
    let mut last = RoundRobinPolicy { counter: usize::MAX };
    assert_eq!(
        last.select_worker(&workers, &info(WorkerLeg::Single)),
        Some(usize::MAX % 3)
    );
    assert_eq!(last.counter, 0);
    assert!(!policy_filters_unavailable_workers(&policy));
    assert_eq!(policy.name(), "round_robin");
}

#[test]
fn a_policy_that_filters_is_handed_the_whole_pool() {
    let select: fn() -> Select = || {
        Box::new(|workers, _| {
            assert_eq!(workers.len(), 2);
            workers.iter().position(|worker| worker.is_available())
        })
    };
    let mut registry = WorkerRegistry::new();
    registry.register(Arc::new(regular("grpc://r1").with_veto(true))).unwrap();
    registry.register(regular("grpc://r2")).unwrap();
    let mut stage = WorkerSelectionStage::new(
        registry,
        PolicyRegistry::new(
            FnPolicy::new("filtering".to_string(), true, select()),
            FnPolicy::new("filtering".to_string(), true, select()),
        ),
        WorkerSelectionMode::Regular,
        None,
    );
    let selected = stage.select_single_worker("m", None, None, None, None).unwrap();
    assert_eq!(selected.url, "grpc://r2");
    assert_eq!(stage.selections[0].policy, "filtering");
}

#[test]
fn a_model_may_have_a_policy_of_its_own() {
    let mut registry = PolicyRegistry::new(RoundRobinPolicy::new(), RoundRobinPolicy::new());
    let own = registry.add_policy(RoundRobinPolicy { counter: 1 });
    registry.set_model_policy("m".to_string(), own);
    assert!(registry.get_policy_or_default("m") == own);
    assert!(registry.get_policy_or_default("x") != own);
    assert!(registry.get_prefill_policy() == registry.get_policy_or_default("x"));
    assert!(registry.get_decode_policy() == registry.get_policy_or_default("x"));
    assert!(registry.get_encode_policy() != registry.get_prefill_policy());
    registry.set_encode_policy(own);
    assert!(registry.get_encode_policy() == own);
    let mut stage = regular_stage(&[regular("grpc://r1"), regular("grpc://r2")]);
    stage.policy_registry = registry;
    let selected = stage.select_single_worker("m", None, None, None, None).unwrap();
    assert_eq!(selected.url, "grpc://r2");
}

#[test]
fn keys_stick_per_leg_until_their_worker_is_gone() {
    let mut registry =
        PolicyRegistry::with_override(RoundRobinPolicy::new(), RoundRobinPolicy::new());
    let main = registry.get_policy_or_default("m");
    let workers = vec![regular("a"), regular("b"), regular("c")];
    let first = registry.select_worker(main, &workers, &keyed("k", WorkerLeg::Prefill));
    assert_eq!(first, Some(0));
    assert_eq!(registry.select_worker(main, &workers, &keyed("k", WorkerLeg::Prefill)), Some(0));
    // Another leg and another key are other pins; a request without a key is not pinned.
    assert_eq!(registry.select_worker(main, &workers, &keyed("k", WorkerLeg::Decode)), Some(1));
    assert_eq!(registry.select_worker(main, &workers, &info(WorkerLeg::Prefill)), Some(2));
    assert_eq!(registry.select_worker(main, &workers, &keyed("k2", WorkerLeg::Prefill)), Some(0));
    assert_eq!(registry.select_worker(main, &workers, &keyed("k", WorkerLeg::Decode)), Some(1));
    // The pinned worker is vetoed: the policy picks, and the key sticks to its pick.
    let vetoed = vec![Arc::new(workers[0].with_veto(true)), regular("b"), regular("c")];
    assert_eq!(registry.select_worker(main, &vetoed, &keyed("k", WorkerLeg::Prefill)), Some(1));
    assert_eq!(registry.select_worker(main, &workers, &keyed("k", WorkerLeg::Prefill)), Some(1));
    // A key sticks to the worker, wherever it stands in the list.
    let reversed = vec![regular("c"), regular("b"), regular("a")];
    assert_eq!(registry.select_worker(main, &reversed, &keyed("k2", WorkerLeg::Prefill)), Some(2));
}

#[test]
fn without_the_override_keys_do_not_stick() {
    let mut registry = PolicyRegistry::new(RoundRobinPolicy::new(), RoundRobinPolicy::new());
    let main = registry.get_policy_or_default("m");
    let workers = vec![regular("a"), regular("b")];
    assert_eq!(registry.select_worker(main, &workers, &keyed("k", WorkerLeg::Single)), Some(0));
    assert_eq!(registry.select_worker(main, &workers, &keyed("k", WorkerLeg::Single)), Some(1));
    assert_eq!(registry.derive_rid_key(Some("conv_t1")), None);
}

#[test]
fn the_conversation_stands_before_the_first_turn_marker() {
    let registry = PolicyRegistry::with_override(RoundRobinPolicy::new(), RoundRobinPolicy::new());
    let derived = |rid: &'static str| registry.derive_rid_key(Some(rid));
    assert_eq!(derived("conv7_t2_r1"), Some("conv7"));
    assert_eq!(derived("a_t1_t2"), Some("a"));
    assert_eq!(derived("a_t_t9"), Some("a_t"));
    assert_eq!(derived("no-marker"), Some("no-marker"));
    assert_eq!(derived("a_tb_t"), Some("a_tb_t"));
    assert_eq!(derived("\u{e9}l\u{e8}ve_t12"), Some("\u{e9}l\u{e8}ve"));
    assert_eq!(derived("_t1"), None);
    assert_eq!(derived(""), None);
    assert_eq!(registry.derive_rid_key(None), None);
}

#[test]
fn the_header_key_sticks_under_the_override_only() {
    let mut headers = HeaderMap::new();
    headers.insert("x-smg-routing-key", "k".parse().unwrap());
    let on = PolicyRegistry::with_override(RoundRobinPolicy::new(), RoundRobinPolicy::new());
    let off = PolicyRegistry::new(RoundRobinPolicy::new(), RoundRobinPolicy::new());
    assert_eq!(on.sticky_header_key(Some(&headers)), Some("k"));
    assert_eq!(off.sticky_header_key(Some(&headers)), None);
    assert_eq!(off.resolve_routing_key(Some(&headers)), Some("k"));
    assert_eq!(on.resolve_routing_key(None), None);
}

#[test]
fn a_pair_runs_the_runtime_of_the_first_prefill_worker() {
    let mut stage = regular_stage(&[
        leg("grpc://p1", WorkerType::Prefill, RuntimeType::Vllm),
        leg("grpc://p2", WorkerType::Prefill, RuntimeType::Sglang),
        leg("grpc://d1", WorkerType::Decode, RuntimeType::Sglang),
        leg("grpc://d2", WorkerType::Decode, RuntimeType::Vllm),
    ]);
    let (prefill, decode, runtime) = stage.select_pd_pair("m", None, None, None, None).unwrap();
    assert_eq!(prefill.url, "grpc://p1");
    assert_eq!(decode.url, "grpc://d2");
    assert_eq!(runtime, RuntimeType::Vllm);

    // The first prefill worker decides, although the second has a decode worker.
    let d2 = stage.worker_registry.get_by_url("grpc://d2").unwrap();
    stage.worker_registry.set_worker_overloaded(&d2, true);
    assert!(stage.select_pd_pair("m", None, None, None, None).is_none());
    // Where encoding is disaggregated, the first shared runtime is looked for.
    let (assigned, prefill, decode, runtime) = stage
        .select_encode_prefill_decode_workers("m", None, None, None, None, &Vec::new())
        .unwrap();
    assert_eq!(assigned.len(), 0);
    assert_eq!(prefill.url, "grpc://p2");
    assert_eq!(decode.url, "grpc://d1");
    assert_eq!(runtime, RuntimeType::Sglang);
}

#[test]
fn items_need_the_one_runtime_that_encodes() {
    let encode = vec![leg("e", WorkerType::Encode, RuntimeType::Sglang)];
    let prefill = vec![leg("p", WorkerType::Prefill, RuntimeType::Sglang)];
    let decode = vec![leg("d", WorkerType::Decode, RuntimeType::Sglang)];
    assert_eq!(find_shared_runtime(&prefill, &encode, &decode, true), None);
    assert_eq!(
        find_shared_runtime(&prefill, &encode, &decode, false),
        Some(RuntimeType::Sglang)
    );
    let speed = |url: &str, worker_type: WorkerType| {
        vec![leg(url, worker_type, RuntimeType::TokenSpeed)]
    };
    let prefill = speed("p", WorkerType::Prefill);
    let decode = speed("d", WorkerType::Decode);
    assert_eq!(find_shared_runtime(&prefill, &encode, &decode, true), None);
    let encode = speed("e", WorkerType::Encode);
    assert_eq!(
        find_shared_runtime(&prefill, &encode, &decode, true),
        Some(RuntimeType::TokenSpeed)
    );
}

#[test]
fn full_workers_are_left_out_unless_the_request_names_its_worker() {
    let prefill = vec![
        leg("p1", WorkerType::Prefill, RuntimeType::Sglang),
        leg("p2", WorkerType::Prefill, RuntimeType::Sglang),
        leg("p3", WorkerType::Prefill, RuntimeType::Vllm),
    ];
    let decode = vec![leg("d1", WorkerType::Decode, RuntimeType::Sglang)];
    let mut admission = PrefillAdmission::new(1, 0, 10);
    let first = admission.occupy(&prefill[0]).unwrap();
    assert!(admission.occupy(&prefill[0]).is_none());
    let urls = |list: &Vec<Arc<Worker>>| -> Vec<String> {
        list.iter().map(|worker| worker.url.clone()).collect()
    };
    {
        let context = PrefillSelectionContext { admission: &admission };
        assert!(!context.has_capacity(&prefill[0]));
        let free = select_pair_candidates(
            &prefill,
            &decode,
            RuntimeType::Sglang,
            false,
            Some(&context),
        );
        assert_eq!(urls(&free.unwrap().0), vec!["p2"]);
        let named = select_pair_candidates(
            &prefill,
            &decode,
            RuntimeType::Sglang,
            true,
            Some(&context),
        );
        assert_eq!(urls(&named.unwrap().0), vec!["p1", "p2"]);
    }
    let _second = admission.occupy(&prefill[1]).unwrap();
    let context = PrefillSelectionContext { admission: &admission };
    let full =
        select_pair_candidates(&prefill, &decode, RuntimeType::Sglang, false, Some(&context));
    assert_eq!(full.unwrap_err(), GrpcPdCandidateError::AtCapacity);
    let unlimited = select_pair_candidates(&prefill, &decode, RuntimeType::Sglang, false, None);
    assert_eq!(urls(&unlimited.unwrap().0), vec!["p1", "p2"]);
    admission.release(first);
    assert_eq!(admission.worker_load("p1"), 0);
    assert_eq!(admission.worker_load("p2"), 1);
}

#[test]
fn the_queue_keeps_its_bound_and_release_undoes_occupy() {
    let worker = leg("p1", WorkerType::Prefill, RuntimeType::Sglang);
    let mut admission = PrefillAdmission::new(2, 1, 750);
    assert_eq!(admission.queue_timeout_ms(), 750);
    assert!(admission.join_queue());
    assert!(!admission.join_queue());
    assert_eq!(admission.queued_requests(), 1);
    admission.leave_queue();
    admission.leave_queue();
    assert_eq!(admission.queued_requests(), 0);
    let a = admission.occupy(&worker).unwrap();
    let b = admission.occupy(&worker).unwrap();
    assert!(admission.occupy(&worker).is_none());
    assert_eq!(admission.worker_load("p1"), 2);
    admission.release(a);
    assert_eq!(admission.worker_load("p1"), 1);
    admission.release(b);
    assert_eq!(admission.worker_load("p1"), 0);
}

#[test]
fn item_hashes_come_from_the_multimodal_part() {
    assert_eq!(encode_item_hashes(None).unwrap(), Vec::<Vec<u8>>::new());
    let some = MultimodalIntermediate {
        routing_hashes: Ok(vec![vec![1, 2], vec![]]),
        unsupported: vec![UnsupportedModality {
            runtime: RuntimeType::Vllm,
            reason: "no images".to_string(),
        }],
    };
    assert_eq!(encode_item_hashes(Some(&some)).unwrap(), vec![vec![1, 2], vec![]]);
    assert!(ensure_backend_supports_modalities(RuntimeType::Sglang, &some).is_ok());
    assert_eq!(
        ensure_backend_supports_modalities(RuntimeType::Vllm, &some).unwrap_err(),
        "no images"
    );
    let broken =
        MultimodalIntermediate { routing_hashes: Err("why".to_string()), unsupported: vec![] };
    assert_eq!(encode_item_hashes(Some(&broken)).unwrap_err(), "why");
}
