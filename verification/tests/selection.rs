//! Selection of workers by the stage.

use axum::http::{HeaderMap, HeaderValue, StatusCode};
use std::collections::HashMap;
use std::sync::Arc;
use worker_selection::admission::{AdmissionEvent, PrefillAdmission};
use worker_selection::policy::{FnPolicy, RoundRobinPolicy, SelectWorkerInfo};
use worker_selection::policy_registry::PolicyRegistry;
use worker_selection::prefill::AdmissionOutcome;
use worker_selection::registry::WorkerRegistry;
use worker_selection::response::{Response, PD_PREFILL_QUEUE_FULL};
use worker_selection::stage::{WorkerSelectionMode, WorkerSelectionStage};
use worker_selection::worker::{ConnectionMode, ModelCard, RuntimeType, Worker, WorkerType};

type Select = Box<dyn Fn(&Vec<Arc<Worker>>, &SelectWorkerInfo<'_>) -> Option<usize>>;

fn modeled_worker(
    url: &str,
    model_id: &str,
    worker_type: WorkerType,
    connection_mode: ConnectionMode,
) -> Arc<Worker> {
    Arc::new(Worker::new(
        url.to_string(),
        vec![ModelCard::new(model_id.to_string())],
        worker_type,
        connection_mode,
        RuntimeType::Sglang,
    ))
}

fn worker(url: &str, worker_type: WorkerType) -> Arc<Worker> {
    modeled_worker(url, "test-model", worker_type, ConnectionMode::Grpc)
}

fn round_robin() -> PolicyRegistry<RoundRobinPolicy> {
    PolicyRegistry::new(RoundRobinPolicy::new(), RoundRobinPolicy::new())
}

fn register_pd_workers(
    registry: &mut WorkerRegistry,
    model_id: &str,
    n: usize,
) -> (Vec<String>, Vec<String>) {
    let mut prefill_urls = Vec::with_capacity(n);
    let mut decode_urls = Vec::with_capacity(n);

    for i in 0..n {
        let url = format!("grpc://127.0.0.1:{}", 8000 + i);
        prefill_urls.push(url.clone());
        registry
            .register(modeled_worker(&url, model_id, WorkerType::Prefill, ConnectionMode::Grpc))
            .unwrap();
    }

    for i in 0..n {
        let url = format!("grpc://127.0.0.1:{}", 8100 + i);
        decode_urls.push(url.clone());
        registry
            .register(modeled_worker(&url, model_id, WorkerType::Decode, ConnectionMode::Grpc))
            .unwrap();
    }

    (prefill_urls, decode_urls)
}

fn status(response: &Response) -> StatusCode {
    StatusCode::from_u16(response.status).unwrap()
}

fn hit_counts_in_order(urls: &[String], hits: &HashMap<String, usize>) -> Vec<usize> {
    urls.iter().map(|url| hits.get(url).copied().unwrap_or(0)).collect()
}

/// Every worker in both pools is hit equally across 40 `select_pd_pair` calls.
fn assert_even_pd_round_robin_coverage(
    prefill_urls: &[String],
    decode_urls: &[String],
    prefill_hits: &HashMap<String, usize>,
    decode_hits: &HashMap<String, usize>,
) {
    assert_eq!(
        hit_counts_in_order(prefill_urls, prefill_hits),
        vec![10, 10, 10, 10],
        "even PD round-robin coverage: every prefill worker should get 10/40"
    );
    assert_eq!(
        hit_counts_in_order(decode_urls, decode_hits),
        vec![10, 10, 10, 10],
        "even PD round-robin coverage: every decode worker should get 10/40"
    );
}

fn count_select_pd_pair_hits(
    stage: &mut WorkerSelectionStage<RoundRobinPolicy>,
    model_id: &str,
    iterations: usize,
) -> (HashMap<String, usize>, HashMap<String, usize>) {
    let mut prefill_hits: HashMap<String, usize> = HashMap::new();
    let mut decode_hits: HashMap<String, usize> = HashMap::new();
    for _ in 0..iterations {
        let (prefill, decode, _) = stage
            .select_pd_pair(model_id, None, None, None, None)
            .expect("select_pd_pair should return a pair");
        *prefill_hits.entry(prefill.url.clone()).or_default() += 1;
        *decode_hits.entry(decode.url.clone()).or_default() += 1;
    }
    (prefill_hits, decode_hits)
}

fn load<P>(stage: &WorkerSelectionStage<P>, worker: &Worker) -> usize {
    stage.prefill_admission.as_ref().unwrap().worker_load(&worker.url)
}

#[test]
fn admission_filters_full_prefill_before_policy_selection() {
    let model_id = "test-model";
    let mut registry = WorkerRegistry::new();
    let full = worker("grpc://prefill-full:30000", WorkerType::Prefill);
    let available = worker("grpc://prefill-available:30000", WorkerType::Prefill);
    let decode = worker("grpc://decode:30000", WorkerType::Decode);
    for worker in [&full, &available, &decode] {
        registry.register(Arc::clone(worker)).unwrap();
    }

    let mut admission = PrefillAdmission::new(1, 0, 1000);
    let occupied = admission.occupy(&full).expect("initial prefill admission should succeed");
    let mut stage = WorkerSelectionStage::new(
        registry,
        round_robin(),
        WorkerSelectionMode::PrefillDecode,
        Some(admission),
    );

    let (prefill, selected_decode, guard) =
        match stage.admit_pd_pair(AdmissionEvent::Arrived, model_id, None, None, None, None) {
            AdmissionOutcome::Admitted((prefill, decode, _), guard) => (prefill, decode, guard),
            _ => panic!("admission should select the non-full prefill worker"),
        };

    assert_eq!(prefill.url, available.url);
    assert_eq!(selected_decode.url, decode.url);
    assert_eq!(load(&stage, &full), 1);
    assert_eq!(load(&stage, &available), 1);
    assert_eq!(load(&stage, &decode), 0);
    stage.release_prefill(guard);
    stage.release_prefill(occupied);
    assert_eq!(load(&stage, &full), 0);
    assert_eq!(load(&stage, &available), 0);
}

#[test]
fn admission_does_not_reassign_a_full_explicit_target() {
    let model_id = "test-model";
    let mut registry = WorkerRegistry::new();
    let first = worker("grpc://prefill-1:30000", WorkerType::Prefill);
    let second = worker("grpc://prefill-2:30000", WorkerType::Prefill);
    let decode = worker("grpc://decode:30000", WorkerType::Decode);
    for worker in [&first, &second, &decode] {
        registry.register(Arc::clone(worker)).unwrap();
    }
    let target = first;
    let alternative = second;

    let mut admission = PrefillAdmission::new(1, 0, 1000);
    let occupied = admission.occupy(&target).expect("target admission should succeed");
    let targeting: fn() -> FnPolicy<Select> = || {
        FnPolicy::new(
            "consistent_hashing".to_string(),
            false,
            Box::new(|workers: &Vec<Arc<Worker>>, info: &SelectWorkerInfo<'_>| {
                let named = info.headers.and_then(|headers| headers.get("x-smg-target-worker"));
                let at: usize = match named {
                    Some(value) => value.to_str().ok()?.parse().ok()?,
                    None => 0,
                };
                if at < workers.len() {
                    Some(at)
                } else {
                    None
                }
            }),
        )
    };
    let mut stage = WorkerSelectionStage::new(
        registry,
        PolicyRegistry::new(targeting(), targeting()),
        WorkerSelectionMode::PrefillDecode,
        Some(admission),
    );
    let mut headers = HeaderMap::new();
    headers.insert("x-smg-target-worker", "0".parse().unwrap());

    let response = match stage.admit_pd_pair(
        AdmissionEvent::Arrived,
        model_id,
        None,
        None,
        Some(&headers),
        None,
    ) {
        AdmissionOutcome::Rejected(response) => response,
        _ => panic!("full explicit target must wait or reject, not reassign"),
    };

    assert_eq!(status(&response), StatusCode::TOO_MANY_REQUESTS);
    assert_eq!(response.code, PD_PREFILL_QUEUE_FULL);
    assert_eq!(load(&stage, &target), 1);
    assert_eq!(load(&stage, &alternative), 0);
    assert_eq!(load(&stage, &decode), 0);

    // Without a name the other worker is free to take.
    match stage.admit_pd_pair(AdmissionEvent::Arrived, model_id, None, None, None, None) {
        AdmissionOutcome::Admitted((prefill, _, _), _) => assert_eq!(prefill.url, alternative.url),
        _ => panic!("a request that names no worker takes the one with room"),
    }
    stage.release_prefill(occupied);
}

#[test]
fn a_fully_vetoed_prefill_leg_sheds_rather_than_404s() {
    let model_id = "test-model-prefill-veto";
    let mut worker_registry = WorkerRegistry::new();
    let (prefill_urls, _) = register_pd_workers(&mut worker_registry, model_id, 4);

    let mut stage = WorkerSelectionStage::new(
        worker_registry,
        round_robin(),
        WorkerSelectionMode::PrefillDecode,
        None,
    );
    assert!(stage.select_pd_pair(model_id, None, None, None, None).is_some());

    for url in &prefill_urls {
        let worker = stage.worker_registry.get_by_url(url).expect("registered");
        stage.worker_registry.set_worker_overloaded(&worker, true);
    }

    assert!(
        stage.select_pd_pair(model_id, None, None, None, None).is_none(),
        "the veto empties the prefill pool"
    );
    let response = stage.selection_failure(model_id, &[WorkerType::Prefill, WorkerType::Decode]);
    assert_eq!(status(&response), StatusCode::SERVICE_UNAVAILABLE);
    assert_eq!(response.code, "no_available_workers");
    assert!(response.shed, "a shed must be terminal for the retry layer");
}

#[test]
fn an_undemanded_encode_leg_cannot_shed() {
    let model_id = "test-model-encode-veto";
    let mut worker_registry = WorkerRegistry::new();
    let encode = modeled_worker(
        "grpc://127.0.0.1:8460",
        model_id,
        WorkerType::Encode,
        ConnectionMode::Grpc,
    );
    worker_registry.register(Arc::clone(&encode)).unwrap();
    worker_registry.set_worker_overloaded(&encode, true);

    let stage = WorkerSelectionStage::new(
        worker_registry,
        round_robin(),
        WorkerSelectionMode::EncodePrefillDecode,
        None,
    );

    // No prefill or decode workers are registered: with encode undemanded this is model absence.
    let text_only = stage.selection_failure(model_id, &[WorkerType::Prefill, WorkerType::Decode]);
    assert_eq!(status(&text_only), StatusCode::NOT_FOUND);

    // With encode demanded, the saturated encode pool is a shed.
    let with_encode = stage.selection_failure(
        model_id,
        &[WorkerType::Prefill, WorkerType::Decode, WorkerType::Encode],
    );
    assert_eq!(status(&with_encode), StatusCode::SERVICE_UNAVAILABLE);
}

#[test]
fn an_unserved_model_still_reports_not_found() {
    let stage = WorkerSelectionStage::new(
        WorkerRegistry::new(),
        round_robin(),
        WorkerSelectionMode::PrefillDecode,
        None,
    );
    let response = stage.selection_failure("nobody", &[WorkerType::Prefill, WorkerType::Decode]);
    assert_eq!(status(&response), StatusCode::NOT_FOUND);
    assert_eq!(response.code, "model_not_found");
    assert!(!response.shed);
}

#[test]
#[should_panic(expected = "even PD round-robin coverage")]
fn select_pd_pair_shared_round_robin_fails_even_coverage() {
    // One round robin for both legs moves on twice per request, so even coverage must fail.
    let model_id = "test-model-shared";
    let mut worker_registry = WorkerRegistry::new();
    let (prefill_urls, decode_urls) = register_pd_workers(&mut worker_registry, model_id, 4);

    let mut policy_registry = round_robin();
    let shared = policy_registry.add_policy(RoundRobinPolicy::new());
    policy_registry.set_prefill_policy(shared);
    policy_registry.set_decode_policy(shared);
    assert!(policy_registry.get_prefill_policy() == policy_registry.get_decode_policy());

    let mut stage = WorkerSelectionStage::new(
        worker_registry,
        policy_registry,
        WorkerSelectionMode::PrefillDecode,
        None,
    );
    let (prefill_hits, decode_hits) = count_select_pd_pair_hits(&mut stage, model_id, 40);
    assert_even_pd_round_robin_coverage(&prefill_urls, &decode_urls, &prefill_hits, &decode_hits);
}

#[test]
fn select_pd_pair_independent_round_robin_passes_even_coverage() {
    let model_id = "test-model-independent";
    let mut worker_registry = WorkerRegistry::new();
    let (prefill_urls, decode_urls) = register_pd_workers(&mut worker_registry, model_id, 4);

    let mut policy_registry = round_robin();
    let prefill_policy = policy_registry.add_policy(RoundRobinPolicy::new());
    let decode_policy = policy_registry.add_policy(RoundRobinPolicy::new());
    policy_registry.set_prefill_policy(prefill_policy);
    policy_registry.set_decode_policy(decode_policy);
    assert!(policy_registry.get_prefill_policy() != policy_registry.get_decode_policy());

    let mut stage = WorkerSelectionStage::new(
        worker_registry,
        policy_registry,
        WorkerSelectionMode::PrefillDecode,
        None,
    );
    let (prefill_hits, decode_hits) = count_select_pd_pair_hits(&mut stage, model_id, 40);
    assert_even_pd_round_robin_coverage(&prefill_urls, &decode_urls, &prefill_hits, &decode_hits);
}

#[test]
fn select_pd_pair_ignores_zmq_legs() {
    let model_id = "test-model-zmq";
    let mut worker_registry = WorkerRegistry::new();
    for (port, worker_type) in [(9000, WorkerType::Prefill), (9100, WorkerType::Decode)] {
        worker_registry
            .register(modeled_worker(
                &format!("ipc:///tmp/smg-zmq/{port}.ipc"),
                model_id,
                worker_type,
                ConnectionMode::Zmq,
            ))
            .unwrap();
    }

    let mut policy_registry = round_robin();
    let prefill_policy = policy_registry.add_policy(RoundRobinPolicy::new());
    let decode_policy = policy_registry.add_policy(RoundRobinPolicy::new());
    policy_registry.set_prefill_policy(prefill_policy);
    policy_registry.set_decode_policy(decode_policy);
    let mut stage = WorkerSelectionStage::new(
        worker_registry,
        policy_registry,
        WorkerSelectionMode::PrefillDecode,
        None,
    );

    assert!(
        stage.select_pd_pair(model_id, None, None, None, None).is_none(),
        "ZMQ-only PD pools must not yield a pair"
    );

    // Adding gRPC legs makes selection succeed, and it never picks the ZMQ ones.
    let (prefill_urls, decode_urls) =
        register_pd_workers(&mut stage.worker_registry, model_id, 4);
    let (prefill, decode, _) = stage
        .select_pd_pair(model_id, None, None, None, None)
        .expect("gRPC PD pair should be selected");
    assert!(prefill_urls.contains(&prefill.url));
    assert!(decode_urls.contains(&decode.url));
}

#[test]
fn grpc_selection_pins_by_rid_key_under_override() {
    let model_id = "test-model-rid-sticky";
    let mut worker_registry = WorkerRegistry::new();
    for i in 0..2 {
        worker_registry
            .register(modeled_worker(
                &format!("grpc://127.0.0.1:{}", 8300 + i),
                model_id,
                WorkerType::Regular,
                ConnectionMode::Grpc,
            ))
            .unwrap();
    }
    let policy_registry =
        PolicyRegistry::with_override(RoundRobinPolicy::new(), RoundRobinPolicy::new());
    let mut stage = WorkerSelectionStage::new(
        worker_registry,
        policy_registry,
        WorkerSelectionMode::Regular,
        None,
    );

    let rid_key = stage.policy_registry.derive_rid_key(Some("conv7_t1"));
    assert_eq!(rid_key, Some("conv7"));

    let mut poison = HeaderMap::new();
    poison.insert("x-smg-routing-key", "req-unique-1".parse().unwrap());
    let first =
        stage.select_single_worker(model_id, None, None, Some(&poison), rid_key).unwrap();
    for (i, rid) in ["conv7_t2", "conv7_t2_r1", "conv7_t3"].iter().enumerate() {
        let mut rotated = HeaderMap::new();
        let key: HeaderValue = format!("req-unique-{}", i + 2).parse().unwrap();
        rotated.insert("x-smg-routing-key", key);
        let rid_key = stage.policy_registry.derive_rid_key(Some(*rid));
        let again =
            stage.select_single_worker(model_id, None, None, Some(&rotated), rid_key).unwrap();
        assert_eq!(again.url, first.url, "follow-up must pin by rid key");
    }
}

#[test]
fn grpc_all_overloaded_sheds_503_instead_of_404() {
    let model_id = "test-model-overload-shed";
    let mut worker_registry = WorkerRegistry::new();
    let mut workers = Vec::new();
    for i in 0..2 {
        let worker = modeled_worker(
            &format!("grpc://127.0.0.1:{}", 8400 + i),
            model_id,
            WorkerType::Regular,
            ConnectionMode::Grpc,
        );
        worker_registry.register(Arc::clone(&worker)).unwrap();
        workers.push(worker);
    }
    let mut stage = WorkerSelectionStage::new(
        worker_registry,
        round_robin(),
        WorkerSelectionMode::Regular,
        None,
    );

    assert!(stage.select_single_worker(model_id, None, None, None, None).is_some());

    stage.worker_registry.set_worker_overloaded(&workers[0], true);
    assert!(
        stage.select_single_worker(model_id, None, None, None, None).is_some(),
        "one eligible worker left still serves"
    );

    stage.worker_registry.set_worker_overloaded(&workers[1], true);
    assert!(
        stage.select_single_worker(model_id, None, None, None, None).is_none(),
        "the veto empties the candidate pool"
    );

    let response = stage.selection_failure(model_id, &[WorkerType::Regular]);
    assert_eq!(status(&response), StatusCode::SERVICE_UNAVAILABLE);
    assert_eq!(response.code, "no_available_workers");

    // Recovery admits the worker again, and an absent model is still a 404.
    stage.worker_registry.set_worker_overloaded(&workers[0], false);
    assert!(stage.select_single_worker(model_id, None, None, None, None).is_some());
    assert_eq!(
        status(&stage.selection_failure("no-such-model", &[WorkerType::Regular])),
        StatusCode::NOT_FOUND
    );
}
