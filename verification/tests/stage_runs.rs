//! Runs of the stage on whole requests, and what comes before and after them.

use axum::http::HeaderMap;
use std::cell::RefCell;
use std::rc::Rc;
use std::sync::Arc;
use worker_selection::admission::{
    AdmissionEvent, GrpcPdCandidateError, PrefillAcquireError, PrefillAdmission,
    PrefillAdmissionRejection,
};
use worker_selection::context::{
    selection_runtime, Preparation, RequestContext, WorkerSelection,
};
use worker_selection::execute::StageOutcome;
use worker_selection::multimodal::{MultimodalIntermediate, UnsupportedModality};
use worker_selection::notices::{any_on_other_runtime, SelectionNotice};
use worker_selection::policy::{FnPolicy, RoundRobinPolicy, SelectWorkerInfo, WorkerLeg};
use worker_selection::policy_registry::PolicyRegistry;
use worker_selection::prefill::AdmissionOutcome;
use worker_selection::registry::{HashRing, RingPoint, WorkerRegistry};
use worker_selection::response::{Response, PD_PREFILL_QUEUE_FULL, PD_PREFILL_QUEUE_TIMEOUT};
use worker_selection::stage::{assign_encode_workers, WorkerSelectionMode, WorkerSelectionStage};
use worker_selection::worker::{ConnectionMode, ModelCard, RuntimeType, Worker, WorkerType};

const MODEL: &str = "test-model";

type Select = Box<dyn Fn(&Vec<Arc<Worker>>, &SelectWorkerInfo<'_>) -> Option<usize>>;

fn grpc_worker(url: &str, worker_type: WorkerType, runtime_type: RuntimeType) -> Arc<Worker> {
    Arc::new(Worker::new(
        url.to_string(),
        vec![ModelCard::new(MODEL.to_string())],
        worker_type,
        ConnectionMode::Grpc,
        runtime_type,
    ))
}

fn registry_of(workers: &[Arc<Worker>]) -> WorkerRegistry {
    let mut registry = WorkerRegistry::new();
    for worker in workers {
        registry.register(Arc::clone(worker)).unwrap();
    }
    registry
}

fn round_robin_stage(
    workers: &[Arc<Worker>],
    mode: WorkerSelectionMode,
    admission: Option<PrefillAdmission>,
) -> WorkerSelectionStage<RoundRobinPolicy> {
    let mut policies = PolicyRegistry::new(RoundRobinPolicy::new(), RoundRobinPolicy::new());
    let prefill = policies.add_policy(RoundRobinPolicy::new());
    let decode = policies.add_policy(RoundRobinPolicy::new());
    policies.set_prefill_policy(prefill);
    policies.set_decode_policy(decode);
    WorkerSelectionStage::new(registry_of(workers), policies, mode, admission)
}

fn context() -> RequestContext {
    RequestContext {
        model_id: MODEL.to_string(),
        headers: None,
        rid: None,
        preparation: Some(Preparation { routing_text: None, token_ids: vec![1, 2, 3] }),
        multimodal_intermediate: None,
        sticky_key: None,
        pd_prefill_guard: None,
        workers: None,
    }
}

fn items(hashes: Vec<Vec<u8>>) -> MultimodalIntermediate {
    MultimodalIntermediate { routing_hashes: Ok(hashes), unsupported: Vec::new() }
}

fn failure(outcome: StageOutcome) -> Response {
    match outcome {
        StageOutcome::Failed(response) => response,
        other => panic!("the run should have failed: {other:?}"),
    }
}

fn pair_stage(admission: Option<PrefillAdmission>) -> WorkerSelectionStage<RoundRobinPolicy> {
    round_robin_stage(
        &[
            grpc_worker("grpc://p1", WorkerType::Prefill, RuntimeType::Sglang),
            grpc_worker("grpc://p2", WorkerType::Prefill, RuntimeType::Sglang),
            grpc_worker("grpc://d1", WorkerType::Decode, RuntimeType::Sglang),
        ],
        WorkerSelectionMode::PrefillDecode,
        admission,
    )
}

#[test]
fn a_regular_run_selects_one_worker_and_records_it() {
    let mut stage = round_robin_stage(
        &[
            grpc_worker("grpc://r1", WorkerType::Regular, RuntimeType::Vllm),
            grpc_worker("grpc://r2", WorkerType::Regular, RuntimeType::Vllm),
        ],
        WorkerSelectionMode::Regular,
        None,
    );
    let mut ctx = context();
    assert!(matches!(stage.execute(&mut ctx, AdmissionEvent::Arrived), StageOutcome::Selected));
    let workers = ctx.workers.as_ref().unwrap();
    match workers {
        WorkerSelection::Single { worker } => assert_eq!(worker.url, "grpc://r1"),
        _ => panic!("a regular run selects one worker"),
    }
    assert_eq!(selection_runtime(workers), RuntimeType::Vllm);
    assert!(ctx.pd_prefill_guard.is_none());
    assert!(ctx.sticky_key.is_none());
    assert_eq!(stage.selections.len(), 1);
    assert_eq!(stage.selections[0].role, WorkerType::Regular);
    assert_eq!(stage.selections[0].connection, ConnectionMode::Grpc);
    assert_eq!(stage.selections[0].model_id, MODEL);
    assert_eq!(stage.selections[0].policy, "round_robin");
}

#[test]
fn a_pair_run_fills_the_request_and_takes_a_place() {
    let mut stage = pair_stage(Some(PrefillAdmission::new(2, 1, 500)));
    let mut ctx = context();
    assert!(matches!(stage.execute(&mut ctx, AdmissionEvent::Arrived), StageOutcome::Selected));
    match ctx.workers.as_ref().unwrap() {
        WorkerSelection::Disaggregated { encode_assignments, prefill, decode, runtime_type } => {
            assert!(encode_assignments.is_none());
            assert_eq!(prefill.url, "grpc://p1");
            assert_eq!(decode.url, "grpc://d1");
            assert_eq!(*runtime_type, RuntimeType::Sglang);
        }
        _ => panic!("a pair run selects two workers"),
    }
    assert_eq!(selection_runtime(ctx.workers.as_ref().unwrap()), RuntimeType::Sglang);
    let guard = ctx.pd_prefill_guard.take().unwrap();
    assert_eq!(guard.prefill.url, "grpc://p1");
    assert_eq!(stage.prefill_admission.as_ref().unwrap().worker_load("grpc://p1"), 1);
    stage.release_prefill(guard);
    assert_eq!(stage.prefill_admission.as_ref().unwrap().worker_load("grpc://p1"), 0);
    let roles: Vec<WorkerType> = stage.selections.iter().map(|record| record.role).collect();
    assert_eq!(roles, vec![WorkerType::Prefill, WorkerType::Decode]);
}

#[test]
fn an_encode_run_assigns_every_item_in_order() {
    let mut stage = round_robin_stage(
        &[
            grpc_worker("grpc://e1", WorkerType::Encode, RuntimeType::TokenSpeed),
            grpc_worker("grpc://e2", WorkerType::Encode, RuntimeType::TokenSpeed),
            grpc_worker("grpc://p1", WorkerType::Prefill, RuntimeType::Sglang),
            grpc_worker("grpc://p2", WorkerType::Prefill, RuntimeType::TokenSpeed),
            grpc_worker("grpc://d1", WorkerType::Decode, RuntimeType::Sglang),
            grpc_worker("grpc://d2", WorkerType::Decode, RuntimeType::TokenSpeed),
        ],
        WorkerSelectionMode::EncodePrefillDecode,
        None,
    );
    let mut ctx = context();
    ctx.multimodal_intermediate = Some(items(vec![vec![1], vec![2], vec![3]]));
    assert!(matches!(stage.execute(&mut ctx, AdmissionEvent::Arrived), StageOutcome::Selected));
    match ctx.workers.as_ref().unwrap() {
        WorkerSelection::Disaggregated { encode_assignments, prefill, decode, runtime_type } => {
            let assigned: Vec<(usize, &str)> = encode_assignments
                .as_ref()
                .unwrap()
                .iter()
                .map(|assignment| (assignment.item_index, assignment.worker.url.as_str()))
                .collect();
            assert_eq!(assigned, vec![(0, "grpc://e1"), (1, "grpc://e2"), (2, "grpc://e1")]);
            assert_eq!(prefill.url, "grpc://p2");
            assert_eq!(decode.url, "grpc://d2");
            assert_eq!(*runtime_type, RuntimeType::TokenSpeed);
        }
        _ => panic!("an encode run selects a pair"),
    }
    let roles: Vec<WorkerType> = stage.selections.iter().map(|record| record.role).collect();
    assert_eq!(
        roles,
        vec![
            WorkerType::Encode,
            WorkerType::Encode,
            WorkerType::Encode,
            WorkerType::Prefill,
            WorkerType::Decode,
        ]
    );

    // A request without items takes the first shared runtime, and no encode worker.
    let mut text_only = context();
    assert!(matches!(
        stage.execute(&mut text_only, AdmissionEvent::Arrived),
        StageOutcome::Selected
    ));
    match text_only.workers.as_ref().unwrap() {
        WorkerSelection::Disaggregated { encode_assignments, prefill, runtime_type, .. } => {
            assert!(encode_assignments.is_none());
            assert_eq!(prefill.url, "grpc://p1");
            assert_eq!(*runtime_type, RuntimeType::Sglang);
        }
        _ => panic!("an encode run selects a pair"),
    }
}

#[test]
fn a_run_without_preparation_is_an_internal_error() {
    let mut stage = pair_stage(None);
    let mut ctx = context();
    ctx.preparation = None;
    let response = failure(stage.execute(&mut ctx, AdmissionEvent::Arrived));
    assert_eq!(response.status, 500);
    assert_eq!(response.code, "preparation_stage_not_completed");
    assert_eq!(response.message, "Preparation stage not completed");
    assert!(ctx.workers.is_none());
    assert!(stage.selections.is_empty());
}

#[test]
fn hashes_that_cannot_be_derived_end_an_encode_run_only() {
    let broken = || {
        Some(MultimodalIntermediate {
            routing_hashes: Err("no content hash".to_string()),
            unsupported: Vec::new(),
        })
    };
    let mut stage = round_robin_stage(&[], WorkerSelectionMode::EncodePrefillDecode, None);
    let mut ctx = context();
    ctx.multimodal_intermediate = broken();
    let response = failure(stage.execute(&mut ctx, AdmissionEvent::Arrived));
    assert_eq!(response.status, 500);
    assert_eq!(response.code, "encode_routing_hash_failed");
    assert_eq!(response.message, "Failed to derive encode routing hashes: no content hash");

    // Nothing is hashed in the other modes.
    let mut stage = pair_stage(None);
    let mut ctx = context();
    ctx.multimodal_intermediate = broken();
    assert!(matches!(stage.execute(&mut ctx, AdmissionEvent::Arrived), StageOutcome::Selected));
}

#[test]
fn an_unsupported_modality_is_refused_once_the_runtime_is_known() {
    let unsupported = || {
        Some(MultimodalIntermediate {
            routing_hashes: Ok(Vec::new()),
            unsupported: vec![
                UnsupportedModality {
                    runtime: RuntimeType::Vllm,
                    reason: "vllm takes no audio".to_string(),
                },
                UnsupportedModality {
                    runtime: RuntimeType::Sglang,
                    reason: "sglang takes no video".to_string(),
                },
                UnsupportedModality {
                    runtime: RuntimeType::Sglang,
                    reason: "a later reason".to_string(),
                },
            ],
        })
    };
    let mut stage = pair_stage(Some(PrefillAdmission::new(1, 0, 500)));
    let mut ctx = context();
    ctx.multimodal_intermediate = unsupported();
    let response = failure(stage.execute(&mut ctx, AdmissionEvent::Arrived));
    assert_eq!(response.status, 400);
    assert_eq!(response.code, "multimodal_not_supported");
    assert_eq!(response.message, "sglang takes no video");
    assert!(ctx.workers.is_none());
    // The place was taken and is the request's to hand back.
    stage.release_prefill(ctx.pd_prefill_guard.take().unwrap());
    assert_eq!(stage.prefill_admission.as_ref().unwrap().worker_load("grpc://p1"), 0);

    let mut tolerant = round_robin_stage(
        &[grpc_worker("grpc://r1", WorkerType::Regular, RuntimeType::TokenSpeed)],
        WorkerSelectionMode::Regular,
        None,
    );
    let mut ctx = context();
    ctx.multimodal_intermediate = unsupported();
    assert!(matches!(
        tolerant.execute(&mut ctx, AdmissionEvent::Arrived),
        StageOutcome::Selected
    ));
}

#[test]
fn a_full_stage_queues_resumes_and_times_out() {
    let mut stage = pair_stage(Some(PrefillAdmission::new(1, 1, 500)));
    let mut first = context();
    let mut second = context();
    let mut third = context();
    let mut fourth = context();
    assert!(matches!(stage.execute(&mut first, AdmissionEvent::Arrived), StageOutcome::Selected));
    assert!(matches!(stage.execute(&mut second, AdmissionEvent::Arrived), StageOutcome::Selected));

    // Both workers are full now: the third request waits, the fourth finds the queue full.
    assert!(matches!(stage.execute(&mut third, AdmissionEvent::Arrived), StageOutcome::Waiting));
    assert_eq!(stage.prefill_admission.as_ref().unwrap().queued_requests(), 1);
    let response = failure(stage.execute(&mut fourth, AdmissionEvent::Arrived));
    assert_eq!(response.status, 429);
    assert_eq!(response.code, PD_PREFILL_QUEUE_FULL);
    assert_eq!(response.message, "Prefill admission queue is full");
    assert_eq!(stage.prefill_admission.as_ref().unwrap().queued_requests(), 1);

    // A wake-up that finds no room leaves the request where it is.
    assert!(matches!(
        stage.execute(&mut third, AdmissionEvent::CapacityFreed),
        StageOutcome::Waiting
    ));
    assert_eq!(stage.prefill_admission.as_ref().unwrap().queued_requests(), 1);

    // Waiting recorded nothing.
    assert_eq!(stage.selections.len(), 4);

    stage.release_prefill(second.pd_prefill_guard.take().unwrap());
    assert!(matches!(
        stage.execute(&mut third, AdmissionEvent::CapacityFreed),
        StageOutcome::Selected
    ));
    assert_eq!(third.pd_prefill_guard.as_ref().unwrap().prefill.url, "grpc://p2");
    assert_eq!(stage.prefill_admission.as_ref().unwrap().queued_requests(), 0);

    assert!(matches!(stage.execute(&mut fourth, AdmissionEvent::Arrived), StageOutcome::Waiting));
    let response = failure(stage.execute(&mut fourth, AdmissionEvent::TimedOut));
    assert_eq!(response.status, 429);
    assert_eq!(response.code, PD_PREFILL_QUEUE_TIMEOUT);
    assert_eq!(response.message, "Timed out waiting for Prefill admission");
    assert!(fourth.workers.is_none());
    assert_eq!(stage.prefill_admission.as_ref().unwrap().queued_requests(), 0);
}

#[test]
fn a_waiting_request_asks_no_policy() {
    let asked: Rc<RefCell<usize>> = Rc::new(RefCell::new(0));
    let counting = |asked: &Rc<RefCell<usize>>| -> FnPolicy<Select> {
        let asked = Rc::clone(asked);
        FnPolicy::new(
            "counting".to_string(),
            false,
            Box::new(move |workers: &Vec<Arc<Worker>>, _: &SelectWorkerInfo<'_>| {
                *asked.borrow_mut() += 1;
                if workers.is_empty() {
                    None
                } else {
                    Some(0)
                }
            }),
        )
    };
    let mut stage = WorkerSelectionStage::new(
        registry_of(&[
            grpc_worker("grpc://p1", WorkerType::Prefill, RuntimeType::Sglang),
            grpc_worker("grpc://d1", WorkerType::Decode, RuntimeType::Sglang),
        ]),
        PolicyRegistry::new(counting(&asked), counting(&asked)),
        WorkerSelectionMode::PrefillDecode,
        Some(PrefillAdmission::new(1, 1, 500)),
    );
    let mut first = context();
    assert!(matches!(stage.execute(&mut first, AdmissionEvent::Arrived), StageOutcome::Selected));
    assert_eq!(*asked.borrow(), 2);
    let mut second = context();
    assert!(matches!(stage.execute(&mut second, AdmissionEvent::Arrived), StageOutcome::Waiting));
    assert_eq!(*asked.borrow(), 2);
    assert!(second.pd_prefill_guard.is_none());
    stage.release_prefill(first.pd_prefill_guard.take().unwrap());
    assert!(matches!(
        stage.execute(&mut second, AdmissionEvent::CapacityFreed),
        StageOutcome::Selected
    ));
    assert_eq!(*asked.borrow(), 4);
}

#[test]
fn a_queued_request_leaves_when_its_workers_are_gone() {
    let mut stage = pair_stage(Some(PrefillAdmission::new(0, 1, 500)));
    let mut ctx = context();
    assert!(matches!(stage.execute(&mut ctx, AdmissionEvent::Arrived), StageOutcome::Waiting));
    let decode = stage.worker_registry.get_by_url("grpc://d1").unwrap();
    stage.worker_registry.set_worker_overloaded(&decode, true);
    let response = failure(stage.execute(&mut ctx, AdmissionEvent::CapacityFreed));
    assert_eq!(response.status, 503);
    assert!(response.shed);
    assert_eq!(stage.prefill_admission.as_ref().unwrap().queued_requests(), 0);
}

#[test]
fn every_acquire_error_has_its_answer() {
    let stage = pair_stage(None);
    let legs = [WorkerType::Prefill, WorkerType::Decode];
    let answer = |error: PrefillAcquireError| stage.admission_response("other-model", &legs, error);
    let full = answer(PrefillAcquireError::Rejected(PrefillAdmissionRejection::QueueFull));
    assert_eq!((full.status, full.code.as_str()), (429, PD_PREFILL_QUEUE_FULL));
    let late = answer(PrefillAcquireError::Rejected(PrefillAdmissionRejection::QueueTimeout));
    assert_eq!((late.status, late.code.as_str()), (429, PD_PREFILL_QUEUE_TIMEOUT));
    let gone = answer(PrefillAcquireError::Rejected(PrefillAdmissionRejection::Unavailable));
    assert_eq!((gone.status, gone.code.as_str()), (404, "model_not_found"));
    assert_eq!(gone.message, "No available workers for model: other-model");
    let none = answer(PrefillAcquireError::Candidate(GrpcPdCandidateError::Unavailable));
    assert_eq!((none.status, none.code.as_str()), (404, "model_not_found"));
    assert!(GrpcPdCandidateError::AtCapacity.is_at_capacity());
    assert!(!GrpcPdCandidateError::Unavailable.is_at_capacity());
}

#[test]
fn the_sticky_key_comes_from_the_request_id_before_the_header() {
    let sticky = || {
        WorkerSelectionStage::new(
            registry_of(&[grpc_worker("grpc://r1", WorkerType::Regular, RuntimeType::Sglang)]),
            PolicyRegistry::with_override(RoundRobinPolicy::new(), RoundRobinPolicy::new()),
            WorkerSelectionMode::Regular,
            None,
        )
    };
    let mut headers = HeaderMap::new();
    headers.insert("x-smg-routing-key", "from-header".parse().unwrap());

    let mut stage = sticky();
    let mut ctx = context();
    ctx.rid = Some("conv9_t4".to_string());
    ctx.headers = Some(headers.clone());
    stage.execute(&mut ctx, AdmissionEvent::Arrived);
    assert_eq!(ctx.sticky_key.as_deref(), Some("conv9"));

    let mut ctx = context();
    ctx.headers = Some(headers.clone());
    stage.execute(&mut ctx, AdmissionEvent::Arrived);
    assert_eq!(ctx.sticky_key.as_deref(), Some("from-header"));

    // Without the override there is no sticky key.
    let mut stage = round_robin_stage(
        &[grpc_worker("grpc://r1", WorkerType::Regular, RuntimeType::Sglang)],
        WorkerSelectionMode::Regular,
        None,
    );
    let mut ctx = context();
    ctx.rid = Some("conv9_t4".to_string());
    ctx.headers = Some(headers);
    stage.execute(&mut ctx, AdmissionEvent::Arrived);
    assert_eq!(ctx.sticky_key, None);
}

/// What a policy was told: text, tokens, routing key, rid key, the leg and the ring's points.
type Told = (Option<String>, Option<Vec<u32>>, Option<String>, Option<String>, WorkerLeg, usize);

fn listening(told: &Rc<RefCell<Vec<Told>>>) -> FnPolicy<Select> {
    let told = Rc::clone(told);
    FnPolicy::new(
        "listening".to_string(),
        false,
        Box::new(move |_: &Vec<Arc<Worker>>, info: &SelectWorkerInfo<'_>| {
            told.borrow_mut().push((
                info.request_text.map(str::to_string),
                info.tokens.map(|tokens| tokens.to_vec()),
                info.routing_key.map(str::to_string),
                info.rid_key.map(str::to_string),
                info.leg,
                info.hash_ring.as_ref().map_or(0, |ring| ring.points.len()),
            ));
            Some(0)
        }),
    )
}

#[test]
fn policies_are_told_of_the_request_and_its_leg() {
    let told: Rc<RefCell<Vec<Told>>> = Rc::new(RefCell::new(Vec::new()));
    let mut registry = registry_of(&[
        grpc_worker("grpc://p1", WorkerType::Prefill, RuntimeType::Sglang),
        grpc_worker("grpc://d1", WorkerType::Decode, RuntimeType::Sglang),
    ]);
    registry.set_hash_ring(
        MODEL.to_string(),
        HashRing { points: vec![RingPoint { hash: 7, url: "grpc://p1".to_string() }] },
    );
    let mut stage = WorkerSelectionStage::new(
        registry,
        PolicyRegistry::with_override(listening(&told), listening(&told)),
        WorkerSelectionMode::PrefillDecode,
        None,
    );
    let mut headers = HeaderMap::new();
    headers.insert("x-smg-routing-key", "a-key".parse().unwrap());
    let mut ctx = context();
    ctx.rid = Some("conv1_t2".to_string());
    ctx.headers = Some(headers);
    ctx.preparation =
        Some(Preparation { routing_text: Some("hello".to_string()), token_ids: vec![] });
    assert!(matches!(stage.execute(&mut ctx, AdmissionEvent::Arrived), StageOutcome::Selected));
    let expected = |leg: WorkerLeg| -> Told {
        (
            Some("hello".to_string()),
            None,
            Some("a-key".to_string()),
            Some("conv1".to_string()),
            leg,
            1,
        )
    };
    assert_eq!(
        *told.borrow(),
        vec![expected(WorkerLeg::Prefill), expected(WorkerLeg::Decode)]
    );
}

#[test]
fn items_are_routed_by_their_content_alone() {
    let keys: Rc<RefCell<Vec<String>>> = Rc::new(RefCell::new(Vec::new()));
    let seen = Rc::clone(&keys);
    let select: Select = Box::new(move |workers, info| {
        assert!(info.request_text.is_none() && info.tokens.is_none());
        assert!(info.routing_key.is_none() && info.rid_key.is_none());
        assert_eq!(info.leg, WorkerLeg::Single);
        let headers = info.headers.unwrap();
        assert_eq!(headers.len(), 1);
        let key = headers.get("x-smg-routing-key").unwrap().to_str().unwrap().to_string();
        let last = key == "ff";
        seen.borrow_mut().push(key);
        if last {
            None
        } else {
            Some(workers.len() - 1)
        }
    });
    let mut policy = FnPolicy::new("by-content".to_string(), false, select);
    let workers = vec![
        grpc_worker("grpc://e1", WorkerType::Encode, RuntimeType::TokenSpeed),
        grpc_worker("grpc://e2", WorkerType::Encode, RuntimeType::TokenSpeed),
    ];
    let mut records = Vec::new();
    let assigned = assign_encode_workers(
        &workers,
        &vec![vec![0x00, 0x1f], vec![0xa0]],
        MODEL,
        &mut policy,
        None,
        &mut records,
    )
    .unwrap();
    assert_eq!(*keys.borrow(), vec!["001f".to_string(), "a0".to_string()]);
    assert_eq!(assigned.len(), 2);
    assert_eq!((assigned[0].item_index, assigned[0].worker.url.as_str()), (0, "grpc://e2"));
    assert_eq!((assigned[1].item_index, assigned[1].worker.url.as_str()), (1, "grpc://e2"));
    assert_eq!(records.len(), 2);
    assert_eq!(records[0].role, WorkerType::Encode);
    assert_eq!(records[0].connection, ConnectionMode::Grpc);
    assert_eq!(records[0].policy, "by-content");

    // The first item without a worker ends the assignment; what came before stays recorded.
    let failed = assign_encode_workers(
        &workers,
        &vec![vec![0x01], vec![0xff], vec![0x02]],
        MODEL,
        &mut policy,
        None,
        &mut records,
    );
    assert!(failed.is_none());
    assert_eq!(records.len(), 3);

    // No items need no workers.
    let none =
        assign_encode_workers(&Vec::new(), &Vec::new(), MODEL, &mut policy, None, &mut records);
    assert_eq!(none.unwrap().len(), 0);
    assert_eq!(records.len(), 3);
}

#[test]
fn a_vetoed_leg_or_an_unserved_model_ends_the_run() {
    let mut stage = pair_stage(None);
    let decode = stage.worker_registry.get_by_url("grpc://d1").unwrap();
    stage.worker_registry.set_worker_overloaded(&decode, true);
    let mut ctx = context();
    let response = failure(stage.execute(&mut ctx, AdmissionEvent::Arrived));
    assert_eq!(response.status, 503);
    assert_eq!(response.code, "no_available_workers");
    assert!(response.shed);
    assert!(stage.selections.is_empty());

    let mut ctx = context();
    ctx.model_id = "nobody".to_string();
    let response = failure(stage.execute(&mut ctx, AdmissionEvent::Arrived));
    assert_eq!(response.status, 404);
    assert!(!response.shed);

    // The veto lifted, the pair is there again.
    stage.worker_registry.set_worker_overloaded(&decode, false);
    let mut ctx = context();
    assert!(matches!(stage.execute(&mut ctx, AdmissionEvent::Arrived), StageOutcome::Selected));
}

#[test]
fn a_vetoed_encode_leg_sheds_requests_with_items_only() {
    let mut stage = round_robin_stage(
        &[
            grpc_worker("grpc://e1", WorkerType::Encode, RuntimeType::TokenSpeed),
            grpc_worker("grpc://p1", WorkerType::Prefill, RuntimeType::TokenSpeed),
            grpc_worker("grpc://d1", WorkerType::Decode, RuntimeType::TokenSpeed),
        ],
        WorkerSelectionMode::EncodePrefillDecode,
        Some(PrefillAdmission::new(5, 0, 500)),
    );
    let encode = stage.worker_registry.get_by_url("grpc://e1").unwrap();
    stage.worker_registry.set_worker_overloaded(&encode, true);
    let mut ctx = context();
    ctx.multimodal_intermediate = Some(items(vec![vec![9]]));
    let response = failure(stage.execute(&mut ctx, AdmissionEvent::Arrived));
    assert_eq!(response.status, 503);
    let mut text_only = context();
    assert!(matches!(
        stage.execute(&mut text_only, AdmissionEvent::Arrived),
        StageOutcome::Selected
    ));
}

#[test]
fn encode_requests_wait_for_a_full_prefill_worker() {
    let mut stage = round_robin_stage(
        &[
            grpc_worker("grpc://e1", WorkerType::Encode, RuntimeType::TokenSpeed),
            grpc_worker("grpc://p1", WorkerType::Prefill, RuntimeType::TokenSpeed),
            grpc_worker("grpc://d1", WorkerType::Decode, RuntimeType::TokenSpeed),
        ],
        WorkerSelectionMode::EncodePrefillDecode,
        Some(PrefillAdmission::new(1, 1, 500)),
    );
    let hashes = vec![vec![1u8]];
    let guard = match stage.admit_encode_prefill_decode_workers(
        AdmissionEvent::Arrived,
        MODEL,
        None,
        None,
        None,
        None,
        &hashes,
    ) {
        AdmissionOutcome::Admitted((assigned, prefill, decode, runtime), guard) => {
            assert_eq!(assigned.len(), 1);
            assert_eq!(prefill.url, "grpc://p1");
            assert_eq!(decode.url, "grpc://d1");
            assert_eq!(runtime, RuntimeType::TokenSpeed);
            guard
        }
        _ => panic!("there is room"),
    };
    let again = stage.admit_encode_prefill_decode_workers(
        AdmissionEvent::Arrived,
        MODEL,
        None,
        None,
        None,
        None,
        &hashes,
    );
    assert!(matches!(again, AdmissionOutcome::Waiting));
    let late = stage.admit_encode_prefill_decode_workers(
        AdmissionEvent::TimedOut,
        MODEL,
        None,
        None,
        None,
        None,
        &hashes,
    );
    match late {
        AdmissionOutcome::Rejected(response) => {
            assert_eq!(response.code, PD_PREFILL_QUEUE_TIMEOUT)
        }
        _ => panic!("the request waited too long"),
    }
    stage.release_prefill(guard);
    assert_eq!(stage.prefill_admission.as_ref().unwrap().worker_load("grpc://p1"), 0);
}

#[test]
fn the_stage_names_itself_and_its_mode() {
    let modes = [
        (WorkerSelectionMode::Regular, "WorkerSelectionStage(Regular)"),
        (WorkerSelectionMode::PrefillDecode, "WorkerSelectionStage(PrefillDecode)"),
        (WorkerSelectionMode::EncodePrefillDecode, "WorkerSelectionStage(EncodePrefillDecode)"),
    ];
    for (mode, signature) in modes {
        let stage = round_robin_stage(&[], mode, None);
        assert_eq!(stage.name(), "WorkerSelection");
        assert_eq!(stage.signature(), signature);
        assert_eq!(stage.signature(), format!("WorkerSelectionStage({mode:?})"));
    }
}

#[test]
fn a_full_named_worker_is_not_replaced_where_encoding_is_disaggregated() {
    let targeting = || -> FnPolicy<Select> {
        FnPolicy::new(
            "consistent_hashing".to_string(),
            false,
            Box::new(|workers: &Vec<Arc<Worker>>, _: &SelectWorkerInfo<'_>| {
                if workers.is_empty() {
                    None
                } else {
                    Some(0)
                }
            }),
        )
    };
    let full = grpc_worker("grpc://p1", WorkerType::Prefill, RuntimeType::TokenSpeed);
    let mut admission = PrefillAdmission::new(1, 1, 500);
    let occupied = admission.occupy(&full).unwrap();
    let mut stage = WorkerSelectionStage::new(
        registry_of(&[
            full,
            grpc_worker("grpc://p2", WorkerType::Prefill, RuntimeType::TokenSpeed),
            grpc_worker("grpc://d1", WorkerType::Decode, RuntimeType::TokenSpeed),
            grpc_worker("grpc://e1", WorkerType::Encode, RuntimeType::TokenSpeed),
        ]),
        PolicyRegistry::new(targeting(), targeting()),
        WorkerSelectionMode::EncodePrefillDecode,
        Some(admission),
    );
    let mut headers = HeaderMap::new();
    headers.insert("x-smg-target-worker", "0".parse().unwrap());
    let mut ctx = context();
    ctx.headers = Some(headers);
    ctx.multimodal_intermediate = Some(items(vec![vec![5]]));
    assert!(matches!(stage.execute(&mut ctx, AdmissionEvent::Arrived), StageOutcome::Waiting));
    assert!(stage.selections.is_empty());
    assert_eq!(stage.prefill_admission.as_ref().unwrap().worker_load("grpc://p2"), 0);
    stage.release_prefill(occupied);
    assert!(matches!(
        stage.execute(&mut ctx, AdmissionEvent::CapacityFreed),
        StageOutcome::Selected
    ));
    assert_eq!(ctx.pd_prefill_guard.as_ref().unwrap().prefill.url, "grpc://p1");
}

#[test]
fn a_request_that_is_run_again_holds_one_place() {
    let mut stage = pair_stage(Some(PrefillAdmission::new(2, 0, 500)));
    let loads = |stage: &WorkerSelectionStage<RoundRobinPolicy>| {
        let admission = stage.prefill_admission.as_ref().unwrap();
        (admission.worker_load("grpc://p1"), admission.worker_load("grpc://p2"))
    };
    let mut ctx = context();
    assert!(matches!(stage.execute(&mut ctx, AdmissionEvent::Arrived), StageOutcome::Selected));
    assert_eq!(loads(&stage), (1, 0));
    // Another worker has its turn: the place moves with the request.
    assert!(matches!(stage.execute(&mut ctx, AdmissionEvent::Arrived), StageOutcome::Selected));
    assert_eq!(ctx.pd_prefill_guard.as_ref().unwrap().prefill.url, "grpc://p2");
    assert_eq!(loads(&stage), (0, 1));
    // The same worker again: one place, not two.
    let p1 = stage.worker_registry.get_by_url("grpc://p1").unwrap();
    stage.worker_registry.set_worker_overloaded(&p1, true);
    assert!(matches!(stage.execute(&mut ctx, AdmissionEvent::Arrived), StageOutcome::Selected));
    assert_eq!(ctx.pd_prefill_guard.as_ref().unwrap().prefill.url, "grpc://p2");
    assert_eq!(loads(&stage), (0, 1));
    // A run that fails leaves the place with the request.
    ctx.model_id = "nobody".to_string();
    assert_eq!(failure(stage.execute(&mut ctx, AdmissionEvent::Arrived)).status, 404);
    assert_eq!(loads(&stage), (0, 1));
    stage.release_replaced(ctx.pd_prefill_guard.take());
    assert_eq!(loads(&stage), (0, 0));
    stage.release_replaced(None);
    assert_eq!(loads(&stage), (0, 0));
}

#[test]
fn an_encode_request_that_is_run_again_holds_one_place() {
    let mut stage = round_robin_stage(
        &[
            grpc_worker("grpc://e1", WorkerType::Encode, RuntimeType::TokenSpeed),
            grpc_worker("grpc://p1", WorkerType::Prefill, RuntimeType::TokenSpeed),
            grpc_worker("grpc://d1", WorkerType::Decode, RuntimeType::TokenSpeed),
        ],
        WorkerSelectionMode::EncodePrefillDecode,
        Some(PrefillAdmission::new(2, 1, 500)),
    );
    let mut ctx = context();
    ctx.multimodal_intermediate = Some(items(vec![vec![4]]));
    for _ in 0..3 {
        assert!(matches!(
            stage.execute(&mut ctx, AdmissionEvent::Arrived),
            StageOutcome::Selected
        ));
        assert_eq!(stage.prefill_admission.as_ref().unwrap().worker_load("grpc://p1"), 1);
    }
    // The new place is taken before the old one is handed back, so both must fit.
    let other = stage.worker_registry.get_by_url("grpc://p1").unwrap();
    let place = stage.prefill_admission.as_mut().unwrap().occupy(&other);
    assert!(place.is_some());
    assert!(matches!(stage.execute(&mut ctx, AdmissionEvent::Arrived), StageOutcome::Waiting));
    assert_eq!(stage.prefill_admission.as_ref().unwrap().worker_load("grpc://p1"), 2);
}

#[test]
fn the_encode_pool_does_not_touch_requests_without_items() {
    let pair = || {
        vec![
            grpc_worker("grpc://p1", WorkerType::Prefill, RuntimeType::Sglang),
            grpc_worker("grpc://p2", WorkerType::Prefill, RuntimeType::Sglang),
            grpc_worker("grpc://d1", WorkerType::Decode, RuntimeType::Sglang),
        ]
    };
    let vetoed = Arc::new(
        grpc_worker("grpc://e1", WorkerType::Encode, RuntimeType::TokenSpeed).with_veto(true),
    );
    let other = grpc_worker("grpc://e2", WorkerType::Encode, RuntimeType::Vllm);
    for encode in [vec![], vec![vetoed], vec![other]] {
        let mut workers = encode;
        workers.extend(pair());
        let mode = WorkerSelectionMode::EncodePrefillDecode;
        let mut stage = round_robin_stage(&workers, mode, None);
        let mut plain = round_robin_stage(&pair(), WorkerSelectionMode::PrefillDecode, None);
        for _ in 0..3 {
            let (assigned, prefill, decode, runtime) = stage
                .select_encode_prefill_decode_workers(MODEL, None, None, None, None, &Vec::new())
                .unwrap();
            let expected = plain.select_pd_pair(MODEL, None, None, None, None).unwrap();
            assert!(assigned.is_empty());
            assert_eq!(prefill.url, expected.0.url);
            assert_eq!(decode.url, expected.1.url);
            assert_eq!(runtime, expected.2);
        }
        assert_eq!(stage.selections.len(), 6);
    }
}

#[test]
fn a_conversation_stays_on_its_pair_while_there_is_room() {
    let mut stage = WorkerSelectionStage::new(
        registry_of(&[
            grpc_worker("grpc://p1", WorkerType::Prefill, RuntimeType::Sglang),
            grpc_worker("grpc://p2", WorkerType::Prefill, RuntimeType::Sglang),
            grpc_worker("grpc://d1", WorkerType::Decode, RuntimeType::Sglang),
            grpc_worker("grpc://d2", WorkerType::Decode, RuntimeType::Sglang),
        ]),
        PolicyRegistry::with_override(RoundRobinPolicy::new(), RoundRobinPolicy::new()),
        WorkerSelectionMode::PrefillDecode,
        Some(PrefillAdmission::new(2, 0, 500)),
    );
    let run = |stage: &mut WorkerSelectionStage<RoundRobinPolicy>, rid: &str| {
        let mut ctx = context();
        ctx.rid = Some(rid.to_string());
        assert!(matches!(
            stage.execute(&mut ctx, AdmissionEvent::Arrived),
            StageOutcome::Selected
        ));
        match ctx.workers.unwrap() {
            WorkerSelection::Disaggregated { prefill, decode, .. } => {
                (prefill.url.clone(), decode.url.clone())
            }
            _ => panic!("a pair run selects two workers"),
        }
    };
    let first = run(&mut stage, "conv_t1");
    assert_eq!(run(&mut stage, "conv_t2"), first);
    // The prefill worker is full now: another takes the turn, and the decode worker stays.
    let third = run(&mut stage, "conv_t3");
    assert_ne!(third.0, first.0);
    assert_eq!(third.1, first.1);
}

#[test]
fn the_notices_of_a_pair_name_empty_legs_and_mixed_pools() {
    let notices = |workers: &[Arc<Worker>]| {
        let stage = round_robin_stage(workers, WorkerSelectionMode::PrefillDecode, None);
        stage.notices(&context(), AdmissionEvent::Arrived)
    };
    let prefill = |url: &str, runtime| grpc_worker(url, WorkerType::Prefill, runtime);
    let decode = |url: &str, runtime| grpc_worker(url, WorkerType::Decode, runtime);
    let none = |leg| vec![SelectionNotice::NoAvailableWorkers { leg }];
    assert_eq!(notices(&[]), none(WorkerType::Prefill));
    assert_eq!(
        notices(&[prefill("p1", RuntimeType::Vllm), prefill("p2", RuntimeType::Sglang)]),
        none(WorkerType::Decode)
    );
    assert_eq!(
        notices(&[prefill("p1", RuntimeType::Vllm), decode("d1", RuntimeType::Vllm)]),
        vec![]
    );
    assert_eq!(
        notices(&[
            prefill("p1", RuntimeType::Vllm),
            prefill("p2", RuntimeType::Sglang),
            decode("d1", RuntimeType::Vllm),
        ]),
        vec![SelectionNotice::MixedPair {
            prefill_mixed: true,
            decode_mixed: false,
            runtime: RuntimeType::Vllm,
        }]
    );
    assert_eq!(
        notices(&[prefill("p1", RuntimeType::Vllm), decode("d1", RuntimeType::Sglang)]),
        vec![
            SelectionNotice::MixedPair {
                prefill_mixed: false,
                decode_mixed: true,
                runtime: RuntimeType::Vllm,
            },
            SelectionNotice::NoPairOnRuntime { runtime: RuntimeType::Vllm },
        ]
    );
    // A worker that is not available does not make a pool mixed.
    assert_eq!(
        notices(&[
            prefill("p1", RuntimeType::Vllm),
            Arc::new(prefill("p2", RuntimeType::Sglang).with_veto(true)),
            decode("d1", RuntimeType::Vllm),
        ]),
        vec![]
    );
    assert!(!any_on_other_runtime(&Vec::new(), RuntimeType::Vllm));
}

#[test]
fn the_notices_of_a_set_count_the_encode_pool_for_items_only() {
    let encode = |runtime| grpc_worker("grpc://e1", WorkerType::Encode, runtime);
    let pair = |runtime| {
        vec![
            grpc_worker("grpc://p1", WorkerType::Prefill, runtime),
            grpc_worker("grpc://d1", WorkerType::Decode, runtime),
        ]
    };
    let notices = |workers: Vec<Arc<Worker>>, needs_encode: bool| {
        let mode = WorkerSelectionMode::EncodePrefillDecode;
        let stage = round_robin_stage(&workers, mode, None);
        let mut ctx = context();
        let hashes = if needs_encode { vec![vec![1]] } else { vec![] };
        ctx.multimodal_intermediate = Some(items(hashes));
        stage.notices(&ctx, AdmissionEvent::CapacityFreed)
    };
    let speed = RuntimeType::TokenSpeed;
    let with = |first: Arc<Worker>, rest: Vec<Arc<Worker>>| {
        let mut workers = vec![first];
        workers.extend(rest);
        workers
    };
    assert_eq!(
        notices(pair(speed), true),
        vec![SelectionNotice::NoAvailableWorkers { leg: WorkerType::Encode }]
    );
    assert_eq!(notices(pair(speed), false), vec![]);
    assert_eq!(notices(with(encode(speed), pair(speed)), true), vec![]);
    assert_eq!(
        notices(with(encode(speed), vec![]), true),
        vec![SelectionNotice::NoAvailableWorkers { leg: WorkerType::Prefill }]
    );
    let decode_gone = pair(speed)[..1].to_vec();
    assert_eq!(
        notices(decode_gone, false),
        vec![SelectionNotice::NoAvailableWorkers { leg: WorkerType::Decode }]
    );
    // Items need the one runtime that encodes; text needs any that the pair shares.
    let vllm = || with(encode(RuntimeType::Vllm), pair(RuntimeType::Vllm));
    assert_eq!(notices(vllm(), true), vec![SelectionNotice::NoSharedRuntime]);
    assert_eq!(notices(vllm(), false), vec![]);
    // An encode worker on another runtime is a mix for items only.
    let mut mixed = with(encode(speed), pair(speed));
    mixed.push(grpc_worker("grpc://e2", WorkerType::Encode, RuntimeType::Vllm));
    assert_eq!(
        notices(mixed.clone(), true),
        vec![SelectionNotice::MixedSet { runtime: speed }]
    );
    assert_eq!(notices(mixed, false), vec![]);
}

#[test]
fn a_run_that_selects_no_pair_has_no_notices() {
    let regular = round_robin_stage(&[], WorkerSelectionMode::Regular, None);
    assert_eq!(regular.notices(&context(), AdmissionEvent::Arrived), vec![]);
    let stage = round_robin_stage(&[], WorkerSelectionMode::PrefillDecode, None);
    assert_eq!(stage.notices(&context(), AdmissionEvent::TimedOut), vec![]);
    let mut unprepared = context();
    unprepared.preparation = None;
    assert_eq!(stage.notices(&unprepared, AdmissionEvent::Arrived), vec![]);
    let stage = round_robin_stage(&[], WorkerSelectionMode::EncodePrefillDecode, None);
    let mut broken = context();
    broken.multimodal_intermediate = Some(MultimodalIntermediate {
        routing_hashes: Err("no content hash".to_string()),
        unsupported: Vec::new(),
    });
    assert_eq!(stage.notices(&broken, AdmissionEvent::Arrived), vec![]);
}
