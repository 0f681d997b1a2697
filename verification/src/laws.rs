//! What holds of every selection.

use crate::admission::{GrpcPdCandidateError, PrefillAdmission};
use crate::policy::{InfoView, LoadBalancingPolicy, WorkerLeg};
use crate::policy_registry::{
    lemma_position_of, policy_step, registry_step, sticky_key, PolicyRoles, PolicyState,
};
use crate::pool::{
    has_runtime, lemma_filter_elements, members, on_runtime, ready, serving, RoutingPool,
    UNKNOWN_MODEL_ID,
};
use crate::registry::{HashRing, WorkerRegistry};
use crate::selection::{
    encode_info, encode_outcome, encode_run, epd_assignment, epd_candidates, epd_result,
    epd_selection, first_shared_runtime, fits, lemma_first_shared_runtime, lemma_on_runtime,
    lemma_unlimited_room, offered, pair_on_runtime, pair_selection, pd_candidates, pd_selection,
    ready_members, request_targeted, shared_runtime, single_selection, with_room,
    EncodeWorkerAssignment, EpdCandidates, EpdOutcome, PairCandidates, PdWorkerPair, RecordView,
    RequestView,
};
use crate::worker::{ConnectionMode, RuntimeType, Worker};
use std::sync::Arc;
use vstd::prelude::*;

verus! {

/// The worker is registered and serves the model, or any model is asked for.
pub open spec fn registered_for(
    registry: WorkerRegistry,
    model: Seq<char>,
    worker: Arc<Worker>,
) -> bool {
    registry.workers().contains(worker) && (model == UNKNOWN_MODEL_ID@ || worker.serves(model))
}

/// The worker may serve a leg: it is registered for the model, belongs to the pool of the leg,
/// and is available.
pub open spec fn may_serve(
    registry: WorkerRegistry,
    model: Seq<char>,
    pool: RoutingPool,
    worker: Arc<Worker>,
) -> bool {
    registered_for(registry, model, worker) && pool.admits(*worker) && worker.available()
}

proof fn lemma_pool_workers(registry: WorkerRegistry, model: Seq<char>, pool: RoutingPool)
    ensures
        forall|i: int|
            0 <= i < registry.routing_pool(model, pool).len() ==> registered_for(
                registry,
                model,
                #[trigger] registry.routing_pool(model, pool)[i],
            ) && pool.admits(*registry.routing_pool(model, pool)[i]),
{
    let serves = |worker: Arc<Worker>| worker.serves(model);
    let inside = |worker: Arc<Worker>| pool.admits(*worker);
    let served = serving(registry.workers(), model);
    let list = members(served, pool);
    lemma_filter_elements(registry.workers(), serves);
    lemma_filter_elements(served, inside);
    assert forall|i: int| 0 <= i < list.len() implies registered_for(
        registry,
        model,
        #[trigger] list[i],
    ) && pool.admits(*list[i]) by {
        assert(inside(served.filter(inside)[i]));
        assert(served.contains(list[i]));
        let j = choose|j: int| 0 <= j < served.len() && served[j] == list[i];
        if model != UNKNOWN_MODEL_ID@ {
            assert(serves(registry.workers().filter(serves)[j]));
        }
    }
}

proof fn lemma_ready_workers(registry: WorkerRegistry, model: Seq<char>, pool: RoutingPool)
    ensures
        ready_members(serving(registry.workers(), model), pool) == ready(
            registry.routing_pool(model, pool),
        ),
        forall|i: int|
            0 <= i < ready(registry.routing_pool(model, pool)).len() ==> may_serve(
                registry,
                model,
                pool,
                #[trigger] ready(registry.routing_pool(model, pool))[i],
            ),
{
    let open = |worker: Arc<Worker>| worker.available();
    let whole = registry.routing_pool(model, pool);
    let list = ready(whole);
    lemma_pool_workers(registry, model, pool);
    lemma_filter_elements(whole, open);
    assert forall|i: int| 0 <= i < list.len() implies may_serve(
        registry,
        model,
        pool,
        #[trigger] list[i],
    ) by {
        assert(open(whole.filter(open)[i]));
        assert(whole.contains(list[i]));
        let j = choose|j: int| 0 <= j < whole.len() && whole[j] == list[i];
        assert(registered_for(registry, model, whole[j]));
    }
}

/// The list narrowed to a runtime holds workers of the list that run it.
proof fn lemma_runtime_workers(list: Seq<Arc<Worker>>, runtime: RuntimeType, worker: Arc<Worker>)
    requires
        on_runtime(list, runtime).contains(worker),
    ensures
        list.contains(worker),
        worker.runtime_type == runtime,
{
    let keep = |any: Arc<Worker>| any.runtime_type == runtime;
    lemma_filter_elements(list, keep);
    let i = choose|i: int| 0 <= i < list.filter(keep).len() && list.filter(keep)[i] == worker;
    assert(keep(list.filter(keep)[i]));
}

/// The list narrowed to workers with room holds workers of the list that have room.
proof fn lemma_room_workers(
    list: Seq<Arc<Worker>>,
    capacity: Option<PrefillAdmission>,
    worker: Arc<Worker>,
)
    requires
        with_room(list, capacity).contains(worker),
    ensures
        list.contains(worker),
        fits(capacity, *worker),
{
    let keep = |any: Arc<Worker>| fits(capacity, *any);
    lemma_filter_elements(list, keep);
    let i = choose|i: int| 0 <= i < list.filter(keep).len() && list.filter(keep)[i] == worker;
    assert(keep(list.filter(keep)[i]));
}

/// A pair consists of candidates, and its prefill worker has room.
proof fn lemma_pair<P: LoadBalancingPolicy>(
    before: PolicyState<P>,
    roles: PolicyRoles,
    candidates: PairCandidates,
    request: RequestView,
    ring: Option<Arc<HashRing>>,
    capacity: Option<PrefillAdmission>,
    outcome: Result<(Arc<Worker>, Arc<Worker>), GrpcPdCandidateError>,
    after: PolicyState<P>,
)
    requires
        pair_selection(before, roles, candidates, request, ring, capacity, outcome, after),
    ensures
        outcome matches Ok((prefill, decode)) ==> candidates.prefill.contains(prefill)
            && candidates.decode.contains(decode) && fits(capacity, *prefill),
{
}

/// The candidates of a pair are workers of the two lists that run the runtime.
pub proof fn lemma_pair_candidates(
    prefill: Seq<Arc<Worker>>,
    decode: Seq<Arc<Worker>>,
    runtime: RuntimeType,
    targeted: bool,
    capacity: Option<PrefillAdmission>,
)
    ensures
        pair_on_runtime(prefill, decode, runtime, targeted, capacity) matches Ok(candidates) ==> {
            &&& candidates.runtime == runtime
            &&& forall|worker: Arc<Worker>| #[trigger]
                candidates.prefill.contains(worker) ==> prefill.contains(worker)
                    && worker.runtime_type == runtime && (!targeted ==> fits(capacity, *worker))
            &&& forall|worker: Arc<Worker>| #[trigger]
                candidates.decode.contains(worker) ==> decode.contains(worker)
                    && worker.runtime_type == runtime
        },
{
    if let Ok(candidates) = pair_on_runtime(prefill, decode, runtime, targeted, capacity) {
        assert forall|worker: Arc<Worker>| #[trigger] candidates.prefill.contains(worker) implies
            prefill.contains(worker) && worker.runtime_type == runtime && (!targeted ==> fits(
            capacity,
            *worker,
        )) by {
            if !targeted {
                lemma_room_workers(on_runtime(prefill, runtime), capacity, worker);
            }
            lemma_runtime_workers(prefill, runtime, worker);
        }
        assert forall|worker: Arc<Worker>| #[trigger] candidates.decode.contains(worker) implies
            decode.contains(worker) && worker.runtime_type == runtime by {
            lemma_runtime_workers(decode, runtime, worker);
        }
    }
}

/// A candidate that has room stays a candidate, whatever the load of the others.
pub proof fn lemma_candidate_kept(
    prefill: Seq<Arc<Worker>>,
    decode: Seq<Arc<Worker>>,
    runtime: RuntimeType,
    targeted: bool,
    capacity: Option<PrefillAdmission>,
    later_targeted: bool,
    later_capacity: Option<PrefillAdmission>,
    worker: Arc<Worker>,
)
    requires
        pair_on_runtime(prefill, decode, runtime, targeted, capacity) is Ok,
        pair_on_runtime(
            prefill,
            decode,
            runtime,
            targeted,
            capacity,
        )->Ok_0.prefill.contains(worker),
    ensures
        fits(later_capacity, *worker) ==> pair_on_runtime(
            prefill,
            decode,
            runtime,
            later_targeted,
            later_capacity,
        ) is Ok && pair_on_runtime(
            prefill,
            decode,
            runtime,
            later_targeted,
            later_capacity,
        )->Ok_0.prefill.contains(worker),
{
    let list = on_runtime(prefill, runtime);
    let keep = |any: Arc<Worker>| fits(later_capacity, *any);
    if !targeted {
        lemma_room_workers(list, capacity, worker);
    }
    assert(list.contains(worker));
    lemma_filter_elements(list, keep);
    let i = choose|i: int| 0 <= i < list.len() && list[i] == worker;
    if keep(list[i]) {
        assert(list.filter(keep).contains(list[i]));
    }
}

/// A regular request gets a worker that is registered for the model, serves whole requests over
/// gRPC or ZMQ, and is available. A worker on HTTP is never selected.
pub proof fn law_single_worker_may_serve<P: LoadBalancingPolicy>(
    before: PolicyState<P>,
    roles: PolicyRoles,
    registry: WorkerRegistry,
    request: RequestView,
    selected: Option<Arc<Worker>>,
    records: Seq<RecordView>,
    after: PolicyState<P>,
)
    requires
        single_selection(before, roles, registry, request, selected, records, after),
    ensures
        selected matches Some(worker) ==> {
            &&& may_serve(registry, request.model, RoutingPool::GrpcPipelineRegular, worker)
            &&& worker.connection_mode != ConnectionMode::Http
        },
{
    let pool = RoutingPool::GrpcPipelineRegular;
    lemma_pool_workers(registry, request.model, pool);
    lemma_ready_workers(registry, request.model, pool);
    if let Some(worker) = selected {
        let workers = offered(before, roles, registry, request.model);
        let info = request.info(
            registry.hash_ring(request.model),
            WorkerLeg::Single,
        );
        let picked = choose|picked: Option<usize>|
            #[trigger] registry_step(
                before,
                roles.sticky,
                roles.for_model(request.model),
                workers,
                info,
                picked,
                after,
            ) && picked is Some && picked->0 < workers.len() && selected == Some(
                workers[picked->0 as int],
            );
        let at = picked->0 as int;
        if let Some(key) = sticky_key(info) {
            lemma_position_of(workers, before.pins[(info.leg, key)]);
        }
        assert(registered_for(registry, request.model, workers[at]));
    }
}

/// A pair is a prefill and a decode worker that are registered for the model, are reached over
/// gRPC, are available, and run one runtime, which is the one that is returned. A worker on ZMQ
/// is never paired. Under a limit on the load, the prefill worker has room.
pub proof fn law_pd_pair_may_serve<P: LoadBalancingPolicy>(
    before: PolicyState<P>,
    roles: PolicyRoles,
    registry: WorkerRegistry,
    request: RequestView,
    capacity: Option<PrefillAdmission>,
    outcome: Result<PdWorkerPair, GrpcPdCandidateError>,
    records: Seq<RecordView>,
    after: PolicyState<P>,
)
    requires
        pd_selection(before, roles, registry, request, capacity, outcome, records, after),
    ensures
        outcome matches Ok((prefill, decode, runtime)) ==> {
            &&& may_serve(registry, request.model, RoutingPool::GrpcPrefill, prefill)
            &&& may_serve(registry, request.model, RoutingPool::GrpcDecode, decode)
            &&& prefill.connection_mode == ConnectionMode::Grpc
            &&& decode.connection_mode == ConnectionMode::Grpc
            &&& prefill.runtime_type == runtime
            &&& decode.runtime_type == runtime
            &&& fits(capacity, *prefill)
        },
{
    if let Ok((prefill, decode, runtime)) = outcome {
        let snapshot = serving(registry.workers(), request.model);
        let targeted = request_targeted(before, roles, request);
        let all_prefill = ready_members(snapshot, RoutingPool::GrpcPrefill);
        let all_decode = ready_members(snapshot, RoutingPool::GrpcDecode);
        let candidates = pd_candidates(snapshot, targeted, capacity)->Ok_0;
        lemma_pair(
            before,
            roles,
            candidates,
            request,
            registry.hash_ring(request.model),
            capacity,
            Ok((prefill, decode)),
            after,
        );
        lemma_pair_candidates(all_prefill, all_decode, runtime, targeted, capacity);
        lemma_ready_workers(registry, request.model, RoutingPool::GrpcPrefill);
        lemma_ready_workers(registry, request.model, RoutingPool::GrpcDecode);
        assert(all_prefill.contains(prefill));
        assert(all_decode.contains(decode));
    }
}

/// A prefill worker that is selected under a limit on the load has room for the request.
pub proof fn lemma_pd_prefill_fits<P: LoadBalancingPolicy>(
    before: PolicyState<P>,
    roles: PolicyRoles,
    registry: WorkerRegistry,
    request: RequestView,
    capacity: Option<PrefillAdmission>,
    outcome: Result<PdWorkerPair, GrpcPdCandidateError>,
    records: Seq<RecordView>,
    after: PolicyState<P>,
)
    requires
        pd_selection(before, roles, registry, request, capacity, outcome, records, after),
    ensures
        outcome matches Ok((prefill, _, _)) ==> fits(capacity, *prefill),
{
}

/// The same of a prefill worker that is selected together with encode workers.
pub proof fn lemma_epd_prefill_fits<P: LoadBalancingPolicy>(
    before: PolicyState<P>,
    roles: PolicyRoles,
    registry: WorkerRegistry,
    request: RequestView,
    hashes: Seq<Seq<u8>>,
    capacity: Option<PrefillAdmission>,
    outcome: Result<EpdOutcome, GrpcPdCandidateError>,
    records: Seq<RecordView>,
    after: PolicyState<P>,
)
    requires
        epd_selection(before, roles, registry, request, hashes, capacity, outcome, records, after),
    ensures
        outcome matches Ok(selected) ==> fits(capacity, *selected.prefill),
{
}

/// The encode policy makes one pick per item, and each lies in the list.
proof fn lemma_encode_run<P: LoadBalancingPolicy>(
    before: P,
    workers: Seq<Arc<Worker>>,
    hashes: Seq<Seq<u8>>,
    ring: Option<Arc<HashRing>>,
    picks: Seq<usize>,
    after: P,
)
    requires
        encode_run(before, workers, hashes, ring, picks, after),
    ensures
        picks.len() == hashes.len(),
        forall|i: int| 0 <= i < picks.len() ==> #[trigger] picks[i] < workers.len(),
    decreases hashes.len(),
{
    if hashes.len() > 0 {
        let between = choose|between: P|
            encode_run(
                before,
                workers,
                hashes.drop_last(),
                ring,
                picks.drop_last(),
                between,
            ) && #[trigger] policy_step(
                between,
                workers,
                encode_info(hashes.last(), ring),
                Some(picks.last()),
                after,
            );
        lemma_encode_run(before, workers, hashes.drop_last(), ring, picks.drop_last(), between);
        assert forall|i: int| 0 <= i < picks.len() implies #[trigger] picks[i] < workers.len() by {
            if i < picks.len() - 1 {
                assert(picks.drop_last()[i] == picks[i]);
            }
        }
    }
}

/// The items of a selection are assigned one by one, in order, to workers of the list.
proof fn lemma_assigned<P: LoadBalancingPolicy>(
    before: P,
    workers: Seq<Arc<Worker>>,
    hashes: Seq<Seq<u8>>,
    ring: Option<Arc<HashRing>>,
    picks: Seq<usize>,
    assigned: Seq<EncodeWorkerAssignment>,
    after: P,
)
    requires
        encode_outcome(before, workers, hashes, ring, picks, Some(assigned), after),
    ensures
        assigned.len() == hashes.len(),
        forall|i: int|
            0 <= i < assigned.len() ==> (#[trigger] assigned[i]).item_index == i as usize
                && workers.contains(assigned[i].worker),
{
    lemma_encode_run(before, workers, hashes, ring, picks, after);
    assert forall|i: int| 0 <= i < assigned.len() implies (#[trigger] assigned[i]).item_index
        == i as usize && workers.contains(assigned[i].worker) by {
        assert(picks[i] < workers.len());
        assert(workers[picks[i] as int] == assigned[i].worker);
    }
}

/// With disaggregated encoding, all workers of a selection are registered for the model, are
/// reached over gRPC, are available, and run one runtime, which is the one that is returned.
/// Every item has one encode worker, in the order of the items, and a request with items runs
/// on TokenSpeed. Under a limit on the load, the prefill worker has room.
pub proof fn law_epd_workers_may_serve<P: LoadBalancingPolicy>(
    before: PolicyState<P>,
    roles: PolicyRoles,
    registry: WorkerRegistry,
    request: RequestView,
    hashes: Seq<Seq<u8>>,
    capacity: Option<PrefillAdmission>,
    outcome: Result<EpdOutcome, GrpcPdCandidateError>,
    records: Seq<RecordView>,
    after: PolicyState<P>,
)
    requires
        epd_selection(before, roles, registry, request, hashes, capacity, outcome, records, after),
    ensures
        outcome matches Ok(selected) ==> {
            &&& may_serve(registry, request.model, RoutingPool::GrpcPrefill, selected.prefill)
            &&& may_serve(registry, request.model, RoutingPool::GrpcDecode, selected.decode)
            &&& selected.prefill.runtime_type == selected.runtime
            &&& selected.decode.runtime_type == selected.runtime
            &&& fits(capacity, *selected.prefill)
            &&& selected.assigned.len() == hashes.len()
            &&& forall|i: int|
                0 <= i < selected.assigned.len() ==> {
                    let assignment = #[trigger] selected.assigned[i];
                    &&& assignment.item_index == i as usize
                    &&& may_serve(
                        registry,
                        request.model,
                        RoutingPool::GrpcEncode,
                        assignment.worker,
                    )
                    &&& assignment.worker.runtime_type == selected.runtime
                }
            &&& hashes.len() > 0 ==> selected.runtime == RuntimeType::TokenSpeed
        },
{
    if let Ok(selected) = outcome {
        let snapshot = serving(registry.workers(), request.model);
        let ring = registry.hash_ring(request.model);
        let targeted = request_targeted(before, roles, request);
        let all_encode = ready_members(snapshot, RoutingPool::GrpcEncode);
        let all_prefill = ready_members(snapshot, RoutingPool::GrpcPrefill);
        let all_decode = ready_members(snapshot, RoutingPool::GrpcDecode);
        let candidates = epd_candidates(snapshot, hashes.len() > 0, targeted, capacity)->Ok_0;
        let runtime = candidates.pair.runtime;
        let (pair, between) = choose|
            pair: Result<(Arc<Worker>, Arc<Worker>), GrpcPdCandidateError>,
            between: PolicyState<P>,
        |
            #[trigger] pair_selection(
                before,
                roles,
                candidates.pair,
                request,
                ring,
                capacity,
                pair,
                between,
            ) && pair is Ok && epd_assignment(
                between,
                roles,
                candidates,
                request,
                ring,
                hashes,
                pair->Ok_0.0,
                pair->Ok_0.1,
                outcome,
                records,
                after,
            );
        let encode = roles.encode.index as int;
        let (picks, assigned) = choose|
            picks: Seq<usize>,
            assigned: Option<Seq<EncodeWorkerAssignment>>,
        |
            #[trigger] encode_outcome(
                between.policies[encode],
                candidates.encode,
                hashes,
                ring,
                picks,
                assigned,
                after.policies[encode],
            ) && epd_result(
                between,
                roles,
                candidates,
                request,
                pair->Ok_0.0,
                pair->Ok_0.1,
                picks,
                assigned,
                outcome,
                records,
            );
        lemma_pair(before, roles, candidates.pair, request, ring, capacity, pair, between);
        lemma_pair_candidates(all_prefill, all_decode, runtime, targeted, capacity);
        lemma_first_shared_runtime(all_prefill, all_encode, all_decode, hashes.len() > 0);
        lemma_ready_workers(registry, request.model, RoutingPool::GrpcPrefill);
        lemma_ready_workers(registry, request.model, RoutingPool::GrpcDecode);
        lemma_ready_workers(registry, request.model, RoutingPool::GrpcEncode);
        assert(all_prefill.contains(selected.prefill));
        assert(all_decode.contains(selected.decode));
        lemma_assigned(
            between.policies[encode],
            candidates.encode,
            hashes,
            ring,
            picks,
            selected.assigned,
            after.policies[encode],
        );
        assert forall|i: int| 0 <= i < selected.assigned.len() implies {
            let assignment = #[trigger] selected.assigned[i];
            &&& assignment.item_index == i as usize
            &&& may_serve(registry, request.model, RoutingPool::GrpcEncode, assignment.worker)
            &&& assignment.worker.runtime_type == selected.runtime
        } by {
            lemma_runtime_workers(all_encode, runtime, selected.assigned[i].worker);
        }
    }
}

/// A pair finds no candidates only if the request does not name its worker and every prefill
/// worker on the runtime is full.
proof fn lemma_full_candidates(
    prefill: Seq<Arc<Worker>>,
    decode: Seq<Arc<Worker>>,
    runtime: RuntimeType,
    targeted: bool,
    capacity: Option<PrefillAdmission>,
)
    requires
        has_runtime(prefill, runtime),
        pair_on_runtime(prefill, decode, runtime, targeted, capacity) is Err,
    ensures
        !targeted,
        capacity is Some,
        all_full(prefill, runtime, capacity),
{
    let list = on_runtime(prefill, runtime);
    lemma_unlimited_room(list);
    lemma_on_runtime(prefill, runtime);
    let keep = |worker: Arc<Worker>| worker.runtime_type == runtime;
    let room = |worker: Arc<Worker>| fits(capacity, *worker);
    lemma_filter_elements(prefill, keep);
    lemma_filter_elements(list, room);
    assert forall|i: int|
        0 <= i < prefill.len() && (#[trigger] prefill[i]).runtime_type == runtime implies !fits(
        capacity,
        *prefill[i],
    ) by {
        assert(keep(prefill[i]));
        assert(list.contains(prefill[i]));
        let j = choose|j: int| 0 <= j < list.len() && list[j] == prefill[i];
        if room(list[j]) {
            assert(list.filter(room).contains(list[j]));
        }
    }
}

/// The picks of a pair report a full prefill worker only if a candidate is full.
proof fn lemma_full_pick<P: LoadBalancingPolicy>(
    before: PolicyState<P>,
    roles: PolicyRoles,
    candidates: PairCandidates,
    request: RequestView,
    ring: Option<Arc<HashRing>>,
    capacity: Option<PrefillAdmission>,
    after: PolicyState<P>,
)
    requires
        pair_selection(
            before,
            roles,
            candidates,
            request,
            ring,
            capacity,
            Err(GrpcPdCandidateError::AtCapacity),
            after,
        ),
    ensures
        capacity is Some,
        exists|worker: Arc<Worker>| #[trigger]
            candidates.prefill.contains(worker) && !fits(capacity, *worker),
{
    let info = request.info(ring, WorkerLeg::Prefill);
    let (picked, between) = choose|picked: Option<usize>, between: PolicyState<P>|
        #[trigger] registry_step(
            before,
            roles.sticky,
            roles.for_prefill(),
            candidates.prefill,
            info,
            picked,
            between,
        ) && picked is Some && picked->0 < candidates.prefill.len() && !fits(
            capacity,
            *candidates.prefill[picked->0 as int],
        );
    assert(candidates.prefill.contains(candidates.prefill[picked->0 as int]));
}

/// Every worker of the list that runs the runtime is full.
pub open spec fn all_full(
    workers: Seq<Arc<Worker>>,
    runtime: RuntimeType,
    capacity: Option<PrefillAdmission>,
) -> bool {
    forall|i: int|
        0 <= i < workers.len() && (#[trigger] workers[i]).runtime_type == runtime ==> !fits(
            capacity,
            *workers[i],
        )
}

/// Without a limit on the load, a selection never reports that the prefill workers are full.
/// With one, a request that does not name its worker is told so only if every available prefill
/// worker on the runtime of the pair is full; and then no policy was asked, no key was pinned,
/// and nothing was recorded.
pub proof fn law_pd_at_capacity_means_full<P: LoadBalancingPolicy>(
    before: PolicyState<P>,
    roles: PolicyRoles,
    registry: WorkerRegistry,
    request: RequestView,
    capacity: Option<PrefillAdmission>,
    outcome: Result<PdWorkerPair, GrpcPdCandidateError>,
    records: Seq<RecordView>,
    after: PolicyState<P>,
)
    requires
        pd_selection(before, roles, registry, request, capacity, outcome, records, after),
        outcome == Err::<PdWorkerPair, GrpcPdCandidateError>(GrpcPdCandidateError::AtCapacity),
    ensures
        capacity is Some,
        records.len() == 0,
        !request_targeted(before, roles, request) ==> {
            let prefill = ready(
                registry.routing_pool(request.model, RoutingPool::GrpcPrefill),
            );
            &&& prefill.len() > 0
            &&& all_full(prefill, prefill[0].runtime_type, capacity)
            &&& after == before
        },
{
    let snapshot = serving(registry.workers(), request.model);
    let ring = registry.hash_ring(request.model);
    let targeted = request_targeted(before, roles, request);
    let prefill = ready_members(snapshot, RoutingPool::GrpcPrefill);
    let decode = ready_members(snapshot, RoutingPool::GrpcDecode);
    let runtime = prefill[0].runtime_type;
    match pd_candidates(snapshot, targeted, capacity) {
        Ok(candidates) => {
            lemma_pair_candidates(prefill, decode, runtime, targeted, capacity);
            lemma_full_pick(before, roles, candidates, request, ring, capacity, after);
        },
        Err(_) => {
            assert(has_runtime(prefill, prefill[0].runtime_type));
            lemma_full_candidates(prefill, decode, runtime, targeted, capacity);
        },
    }
}

/// The same with disaggregated encoding, for the runtime that the needed legs share.
pub proof fn law_epd_at_capacity_means_full<P: LoadBalancingPolicy>(
    before: PolicyState<P>,
    roles: PolicyRoles,
    registry: WorkerRegistry,
    request: RequestView,
    hashes: Seq<Seq<u8>>,
    capacity: Option<PrefillAdmission>,
    outcome: Result<EpdOutcome, GrpcPdCandidateError>,
    records: Seq<RecordView>,
    after: PolicyState<P>,
)
    requires
        epd_selection(before, roles, registry, request, hashes, capacity, outcome, records, after),
        outcome == Err::<EpdOutcome, GrpcPdCandidateError>(GrpcPdCandidateError::AtCapacity),
    ensures
        capacity is Some,
        records.len() == 0,
        !request_targeted(before, roles, request) ==> {
            let encode = ready(registry.routing_pool(request.model, RoutingPool::GrpcEncode));
            let prefill = ready(registry.routing_pool(request.model, RoutingPool::GrpcPrefill));
            let decode = ready(registry.routing_pool(request.model, RoutingPool::GrpcDecode));
            &&& first_shared_runtime(prefill, encode, decode, hashes.len() > 0) matches Some(
                runtime,
            ) && all_full(prefill, runtime, capacity)
            &&& after == before
        },
{
    let snapshot = serving(registry.workers(), request.model);
    let ring = registry.hash_ring(request.model);
    let targeted = request_targeted(before, roles, request);
    let encode = ready_members(snapshot, RoutingPool::GrpcEncode);
    let prefill = ready_members(snapshot, RoutingPool::GrpcPrefill);
    let decode = ready_members(snapshot, RoutingPool::GrpcDecode);
    let shared = first_shared_runtime(prefill, encode, decode, hashes.len() > 0);
    lemma_first_shared_runtime(prefill, encode, decode, hashes.len() > 0);
    match epd_candidates(snapshot, hashes.len() > 0, targeted, capacity) {
        Ok(candidates) => {
            lemma_pair_candidates(prefill, decode, shared->0, targeted, capacity);
            lemma_full_pick(before, roles, candidates.pair, request, ring, capacity, after);
        },
        Err(_) => {
            lemma_full_candidates(prefill, decode, shared->0, targeted, capacity);
        },
    }
}

/// A request that names its worker is never given another because its worker is full: the
/// candidates do not depend on the load.
pub proof fn law_target_is_not_reassigned(
    snapshot: Seq<Arc<Worker>>,
    needs_encode: bool,
    capacity: Option<PrefillAdmission>,
)
    ensures
        pd_candidates(snapshot, true, capacity) == pd_candidates(snapshot, true, None),
        epd_candidates(snapshot, needs_encode, true, capacity) == epd_candidates(
            snapshot,
            needs_encode,
            true,
            None,
        ),
{
}

/// Whatever is picked from the list for the prefill leg is a full worker.
pub open spec fn picks_are_full<P: LoadBalancingPolicy>(
    before: PolicyState<P>,
    roles: PolicyRoles,
    workers: Seq<Arc<Worker>>,
    info: InfoView,
    capacity: Option<PrefillAdmission>,
) -> bool {
    forall|picked: Option<usize>, after: PolicyState<P>| #[trigger]
        registry_step(before, roles.sticky, roles.for_prefill(), workers, info, picked, after) ==> (
        picked matches Some(at) && at < workers.len() && !fits(capacity, *workers[at as int]))
}

/// A request whose named worker is full gets no other: it is told that its worker is full, even
/// if others have room, and nothing is recorded.
pub proof fn law_full_target_is_not_replaced<P: LoadBalancingPolicy>(
    before: PolicyState<P>,
    roles: PolicyRoles,
    registry: WorkerRegistry,
    request: RequestView,
    capacity: Option<PrefillAdmission>,
    outcome: Result<PdWorkerPair, GrpcPdCandidateError>,
    records: Seq<RecordView>,
    after: PolicyState<P>,
)
    requires
        pd_selection(before, roles, registry, request, capacity, outcome, records, after),
        request_targeted(before, roles, request),
        pd_candidates(serving(registry.workers(), request.model), true, None) is Ok,
        picks_are_full(
            before,
            roles,
            pd_candidates(serving(registry.workers(), request.model), true, None)->Ok_0.prefill,
            request.info(registry.hash_ring(request.model), WorkerLeg::Prefill),
            capacity,
        ),
    ensures
        outcome == Err::<PdWorkerPair, GrpcPdCandidateError>(GrpcPdCandidateError::AtCapacity),
        records.len() == 0,
{
    law_target_is_not_reassigned(serving(registry.workers(), request.model), false, capacity);
}

/// The same with disaggregated encoding.
pub proof fn law_full_encode_target_is_not_replaced<P: LoadBalancingPolicy>(
    before: PolicyState<P>,
    roles: PolicyRoles,
    registry: WorkerRegistry,
    request: RequestView,
    hashes: Seq<Seq<u8>>,
    capacity: Option<PrefillAdmission>,
    outcome: Result<EpdOutcome, GrpcPdCandidateError>,
    records: Seq<RecordView>,
    after: PolicyState<P>,
)
    requires
        epd_selection(before, roles, registry, request, hashes, capacity, outcome, records, after),
        request_targeted(before, roles, request),
        epd_candidates(
            serving(registry.workers(), request.model),
            hashes.len() > 0,
            true,
            None,
        ) is Ok,
        picks_are_full(
            before,
            roles,
            epd_candidates(
                serving(registry.workers(), request.model),
                hashes.len() > 0,
                true,
                None,
            )->Ok_0.pair.prefill,
            request.info(registry.hash_ring(request.model), WorkerLeg::Prefill),
            capacity,
        ),
    ensures
        outcome == Err::<EpdOutcome, GrpcPdCandidateError>(GrpcPdCandidateError::AtCapacity),
        records.len() == 0,
{
    law_target_is_not_reassigned(
        serving(registry.workers(), request.model),
        hashes.len() > 0,
        capacity,
    );
}

/// A set of encode, prefill and decode workers is found unavailable if and only if no runtime
/// has an available worker in every leg that the request needs.
pub proof fn law_shared_runtime_is_found(
    snapshot: Seq<Arc<Worker>>,
    needs_encode: bool,
    targeted: bool,
    capacity: Option<PrefillAdmission>,
)
    ensures
        epd_candidates(snapshot, needs_encode, targeted, capacity) == Err::<
            EpdCandidates,
            GrpcPdCandidateError,
        >(GrpcPdCandidateError::Unavailable) <==> !exists|runtime: RuntimeType| {
            &&& has_runtime(ready_members(snapshot, RoutingPool::GrpcPrefill), runtime)
            &&& #[trigger] shared_runtime(
                runtime,
                ready_members(snapshot, RoutingPool::GrpcEncode),
                ready_members(snapshot, RoutingPool::GrpcDecode),
                needs_encode,
            )
        },
{
    let encode = ready_members(snapshot, RoutingPool::GrpcEncode);
    let prefill = ready_members(snapshot, RoutingPool::GrpcPrefill);
    let decode = ready_members(snapshot, RoutingPool::GrpcDecode);
    lemma_first_shared_runtime(prefill, encode, decode, needs_encode);
    match first_shared_runtime(prefill, encode, decode, needs_encode) {
        Some(runtime) => {
            assert(shared_runtime(runtime, encode, decode, needs_encode));
        },
        None => {
            assert forall|runtime: RuntimeType| #[trigger]
                shared_runtime(runtime, encode, decode, needs_encode) implies !has_runtime(
                prefill,
                runtime,
            ) by {
                if has_runtime(prefill, runtime) {
                    let i = choose|i: int|
                        0 <= i < prefill.len() && (#[trigger] prefill[i]).runtime_type == runtime;
                    assert(!shared_runtime(
                        prefill[i].runtime_type,
                        encode,
                        decode,
                        needs_encode,
                    ));
                }
            }
        },
    }
}

/// The candidates of a request without items are those of a plain pair, wherever the runtime of
/// the first available prefill worker has a decode worker.
pub proof fn law_text_only_shares_pair_candidates(
    snapshot: Seq<Arc<Worker>>,
    targeted: bool,
    capacity: Option<PrefillAdmission>,
)
    requires
        ready_members(snapshot, RoutingPool::GrpcPrefill).len() > 0,
        has_runtime(
            ready_members(snapshot, RoutingPool::GrpcDecode),
            ready_members(snapshot, RoutingPool::GrpcPrefill)[0].runtime_type,
        ),
    ensures
        match (
            epd_candidates(snapshot, false, targeted, capacity),
            pd_candidates(snapshot, targeted, capacity),
        ) {
            (Ok(candidates), Ok(pair)) => candidates.pair == pair,
            (Err(error), Err(expected)) => error == expected,
            _ => false,
        },
{
}

} // verus!
