//! What holds of the answers to requests for which no workers were found.

use crate::admission::{GrpcPdCandidateError, PrefillAdmission};
use crate::policy::{LoadBalancingPolicy, WorkerLeg};
use crate::policy_registry::{lemma_position_of, sticky_key, PolicyRoles, PolicyState};
use crate::pool::{all_overloaded, has_runtime, lemma_filter_elements, ready, serving, RoutingPool};
use crate::prefill::demanded_legs;
use crate::registry::WorkerRegistry;
use crate::response::{not_found_view, shed_view};
use crate::selection::{
    epd_selection, first_shared_runtime, lemma_first_shared_runtime, offered, pd_selection,
    ready_members, single_selection, EpdOutcome, PdWorkerPair, RecordView, RequestView,
};
use crate::stage::{failure_view, leg_overloaded, leg_pool, some_leg_overloaded};
use crate::worker::{RuntimeType, Worker, WorkerType};
use std::sync::Arc;
use vstd::prelude::*;

verus! {

/// A pool that is wholly vetoed has no worker that is available.
proof fn lemma_vetoed_pool_is_empty(pool: Seq<Arc<Worker>>)
    requires
        all_overloaded(pool),
    ensures
        ready(pool).len() == 0,
{
    let open = |worker: Arc<Worker>| worker.available();
    lemma_filter_elements(pool, open);
    if ready(pool).len() > 0 {
        let first = ready(pool)[0];
        assert(open(pool.filter(open)[0]));
        assert(pool.contains(first));
        let i = choose|i: int| 0 <= i < pool.len() && pool[i] == first;
        assert(pool[i].overloaded);
    }
}

/// Nobody serves the model.
pub open spec fn unserved(registry: WorkerRegistry, model: Seq<char>) -> bool {
    serving(registry.workers(), model).len() == 0
}

proof fn lemma_unserved_pool_is_empty(
    registry: WorkerRegistry,
    model: Seq<char>,
    pool: RoutingPool,
)
    requires
        unserved(registry, model),
    ensures
        registry.routing_pool(model, pool).len() == 0,
        ready(registry.routing_pool(model, pool)).len() == 0,
{
    let inside = |worker: Arc<Worker>| pool.admits(*worker);
    let open = |worker: Arc<Worker>| worker.available();
    serving(registry.workers(), model).lemma_filter_len(inside);
    registry.routing_pool(model, pool).lemma_filter_len(open);
}

proof fn lemma_no_runtime(workers: Seq<Arc<Worker>>)
    requires
        workers.len() == 0,
    ensures
        forall|runtime: RuntimeType| !#[trigger] has_runtime(workers, runtime),
{
}

/// The pool that decides on the answer is the pool that the leg selects over: its available
/// workers are the ones that selection takes.
pub proof fn law_failure_and_selection_share_pools(
    registry: WorkerRegistry,
    model: Seq<char>,
    leg: WorkerType,
)
    ensures
        ready(registry.routing_pool(model, leg_pool(leg))) == ready_members(
            serving(registry.workers(), model),
            leg_pool(leg),
        ),
{
}

/// A leg that the request did not need cannot change the answer: it depends on the pools of
/// the legs that were needed, and on nothing else of the registry.
pub proof fn law_undemanded_leg_cannot_shed(
    one: WorkerRegistry,
    other: WorkerRegistry,
    model: Seq<char>,
    legs: Seq<WorkerType>,
)
    requires
        forall|i: int|
            0 <= i < legs.len() ==> one.routing_pool(model, leg_pool(#[trigger] legs[i]))
                == other.routing_pool(model, leg_pool(legs[i])),
    ensures
        failure_view(one, model, legs) == failure_view(other, model, legs),
{
    assert forall|i: int| 0 <= i < legs.len() implies leg_overloaded(one, model, legs[i])
        == leg_overloaded(other, model, #[trigger] legs[i]) by {
    }
    if some_leg_overloaded(one, model, legs) {
        let i = choose|i: int|
            0 <= i < legs.len() && #[trigger] leg_overloaded(one, model, legs[i]);
        assert(leg_overloaded(other, model, legs[i]));
    }
    if some_leg_overloaded(other, model, legs) {
        let i = choose|i: int|
            0 <= i < legs.len() && #[trigger] leg_overloaded(other, model, legs[i]);
        assert(leg_overloaded(one, model, legs[i]));
    }
}

/// A model that nobody serves is reported as not found, whichever legs were needed: the shed
/// does not swallow a misconfiguration.
pub proof fn law_unserved_model_is_not_found(
    registry: WorkerRegistry,
    model: Seq<char>,
    legs: Seq<WorkerType>,
)
    requires
        unserved(registry, model),
    ensures
        failure_view(registry, model, legs) == not_found_view(model),
        failure_view(registry, model, legs).status == 404,
{
    assert forall|i: int| 0 <= i < legs.len() implies !#[trigger] leg_overloaded(
        registry,
        model,
        legs[i],
    ) by {
        lemma_unserved_pool_is_empty(registry, model, leg_pool(legs[i]));
    }
}

/// A regular request for a model whose workers are all vetoed gets no worker, and is shed: the
/// answer is a terminal 503, and not that the model is unknown. A policy that does not filter by
/// itself is not asked.
pub proof fn law_vetoed_model_sheds_regular_requests<P: LoadBalancingPolicy>(
    before: PolicyState<P>,
    roles: PolicyRoles,
    registry: WorkerRegistry,
    request: RequestView,
    selected: Option<Arc<Worker>>,
    records: Seq<RecordView>,
    after: PolicyState<P>,
)
    requires
        single_selection(before, roles, registry, request, selected, records, after),
        leg_overloaded(registry, request.model, WorkerType::Regular),
    ensures
        selected is None,
        records.len() == 0,
        failure_view(registry, request.model, seq![WorkerType::Regular]) == shed_view(
            request.model,
        ),
        shed_view(request.model).status == 503,
        shed_view(request.model).code == "no_available_workers"@,
        shed_view(request.model).shed,
        !before.policies[roles.for_model(request.model).index as int].filters() ==> after == before,
{
    let pool = registry.routing_pool(request.model, RoutingPool::GrpcPipelineRegular);
    lemma_vetoed_pool_is_empty(pool);
    let legs = seq![WorkerType::Regular];
    assert(leg_overloaded(registry, request.model, legs[0]));
    let workers = offered(before, roles, registry, request.model);
    if workers.len() > 0 {
        let info = request.info(registry.hash_ring(request.model), WorkerLeg::Single);
        assert forall|i: int| 0 <= i < workers.len() implies !(
        #[trigger] workers[i]).available() by {
            assert(pool[i].overloaded);
        }
        if let Some(key) = sticky_key(info) {
            lemma_position_of(workers, before.pins[(info.leg, key)]);
        }
    }
}

/// A disaggregated request for a model of which a needed leg is wholly vetoed gets no pair, and
/// is shed, although the other legs have room.
pub proof fn law_vetoed_leg_sheds_pairs<P: LoadBalancingPolicy>(
    before: PolicyState<P>,
    roles: PolicyRoles,
    registry: WorkerRegistry,
    request: RequestView,
    capacity: Option<PrefillAdmission>,
    outcome: Result<PdWorkerPair, GrpcPdCandidateError>,
    records: Seq<RecordView>,
    after: PolicyState<P>,
)
    requires
        pd_selection(before, roles, registry, request, capacity, outcome, records, after),
        some_leg_overloaded(registry, request.model, demanded_legs(0)),
    ensures
        outcome == Err::<PdWorkerPair, GrpcPdCandidateError>(GrpcPdCandidateError::Unavailable),
        records.len() == 0,
        after == before,
        failure_view(registry, request.model, demanded_legs(0)) == shed_view(request.model),
{
    let legs = demanded_legs(0);
    let i = choose|i: int|
        0 <= i < legs.len() && #[trigger] leg_overloaded(registry, request.model, legs[i]);
    let pool = leg_pool(legs[i]);
    lemma_vetoed_pool_is_empty(registry.routing_pool(request.model, pool));
    if pool == RoutingPool::GrpcDecode {
        lemma_no_runtime(ready(registry.routing_pool(request.model, pool)));
    }
}

/// The same where encoding is disaggregated: the encode leg counts as needed for a request
/// with items, and for no other.
pub proof fn law_vetoed_leg_sheds_encode_requests<P: LoadBalancingPolicy>(
    before: PolicyState<P>,
    roles: PolicyRoles,
    registry: WorkerRegistry,
    request: RequestView,
    hashes: Seq<Seq<u8>>,
    capacity: Option<PrefillAdmission>,
    outcome: Result<EpdOutcome, GrpcPdCandidateError>,
    records: Seq<RecordView>,
    after: PolicyState<P>,
)
    requires
        epd_selection(before, roles, registry, request, hashes, capacity, outcome, records, after),
        some_leg_overloaded(registry, request.model, demanded_legs(hashes.len())),
    ensures
        outcome == Err::<EpdOutcome, GrpcPdCandidateError>(GrpcPdCandidateError::Unavailable),
        records.len() == 0,
        after == before,
        failure_view(registry, request.model, demanded_legs(hashes.len())) == shed_view(
            request.model,
        ),
{
    let legs = demanded_legs(hashes.len());
    let i = choose|i: int|
        0 <= i < legs.len() && #[trigger] leg_overloaded(registry, request.model, legs[i]);
    let pool = leg_pool(legs[i]);
    lemma_vetoed_pool_is_empty(registry.routing_pool(request.model, pool));
    lemma_no_runtime(ready(registry.routing_pool(request.model, pool)));
    let snapshot = serving(registry.workers(), request.model);
    let encode = ready_members(snapshot, RoutingPool::GrpcEncode);
    let prefill = ready_members(snapshot, RoutingPool::GrpcPrefill);
    let decode = ready_members(snapshot, RoutingPool::GrpcDecode);
    lemma_first_shared_runtime(prefill, encode, decode, hashes.len() > 0);
    assert(first_shared_runtime(prefill, encode, decode, hashes.len() > 0) is None);
}

/// A regular request for a model that nobody serves gets no worker, and changes nothing.
pub proof fn law_unserved_model_gets_no_worker<P: LoadBalancingPolicy>(
    before: PolicyState<P>,
    roles: PolicyRoles,
    registry: WorkerRegistry,
    request: RequestView,
    selected: Option<Arc<Worker>>,
    records: Seq<RecordView>,
    after: PolicyState<P>,
)
    requires
        single_selection(before, roles, registry, request, selected, records, after),
        unserved(registry, request.model),
    ensures
        selected is None,
        records.len() == 0,
        after == before,
{
    lemma_unserved_pool_is_empty(registry, request.model, RoutingPool::GrpcPipelineRegular);
}

/// A disaggregated request for a model that nobody serves gets no pair, and changes nothing.
pub proof fn law_unserved_model_gets_no_pair<P: LoadBalancingPolicy>(
    before: PolicyState<P>,
    roles: PolicyRoles,
    registry: WorkerRegistry,
    request: RequestView,
    capacity: Option<PrefillAdmission>,
    outcome: Result<PdWorkerPair, GrpcPdCandidateError>,
    records: Seq<RecordView>,
    after: PolicyState<P>,
)
    requires
        pd_selection(before, roles, registry, request, capacity, outcome, records, after),
        unserved(registry, request.model),
    ensures
        outcome == Err::<PdWorkerPair, GrpcPdCandidateError>(GrpcPdCandidateError::Unavailable),
        records.len() == 0,
        after == before,
{
    lemma_unserved_pool_is_empty(registry, request.model, RoutingPool::GrpcPrefill);
}

/// The same where encoding is disaggregated.
pub proof fn law_unserved_model_gets_no_set<P: LoadBalancingPolicy>(
    before: PolicyState<P>,
    roles: PolicyRoles,
    registry: WorkerRegistry,
    request: RequestView,
    hashes: Seq<Seq<u8>>,
    capacity: Option<PrefillAdmission>,
    outcome: Result<EpdOutcome, GrpcPdCandidateError>,
    records: Seq<RecordView>,
    after: PolicyState<P>,
)
    requires
        epd_selection(before, roles, registry, request, hashes, capacity, outcome, records, after),
        unserved(registry, request.model),
    ensures
        outcome == Err::<EpdOutcome, GrpcPdCandidateError>(GrpcPdCandidateError::Unavailable),
        records.len() == 0,
        after == before,
{
    lemma_unserved_pool_is_empty(registry, request.model, RoutingPool::GrpcPrefill);
}

} // verus!
