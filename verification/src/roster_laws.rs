//! Which workers a leg selects over, said of the fields of the workers.

use crate::pool::{lemma_filter_elements, ready, serving, RoutingPool};
use crate::registry::WorkerRegistry;
use crate::response::ResponseView;
use crate::selection::ready_members;
use crate::stage::{failure_view, leg_overloaded, leg_pool};
use crate::worker::{ConnectionMode, Worker, WorkerType};
use std::sync::Arc;
use vstd::prelude::*;

verus! {

/// A model was asked for that the worker has: one of its cards bears the name, as its id or as any
/// of its aliases. The name `unknown` asks for every worker.
pub open spec fn asked_for(worker: Worker, model: Seq<char>) -> bool {
    ||| model == "unknown"@
    ||| exists|c: int|
        0 <= c < worker.models@.len() && (#[trigger] worker.models@[c]).id@ == model
    ||| exists|c: int, a: int|
        0 <= c < worker.models@.len() && 0 <= a < worker.models@[c].aliases@.len() && (
        #[trigger] worker.models@[c].aliases@[a])@ == model
}

/// The worker is of the type of the leg and speaks a transport of it: whole requests go over gRPC
/// or ZMQ, the legs of a disaggregated request over gRPC alone.
pub open spec fn serves_leg(worker: Worker, leg: WorkerType) -> bool {
    &&& worker.worker_type == leg
    &&& worker.connection_mode == ConnectionMode::Grpc || leg == WorkerType::Regular
        && worker.connection_mode == ConnectionMode::Zmq
}

/// The worker is healthy, its circuit breaker is closed, and it is not vetoed for overload.
pub open spec fn in_service(worker: Worker) -> bool {
    worker.healthy && !worker.circuit_open && !worker.overloaded
}

/// The workers that serve a leg of requests for the model, in the order of registration.
pub open spec fn roster(registry: WorkerRegistry, model: Seq<char>, leg: WorkerType) -> Seq<
    Arc<Worker>,
> {
    registry.workers().filter(
        |worker: Arc<Worker>| asked_for(*worker, model) && serves_leg(*worker, leg),
    )
}

/// Those of them that are in service.
pub open spec fn on_duty(registry: WorkerRegistry, model: Seq<char>, leg: WorkerType) -> Seq<
    Arc<Worker>,
> {
    registry.workers().filter(
        |worker: Arc<Worker>|
            asked_for(*worker, model) && serves_leg(*worker, leg) && in_service(*worker),
    )
}

/// Filters that agree on every element keep the same.
pub proof fn lemma_filters_agree<A>(
    list: Seq<A>,
    one: spec_fn(A) -> bool,
    other: spec_fn(A) -> bool,
)
    requires
        forall|i: int| 0 <= i < list.len() ==> one(#[trigger] list[i]) == other(list[i]),
    ensures
        list.filter(one) == list.filter(other),
    decreases list.len(),
{
    reveal(Seq::filter);
    if list.len() > 0 {
        let rest = list.drop_last();
        assert(forall|i: int| 0 <= i < rest.len() ==> #[trigger] rest[i] == list[i]);
        lemma_filters_agree(rest, one, other);
        assert(one(list[list.len() - 1]) == other(list[list.len() - 1]));
    }
}

/// A filter of a filtered list keeps what both keep.
pub proof fn lemma_filter_twice<A>(
    list: Seq<A>,
    first: spec_fn(A) -> bool,
    second: spec_fn(A) -> bool,
    both: spec_fn(A) -> bool,
)
    requires
        forall|a: A| #[trigger] both(a) == (first(a) && second(a)),
    ensures
        list.filter(first).filter(second) == list.filter(both),
    decreases list.len(),
{
    reveal(Seq::filter);
    if list.len() > 0 {
        lemma_filter_twice(list.drop_last(), first, second, both);
        let kept = list.drop_last().filter(first);
        let last = list.last();
        assert(both(last) == (first(last) && second(last)));
        if first(last) {
            assert(kept.push(last).drop_last() =~= kept);
        }
    }
}

proof fn lemma_asked_for(worker: Worker, model: Seq<char>)
    ensures
        asked_for(worker, model) == (model == "unknown"@ || worker.serves(model)),
{
    if worker.serves(model) {
        let c = choose|c: int|
            0 <= c < worker.models@.len() && (#[trigger] worker.models@[c]).answers_to(model);
        if worker.models@[c].id@ != model {
            let a = choose|a: int|
                0 <= a < worker.models@[c].aliases@.len() && (
                #[trigger] worker.models@[c].aliases@[a])@ == model;
            assert(worker.models@[c].aliases@[a]@ == model);
        }
    }
    if asked_for(worker, model) && model != "unknown"@ {
        if exists|c: int|
            0 <= c < worker.models@.len() && (#[trigger] worker.models@[c]).id@ == model {
            let c = choose|c: int|
                0 <= c < worker.models@.len() && (#[trigger] worker.models@[c]).id@ == model;
            assert(worker.models@[c].answers_to(model));
        } else {
            let (c, a) = choose|c: int, a: int|
                0 <= c < worker.models@.len() && 0 <= a < worker.models@[c].aliases@.len() && (
                #[trigger] worker.models@[c].aliases@[a])@ == model;
            assert(worker.models@[c].answers_to(model));
        }
    }
}

proof fn lemma_pool_is_roster(
    registry: WorkerRegistry,
    model: Seq<char>,
    pool: RoutingPool,
    leg: WorkerType,
)
    requires
        pool == leg_pool(leg),
    ensures
        registry.routing_pool(model, pool) == roster(registry, model, leg),
        ready(registry.routing_pool(model, pool)) == on_duty(registry, model, leg),
        ready_members(serving(registry.workers(), model), pool) == on_duty(registry, model, leg),
{
    let all = registry.workers();
    let serves = |worker: Arc<Worker>| worker.serves(model);
    let admits = |worker: Arc<Worker>| pool.admits(*worker);
    let open = |worker: Arc<Worker>| worker.available();
    let both = |worker: Arc<Worker>| worker.serves(model) && pool.admits(*worker);
    let fits_leg = |worker: Arc<Worker>| asked_for(*worker, model) && serves_leg(*worker, leg);
    let fits_now = |worker: Arc<Worker>|
        asked_for(*worker, model) && serves_leg(*worker, leg) && in_service(*worker);
    assert forall|worker: Arc<Worker>| #[trigger] asked_for(*worker, model) == (model
        == "unknown"@ || worker.serves(model)) by {
        lemma_asked_for(*worker, model);
    }
    if model == "unknown"@ {
        lemma_filters_agree(all, admits, fits_leg);
    } else {
        lemma_filter_twice(all, serves, admits, both);
        lemma_filters_agree(all, both, fits_leg);
    }
    lemma_filter_twice(all, fits_leg, open, fits_now);
}

/// The pools are what the fields of the workers make them: each holds exactly the registered
/// workers that are asked for and serve the leg, in the order of registration, and its available
/// workers are exactly those of them that are in service.
pub proof fn law_pools_hold_the_roster(registry: WorkerRegistry, model: Seq<char>)
    ensures
        registry.routing_pool(model, RoutingPool::GrpcPipelineRegular) == roster(
            registry,
            model,
            WorkerType::Regular,
        ),
        registry.routing_pool(model, RoutingPool::GrpcPrefill) == roster(
            registry,
            model,
            WorkerType::Prefill,
        ),
        registry.routing_pool(model, RoutingPool::GrpcDecode) == roster(
            registry,
            model,
            WorkerType::Decode,
        ),
        registry.routing_pool(model, RoutingPool::GrpcEncode) == roster(
            registry,
            model,
            WorkerType::Encode,
        ),
        ready(registry.routing_pool(model, RoutingPool::GrpcPipelineRegular)) == on_duty(
            registry,
            model,
            WorkerType::Regular,
        ),
        ready_members(serving(registry.workers(), model), RoutingPool::GrpcPrefill) == on_duty(
            registry,
            model,
            WorkerType::Prefill,
        ),
        ready_members(serving(registry.workers(), model), RoutingPool::GrpcDecode) == on_duty(
            registry,
            model,
            WorkerType::Decode,
        ),
        ready_members(serving(registry.workers(), model), RoutingPool::GrpcEncode) == on_duty(
            registry,
            model,
            WorkerType::Encode,
        ),
{
    lemma_pool_is_roster(
        registry,
        model,
        RoutingPool::GrpcPipelineRegular,
        WorkerType::Regular,
    );
    lemma_pool_is_roster(registry, model, RoutingPool::GrpcPrefill, WorkerType::Prefill);
    lemma_pool_is_roster(registry, model, RoutingPool::GrpcDecode, WorkerType::Decode);
    lemma_pool_is_roster(registry, model, RoutingPool::GrpcEncode, WorkerType::Encode);
}

/// The pool by which the answer for a leg is decided is the roster of the leg.
pub proof fn law_legs_have_their_pools(
    registry: WorkerRegistry,
    model: Seq<char>,
    leg: WorkerType,
)
    ensures
        registry.routing_pool(model, leg_pool(leg)) == roster(registry, model, leg),
{
    law_pools_hold_the_roster(registry, model);
}

/// Someone serves the leg, and every worker that does is vetoed for overload.
pub open spec fn leg_vetoed(registry: WorkerRegistry, model: Seq<char>, leg: WorkerType) -> bool {
    &&& exists|i: int|
        0 <= i < registry.workers().len() && asked_for(*#[trigger] registry.workers()[i], model)
            && serves_leg(*registry.workers()[i], leg)
    &&& forall|i: int|
        0 <= i < registry.workers().len() && asked_for(*#[trigger] registry.workers()[i], model)
            && serves_leg(*registry.workers()[i], leg) ==> registry.workers()[i].overloaded
}

/// The pool of a leg is wholly vetoed if and only if the leg is.
pub proof fn lemma_leg_vetoed(registry: WorkerRegistry, model: Seq<char>, leg: WorkerType)
    ensures
        leg_vetoed(registry, model, leg) == leg_overloaded(registry, model, leg),
{
    let all = registry.workers();
    let pool = roster(registry, model, leg);
    let keep = |worker: Arc<Worker>| asked_for(*worker, model) && serves_leg(*worker, leg);
    lemma_pool_is_roster(registry, model, leg_pool(leg), leg);
    lemma_filter_elements(all, keep);
    if leg_vetoed(registry, model, leg) {
        let i = choose|i: int|
            0 <= i < all.len() && asked_for(*#[trigger] all[i], model) && serves_leg(*all[i], leg);
        assert(keep(all[i]));
        assert(pool.contains(all[i]));
        assert forall|k: int| 0 <= k < pool.len() implies (#[trigger] pool[k]).overloaded by {
            assert(keep(all.filter(keep)[k]));
            let j = choose|j: int| 0 <= j < all.len() && all[j] == pool[k];
            assert(asked_for(*all[j], model));
        }
    }
    if leg_overloaded(registry, model, leg) {
        assert(keep(all.filter(keep)[0]));
        let j = choose|j: int| 0 <= j < all.len() && all[j] == pool[0];
        assert(asked_for(*all[j], model) && serves_leg(*all[j], leg));
        assert forall|i: int|
            0 <= i < all.len() && asked_for(*#[trigger] all[i], model) && serves_leg(
                *all[i],
                leg,
            ) implies all[i].overloaded by {
            assert(keep(all[i]));
            assert(pool.contains(all[i]));
            let k = choose|k: int| 0 <= k < pool.len() && pool[k] == all[i];
            assert(pool[k].overloaded);
        }
    }
}

/// The answer is the shed: a terminal 503.
pub open spec fn is_shed(answer: ResponseView) -> bool {
    answer.status == 503 && answer.code == "no_available_workers"@ && answer.shed
}

/// The answer is that nobody serves the model: a 404, which is not terminal.
pub open spec fn is_not_found(answer: ResponseView) -> bool {
    answer.status == 404 && answer.code == "model_not_found"@ && !answer.shed
}

/// The answer to a selection over some legs that found nothing is the shed if one of these legs
/// is vetoed, and not found otherwise.
pub proof fn law_failure_follows_the_vetoes(
    registry: WorkerRegistry,
    model: Seq<char>,
    legs: Seq<WorkerType>,
)
    ensures
        (exists|i: int| 0 <= i < legs.len() && leg_vetoed(registry, model, #[trigger] legs[i]))
            ==> is_shed(failure_view(registry, model, legs)),
        (forall|i: int| 0 <= i < legs.len() ==> !leg_vetoed(registry, model, #[trigger] legs[i]))
            ==> is_not_found(failure_view(registry, model, legs)),
{
    assert forall|i: int| 0 <= i < legs.len() implies leg_vetoed(
        registry,
        model,
        #[trigger] legs[i],
    ) == leg_overloaded(registry, model, legs[i]) by {
        lemma_leg_vetoed(registry, model, legs[i]);
    }
    if exists|i: int| 0 <= i < legs.len() && leg_vetoed(registry, model, #[trigger] legs[i]) {
        let i = choose|i: int|
            0 <= i < legs.len() && leg_vetoed(registry, model, #[trigger] legs[i]);
        assert(leg_overloaded(registry, model, legs[i]));
    }
}

} // verus!
