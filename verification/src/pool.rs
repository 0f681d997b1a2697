//! Lists of workers and the rules that narrow them: model, pool, availability, runtime.

use crate::worker::{ConnectionMode, RuntimeType, Worker, WorkerType};
use std::sync::Arc;
use vstd::prelude::*;

verus! {

/// The model name that stands for every model.
pub const UNKNOWN_MODEL_ID: &'static str = "unknown";

/// A list of workers that one leg of a request selects over.
#[derive(Clone, Copy, Debug, PartialEq, Eq, Structural)]
pub enum RoutingPool {
    /// Regular workers on either transport that the gRPC pipeline speaks: gRPC or ZMQ.
    GrpcPipelineRegular,
    /// Prefill workers on gRPC. ZMQ carries no rendezvous for the key-value transfer.
    GrpcPrefill,
    /// Decode workers on gRPC.
    GrpcDecode,
    /// Encode workers on gRPC.
    GrpcEncode,
}

impl RoutingPool {
    /// The worker belongs to the pool, by its type and its transport.
    pub open spec fn admits(self, worker: Worker) -> bool {
        match self {
            RoutingPool::GrpcPipelineRegular => worker.worker_type == WorkerType::Regular
                && worker.connection_mode != ConnectionMode::Http,
            RoutingPool::GrpcPrefill => worker.worker_type == WorkerType::Prefill
                && worker.connection_mode == ConnectionMode::Grpc,
            RoutingPool::GrpcDecode => worker.worker_type == WorkerType::Decode
                && worker.connection_mode == ConnectionMode::Grpc,
            RoutingPool::GrpcEncode => worker.worker_type == WorkerType::Encode
                && worker.connection_mode == ConnectionMode::Grpc,
        }
    }

    /// Whether the worker belongs to the pool.
    pub fn contains(self, worker: &Worker) -> (inside: bool)
        ensures
            inside == self.admits(*worker),
    {
        match self {
            RoutingPool::GrpcPipelineRegular => worker.worker_type == WorkerType::Regular
                && worker.connection_mode != ConnectionMode::Http,
            RoutingPool::GrpcPrefill => worker.worker_type == WorkerType::Prefill
                && worker.connection_mode == ConnectionMode::Grpc,
            RoutingPool::GrpcDecode => worker.worker_type == WorkerType::Decode
                && worker.connection_mode == ConnectionMode::Grpc,
            RoutingPool::GrpcEncode => worker.worker_type == WorkerType::Encode
                && worker.connection_mode == ConnectionMode::Grpc,
        }
    }
}

/// The workers that serve `model`, in order; all of them for the wildcard model.
pub open spec fn serving(workers: Seq<Arc<Worker>>, model: Seq<char>) -> Seq<Arc<Worker>> {
    if model == UNKNOWN_MODEL_ID@ {
        workers
    } else {
        workers.filter(|worker: Arc<Worker>| worker.serves(model))
    }
}

/// The workers of `pool`, in order.
pub open spec fn members(workers: Seq<Arc<Worker>>, pool: RoutingPool) -> Seq<Arc<Worker>> {
    workers.filter(|worker: Arc<Worker>| pool.admits(*worker))
}

/// The workers that may take a request now, in order.
pub open spec fn ready(workers: Seq<Arc<Worker>>) -> Seq<Arc<Worker>> {
    workers.filter(|worker: Arc<Worker>| worker.available())
}

/// The workers that run `runtime`, in order.
pub open spec fn on_runtime(workers: Seq<Arc<Worker>>, runtime: RuntimeType) -> Seq<Arc<Worker>> {
    workers.filter(|worker: Arc<Worker>| worker.runtime_type == runtime)
}

/// Some worker runs `runtime`.
pub open spec fn has_runtime(workers: Seq<Arc<Worker>>, runtime: RuntimeType) -> bool {
    exists|i: int| 0 <= i < workers.len() && (#[trigger] workers[i]).runtime_type == runtime
}

/// The pool is not empty, and the overload veto keeps every worker of it away.
pub open spec fn all_overloaded(workers: Seq<Arc<Worker>>) -> bool {
    workers.len() > 0 && forall|i: int|
        0 <= i < workers.len() ==> (#[trigger] workers[i]).overloaded
}

/// One more element of a filtered list.
pub proof fn lemma_filter_step<A>(list: Seq<A>, i: int, keep: spec_fn(A) -> bool)
    requires
        0 <= i < list.len(),
    ensures
        list.take(i + 1).filter(keep) == if keep(list[i]) {
            list.take(i).filter(keep).push(list[i])
        } else {
            list.take(i).filter(keep)
        },
{
    reveal(Seq::filter);
    assert(list.take(i + 1).drop_last() =~= list.take(i));
}

/// A filtered list holds the elements of the list that are kept, and no others.
pub proof fn lemma_filter_elements<A>(list: Seq<A>, keep: spec_fn(A) -> bool)
    ensures
        forall|i: int|
            0 <= i < list.filter(keep).len() ==> keep(#[trigger] list.filter(keep)[i])
                && list.contains(list.filter(keep)[i]),
        forall|i: int|
            0 <= i < list.len() && keep(list[i]) ==> list.filter(keep).contains(
                #[trigger] list[i],
            ),
{
    assert forall|i: int| 0 <= i < list.filter(keep).len() implies keep(
        #[trigger] list.filter(keep)[i],
    ) && list.contains(list.filter(keep)[i]) by {
        list.lemma_filter_pred(keep, i);
        assert(list.filter(keep).contains(list.filter(keep)[i]));
        list.lemma_filter_contains_rev(keep, list.filter(keep)[i]);
    }
    assert forall|i: int| 0 <= i < list.len() && keep(list[i]) implies list.filter(keep).contains(
        #[trigger] list[i],
    ) by {
        list.lemma_filter_contains(keep, i);
    }
}

/// The workers that serve `model`.
pub fn serving_workers(workers: &Vec<Arc<Worker>>, model: &str) -> (kept: Vec<Arc<Worker>>)
    ensures
        kept@ == serving(workers@, model@),
{
    let wildcard = model.eq(UNKNOWN_MODEL_ID);
    let ghost keep = |worker: Arc<Worker>| worker.serves(model@);
    let mut kept: Vec<Arc<Worker>> = Vec::new();
    proof {
        reveal(Seq::filter);
        assert(workers@.take(0).filter(keep) =~= Seq::empty());
    }
    let mut i: usize = 0;
    while i < workers.len()
        invariant
            i <= workers@.len(),
            wildcard == (model@ == UNKNOWN_MODEL_ID@),
            keep == (|worker: Arc<Worker>| worker.serves(model@)),
            wildcard ==> kept@ == workers@.take(i as int),
            !wildcard ==> kept@ == workers@.take(i as int).filter(keep),
        decreases workers@.len() - i,
    {
        proof {
            lemma_filter_step(workers@, i as int, keep);
        }
        if wildcard || workers[i].serves_model(model) {
            kept.push(Arc::clone(&workers[i]));
        }
        i = i + 1;
    }
    assert(workers@.take(i as int) =~= workers@);
    kept
}

/// The workers of `pool`.
pub fn pool_members(workers: &Vec<Arc<Worker>>, pool: RoutingPool) -> (kept: Vec<Arc<Worker>>)
    ensures
        kept@ == members(workers@, pool),
{
    let ghost keep = |worker: Arc<Worker>| pool.admits(*worker);
    let mut kept: Vec<Arc<Worker>> = Vec::new();
    proof {
        reveal(Seq::filter);
        assert(workers@.take(0).filter(keep) =~= Seq::empty());
    }
    let mut i: usize = 0;
    while i < workers.len()
        invariant
            i <= workers@.len(),
            keep == (|worker: Arc<Worker>| pool.admits(*worker)),
            kept@ == workers@.take(i as int).filter(keep),
        decreases workers@.len() - i,
    {
        proof {
            lemma_filter_step(workers@, i as int, keep);
        }
        if pool.contains(&workers[i]) {
            kept.push(Arc::clone(&workers[i]));
        }
        i = i + 1;
    }
    assert(workers@.take(i as int) =~= workers@);
    kept
}

/// The workers that may take a request now.
pub fn ready_workers(workers: &Vec<Arc<Worker>>) -> (kept: Vec<Arc<Worker>>)
    ensures
        kept@ == ready(workers@),
{
    let ghost keep = |worker: Arc<Worker>| worker.available();
    let mut kept: Vec<Arc<Worker>> = Vec::new();
    proof {
        reveal(Seq::filter);
        assert(workers@.take(0).filter(keep) =~= Seq::empty());
    }
    let mut i: usize = 0;
    while i < workers.len()
        invariant
            i <= workers@.len(),
            keep == (|worker: Arc<Worker>| worker.available()),
            kept@ == workers@.take(i as int).filter(keep),
        decreases workers@.len() - i,
    {
        proof {
            lemma_filter_step(workers@, i as int, keep);
        }
        if workers[i].is_available() {
            kept.push(Arc::clone(&workers[i]));
        }
        i = i + 1;
    }
    assert(workers@.take(i as int) =~= workers@);
    kept
}

/// The workers that run `runtime`.
pub fn runtime_workers(workers: &Vec<Arc<Worker>>, runtime: RuntimeType) -> (kept: Vec<Arc<Worker>>)
    ensures
        kept@ == on_runtime(workers@, runtime),
{
    let ghost keep = |worker: Arc<Worker>| worker.runtime_type == runtime;
    let mut kept: Vec<Arc<Worker>> = Vec::new();
    proof {
        reveal(Seq::filter);
        assert(workers@.take(0).filter(keep) =~= Seq::empty());
    }
    let mut i: usize = 0;
    while i < workers.len()
        invariant
            i <= workers@.len(),
            keep == (|worker: Arc<Worker>| worker.runtime_type == runtime),
            kept@ == workers@.take(i as int).filter(keep),
        decreases workers@.len() - i,
    {
        proof {
            lemma_filter_step(workers@, i as int, keep);
        }
        if workers[i].runtime_type == runtime {
            kept.push(Arc::clone(&workers[i]));
        }
        i = i + 1;
    }
    assert(workers@.take(i as int) =~= workers@);
    kept
}

/// Whether some worker runs `runtime`.
pub fn any_on_runtime(workers: &Vec<Arc<Worker>>, runtime: RuntimeType) -> (found: bool)
    ensures
        found == has_runtime(workers@, runtime),
{
    let mut i: usize = 0;
    while i < workers.len()
        invariant
            i <= workers@.len(),
            forall|j: int| 0 <= j < i ==> (#[trigger] workers@[j]).runtime_type != runtime,
        decreases workers@.len() - i,
    {
        if workers[i].runtime_type == runtime {
            return true;
        }
        i = i + 1;
    }
    false
}

/// Whether the pool is not empty and wholly vetoed for overload.
pub fn is_all_overloaded(workers: &Vec<Arc<Worker>>) -> (overloaded: bool)
    ensures
        overloaded == all_overloaded(workers@),
{
    let mut i: usize = 0;
    while i < workers.len()
        invariant
            i <= workers@.len(),
            forall|j: int| 0 <= j < i ==> (#[trigger] workers@[j]).overloaded,
        decreases workers@.len() - i,
    {
        if !workers[i].overloaded {
            return false;
        }
        i = i + 1;
    }
    workers.len() > 0
}

} // verus!
