//! The registry of workers, and the snapshots of it that selection works on.

use crate::pool::{members, pool_members, serving, serving_workers, RoutingPool};
use crate::worker::Worker;
use std::sync::Arc;
use vstd::prelude::*;

verus! {

/// One point of a hash ring: the worker at `url` owns the keys up to `hash`.
#[derive(Debug)]
pub struct RingPoint {
    pub hash: u64,
    pub url: String,
}

/// The hash ring of a model, for policies that hash consistently. Selection only hands it on.
#[derive(Debug)]
pub struct HashRing {
    pub points: Vec<RingPoint>,
}

/// A hash ring with the model that it belongs to.
#[derive(Debug)]
pub struct ModelRing {
    pub model_id: String,
    pub ring: Arc<HashRing>,
}

/// The ring that `rings` holds for `model`.
pub open spec fn ring_of(rings: Seq<ModelRing>, model: Seq<char>) -> Option<Arc<HashRing>>
    decreases rings.len(),
{
    if rings.len() == 0 {
        None
    } else if rings.last().model_id@ == model {
        Some(rings.last().ring)
    } else {
        ring_of(rings.drop_last(), model)
    }
}

/// The membership of one model at one moment. All legs of a request derive from one snapshot,
/// so that workers that never coexisted are never paired.
pub struct ModelWorkerSnapshot {
    pub workers: Vec<Arc<Worker>>,
}

impl ModelWorkerSnapshot {
    /// The workers of one pool.
    pub fn pool(&self, pool: RoutingPool) -> (workers: Vec<Arc<Worker>>)
        ensures
            workers@ == members(self.workers@, pool),
    {
        pool_members(&self.workers, pool)
    }
}

/// No two workers share a url.
pub open spec fn distinct_urls(workers: Seq<Arc<Worker>>) -> bool {
    forall|i: int, j: int|
        0 <= i < j < workers.len() ==> (#[trigger] workers[i]).url@ != (
        #[trigger] workers[j]).url@
}

/// Some worker has the url.
pub open spec fn has_url(workers: Seq<Arc<Worker>>, url: Seq<char>) -> bool {
    exists|i: int| 0 <= i < workers.len() && (#[trigger] workers[i]).url@ == url
}

/// The workers before and after the overload veto of the worker with the url was set or lifted.
/// Nothing else changes.
pub open spec fn veto_set(
    before: Seq<Arc<Worker>>,
    url: Seq<char>,
    overloaded: bool,
    after: Seq<Arc<Worker>>,
) -> bool {
    &&& after.len() == before.len()
    &&& forall|i: int|
        #![trigger after[i]]
        0 <= i < after.len() ==> if before[i].url@ == url {
            after[i].same_but_veto(&*before[i]) && after[i].overloaded == overloaded
        } else {
            after[i] == before[i]
        }
}

/// The registered workers, in the order of registration, and the hash rings of their models.
pub struct WorkerRegistry {
    workers: Vec<Arc<Worker>>,
    rings: Vec<ModelRing>,
}

impl WorkerRegistry {
    /// The registered workers, in the order of registration.
    pub closed spec fn workers(&self) -> Seq<Arc<Worker>> {
        self.workers@
    }

    /// The hash rings that were set, in order.
    pub closed spec fn rings(&self) -> Seq<ModelRing> {
        self.rings@
    }

    /// The urls of the workers are distinct.
    pub open spec fn wf(&self) -> bool {
        distinct_urls(self.workers())
    }

    /// The pool that one leg of a request for `model` selects over, whether the workers are
    /// available or not.
    pub open spec fn routing_pool(&self, model: Seq<char>, pool: RoutingPool) -> Seq<Arc<Worker>> {
        members(serving(self.workers(), model), pool)
    }

    /// The hash ring of `model`: the one that was set last.
    pub open spec fn hash_ring(&self, model: Seq<char>) -> Option<Arc<HashRing>> {
        ring_of(self.rings(), model)
    }

    /// An empty registry.
    pub fn new() -> (registry: Self)
        ensures
            registry.wf(),
            registry.workers().len() == 0,
            registry.rings().len() == 0,
    {
        WorkerRegistry { workers: Vec::new(), rings: Vec::new() }
    }

    /// Adds a worker and returns its position. A url that is taken is refused.
    pub fn register(&mut self, worker: Arc<Worker>) -> (position: Option<usize>)
        ensures
            final(self).rings() == old(self).rings(),
            position is None <==> has_url(old(self).workers(), worker.url@),
            position is None ==> final(self).workers() == old(self).workers(),
            position matches Some(at) ==> at == old(self).workers().len() && final(self).workers()
                == old(self).workers().push(worker),
            old(self).wf() ==> final(self).wf(),
    {
        let mut i: usize = 0;
        while i < self.workers.len()
            invariant
                *self == *old(self),
                i <= self.workers@.len(),
                forall|j: int| 0 <= j < i ==> (#[trigger] self.workers@[j]).url@ != worker.url@,
            decreases self.workers@.len() - i,
        {
            if self.workers[i].url == worker.url {
                return None;
            }
            i = i + 1;
        }
        self.workers.push(worker);
        Some(i)
    }

    /// The worker with the url.
    pub fn get_by_url(&self, url: &str) -> (found: Option<Arc<Worker>>)
        ensures
            found is Some <==> has_url(self.workers(), url@),
            found matches Some(worker) ==> worker.url@ == url@ && self.workers().contains(worker),
    {
        let mut i: usize = 0;
        while i < self.workers.len()
            invariant
                i <= self.workers@.len(),
                forall|j: int| 0 <= j < i ==> (#[trigger] self.workers@[j]).url@ != url@,
            decreases self.workers@.len() - i,
        {
            if self.workers[i].url.as_str().eq(url) {
                assert(self.workers@[i as int].url@ == url@);
                return Some(Arc::clone(&self.workers[i]));
            }
            i = i + 1;
        }
        None
    }

    /// Sets or lifts the overload veto of the worker with the url of `worker`.
    pub fn set_worker_overloaded(&mut self, worker: &Worker, overloaded: bool)
        ensures
            final(self).rings() == old(self).rings(),
            veto_set(old(self).workers(), worker.url@, overloaded, final(self).workers()),
            old(self).wf() ==> final(self).wf(),
    {
        let mut i: usize = 0;
        while i < self.workers.len()
            invariant
                self.rings == old(self).rings,
                i <= self.workers@.len(),
                self.workers@.len() == old(self).workers@.len(),
                forall|j: int|
                    #![trigger self.workers@[j]]
                    0 <= j < i ==> if old(self).workers@[j].url@ == worker.url@ {
                        self.workers@[j].same_but_veto(&*old(self).workers@[j])
                            && self.workers@[j].overloaded == overloaded
                    } else {
                        self.workers@[j] == old(self).workers@[j]
                    },
                forall|j: int|
                    i <= j < self.workers@.len() ==> #[trigger] self.workers@[j]
                        == old(self).workers@[j],
            decreases self.workers@.len() - i,
        {
            if self.workers[i].url == worker.url {
                let replaced = Arc::new(self.workers[i].with_veto(overloaded));
                self.workers.set(i, replaced);
            }
            i = i + 1;
        }
    }

    /// Sets the hash ring of a model.
    pub fn set_hash_ring(&mut self, model_id: String, ring: HashRing)
        ensures
            final(self).workers() == old(self).workers(),
            final(self).hash_ring(model_id@) == Some(Arc::new(ring)),
            forall|model: Seq<char>|
                model != model_id@ ==> #[trigger] final(self).hash_ring(model) == old(
                    self,
                ).hash_ring(model),
            old(self).wf() ==> final(self).wf(),
    {
        self.rings.push(ModelRing { model_id, ring: Arc::new(ring) });
        assert(self.rings@.drop_last() =~= old(self).rings@);
    }

    /// The membership of `model_id` at this moment.
    pub fn get_routing_snapshot(&self, model_id: &str) -> (snapshot: ModelWorkerSnapshot)
        ensures
            snapshot.workers@ == serving(self.workers(), model_id@),
    {
        ModelWorkerSnapshot { workers: serving_workers(&self.workers, model_id) }
    }

    /// The workers of one pool of `model_id`.
    pub fn get_routing_pool(&self, model_id: &str, pool: RoutingPool) -> (workers: Vec<Arc<Worker>>)
        ensures
            workers@ == self.routing_pool(model_id@, pool),
    {
        self.get_routing_snapshot(model_id).pool(pool)
    }

    /// The hash ring of `model_id`, if one was set.
    pub fn get_hash_ring(&self, model_id: &str) -> (ring: Option<Arc<HashRing>>)
        ensures
            ring == self.hash_ring(model_id@),
    {
        let mut i: usize = self.rings.len();
        assert(self.rings@.take(i as int) =~= self.rings@);
        while i > 0
            invariant
                i <= self.rings@.len(),
                ring_of(self.rings@, model_id@) == ring_of(self.rings@.take(i as int), model_id@),
            decreases i,
        {
            let ghost prefix = self.rings@.take(i as int);
            i = i - 1;
            assert(prefix.drop_last() =~= self.rings@.take(i as int));
            if self.rings[i].model_id.as_str().eq(model_id) {
                return Some(Arc::clone(&self.rings[i].ring));
            }
        }
        None
    }
}

} // verus!
