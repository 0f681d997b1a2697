//! Workers and the properties of a worker that routing reads.

use std::sync::Arc;
use vstd::prelude::*;

verus! {

/// `str::eq`: two string slices are equal when they hold the same characters.
pub assume_specification[ <str as PartialEq>::eq ](left: &str, right: &str) -> (equal: bool)
    ensures
        equal == (left@ == right@),
;

/// The leg of a request that a worker serves.
#[derive(Clone, Copy, Debug, PartialEq, Eq, Structural)]
pub enum WorkerType {
    /// Serves whole requests.
    Regular,
    /// Serves the prefill leg of a disaggregated request.
    Prefill,
    /// Serves the decode leg of a disaggregated request.
    Decode,
    /// Encodes multimodal items.
    Encode,
}

/// The transport over which a worker is reached.
#[derive(Clone, Copy, Debug, PartialEq, Eq, Structural)]
pub enum ConnectionMode {
    Http,
    Grpc,
    Zmq,
}

/// The inference engine that a worker runs.
#[derive(Clone, Copy, Debug, PartialEq, Eq, Structural)]
pub enum RuntimeType {
    Sglang,
    Vllm,
    TokenSpeed,
}

/// A model that a worker serves, with the other names under which it is asked for.
#[derive(Debug)]
pub struct ModelCard {
    pub id: String,
    pub aliases: Vec<String>,
}

impl ModelCard {
    /// The card answers to `model`: by its id or by one of its aliases.
    pub open spec fn answers_to(&self, model: Seq<char>) -> bool {
        self.id@ == model || exists|i: int|
            0 <= i < self.aliases@.len() && (#[trigger] self.aliases@[i])@ == model
    }

    /// A card without aliases.
    pub fn new(id: String) -> (card: Self)
        ensures
            card.id == id,
            card.aliases@.len() == 0,
    {
        ModelCard { id, aliases: Vec::new() }
    }

    /// The same card with one more alias.
    pub fn with_alias(self, alias: String) -> (card: Self)
        ensures
            card.id == self.id,
            card.aliases@ == self.aliases@.push(alias),
    {
        let mut aliases = self.aliases;
        aliases.push(alias);
        ModelCard { id: self.id, aliases }
    }

    /// Whether the card answers to `model`.
    pub fn matches_model(&self, model: &str) -> (found: bool)
        ensures
            found == self.answers_to(model@),
    {
        if self.id.as_str().eq(model) {
            return true;
        }
        let mut i: usize = 0;
        while i < self.aliases.len()
            invariant
                i <= self.aliases@.len(),
                self.id@ != model@,
                forall|j: int| 0 <= j < i ==> (#[trigger] self.aliases@[j])@ != model@,
            decreases self.aliases@.len() - i,
        {
            if self.aliases[i].as_str().eq(model) {
                return true;
            }
            i = i + 1;
        }
        false
    }
}

/// A worker as routing sees it at one moment.
///
/// `healthy`, `circuit_open` and `overloaded` are live: the registry replaces the record when
/// one of them changes.
#[derive(Debug)]
pub struct Worker {
    pub url: String,
    pub models: Arc<Vec<ModelCard>>,
    pub worker_type: WorkerType,
    pub connection_mode: ConnectionMode,
    pub runtime_type: RuntimeType,
    /// The last health check passed.
    pub healthy: bool,
    /// The circuit breaker keeps requests away.
    pub circuit_open: bool,
    /// The overload veto keeps requests away.
    pub overloaded: bool,
}

impl Worker {
    /// The worker may take a request now: it is healthy, its circuit breaker lets requests
    /// through, and it is not vetoed for overload.
    pub open spec fn available(&self) -> bool {
        self.healthy && !self.circuit_open && !self.overloaded
    }

    /// The worker serves `model`, under its id or an alias.
    pub open spec fn serves(&self, model: Seq<char>) -> bool {
        exists|i: int|
            0 <= i < self.models@.len() && (#[trigger] self.models@[i]).answers_to(model)
    }

    /// The worker is `other` in everything but the overload veto.
    pub open spec fn same_but_veto(&self, other: &Worker) -> bool {
        &&& self.url == other.url
        &&& self.models == other.models
        &&& self.worker_type == other.worker_type
        &&& self.connection_mode == other.connection_mode
        &&& self.runtime_type == other.runtime_type
        &&& self.healthy == other.healthy
        &&& self.circuit_open == other.circuit_open
    }

    /// A worker that is healthy, with a closed circuit and no veto.
    pub fn new(
        url: String,
        models: Vec<ModelCard>,
        worker_type: WorkerType,
        connection_mode: ConnectionMode,
        runtime_type: RuntimeType,
    ) -> (worker: Self)
        ensures
            worker.url == url,
            worker.models@ == models@,
            worker.worker_type == worker_type,
            worker.connection_mode == connection_mode,
            worker.runtime_type == runtime_type,
            worker.healthy,
            !worker.circuit_open,
            !worker.overloaded,
            worker.available(),
    {
        Worker {
            url,
            models: Arc::new(models),
            worker_type,
            connection_mode,
            runtime_type,
            healthy: true,
            circuit_open: false,
            overloaded: false,
        }
    }

    /// Whether the worker may take a request now.
    pub fn is_available(&self) -> (available: bool)
        ensures
            available == self.available(),
    {
        self.healthy && !self.circuit_open && !self.overloaded
    }

    /// Whether the worker serves `model`.
    pub fn serves_model(&self, model: &str) -> (found: bool)
        ensures
            found == self.serves(model@),
    {
        let mut i: usize = 0;
        while i < self.models.len()
            invariant
                i <= self.models@.len(),
                forall|j: int| 0 <= j < i ==> !(#[trigger] self.models@[j]).answers_to(model@),
            decreases self.models@.len() - i,
        {
            if self.models[i].matches_model(model) {
                return true;
            }
            i = i + 1;
        }
        false
    }

    /// The same worker with the overload veto set or lifted.
    pub fn with_veto(&self, overloaded: bool) -> (worker: Self)
        ensures
            worker.same_but_veto(self),
            worker.overloaded == overloaded,
    {
        Worker {
            url: self.url.clone(),
            models: Arc::clone(&self.models),
            worker_type: self.worker_type,
            connection_mode: self.connection_mode,
            runtime_type: self.runtime_type,
            healthy: self.healthy,
            circuit_open: self.circuit_open,
            overloaded,
        }
    }
}

} // verus!
