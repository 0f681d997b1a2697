//! A request on its way through the gateway, as far as worker selection reads and fills it.

use crate::admission::PrefillLoadGuard;
use crate::multimodal::MultimodalIntermediate;
use crate::selection::EncodeWorkerAssignment;
use crate::worker::{RuntimeType, Worker};
use axum::http::{HeaderMap, HeaderValue};
use std::sync::Arc;
use vstd::prelude::*;

verus! {

/// What the preparation of a request left for routing.
#[derive(Debug)]
pub struct Preparation {
    pub routing_text: Option<String>,
    pub token_ids: Vec<u32>,
}

/// The workers that serve a request.
#[derive(Debug)]
pub enum WorkerSelection {
    /// One worker serves the whole request.
    Single { worker: Arc<Worker> },
    /// The legs of the request are served by different workers.
    Disaggregated {
        encode_assignments: Option<Vec<EncodeWorkerAssignment>>,
        prefill: Arc<Worker>,
        decode: Arc<Worker>,
        runtime_type: RuntimeType,
    },
}

/// A request with what the stages before this one left, and with what this one fills in.
pub struct RequestContext {
    pub model_id: String,
    pub headers: Option<HeaderMap<HeaderValue>>,
    pub rid: Option<String>,
    pub preparation: Option<Preparation>,
    pub multimodal_intermediate: Option<MultimodalIntermediate>,
    /// The key by which the request sticks to a worker.
    pub sticky_key: Option<String>,
    /// The place of the request on its prefill worker.
    pub pd_prefill_guard: Option<PrefillLoadGuard>,
    /// The workers that serve the request.
    pub workers: Option<WorkerSelection>,
}

/// The runtime of the leg that builds the request: that of the sole worker, or of the prefill
/// worker.
pub open spec fn building_runtime(workers: WorkerSelection) -> RuntimeType {
    match workers {
        WorkerSelection::Single { worker } => worker.runtime_type,
        WorkerSelection::Disaggregated { runtime_type, .. } => runtime_type,
    }
}

/// The runtime of the leg that builds the request.
pub fn selection_runtime(workers: &WorkerSelection) -> (runtime: RuntimeType)
    ensures
        runtime == building_runtime(*workers),
{
    match workers {
        WorkerSelection::Single { worker } => worker.runtime_type,
        WorkerSelection::Disaggregated { runtime_type, .. } => *runtime_type,
    }
}

} // verus!
