//! What an operator is told about the pools of a disaggregated request: legs without available
//! workers, and pools that mix runtimes.

use crate::admission::{AdmissionEvent, GrpcPdCandidateError, PrefillAdmission};
use crate::context::RequestContext;
use crate::encode_laws::{lemma_encode_workers_ignored, same_pair_pools};
use crate::multimodal::item_hashes;
use crate::outcome_laws::{hashes_failed, items_of};
use crate::pick_laws::{
    first_that_serves, lemma_runtime_found, none_serves, runtime_serves, someone_runs,
};
use crate::policy::LoadBalancingPolicy;
use crate::pool::{any_on_runtime, has_runtime, serving, RoutingPool};
use crate::registry::WorkerRegistry;
use crate::roster_laws::{law_pools_hold_the_roster, on_duty};
use crate::selection::{
    epd_candidates, find_shared_runtime, first_shared_runtime, lemma_first_shared_runtime,
    pd_candidates, ready_members, EpdCandidates, PairCandidates,
};
use crate::stage::{WorkerSelectionMode, WorkerSelectionStage};
use crate::worker::{RuntimeType, Worker, WorkerType};
use std::sync::Arc;
use vstd::prelude::*;

verus! {

/// Something worth a warning about the pools that a disaggregated request selects over.
#[derive(Clone, Copy, Debug, PartialEq, Eq, Structural)]
pub enum SelectionNotice {
    /// The leg has no available worker.
    NoAvailableWorkers { leg: WorkerType },
    /// The pools of a pair hold workers on another runtime than the one that is used.
    MixedPair { prefill_mixed: bool, decode_mixed: bool, runtime: RuntimeType },
    /// The runtime of the first prefill worker has no decode worker.
    NoPairOnRuntime { runtime: RuntimeType },
    /// No runtime has an available worker in every leg that the request needs.
    NoSharedRuntime,
    /// The pools that a request with disaggregated encoding needs hold workers on another runtime
    /// than the one that is used.
    MixedSet { runtime: RuntimeType },
}

/// Some worker runs another runtime.
pub open spec fn has_other_runtime(workers: Seq<Arc<Worker>>, runtime: RuntimeType) -> bool {
    exists|i: int| 0 <= i < workers.len() && (#[trigger] workers[i]).runtime_type != runtime
}

/// The notice ends the selection: there are no candidates.
pub open spec fn is_refusal(notice: SelectionNotice) -> bool {
    notice is NoAvailableWorkers || notice is NoPairOnRuntime || notice is NoSharedRuntime
}

/// The notices of a pair on the runtime of its first prefill worker.
pub open spec fn runtime_notices(
    prefill: Seq<Arc<Worker>>,
    decode: Seq<Arc<Worker>>,
    runtime: RuntimeType,
) -> Seq<SelectionNotice> {
    let prefill_mixed = has_other_runtime(prefill, runtime);
    let decode_mixed = has_other_runtime(decode, runtime);
    let mixed = if prefill_mixed || decode_mixed {
        seq![SelectionNotice::MixedPair { prefill_mixed, decode_mixed, runtime }]
    } else {
        Seq::empty()
    };
    if has_runtime(decode, runtime) {
        mixed
    } else {
        mixed.push(SelectionNotice::NoPairOnRuntime { runtime })
    }
}

/// The notices of a prefill and decode pair, in order.
pub open spec fn pair_notices(snapshot: Seq<Arc<Worker>>) -> Seq<SelectionNotice> {
    let prefill = ready_members(snapshot, RoutingPool::GrpcPrefill);
    let decode = ready_members(snapshot, RoutingPool::GrpcDecode);
    if prefill.len() == 0 {
        seq![SelectionNotice::NoAvailableWorkers { leg: WorkerType::Prefill }]
    } else if decode.len() == 0 {
        seq![SelectionNotice::NoAvailableWorkers { leg: WorkerType::Decode }]
    } else {
        runtime_notices(prefill, decode, prefill[0].runtime_type)
    }
}

/// The pools that the request needs hold a worker on another runtime. The encode pool counts for
/// a request with items only.
pub open spec fn set_is_mixed(
    encode: Seq<Arc<Worker>>,
    prefill: Seq<Arc<Worker>>,
    decode: Seq<Arc<Worker>>,
    needs_encode: bool,
    runtime: RuntimeType,
) -> bool {
    ||| has_other_runtime(prefill, runtime)
    ||| has_other_runtime(decode, runtime)
    ||| needs_encode && has_other_runtime(encode, runtime)
}

/// The notices of an encode, prefill and decode set, in order.
pub open spec fn set_notices(snapshot: Seq<Arc<Worker>>, needs_encode: bool) -> Seq<
    SelectionNotice,
> {
    let encode = ready_members(snapshot, RoutingPool::GrpcEncode);
    let prefill = ready_members(snapshot, RoutingPool::GrpcPrefill);
    let decode = ready_members(snapshot, RoutingPool::GrpcDecode);
    if needs_encode && encode.len() == 0 {
        seq![SelectionNotice::NoAvailableWorkers { leg: WorkerType::Encode }]
    } else if prefill.len() == 0 {
        seq![SelectionNotice::NoAvailableWorkers { leg: WorkerType::Prefill }]
    } else if decode.len() == 0 {
        seq![SelectionNotice::NoAvailableWorkers { leg: WorkerType::Decode }]
    } else {
        match first_shared_runtime(prefill, encode, decode, needs_encode) {
            None => seq![SelectionNotice::NoSharedRuntime],
            Some(runtime) => if set_is_mixed(encode, prefill, decode, needs_encode, runtime) {
                seq![SelectionNotice::MixedSet { runtime }]
            } else {
                Seq::empty()
            },
        }
    }
}

/// The notices of a run: those of the selection that it attempts. A run in regular mode, and one
/// that ends before it selects, has none.
pub open spec fn run_notices<P: LoadBalancingPolicy>(
    stage: WorkerSelectionStage<P>,
    ctx: RequestContext,
    event: AdmissionEvent,
) -> Seq<SelectionNotice> {
    let snapshot = serving(stage.worker_registry.workers(), ctx.model_id@);
    if ctx.preparation is None || event == AdmissionEvent::TimedOut {
        Seq::empty()
    } else {
        match stage.mode {
            WorkerSelectionMode::Regular => Seq::empty(),
            WorkerSelectionMode::PrefillDecode => pair_notices(snapshot),
            WorkerSelectionMode::EncodePrefillDecode => match item_hashes(
                ctx.multimodal_intermediate,
            ) {
                Ok(hashes) => set_notices(snapshot, hashes.len() > 0),
                Err(_) => Seq::empty(),
            },
        }
    }
}

/// Whether some worker runs another runtime.
pub fn any_on_other_runtime(workers: &Vec<Arc<Worker>>, runtime: RuntimeType) -> (found: bool)
    ensures
        found == has_other_runtime(workers@, runtime),
{
    let mut i: usize = 0;
    while i < workers.len()
        invariant
            i <= workers@.len(),
            forall|j: int| 0 <= j < i ==> (#[trigger] workers@[j]).runtime_type == runtime,
        decreases workers@.len() - i,
    {
        if workers[i].runtime_type != runtime {
            assert(workers@[i as int].runtime_type != runtime);
            return true;
        }
        i = i + 1;
    }
    false
}

impl<P: LoadBalancingPolicy> WorkerSelectionStage<P> {
    /// The notices of a prefill and decode pair for the model.
    pub fn pd_notices(&self, model_id: &str) -> (notices: Vec<SelectionNotice>)
        ensures
            notices@ == pair_notices(serving(self.worker_registry.workers(), model_id@)),
    {
        let snapshot = self.worker_registry.get_routing_snapshot(model_id);
        let prefill: Vec<Arc<Worker>> = Self::available_workers(
            &snapshot,
            RoutingPool::GrpcPrefill,
        );
        let decode: Vec<Arc<Worker>> = Self::available_workers(&snapshot, RoutingPool::GrpcDecode);
        let mut notices: Vec<SelectionNotice> = Vec::new();
        if prefill.len() == 0 {
            notices.push(SelectionNotice::NoAvailableWorkers { leg: WorkerType::Prefill });
        } else if decode.len() == 0 {
            notices.push(SelectionNotice::NoAvailableWorkers { leg: WorkerType::Decode });
        } else {
            let runtime = prefill[0].runtime_type;
            let prefill_mixed = any_on_other_runtime(&prefill, runtime);
            let decode_mixed = any_on_other_runtime(&decode, runtime);
            if prefill_mixed || decode_mixed {
                notices.push(SelectionNotice::MixedPair { prefill_mixed, decode_mixed, runtime });
            }
            if !any_on_runtime(&decode, runtime) {
                notices.push(SelectionNotice::NoPairOnRuntime { runtime });
            }
        }
        assert(notices@ =~= pair_notices(snapshot.workers@));
        notices
    }

    /// The notices of an encode, prefill and decode set for the model.
    pub fn epd_notices(&self, model_id: &str, needs_encode: bool) -> (notices: Vec<
        SelectionNotice,
    >)
        ensures
            notices@ == set_notices(
                serving(self.worker_registry.workers(), model_id@),
                needs_encode,
            ),
    {
        let snapshot = self.worker_registry.get_routing_snapshot(model_id);
        let encode: Vec<Arc<Worker>> = Self::available_workers(&snapshot, RoutingPool::GrpcEncode);
        let prefill: Vec<Arc<Worker>> = Self::available_workers(
            &snapshot,
            RoutingPool::GrpcPrefill,
        );
        let decode: Vec<Arc<Worker>> = Self::available_workers(&snapshot, RoutingPool::GrpcDecode);
        let mut notices: Vec<SelectionNotice> = Vec::new();
        if needs_encode && encode.len() == 0 {
            notices.push(SelectionNotice::NoAvailableWorkers { leg: WorkerType::Encode });
        } else if prefill.len() == 0 {
            notices.push(SelectionNotice::NoAvailableWorkers { leg: WorkerType::Prefill });
        } else if decode.len() == 0 {
            notices.push(SelectionNotice::NoAvailableWorkers { leg: WorkerType::Decode });
        } else {
            match find_shared_runtime(&prefill, &encode, &decode, needs_encode) {
                None => notices.push(SelectionNotice::NoSharedRuntime),
                Some(runtime) => {
                    if any_on_other_runtime(&prefill, runtime) || any_on_other_runtime(
                        &decode,
                        runtime,
                    ) || (needs_encode && any_on_other_runtime(&encode, runtime)) {
                        notices.push(SelectionNotice::MixedSet { runtime });
                    }
                },
            }
        }
        assert(notices@ =~= set_notices(snapshot.workers@, needs_encode));
        notices
    }

    /// The notices of a run on the request.
    pub fn notices(&self, ctx: &RequestContext, event: AdmissionEvent) -> (notices: Vec<
        SelectionNotice,
    >)
        ensures
            notices@ == run_notices(*self, *ctx, event),
    {
        if ctx.preparation.is_none() || event == AdmissionEvent::TimedOut {
            return Vec::new();
        }
        let model_id: &str = ctx.model_id.as_str();
        match self.mode {
            WorkerSelectionMode::Regular => Vec::new(),
            WorkerSelectionMode::PrefillDecode => self.pd_notices(model_id),
            WorkerSelectionMode::EncodePrefillDecode => match &ctx.multimodal_intermediate {
                None => self.epd_notices(model_id, false),
                Some(intermediate) => match &intermediate.routing_hashes {
                    Ok(hashes) => self.epd_notices(model_id, hashes.len() > 0),
                    Err(_) => Vec::new(),
                },
            },
        }
    }
}

/// The notices of a pair tell why it has no candidates, and of nothing else: it is unavailable if
/// and only if the last notice is a refusal. Where it has candidates or finds them full, at most
/// one notice is given, of a mix, and it names the runtime of the pair.
pub proof fn law_pair_notices_fit_the_candidates(
    snapshot: Seq<Arc<Worker>>,
    targeted: bool,
    capacity: Option<PrefillAdmission>,
)
    ensures
        ({
            let notices = pair_notices(snapshot);
            let candidates = pd_candidates(snapshot, targeted, capacity);
            &&& candidates == Err::<PairCandidates, GrpcPdCandidateError>(
                GrpcPdCandidateError::Unavailable,
            ) <==> notices.len() > 0 && is_refusal(notices.last())
            &&& candidates != Err::<PairCandidates, GrpcPdCandidateError>(
                GrpcPdCandidateError::Unavailable,
            ) ==> notices.len() <= 1 && (notices.len() > 0 ==> notices[0] is MixedPair)
            &&& candidates matches Ok(pair) ==> notices.len() > 0 ==> notices[0]->MixedPair_runtime
                == pair.runtime
        }),
{
}

/// The same of the notices of a set with disaggregated encoding.
pub proof fn law_set_notices_fit_the_candidates(
    snapshot: Seq<Arc<Worker>>,
    needs_encode: bool,
    targeted: bool,
    capacity: Option<PrefillAdmission>,
)
    ensures
        ({
            let notices = set_notices(snapshot, needs_encode);
            let candidates = epd_candidates(snapshot, needs_encode, targeted, capacity);
            &&& candidates == Err::<EpdCandidates, GrpcPdCandidateError>(
                GrpcPdCandidateError::Unavailable,
            ) <==> notices.len() > 0 && is_refusal(notices.last())
            &&& notices.len() <= 1
            &&& candidates matches Ok(set) ==> notices.len() > 0 ==> notices[0]
                == (SelectionNotice::MixedSet { runtime: set.pair.runtime })
        }),
{
    let encode = ready_members(snapshot, RoutingPool::GrpcEncode);
    let prefill = ready_members(snapshot, RoutingPool::GrpcPrefill);
    let decode = ready_members(snapshot, RoutingPool::GrpcDecode);
    lemma_first_shared_runtime(prefill, encode, decode, needs_encode);
}

/// Without items, the encode pool gives no notice: the notices depend on the other two pools.
pub proof fn law_encode_pool_gives_no_notice_without_items(
    one: WorkerRegistry,
    other: WorkerRegistry,
    model: Seq<char>,
)
    requires
        same_pair_pools(one, other, model),
    ensures
        set_notices(serving(one.workers(), model), false) == set_notices(
            serving(other.workers(), model),
            false,
        ),
{
    let first = serving(one.workers(), model);
    let second = serving(other.workers(), model);
    lemma_encode_workers_ignored(
        ready_members(first, RoutingPool::GrpcPrefill),
        ready_members(first, RoutingPool::GrpcEncode),
        ready_members(second, RoutingPool::GrpcEncode),
        ready_members(first, RoutingPool::GrpcDecode),
    );
}

/// Some worker of the list runs another runtime.
pub open spec fn strays(workers: Seq<Arc<Worker>>, runtime: RuntimeType) -> bool {
    !forall|i: int| 0 <= i < workers.len() ==> (#[trigger] workers[i]).runtime_type == runtime
}

/// The notices of a pair are said of the workers on duty. The first leg without any is named, and
/// nothing else. Otherwise a mix is told if a worker of either leg strays from the runtime of the
/// first prefill worker, with the legs that do; and then that no decode worker runs it, if none
/// does.
pub proof fn law_pair_notices_are_said_of_duty(registry: WorkerRegistry, model: Seq<char>)
    ensures
        ({
            let notices = pair_notices(serving(registry.workers(), model));
            let prefill = on_duty(registry, model, WorkerType::Prefill);
            let decode = on_duty(registry, model, WorkerType::Decode);
            let runtime = prefill[0].runtime_type;
            let mixed = strays(prefill, runtime) || strays(decode, runtime);
            let unpaired = !someone_runs(decode, runtime);
            &&& prefill.len() == 0 ==> notices.len() == 1 && notices[0]
                == (SelectionNotice::NoAvailableWorkers { leg: WorkerType::Prefill })
            &&& prefill.len() > 0 && decode.len() == 0 ==> notices.len() == 1 && notices[0]
                == (SelectionNotice::NoAvailableWorkers { leg: WorkerType::Decode })
            &&& prefill.len() > 0 && decode.len() > 0 ==> {
                &&& notices.len() == (if mixed {
                    1int
                } else {
                    0int
                }) + (if unpaired {
                    1int
                } else {
                    0int
                })
                &&& mixed ==> notices[0] == (SelectionNotice::MixedPair {
                    prefill_mixed: strays(prefill, runtime),
                    decode_mixed: strays(decode, runtime),
                    runtime,
                })
                &&& unpaired ==> notices.last() == (SelectionNotice::NoPairOnRuntime { runtime })
            }
        }),
{
    law_pools_hold_the_roster(registry, model);
}

/// The same of the notices of a set: the first needed leg without a worker on duty is named, encode
/// before prefill before decode; or that no runtime serves every needed leg; or a mix, if a worker
/// of a needed leg strays from the runtime that is used.
pub proof fn law_set_notices_are_said_of_duty(
    registry: WorkerRegistry,
    model: Seq<char>,
    items: bool,
)
    ensures
        ({
            let notices = set_notices(serving(registry.workers(), model), items);
            let encode = on_duty(registry, model, WorkerType::Encode);
            let prefill = on_duty(registry, model, WorkerType::Prefill);
            let decode = on_duty(registry, model, WorkerType::Decode);
            if items && encode.len() == 0 {
                notices.len() == 1 && notices[0] == (SelectionNotice::NoAvailableWorkers {
                    leg: WorkerType::Encode,
                })
            } else if prefill.len() == 0 {
                notices.len() == 1 && notices[0] == (SelectionNotice::NoAvailableWorkers {
                    leg: WorkerType::Prefill,
                })
            } else if decode.len() == 0 {
                notices.len() == 1 && notices[0] == (SelectionNotice::NoAvailableWorkers {
                    leg: WorkerType::Decode,
                })
            } else if none_serves(registry, model, items) {
                notices.len() == 1 && notices[0] == SelectionNotice::NoSharedRuntime
            } else {
                exists|runtime: RuntimeType|
                    {
                        let mixed = strays(prefill, runtime) || strays(decode, runtime) || items
                            && strays(encode, runtime);
                        &&& #[trigger] first_that_serves(registry, model, items, runtime)
                        &&& mixed ==> notices.len() == 1 && notices[0]
                            == (SelectionNotice::MixedSet { runtime })
                        &&& !mixed ==> notices.len() == 0
                    }
            }
        }),
{
    law_pools_hold_the_roster(registry, model);
    lemma_runtime_found(registry, model, items);
    let encode = on_duty(registry, model, WorkerType::Encode);
    let prefill = on_duty(registry, model, WorkerType::Prefill);
    let decode = on_duty(registry, model, WorkerType::Decode);
    if let Some(runtime) = first_shared_runtime(prefill, encode, decode, items) {
        assert(first_that_serves(registry, model, items, runtime));
        let i = choose|i: int|
            0 <= i < prefill.len() && (#[trigger] prefill[i]).runtime_type == runtime
                && runtime_serves(registry, model, items, runtime);
        assert(!none_serves(registry, model, items));
        assert(has_other_runtime(prefill, runtime) == strays(prefill, runtime));
        assert(has_other_runtime(decode, runtime) == strays(decode, runtime));
        assert(has_other_runtime(encode, runtime) == strays(encode, runtime));
    }
}

/// A run gives the notices of the selection that it attempts, and none if it attempts none.
pub proof fn law_run_gives_its_notices<P: LoadBalancingPolicy>(
    stage: WorkerSelectionStage<P>,
    ctx: RequestContext,
    event: AdmissionEvent,
)
    ensures
        ({
            let notices = run_notices(stage, ctx, event);
            let snapshot = serving(stage.worker_registry.workers(), ctx.model_id@);
            let idle = ctx.preparation is None || event == AdmissionEvent::TimedOut || stage.mode
                == WorkerSelectionMode::Regular;
            &&& idle ==> notices.len() == 0
            &&& !idle && stage.mode == WorkerSelectionMode::PrefillDecode ==> notices
                == pair_notices(snapshot)
            &&& !idle && stage.mode == WorkerSelectionMode::EncodePrefillDecode
                ==> if hashes_failed(ctx) {
                notices.len() == 0
            } else {
                notices == set_notices(snapshot, items_of(ctx) > 0)
            }
        }),
{
}

} // verus!
