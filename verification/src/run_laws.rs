//! What holds of admission, and of whole runs of the stage.

use crate::admission::{
    AdmissionEvent, AdmissionVerdict, GrpcPdCandidateError, PrefillAdmission, PrefillLoadGuard,
};
use crate::context::{RequestContext, WorkerSelection};
use crate::execute::{
    concluded, context_objection, context_request, epd_run, failed_with, not_admitted,
    optional_assignments, pd_run, regular_run, same_input, stage_run, StageOutcome,
};
use crate::failure_laws::{
    law_unserved_model_gets_no_pair, law_unserved_model_gets_no_set,
    law_unserved_model_gets_no_worker, law_unserved_model_is_not_found,
    law_vetoed_leg_sheds_encode_requests, law_vetoed_leg_sheds_pairs,
    law_vetoed_model_sheds_regular_requests, unserved,
};
use crate::laws::{
    law_epd_at_capacity_means_full, law_epd_workers_may_serve, law_pd_at_capacity_means_full,
    law_pd_pair_may_serve, law_single_worker_may_serve, may_serve,
};
use crate::multimodal::item_hashes;
use crate::policy::LoadBalancingPolicy;
use crate::pool::{serving, RoutingPool};
use crate::prefill::{
    answered, demanded_legs, epd_admission, epd_prefill, handed_over, pd_admission, pd_prefill,
    released, settled, AdmissionOutcome,
};
use crate::registry::veto_set;
use crate::response::{
    error_view, not_found_view, shed_view, Response, PD_PREFILL_QUEUE_FULL,
    PD_PREFILL_QUEUE_TIMEOUT,
};
use crate::selection::{
    epd_candidates, epd_outcome, epd_selection, fits, pd_candidates, pd_selection, request_targeted,
    single_selection, EncodePrefillDecodeWorkerSelection, EpdCandidates, PairCandidates,
    PdWorkerPair, RequestView,
};
use crate::stage::{
    failure_view, leg_overloaded, some_leg_overloaded, WorkerSelectionMode, WorkerSelectionStage,
};
use crate::worker::{Worker, WorkerType};
use std::sync::Arc;
use vstd::prelude::*;

verus! {

/// A veto that is set and lifted again leaves the workers as they were.
pub proof fn law_lifted_veto_readmits(
    before: Seq<Arc<Worker>>,
    url: Seq<char>,
    between: Seq<Arc<Worker>>,
    after: Seq<Arc<Worker>>,
)
    requires
        veto_set(before, url, true, between),
        veto_set(between, url, false, after),
        forall|i: int|
            0 <= i < before.len() && (#[trigger] before[i]).url@ == url ==> !before[i].overloaded,
    ensures
        forall|i: int|
            0 <= i < between.len() && (#[trigger] between[i]).url@ == url
                ==> !between[i].available(),
        after == before,
{
    assert forall|i: int| 0 <= i < before.len() implies after[i] == before[i] by {
        let middle = between[i];
        if before[i].url@ == url {
            assert(*after[i] == *before[i]);
        }
    }
    assert(after =~= before);
}

/// A place that is handed back is free again: admission and release leave every worker with the
/// load that it had.
pub proof fn law_release_undoes_admission(
    before: Option<PrefillAdmission>,
    event: AdmissionEvent,
    attempt: Result<Arc<Worker>, GrpcPdCandidateError>,
    guard: PrefillLoadGuard,
    between: Option<PrefillAdmission>,
    after: Option<PrefillAdmission>,
)
    requires
        settled(before, event, attempt, AdmissionVerdict::Admitted(guard), between),
        released(between, guard, after),
    ensures
        before matches Some(first) ==> after is Some && after->0.same_loads(&first)
            && after->0.same_limits(&first),
        before is None ==> after is None,
{
    if let (Some(first), Some(middle), Some(last)) = (before, between, after) {
        let url = guard.prefill.url@;
        assert(middle.load(url) == first.load(url) + 1);
        assert forall|any: Seq<char>| #[trigger] last.load(any) == first.load(any) by {
            assert(middle.load(any) == last.load(any) + if any == url {
                1nat
            } else {
                0nat
            });
        }
    }
}

/// The attempt behind an admission of a pair, and what became of it.
pub proof fn pd_attempt<P: LoadBalancingPolicy>(
    before: WorkerSelectionStage<P>,
    event: AdmissionEvent,
    request: RequestView,
    outcome: AdmissionOutcome<PdWorkerPair>,
    after: WorkerSelectionStage<P>,
) -> (found: (Result<PdWorkerPair, GrpcPdCandidateError>, AdmissionVerdict))
    requires
        pd_admission(before, event, request, outcome, after),
        event != AdmissionEvent::TimedOut,
    ensures
        pd_selection(
            before.policy_registry.state(),
            before.policy_registry.roles(),
            before.worker_registry,
            request,
            before.prefill_admission,
            found.0,
            after.recorded(&before),
            after.policy_registry.state(),
        ),
        settled(
            before.prefill_admission,
            event,
            pd_prefill(found.0),
            found.1,
            after.prefill_admission,
        ),
        answered(
            before.worker_registry,
            request.model,
            demanded_legs(0),
            found.0,
            found.1,
            outcome,
        ),
{
    choose|
        attempt: Result<PdWorkerPair, GrpcPdCandidateError>,
        verdict: AdmissionVerdict,
    |
        {
            &&& pd_selection(
                before.policy_registry.state(),
                before.policy_registry.roles(),
                before.worker_registry,
                request,
                before.prefill_admission,
                attempt,
                after.recorded(&before),
                after.policy_registry.state(),
            )
            &&& settled(
                before.prefill_admission,
                event,
                pd_prefill(attempt),
                verdict,
                after.prefill_admission,
            )
            &&& #[trigger] answered(
                before.worker_registry,
                request.model,
                demanded_legs(0),
                attempt,
                verdict,
                outcome,
            )
        }
}

/// The same where encoding is disaggregated.
pub proof fn epd_attempt<P: LoadBalancingPolicy>(
    before: WorkerSelectionStage<P>,
    event: AdmissionEvent,
    request: RequestView,
    hashes: Seq<Seq<u8>>,
    outcome: AdmissionOutcome<EncodePrefillDecodeWorkerSelection>,
    after: WorkerSelectionStage<P>,
) -> (found: (
    Result<EncodePrefillDecodeWorkerSelection, GrpcPdCandidateError>,
    AdmissionVerdict,
))
    requires
        epd_admission(before, event, request, hashes, outcome, after),
        event != AdmissionEvent::TimedOut,
    ensures
        epd_selection(
            before.policy_registry.state(),
            before.policy_registry.roles(),
            before.worker_registry,
            request,
            hashes,
            before.prefill_admission,
            epd_outcome(found.0),
            after.recorded(&before),
            after.policy_registry.state(),
        ),
        settled(
            before.prefill_admission,
            event,
            epd_prefill(found.0),
            found.1,
            after.prefill_admission,
        ),
        answered(
            before.worker_registry,
            request.model,
            demanded_legs(hashes.len()),
            found.0,
            found.1,
            outcome,
        ),
{
    choose|
        attempt: Result<EncodePrefillDecodeWorkerSelection, GrpcPdCandidateError>,
        verdict: AdmissionVerdict,
    |
        {
            &&& epd_selection(
                before.policy_registry.state(),
                before.policy_registry.roles(),
                before.worker_registry,
                request,
                hashes,
                before.prefill_admission,
                epd_outcome(attempt),
                after.recorded(&before),
                after.policy_registry.state(),
            )
            &&& settled(
                before.prefill_admission,
                event,
                epd_prefill(attempt),
                verdict,
                after.prefill_admission,
            )
            &&& #[trigger] answered(
                before.worker_registry,
                request.model,
                demanded_legs(hashes.len()),
                attempt,
                verdict,
                outcome,
            )
        }
}

/// A request that waits for a pair has committed nothing, unless it names its worker: no policy
/// was asked, no key was pinned, nothing was recorded, and no worker has more load. Only a
/// request under admission waits.
pub proof fn law_waiting_pair_commits_nothing<P: LoadBalancingPolicy>(
    before: WorkerSelectionStage<P>,
    event: AdmissionEvent,
    request: RequestView,
    outcome: AdmissionOutcome<PdWorkerPair>,
    after: WorkerSelectionStage<P>,
)
    requires
        pd_admission(before, event, request, outcome, after),
        outcome is Waiting,
    ensures
        event != AdmissionEvent::TimedOut,
        before.prefill_admission is Some,
        after.prefill_admission is Some,
        after.prefill_admission->0.same_loads(&before.prefill_admission->0),
        after.recorded(&before).len() == 0,
        !request_targeted(before.policy_registry.state(), before.policy_registry.roles(), request)
            ==> after.policy_registry.state() == before.policy_registry.state(),
{
    let (attempt, verdict) = pd_attempt(before, event, request, outcome, after);
    assert(verdict is Waiting);
    law_pd_at_capacity_means_full(
        before.policy_registry.state(),
        before.policy_registry.roles(),
        before.worker_registry,
        request,
        before.prefill_admission,
        attempt,
        after.recorded(&before),
        after.policy_registry.state(),
    );
}

/// The same where encoding is disaggregated.
pub proof fn law_waiting_set_commits_nothing<P: LoadBalancingPolicy>(
    before: WorkerSelectionStage<P>,
    event: AdmissionEvent,
    request: RequestView,
    hashes: Seq<Seq<u8>>,
    outcome: AdmissionOutcome<EncodePrefillDecodeWorkerSelection>,
    after: WorkerSelectionStage<P>,
)
    requires
        epd_admission(before, event, request, hashes, outcome, after),
        outcome is Waiting,
    ensures
        event != AdmissionEvent::TimedOut,
        before.prefill_admission is Some,
        after.prefill_admission is Some,
        after.prefill_admission->0.same_loads(&before.prefill_admission->0),
        after.recorded(&before).len() == 0,
        !request_targeted(before.policy_registry.state(), before.policy_registry.roles(), request)
            ==> after.policy_registry.state() == before.policy_registry.state(),
{
    let (attempt, verdict) = epd_attempt(before, event, request, hashes, outcome, after);
    assert(verdict is Waiting);
    law_epd_at_capacity_means_full(
        before.policy_registry.state(),
        before.policy_registry.roles(),
        before.worker_registry,
        request,
        hashes,
        before.prefill_admission,
        epd_outcome(attempt),
        after.recorded(&before),
        after.policy_registry.state(),
    );
}

/// The answer to a new request for which the queue has no place.
pub open spec fn queue_full<S>(outcome: AdmissionOutcome<S>) -> bool {
    outcome matches AdmissionOutcome::Rejected(response) && response@ == error_view(
        429,
        PD_PREFILL_QUEUE_FULL@,
        "Prefill admission queue is full"@,
    )
}

/// A request that finds every prefill worker full waits if it waits already or if the queue has
/// a place, and takes that place. Otherwise it is told that the queue is full.
pub proof fn law_full_workers_make_pairs_wait<P: LoadBalancingPolicy>(
    before: WorkerSelectionStage<P>,
    event: AdmissionEvent,
    request: RequestView,
    outcome: AdmissionOutcome<PdWorkerPair>,
    after: WorkerSelectionStage<P>,
)
    requires
        pd_admission(before, event, request, outcome, after),
        event != AdmissionEvent::TimedOut,
        before.prefill_admission is Some,
        pd_candidates(
            serving(before.worker_registry.workers(), request.model),
            request_targeted(
                before.policy_registry.state(),
                before.policy_registry.roles(),
                request,
            ),
            before.prefill_admission,
        ) == Err::<PairCandidates, GrpcPdCandidateError>(GrpcPdCandidateError::AtCapacity),
    ensures
        after.prefill_admission is Some,
        ({
            let first = before.prefill_admission->0;
            let last = after.prefill_admission->0;
            if event == AdmissionEvent::CapacityFreed {
                outcome is Waiting && last.queued() == first.queued()
            } else if first.queued() < first.max_queued() {
                outcome is Waiting && last.queued() == first.queued() + 1
            } else {
                queue_full(outcome) && last.queued() == first.queued()
            }
        }),
{
}

/// The same where encoding is disaggregated.
pub proof fn law_full_workers_make_sets_wait<P: LoadBalancingPolicy>(
    before: WorkerSelectionStage<P>,
    event: AdmissionEvent,
    request: RequestView,
    hashes: Seq<Seq<u8>>,
    outcome: AdmissionOutcome<EncodePrefillDecodeWorkerSelection>,
    after: WorkerSelectionStage<P>,
)
    requires
        epd_admission(before, event, request, hashes, outcome, after),
        event != AdmissionEvent::TimedOut,
        before.prefill_admission is Some,
        epd_candidates(
            serving(before.worker_registry.workers(), request.model),
            hashes.len() > 0,
            request_targeted(
                before.policy_registry.state(),
                before.policy_registry.roles(),
                request,
            ),
            before.prefill_admission,
        ) == Err::<EpdCandidates, GrpcPdCandidateError>(GrpcPdCandidateError::AtCapacity),
    ensures
        after.prefill_admission is Some,
        ({
            let first = before.prefill_admission->0;
            let last = after.prefill_admission->0;
            if event == AdmissionEvent::CapacityFreed {
                outcome is Waiting && last.queued() == first.queued()
            } else if first.queued() < first.max_queued() {
                outcome is Waiting && last.queued() == first.queued() + 1
            } else {
                queue_full(outcome) && last.queued() == first.queued()
            }
        }),
{
}

/// The workers of a request change only in a run that selects them, and such a run found no
/// objection of their runtime to the modalities of the request. What earlier stages left is
/// never touched.
pub proof fn law_workers_are_set_on_success_only<P: LoadBalancingPolicy>(
    before: WorkerSelectionStage<P>,
    ctx: RequestContext,
    event: AdmissionEvent,
    outcome: StageOutcome,
    after: WorkerSelectionStage<P>,
    filled: RequestContext,
)
    requires
        stage_run(before, ctx, event, outcome, after, filled),
    ensures
        same_input(ctx, filled),
        outcome is Selected ==> filled.workers is Some && context_objection(
            ctx,
            filled.workers->0,
        ) is None,
        outcome !is Selected ==> filled.workers == ctx.workers,
{
}

/// The load of the worker at `url` after a request took a place at `taken` and then handed back
/// the place that it held before.
pub open spec fn load_after(
    before: PrefillAdmission,
    taken: Seq<char>,
    held: Option<PrefillLoadGuard>,
    url: Seq<char>,
) -> int {
    let grown = before.load(url) + if url == taken {
        1int
    } else {
        0int
    };
    if held is Some && held->0.prefill.url@ == url && grown > 0 {
        grown - 1
    } else {
        grown
    }
}

/// A request took a place on its prefill worker, which had room, and handed back the one that it
/// held before. Every worker has the load that this leaves, where load is counted.
pub open spec fn place_taken(
    before: Option<PrefillAdmission>,
    prefill: Worker,
    held: Option<PrefillLoadGuard>,
    after: Option<PrefillAdmission>,
) -> bool {
    match (before, after) {
        (None, None) => true,
        (Some(before), Some(after)) => {
            &&& before.has_room(prefill.url@)
            &&& forall|url: Seq<char>| #[trigger]
                after.load(url) == load_after(before, prefill.url@, held, url)
        },
        _ => false,
    }
}

proof fn lemma_place_taken<P: LoadBalancingPolicy>(
    before: WorkerSelectionStage<P>,
    event: AdmissionEvent,
    prefill: Arc<Worker>,
    guard: PrefillLoadGuard,
    between: WorkerSelectionStage<P>,
    held: Option<PrefillLoadGuard>,
    after: WorkerSelectionStage<P>,
)
    requires
        settled(
            before.prefill_admission,
            event,
            Ok(prefill),
            AdmissionVerdict::Admitted(guard),
            between.prefill_admission,
        ),
        fits(before.prefill_admission, *prefill),
        handed_over(between, held, after),
    ensures
        place_taken(before.prefill_admission, *prefill, held, after.prefill_admission),
{
    if let (Some(first), Some(middle), Some(last)) = (
        before.prefill_admission,
        between.prefill_admission,
        after.prefill_admission,
    ) {
        assert forall|url: Seq<char>| #[trigger] last.load(url) == load_after(
            first,
            prefill.url@,
            held,
            url,
        ) by {
            assert(middle.load(url) == first.load(url) + if url == prefill.url@ {
                1nat
            } else {
                0nat
            });
            if let Some(old) = held {
                if middle.load(old.prefill.url@) > 0 {
                    assert(middle.load(url) == last.load(url) + if url == old.prefill.url@ {
                        1nat
                    } else {
                        0nat
                    });
                }
            }
        }
    }
}

proof fn lemma_regular_run_selects<P: LoadBalancingPolicy>(
    before: WorkerSelectionStage<P>,
    ctx: RequestContext,
    outcome: StageOutcome,
    after: WorkerSelectionStage<P>,
    filled: RequestContext,
)
    requires
        regular_run(before, ctx, outcome, after, filled),
        outcome is Selected,
    ensures
        filled.workers matches Some(WorkerSelection::Single { worker }) && may_serve(
            before.worker_registry,
            ctx.model_id@,
            RoutingPool::GrpcPipelineRegular,
            worker,
        ),
{
    let worker = filled.workers->0->worker;
    law_single_worker_may_serve(
        before.policy_registry.state(),
        before.policy_registry.roles(),
        before.worker_registry,
        context_request(ctx, before.policy_registry.roles()),
        Some(worker),
        after.recorded(&before),
        after.policy_registry.state(),
    );
}

/// The workers of a prefill and decode pair as a request holds them, with its place.
pub open spec fn pair_held<P: LoadBalancingPolicy>(
    before: WorkerSelectionStage<P>,
    ctx: RequestContext,
    after: WorkerSelectionStage<P>,
    filled: RequestContext,
) -> bool {
    filled.workers matches Some(
        WorkerSelection::Disaggregated { prefill, decode, runtime_type, .. },
    ) && {
        &&& may_serve(before.worker_registry, ctx.model_id@, RoutingPool::GrpcPrefill, prefill)
        &&& may_serve(before.worker_registry, ctx.model_id@, RoutingPool::GrpcDecode, decode)
        &&& prefill.runtime_type == runtime_type
        &&& decode.runtime_type == runtime_type
        &&& filled.pd_prefill_guard == Some(PrefillLoadGuard { prefill })
        &&& place_taken(
            before.prefill_admission,
            *prefill,
            ctx.pd_prefill_guard,
            after.prefill_admission,
        )
    }
}

/// The encode workers of a request: none for a request without items, and else one per item, in
/// the order of the items, on the runtime of the pair.
pub open spec fn items_held<P: LoadBalancingPolicy>(
    before: WorkerSelectionStage<P>,
    ctx: RequestContext,
    items: nat,
    filled: RequestContext,
) -> bool {
    filled.workers matches Some(
        WorkerSelection::Disaggregated { encode_assignments, runtime_type, .. },
    ) && match encode_assignments {
        None => items == 0,
        Some(assigned) => {
            &&& items > 0
            &&& assigned@.len() == items
            &&& forall|i: int|
                0 <= i < assigned@.len() ==> {
                    let assignment = #[trigger] assigned@[i];
                    &&& assignment.item_index == i as usize
                    &&& may_serve(
                        before.worker_registry,
                        ctx.model_id@,
                        RoutingPool::GrpcEncode,
                        assignment.worker,
                    )
                    &&& assignment.worker.runtime_type == runtime_type
                }
        },
    }
}

/// The admission behind a run for a pair, and the stage as the admission left it.
pub proof fn pd_run_parts<P: LoadBalancingPolicy>(
    before: WorkerSelectionStage<P>,
    ctx: RequestContext,
    event: AdmissionEvent,
    outcome: StageOutcome,
    after: WorkerSelectionStage<P>,
    filled: RequestContext,
) -> (found: (AdmissionOutcome<PdWorkerPair>, WorkerSelectionStage<P>))
    requires
        pd_run(before, ctx, event, outcome, after, filled),
    ensures
        pd_admission(
            before,
            event,
            context_request(ctx, before.policy_registry.roles()),
            found.0,
            found.1,
        ),
        match found.0 {
            AdmissionOutcome::Admitted((prefill, decode, runtime_type), guard) => {
                &&& handed_over(found.1, ctx.pd_prefill_guard, after)
                &&& filled.pd_prefill_guard == Some(guard)
                &&& concluded(
                    ctx,
                    WorkerSelection::Disaggregated {
                        encode_assignments: None,
                        prefill,
                        decode,
                        runtime_type,
                    },
                    outcome,
                    filled,
                )
            },
            _ => after == found.1 && not_admitted(ctx, found.0, outcome, filled),
        },
{
    let request = context_request(ctx, before.policy_registry.roles());
    choose|admitted: AdmissionOutcome<PdWorkerPair>, between: WorkerSelectionStage<P>|
        #[trigger] pd_admission(before, event, request, admitted, between) && match admitted {
            AdmissionOutcome::Admitted((prefill, decode, runtime_type), guard) => {
                &&& handed_over(between, ctx.pd_prefill_guard, after)
                &&& filled.pd_prefill_guard == Some(guard)
                &&& concluded(
                    ctx,
                    WorkerSelection::Disaggregated {
                        encode_assignments: None,
                        prefill,
                        decode,
                        runtime_type,
                    },
                    outcome,
                    filled,
                )
            },
            _ => after == between && not_admitted(ctx, admitted, outcome, filled),
        }
}

/// The same where encoding is disaggregated.
pub proof fn epd_run_parts<P: LoadBalancingPolicy>(
    before: WorkerSelectionStage<P>,
    ctx: RequestContext,
    event: AdmissionEvent,
    hashes: Seq<Seq<u8>>,
    outcome: StageOutcome,
    after: WorkerSelectionStage<P>,
    filled: RequestContext,
) -> (found: (AdmissionOutcome<EncodePrefillDecodeWorkerSelection>, WorkerSelectionStage<P>))
    requires
        epd_run(before, ctx, event, hashes, outcome, after, filled),
    ensures
        epd_admission(
            before,
            event,
            context_request(ctx, before.policy_registry.roles()),
            hashes,
            found.0,
            found.1,
        ),
        match found.0 {
            AdmissionOutcome::Admitted((assigned, prefill, decode, runtime_type), guard) => {
                &&& handed_over(found.1, ctx.pd_prefill_guard, after)
                &&& filled.pd_prefill_guard == Some(guard)
                &&& concluded(
                    ctx,
                    WorkerSelection::Disaggregated {
                        encode_assignments: optional_assignments(assigned),
                        prefill,
                        decode,
                        runtime_type,
                    },
                    outcome,
                    filled,
                )
            },
            _ => after == found.1 && not_admitted(ctx, found.0, outcome, filled),
        },
{
    let request = context_request(ctx, before.policy_registry.roles());
    choose|
        admitted: AdmissionOutcome<EncodePrefillDecodeWorkerSelection>,
        between: WorkerSelectionStage<P>,
    |
        #[trigger] epd_admission(before, event, request, hashes, admitted, between)
            && match admitted {
            AdmissionOutcome::Admitted((assigned, prefill, decode, runtime_type), guard) => {
                &&& handed_over(between, ctx.pd_prefill_guard, after)
                &&& filled.pd_prefill_guard == Some(guard)
                &&& concluded(
                    ctx,
                    WorkerSelection::Disaggregated {
                        encode_assignments: optional_assignments(assigned),
                        prefill,
                        decode,
                        runtime_type,
                    },
                    outcome,
                    filled,
                )
            },
            _ => after == between && not_admitted(ctx, admitted, outcome, filled),
        }
}

proof fn lemma_pd_run_selects<P: LoadBalancingPolicy>(
    before: WorkerSelectionStage<P>,
    ctx: RequestContext,
    event: AdmissionEvent,
    outcome: StageOutcome,
    after: WorkerSelectionStage<P>,
    filled: RequestContext,
)
    requires
        pd_run(before, ctx, event, outcome, after, filled),
        outcome is Selected,
    ensures
        pair_held(before, ctx, after, filled),
        items_held(before, ctx, 0, filled),
{
    let request = context_request(ctx, before.policy_registry.roles());
    let (admitted, between) = pd_run_parts(before, ctx, event, outcome, after, filled);
    let (attempt, verdict) = pd_attempt(before, event, request, admitted, between);
    law_pd_pair_may_serve(
        before.policy_registry.state(),
        before.policy_registry.roles(),
        before.worker_registry,
        request,
        before.prefill_admission,
        attempt,
        between.recorded(&before),
        between.policy_registry.state(),
    );
    lemma_place_taken(
        before,
        event,
        attempt->Ok_0.0,
        admitted->Admitted_1,
        between,
        ctx.pd_prefill_guard,
        after,
    );
}

proof fn lemma_epd_run_selects<P: LoadBalancingPolicy>(
    before: WorkerSelectionStage<P>,
    ctx: RequestContext,
    event: AdmissionEvent,
    hashes: Seq<Seq<u8>>,
    outcome: StageOutcome,
    after: WorkerSelectionStage<P>,
    filled: RequestContext,
)
    requires
        epd_run(before, ctx, event, hashes, outcome, after, filled),
        outcome is Selected,
    ensures
        pair_held(before, ctx, after, filled),
        items_held(before, ctx, hashes.len(), filled),
{
    let request = context_request(ctx, before.policy_registry.roles());
    let (admitted, between) = epd_run_parts(before, ctx, event, hashes, outcome, after, filled);
    let (attempt, verdict) = epd_attempt(before, event, request, hashes, admitted, between);
    law_epd_workers_may_serve(
        before.policy_registry.state(),
        before.policy_registry.roles(),
        before.worker_registry,
        request,
        hashes,
        before.prefill_admission,
        epd_outcome(attempt),
        between.recorded(&before),
        between.policy_registry.state(),
    );
    lemma_place_taken(
        before,
        event,
        attempt->Ok_0.1,
        admitted->Admitted_1,
        between,
        ctx.pd_prefill_guard,
        after,
    );
}

/// A run that selects gives the request workers that may serve it, as its mode asks: one worker;
/// or a pair on one runtime, of which the prefill worker holds a place for the request; or such
/// a pair with one encode worker per item.
pub proof fn law_selected_workers_may_serve<P: LoadBalancingPolicy>(
    before: WorkerSelectionStage<P>,
    ctx: RequestContext,
    event: AdmissionEvent,
    outcome: StageOutcome,
    after: WorkerSelectionStage<P>,
    filled: RequestContext,
)
    requires
        stage_run(before, ctx, event, outcome, after, filled),
        outcome is Selected,
    ensures
        match before.mode {
            WorkerSelectionMode::Regular => {
                &&& filled.workers matches Some(WorkerSelection::Single { worker }) && may_serve(
                    before.worker_registry,
                    ctx.model_id@,
                    RoutingPool::GrpcPipelineRegular,
                    worker,
                )
                &&& after.prefill_admission == before.prefill_admission
            },
            WorkerSelectionMode::PrefillDecode => pair_held(before, ctx, after, filled)
                && items_held(before, ctx, 0, filled),
            WorkerSelectionMode::EncodePrefillDecode => pair_held(before, ctx, after, filled)
                && items_held(before, ctx, item_count(ctx), filled),
        },
{
    match before.mode {
        WorkerSelectionMode::Regular => {
            lemma_regular_run_selects(before, ctx, outcome, after, filled);
        },
        WorkerSelectionMode::PrefillDecode => {
            lemma_pd_run_selects(before, ctx, event, outcome, after, filled);
        },
        WorkerSelectionMode::EncodePrefillDecode => {
            let hashes = item_hashes(ctx.multimodal_intermediate)->Ok_0;
            lemma_epd_run_selects(before, ctx, event, hashes, outcome, after, filled);
        },
    }
}

/// A request that is run again and gets the worker that it has a place on holds one place there,
/// as before: no load changes.
pub proof fn law_rerun_holds_one_place<P: LoadBalancingPolicy>(
    before: WorkerSelectionStage<P>,
    ctx: RequestContext,
    event: AdmissionEvent,
    outcome: StageOutcome,
    after: WorkerSelectionStage<P>,
    filled: RequestContext,
)
    requires
        stage_run(before, ctx, event, outcome, after, filled),
        outcome is Selected,
        before.mode != WorkerSelectionMode::Regular,
        before.prefill_admission is Some,
        ctx.pd_prefill_guard is Some,
        filled.pd_prefill_guard == ctx.pd_prefill_guard,
    ensures
        after.prefill_admission is Some,
        after.prefill_admission->0.same_loads(&before.prefill_admission->0),
{
    law_selected_workers_may_serve(before, ctx, event, outcome, after, filled);
    let url = ctx.pd_prefill_guard->0.prefill.url@;
    let first = before.prefill_admission->0;
    let last = after.prefill_admission->0;
    assert forall|any: Seq<char>| #[trigger] last.load(any) == first.load(any) by {
        assert(last.load(any) == load_after(first, url, ctx.pd_prefill_guard, any));
    }
}

/// The legs that a request of a stage needs.
pub open spec fn run_legs(mode: WorkerSelectionMode, items: nat) -> Seq<WorkerType> {
    match mode {
        WorkerSelectionMode::Regular => seq![WorkerType::Regular],
        WorkerSelectionMode::PrefillDecode => demanded_legs(0),
        WorkerSelectionMode::EncodePrefillDecode => demanded_legs(items),
    }
}

/// How many items of a request need an encode worker.
pub open spec fn item_count(ctx: RequestContext) -> nat {
    match item_hashes(ctx.multimodal_intermediate) {
        Ok(hashes) => hashes.len(),
        Err(_) => 0,
    }
}

/// The request has what the stage needs to select, and has not waited too long.
pub open spec fn selects<P: LoadBalancingPolicy>(
    stage: WorkerSelectionStage<P>,
    ctx: RequestContext,
    event: AdmissionEvent,
) -> bool {
    &&& ctx.preparation is Some
    &&& match stage.mode {
        WorkerSelectionMode::Regular => true,
        WorkerSelectionMode::PrefillDecode => event != AdmissionEvent::TimedOut,
        WorkerSelectionMode::EncodePrefillDecode => event != AdmissionEvent::TimedOut
            && item_hashes(ctx.multimodal_intermediate) is Ok,
    }
}

/// The policy for whole requests of the model filters by itself, and so is asked of pools without
/// available workers too.
pub open spec fn asked_of_whole_pools<P: LoadBalancingPolicy>(
    stage: WorkerSelectionStage<P>,
    ctx: RequestContext,
) -> bool {
    let policy = stage.policy_registry.roles().for_model(ctx.model_id@);
    stage.policy_registry.state().policies[policy.index as int].filters()
}

/// A run for a model of which a needed leg is wholly vetoed ends with a shed: a terminal 503, and
/// not that the model is unknown. Nothing is recorded. A disaggregated request asks no policy and
/// pins no key; a regular one asks its policy only if the policy filters by itself.
pub proof fn law_vetoed_leg_sheds_the_run<P: LoadBalancingPolicy>(
    before: WorkerSelectionStage<P>,
    ctx: RequestContext,
    event: AdmissionEvent,
    outcome: StageOutcome,
    after: WorkerSelectionStage<P>,
    filled: RequestContext,
)
    requires
        stage_run(before, ctx, event, outcome, after, filled),
        selects(before, ctx, event),
        some_leg_overloaded(
            before.worker_registry,
            ctx.model_id@,
            run_legs(before.mode, item_count(ctx)),
        ),
    ensures
        failed_with(outcome, shed_view(ctx.model_id@)),
        after.recorded(&before).len() == 0,
        before.mode != WorkerSelectionMode::Regular || !asked_of_whole_pools(before, ctx)
            ==> after.policy_registry.state() == before.policy_registry.state(),
{
    let roles = before.policy_registry.roles();
    let state = before.policy_registry.state();
    let last = after.policy_registry.state();
    let records = after.recorded(&before);
    let registry = before.worker_registry;
    let request = context_request(ctx, roles);
    match before.mode {
        WorkerSelectionMode::Regular => {
            let legs = seq![WorkerType::Regular];
            assert(leg_overloaded(registry, request.model, legs[0]));
            let selected = choose|selected: Option<Arc<Worker>>|
                #[trigger] single_selection(
                    state,
                    roles,
                    registry,
                    request,
                    selected,
                    records,
                    last,
                ) && (selected is None ==> failed_with(
                    outcome,
                    failure_view(registry, ctx.model_id@, legs),
                ));
            law_vetoed_model_sheds_regular_requests(
                state,
                roles,
                registry,
                request,
                selected,
                records,
                last,
            );
        },
        WorkerSelectionMode::PrefillDecode => {
            let (admitted, between) = pd_run_parts(before, ctx, event, outcome, after, filled);
            let (attempt, verdict) = pd_attempt(before, event, request, admitted, between);
            law_vetoed_leg_sheds_pairs(
                state,
                roles,
                registry,
                request,
                before.prefill_admission,
                attempt,
                between.recorded(&before),
                between.policy_registry.state(),
            );
        },
        WorkerSelectionMode::EncodePrefillDecode => {
            let hashes = item_hashes(ctx.multimodal_intermediate)->Ok_0;
            let (admitted, between) = epd_run_parts(
                before,
                ctx,
                event,
                hashes,
                outcome,
                after,
                filled,
            );
            let (attempt, verdict) = epd_attempt(
                before,
                event,
                request,
                hashes,
                admitted,
                between,
            );
            law_vetoed_leg_sheds_encode_requests(
                state,
                roles,
                registry,
                request,
                hashes,
                before.prefill_admission,
                epd_outcome(attempt),
                between.recorded(&before),
                between.policy_registry.state(),
            );
        },
    }
}

/// A run for a model that nobody serves ends with a 404, whatever was vetoed.
pub proof fn law_unserved_model_ends_the_run<P: LoadBalancingPolicy>(
    before: WorkerSelectionStage<P>,
    ctx: RequestContext,
    event: AdmissionEvent,
    outcome: StageOutcome,
    after: WorkerSelectionStage<P>,
    filled: RequestContext,
)
    requires
        stage_run(before, ctx, event, outcome, after, filled),
        selects(before, ctx, event),
        unserved(before.worker_registry, ctx.model_id@),
    ensures
        failed_with(outcome, not_found_view(ctx.model_id@)),
        after.recorded(&before).len() == 0,
        after.policy_registry.state() == before.policy_registry.state(),
{
    let roles = before.policy_registry.roles();
    let state = before.policy_registry.state();
    let last = after.policy_registry.state();
    let records = after.recorded(&before);
    let registry = before.worker_registry;
    let request = context_request(ctx, roles);
    law_unserved_model_is_not_found(
        registry,
        ctx.model_id@,
        run_legs(before.mode, item_count(ctx)),
    );
    match before.mode {
        WorkerSelectionMode::Regular => {
            let selected = choose|selected: Option<Arc<Worker>>|
                #[trigger] single_selection(
                    state,
                    roles,
                    registry,
                    request,
                    selected,
                    records,
                    last,
                ) && (selected is None ==> failed_with(
                    outcome,
                    failure_view(registry, ctx.model_id@, seq![WorkerType::Regular]),
                ));
            law_unserved_model_gets_no_worker(
                state,
                roles,
                registry,
                request,
                selected,
                records,
                last,
            );
        },
        WorkerSelectionMode::PrefillDecode => {
            let (admitted, between) = pd_run_parts(before, ctx, event, outcome, after, filled);
            let (attempt, verdict) = pd_attempt(before, event, request, admitted, between);
            law_unserved_model_gets_no_pair(
                state,
                roles,
                registry,
                request,
                before.prefill_admission,
                attempt,
                between.recorded(&before),
                between.policy_registry.state(),
            );
        },
        WorkerSelectionMode::EncodePrefillDecode => {
            let hashes = item_hashes(ctx.multimodal_intermediate)->Ok_0;
            let (admitted, between) = epd_run_parts(
                before,
                ctx,
                event,
                hashes,
                outcome,
                after,
                filled,
            );
            let (attempt, verdict) = epd_attempt(
                before,
                event,
                request,
                hashes,
                admitted,
                between,
            );
            law_unserved_model_gets_no_set(
                state,
                roles,
                registry,
                request,
                hashes,
                before.prefill_admission,
                epd_outcome(attempt),
                between.recorded(&before),
                between.policy_registry.state(),
            );
        },
    }
}

/// The answers with which a run may end. A shed is a 503 and the only terminal one, and comes
/// only where a needed leg is wholly vetoed.
pub proof fn law_answers_fit_their_causes<P: LoadBalancingPolicy>(
    before: WorkerSelectionStage<P>,
    ctx: RequestContext,
    event: AdmissionEvent,
    response: Response,
    after: WorkerSelectionStage<P>,
    filled: RequestContext,
)
    requires
        stage_run(before, ctx, event, StageOutcome::Failed(response), after, filled),
    ensures
        response.shed <==> response.status == 503,
        response.shed ==> response@ == shed_view(ctx.model_id@) && some_leg_overloaded(
            before.worker_registry,
            ctx.model_id@,
            run_legs(before.mode, item_count(ctx)),
        ),
        response.status == 404 ==> response@ == not_found_view(ctx.model_id@)
            && !some_leg_overloaded(
            before.worker_registry,
            ctx.model_id@,
            run_legs(before.mode, item_count(ctx)),
        ),
        response.status == 429 ==> response@ == error_view(
            429,
            PD_PREFILL_QUEUE_FULL@,
            "Prefill admission queue is full"@,
        ) && event == AdmissionEvent::Arrived || response@ == error_view(
            429,
            PD_PREFILL_QUEUE_TIMEOUT@,
            "Timed out waiting for Prefill admission"@,
        ) && event == AdmissionEvent::TimedOut,
        response.status == 500 <==> ctx.preparation is None || before.mode
            == WorkerSelectionMode::EncodePrefillDecode && item_hashes(
            ctx.multimodal_intermediate,
        ) is Err,
        response.status == 400 || response.status == 404 || response.status == 429
            || response.status == 500 || response.status == 503,
{
}

} // verus!
