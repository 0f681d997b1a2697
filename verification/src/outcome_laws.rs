//! What a run does with a request, said of the fields of the request, the workers and the answer.

use crate::admission::{
    AdmissionEvent, AdmissionVerdict, GrpcPdCandidateError, PrefillAcquireError, PrefillAdmission,
    PrefillAdmissionRejection, PrefillLoadGuard, PrefillSelectionContext,
};
use crate::context::{building_runtime, RequestContext, WorkerSelection};
use crate::execute::{
    concluded, context_request, failed_with, optional_assignments, stage_run, string_view,
    StageOutcome,
};
use crate::headers::header_values;
use crate::laws::{law_epd_workers_may_serve, law_pd_pair_may_serve};
use crate::multimodal::{hash_list, item_hashes, objection, pointee, UnsupportedModality};
use crate::pick_laws::{
    key_of, law_header_text_is_read, law_pick_is_the_pin_or_the_policys, law_records_are_appended,
    law_regular_worker_is_picked, law_request_id_gives_its_conversation, shown_for_regular,
    stands_before_marker, told,
};
use crate::policy::{LoadBalancingPolicy, WorkerLeg};
use crate::policy_registry::{registry_step, rid_key, PolicyRoles, PolicyState};
use crate::pool::lemma_filter_elements;
use crate::prefill::{
    acquire_failure_view, demanded_legs, epd_admission, epd_prefill, handed_over, pd_admission,
    pd_prefill, released, settled, AdmissionOutcome,
};
use crate::registry::{ring_of, veto_set, ModelRing, WorkerRegistry};
use crate::response::{Response, ResponseView};
use crate::roster_laws::{
    asked_for, in_service, is_not_found, is_shed, law_failure_follows_the_vetoes, leg_vetoed,
    lemma_leg_vetoed, on_duty, serves_leg,
};
use crate::run_laws::{
    epd_attempt, epd_run_parts, item_count, law_answers_fit_their_causes,
    law_vetoed_leg_sheds_the_run, pd_attempt, pd_run_parts, run_legs,
};
use crate::selection::{
    assignment_list, epd_outcome, epd_selection, pd_selection, seen, single_selection,
    EncodePrefillDecodeWorkerSelection, EncodeWorkerAssignment, EpdOutcome, PdWorkerPair,
    RecordView, RequestView,
};
use crate::stage::{
    failure_view, leg_overloaded, some_leg_overloaded, WorkerSelectionMode, WorkerSelectionStage,
};
use crate::worker::{RuntimeType, Worker, WorkerType};
use std::sync::Arc;
use vstd::prelude::*;

verus! {

/// How many items the request has, by the hashes that its multimodal part lists.
pub open spec fn items_of(ctx: RequestContext) -> nat {
    if ctx.multimodal_intermediate is Some && ctx.multimodal_intermediate->0.routing_hashes is Ok {
        ctx.multimodal_intermediate->0.routing_hashes->Ok_0@.len()
    } else {
        0
    }
}

/// The hashes of the items could not be derived.
pub open spec fn hashes_failed(ctx: RequestContext) -> bool {
    ctx.multimodal_intermediate is Some && ctx.multimodal_intermediate->0.routing_hashes is Err
}

/// What the stage asks its selection for is the request: its model, its routing text, its tokens
/// if it has any, its headers, and while the override is on the conversation of its id.
pub open spec fn asks_for(request: RequestView, ctx: RequestContext, sticky: bool) -> bool {
    &&& request.model == ctx.model_id@
    &&& request.text is Some <==> ctx.preparation->0.routing_text is Some
    &&& request.text is Some ==> request.text->0 == ctx.preparation->0.routing_text->0@
    &&& request.tokens is Some <==> ctx.preparation->0.token_ids@.len() > 0
    &&& request.tokens is Some ==> request.tokens->0 == ctx.preparation->0.token_ids@
    &&& request.headers is Some <==> ctx.headers is Some
    &&& request.headers is Some ==> request.headers->0 == header_values(ctx.headers->0)
    &&& request.rid_key matches Some(key) ==> {
        &&& sticky
        &&& ctx.rid is Some
        &&& key.len() > 0
        &&& stands_before_marker(ctx.rid->0@, key)
    }
    &&& request.rid_key is None ==> !sticky || ctx.rid is None || stands_before_marker(
        ctx.rid->0@,
        Seq::empty(),
    )
}

proof fn lemma_asks_for(ctx: RequestContext, roles: PolicyRoles)
    ensures
        asks_for(context_request(ctx, roles), ctx, roles.sticky),
{
    law_request_id_gives_its_conversation(roles.sticky, string_view(ctx.rid));
}

/// A worker on duty is registered, is asked for, serves the leg and is in service; and every such
/// worker is on duty.
pub proof fn law_duty_is_said_of_the_fields(
    registry: WorkerRegistry,
    model: Seq<char>,
    leg: WorkerType,
    worker: Arc<Worker>,
)
    ensures
        on_duty(registry, model, leg).contains(worker) <==> {
            &&& registry.workers().contains(worker)
            &&& asked_for(*worker, model)
            &&& serves_leg(*worker, leg)
            &&& in_service(*worker)
        },
        worker.available() == in_service(*worker),
{
    let all = registry.workers();
    let keep = |any: Arc<Worker>|
        asked_for(*any, model) && serves_leg(*any, leg) && in_service(*any);
    lemma_filter_elements(all, keep);
    let list = on_duty(registry, model, leg);
    if list.contains(worker) {
        let i = choose|i: int| 0 <= i < list.len() && list[i] == worker;
        assert(keep(all.filter(keep)[i]));
    }
    if all.contains(worker) && keep(worker) {
        let i = choose|i: int| 0 <= i < all.len() && all[i] == worker;
        assert(keep(all[i]));
    }
}

/// A regular request gets a worker that is on duty for it.
pub proof fn law_regular_worker_is_on_duty<P: LoadBalancingPolicy>(
    before: PolicyState<P>,
    roles: PolicyRoles,
    registry: WorkerRegistry,
    request: RequestView,
    worker: Arc<Worker>,
    records: Seq<RecordView>,
    after: PolicyState<P>,
)
    requires
        single_selection(before, roles, registry, request, Some(worker), records, after),
    ensures
        on_duty(registry, request.model, WorkerType::Regular).contains(worker),
{
    let list = shown_for_regular(before, roles, registry, request.model);
    let info = told(request, registry.hash_ring(request.model), WorkerLeg::Single);
    let policy = roles.for_model(request.model);
    law_regular_worker_is_picked(before, roles, registry, request, Some(worker), records, after);
    let picked = choose|picked: Option<usize>|
        {
            &&& #[trigger] registry_step(before, roles.sticky, policy, list, info, picked, after)
            &&& picked is Some
            &&& picked->0 < list.len()
            &&& worker == list[picked->0 as int]
        };
    law_pick_is_the_pin_or_the_policys(before, roles.sticky, policy, list, info, picked, after);
    if before.policies[policy.index as int].filters() {
        let all = registry.workers();
        let keep = |any: Arc<Worker>|
            asked_for(*any, request.model) && serves_leg(*any, WorkerType::Regular);
        lemma_filter_elements(all, keep);
        assert(keep(all.filter(keep)[picked->0 as int]));
        assert(in_service(*worker));
    }
    law_duty_is_said_of_the_fields(registry, request.model, WorkerType::Regular, worker);
}

/// The outcome is a failure with the shed: a terminal 503.
pub open spec fn ends_shed(outcome: StageOutcome) -> bool {
    outcome matches StageOutcome::Failed(response) && response.status == 503 && response.code@
        == "no_available_workers"@ && response.shed
}

/// A leg that the run needs is vetoed: prefill or decode in the disaggregated modes, encode too
/// where encoding is disaggregated and the request has items; and the regular leg in regular mode.
pub open spec fn needed_leg_vetoed(
    registry: WorkerRegistry,
    mode: WorkerSelectionMode,
    ctx: RequestContext,
) -> bool {
    if mode == WorkerSelectionMode::Regular {
        leg_vetoed(registry, ctx.model_id@, WorkerType::Regular)
    } else {
        ||| leg_vetoed(registry, ctx.model_id@, WorkerType::Prefill)
        ||| leg_vetoed(registry, ctx.model_id@, WorkerType::Decode)
        ||| mode == WorkerSelectionMode::EncodePrefillDecode && items_of(ctx) > 0 && leg_vetoed(
            registry,
            ctx.model_id@,
            WorkerType::Encode,
        )
    }
}

proof fn lemma_needed_leg_vetoed(
    registry: WorkerRegistry,
    mode: WorkerSelectionMode,
    ctx: RequestContext,
)
    ensures
        needed_leg_vetoed(registry, mode, ctx) == some_leg_overloaded(
            registry,
            ctx.model_id@,
            run_legs(mode, item_count(ctx)),
        ),
{
    let model = ctx.model_id@;
    let legs = run_legs(mode, item_count(ctx));
    lemma_leg_vetoed(registry, model, WorkerType::Regular);
    lemma_leg_vetoed(registry, model, WorkerType::Prefill);
    lemma_leg_vetoed(registry, model, WorkerType::Decode);
    lemma_leg_vetoed(registry, model, WorkerType::Encode);
    assert(item_count(ctx) == items_of(ctx));
    if some_leg_overloaded(registry, model, legs) {
        let i = choose|i: int|
            0 <= i < legs.len() && #[trigger] leg_overloaded(registry, model, legs[i]);
        assert(needed_leg_vetoed(registry, mode, ctx));
    }
    if needed_leg_vetoed(registry, mode, ctx) {
        if mode == WorkerSelectionMode::Regular {
            assert(leg_overloaded(registry, model, legs[0]));
        } else if leg_vetoed(registry, model, WorkerType::Prefill) {
            assert(leg_overloaded(registry, model, legs[0]));
        } else if leg_vetoed(registry, model, WorkerType::Decode) {
            assert(leg_overloaded(registry, model, legs[1]));
        } else {
            assert(leg_overloaded(registry, model, legs[2]));
        }
    }
}

/// A run in a disaggregated mode that selects at all ends with the shed if every prefill worker of
/// the model is vetoed for overload, however free the decode workers are; and likewise if every
/// decode worker is; and, where encoding is disaggregated and the request has items, if every
/// encode worker is.
pub proof fn law_vetoed_pool_sheds_the_run<P: LoadBalancingPolicy>(
    before: WorkerSelectionStage<P>,
    ctx: RequestContext,
    event: AdmissionEvent,
    outcome: StageOutcome,
    after: WorkerSelectionStage<P>,
    filled: RequestContext,
)
    requires
        stage_run(before, ctx, event, outcome, after, filled),
        before.mode != WorkerSelectionMode::Regular,
        ctx.preparation is Some,
        event != AdmissionEvent::TimedOut,
        before.mode == WorkerSelectionMode::EncodePrefillDecode ==> !hashes_failed(ctx),
    ensures
        leg_vetoed(before.worker_registry, ctx.model_id@, WorkerType::Prefill) ==> ends_shed(
            outcome,
        ),
        leg_vetoed(before.worker_registry, ctx.model_id@, WorkerType::Decode) ==> ends_shed(
            outcome,
        ),
        before.mode == WorkerSelectionMode::EncodePrefillDecode && items_of(ctx) > 0 && leg_vetoed(
            before.worker_registry,
            ctx.model_id@,
            WorkerType::Encode,
        ) ==> ends_shed(outcome),
{
    lemma_needed_leg_vetoed(before.worker_registry, before.mode, ctx);
    if needed_leg_vetoed(before.worker_registry, before.mode, ctx) {
        law_vetoed_leg_sheds_the_run(before, ctx, event, outcome, after, filled);
    }
}

/// A regular run for a model of which every worker is vetoed for overload ends with the shed.
pub proof fn law_vetoed_model_sheds_the_run<P: LoadBalancingPolicy>(
    before: WorkerSelectionStage<P>,
    ctx: RequestContext,
    event: AdmissionEvent,
    outcome: StageOutcome,
    after: WorkerSelectionStage<P>,
    filled: RequestContext,
)
    requires
        stage_run(before, ctx, event, outcome, after, filled),
        before.mode == WorkerSelectionMode::Regular,
        ctx.preparation is Some,
        leg_vetoed(before.worker_registry, ctx.model_id@, WorkerType::Regular),
    ensures
        ends_shed(outcome),
{
    lemma_needed_leg_vetoed(before.worker_registry, before.mode, ctx);
    law_vetoed_leg_sheds_the_run(before, ctx, event, outcome, after, filled);
}

/// A run ends with the shed only if a leg that it needs is vetoed, and with a 404 only if none is.
/// So a leg that it does not need, as the encode leg without items, cannot shed it.
pub proof fn law_shed_and_absence_are_told_apart<P: LoadBalancingPolicy>(
    before: WorkerSelectionStage<P>,
    ctx: RequestContext,
    event: AdmissionEvent,
    response: Response,
    after: WorkerSelectionStage<P>,
    filled: RequestContext,
)
    requires
        stage_run(before, ctx, event, StageOutcome::Failed(response), after, filled),
    ensures
        response.shed || response.status == 503 ==> {
            &&& needed_leg_vetoed(before.worker_registry, before.mode, ctx)
            &&& ends_shed(StageOutcome::Failed(response))
        },
        response.status == 404 ==> {
            &&& !needed_leg_vetoed(before.worker_registry, before.mode, ctx)
            &&& response.code@ == "model_not_found"@
            &&& !response.shed
        },
{
    lemma_needed_leg_vetoed(before.worker_registry, before.mode, ctx);
    law_answers_fit_their_causes(before, ctx, event, response, after, filled);
}

/// The multimodal part of the request lists the runtime as one that cannot take its modalities.
pub open spec fn lists_runtime(ctx: RequestContext, runtime: RuntimeType) -> bool {
    ctx.multimodal_intermediate is Some && exists|i: int|
        0 <= i < ctx.multimodal_intermediate->0.unsupported@.len() && (
        #[trigger] ctx.multimodal_intermediate->0.unsupported@[i]).runtime == runtime
}

/// The reason is the first that is listed for the runtime.
pub open spec fn is_first_reason(
    listed: Seq<UnsupportedModality>,
    runtime: RuntimeType,
    reason: Seq<char>,
) -> bool {
    exists|i: int|
        {
            &&& 0 <= i < listed.len()
            &&& (#[trigger] listed[i]).runtime == runtime
            &&& reason == listed[i].reason@
            &&& forall|j: int| 0 <= j < i ==> (#[trigger] listed[j]).runtime != runtime
        }
}

/// The outcome is the refusal of the modalities: a 400 with the first reason that is listed for
/// the runtime.
pub open spec fn ends_unsupported(
    outcome: StageOutcome,
    ctx: RequestContext,
    runtime: RuntimeType,
) -> bool {
    outcome matches StageOutcome::Failed(response) && {
        &&& response.status == 400
        &&& response.code@ == "multimodal_not_supported"@
        &&& !response.shed
        &&& is_first_reason(
            ctx.multimodal_intermediate->0.unsupported@,
            runtime,
            response.message@,
        )
    }
}

proof fn lemma_objection(listed: Seq<UnsupportedModality>, runtime: RuntimeType)
    ensures
        match objection(listed, runtime) {
            None => forall|i: int|
                0 <= i < listed.len() ==> (#[trigger] listed[i]).runtime != runtime,
            Some(reason) => is_first_reason(listed, runtime, reason),
        },
    decreases listed.len(),
{
    if listed.len() > 0 {
        let rest = listed.drop_last();
        lemma_objection(rest, runtime);
        assert(forall|i: int| 0 <= i < rest.len() ==> #[trigger] rest[i] == listed[i]);
        match objection(rest, runtime) {
            Some(reason) => {
                let i = choose|i: int|
                    {
                        &&& 0 <= i < rest.len()
                        &&& (#[trigger] rest[i]).runtime == runtime
                        &&& reason == rest[i].reason@
                        &&& forall|j: int| 0 <= j < i ==> (#[trigger] rest[j]).runtime != runtime
                    };
                assert(listed[i].runtime == runtime);
                assert forall|j: int| 0 <= j < i implies (#[trigger] listed[j]).runtime
                    != runtime by {
                    assert(rest[j] == listed[j]);
                }
            },
            None => {
                assert forall|j: int| 0 <= j < listed.len() - 1 implies (
                #[trigger] listed[j]).runtime != runtime by {
                    assert(rest[j] == listed[j]);
                }
                assert(listed.last() == listed[listed.len() - 1]);
            },
        }
    }
}

/// The end of a run that found its workers: refused if the runtime is listed, and selected with
/// these workers otherwise.
pub open spec fn ends_with(
    ctx: RequestContext,
    workers: WorkerSelection,
    runtime: RuntimeType,
    outcome: StageOutcome,
    filled: RequestContext,
) -> bool {
    &&& lists_runtime(ctx, runtime) ==> ends_unsupported(outcome, ctx, runtime) && filled.workers
        == ctx.workers
    &&& !lists_runtime(ctx, runtime) ==> outcome is Selected && filled.workers == Some(workers)
}

proof fn lemma_ends_with(
    ctx: RequestContext,
    workers: WorkerSelection,
    outcome: StageOutcome,
    filled: RequestContext,
)
    requires
        concluded(ctx, workers, outcome, filled),
    ensures
        ends_with(ctx, workers, building_runtime(workers), outcome, filled),
{
    let runtime = building_runtime(workers);
    if let Some(intermediate) = ctx.multimodal_intermediate {
        lemma_objection(intermediate.unsupported@, runtime);
    }
}

/// A regular run asks its selection for the request, and does with the result what its modalities
/// allow: with a worker whose runtime is listed it is refused, with any other it is selected, and
/// without a worker it is shed or not found.
pub proof fn law_regular_run_selects_for_the_request<P: LoadBalancingPolicy>(
    before: WorkerSelectionStage<P>,
    ctx: RequestContext,
    event: AdmissionEvent,
    outcome: StageOutcome,
    after: WorkerSelectionStage<P>,
    filled: RequestContext,
)
    requires
        stage_run(before, ctx, event, outcome, after, filled),
        before.mode == WorkerSelectionMode::Regular,
        ctx.preparation is Some,
    ensures
        exists|request: RequestView, selected: Option<Arc<Worker>>|
            {
                &&& asks_for(request, ctx, before.policy_registry.roles().sticky)
                &&& #[trigger] single_selection(
                    before.policy_registry.state(),
                    before.policy_registry.roles(),
                    before.worker_registry,
                    request,
                    selected,
                    after.recorded(&before),
                    after.policy_registry.state(),
                )
                &&& selected matches Some(worker) ==> ends_with(
                    ctx,
                    WorkerSelection::Single { worker },
                    worker.runtime_type,
                    outcome,
                    filled,
                )
                &&& selected is None ==> outcome is Failed && filled.workers == ctx.workers && (
                if leg_vetoed(before.worker_registry, ctx.model_id@, WorkerType::Regular) {
                    is_shed(outcome->Failed_0@)
                } else {
                    is_not_found(outcome->Failed_0@)
                })
            },
        after.prefill_admission == before.prefill_admission,
        filled.pd_prefill_guard == ctx.pd_prefill_guard,
{
    let roles = before.policy_registry.roles();
    let request = context_request(ctx, roles);
    lemma_asks_for(ctx, roles);
    let legs = seq![WorkerType::Regular];
    let selected = choose|selected: Option<Arc<Worker>>|
        #[trigger] single_selection(
            before.policy_registry.state(),
            roles,
            before.worker_registry,
            request,
            selected,
            after.recorded(&before),
            after.policy_registry.state(),
        ) && match selected {
            Some(worker) => concluded(
                ctx,
                WorkerSelection::Single { worker },
                outcome,
                filled,
            ),
            None => filled.workers == ctx.workers && failed_with(
                outcome,
                failure_view(before.worker_registry, ctx.model_id@, legs),
            ),
        };
    if let Some(worker) = selected {
        lemma_ends_with(ctx, WorkerSelection::Single { worker }, outcome, filled);
    }
    law_failure_follows_the_vetoes(before.worker_registry, ctx.model_id@, legs);
    assert(legs[0] == WorkerType::Regular);
}

/// The selection that a pair gives a request.
pub open spec fn pair_workers(pair: PdWorkerPair) -> WorkerSelection {
    WorkerSelection::Disaggregated {
        encode_assignments: None,
        prefill: pair.0,
        decode: pair.1,
        runtime_type: pair.2,
    }
}

/// A run for a pair takes the request to admission and does what comes of it: an admitted request
/// holds the new place, hands the old one back, and is refused if the runtime of its prefill worker
/// is listed; a waiting one waits, and a rejected one ends with the answer, with nothing else
/// changed of the request.
pub proof fn law_pair_run_follows_admission<P: LoadBalancingPolicy>(
    before: WorkerSelectionStage<P>,
    ctx: RequestContext,
    event: AdmissionEvent,
    outcome: StageOutcome,
    after: WorkerSelectionStage<P>,
    filled: RequestContext,
)
    requires
        stage_run(before, ctx, event, outcome, after, filled),
        before.mode == WorkerSelectionMode::PrefillDecode,
        ctx.preparation is Some,
    ensures
        exists|
            request: RequestView,
            admitted: AdmissionOutcome<PdWorkerPair>,
            between: WorkerSelectionStage<P>,
        |
            {
                &&& asks_for(request, ctx, before.policy_registry.roles().sticky)
                &&& #[trigger] pd_admission(before, event, request, admitted, between)
                &&& match admitted {
                    AdmissionOutcome::Admitted(pair, guard) => {
                        &&& filled.pd_prefill_guard == Some(guard)
                        &&& handed_over(between, ctx.pd_prefill_guard, after)
                        &&& ends_with(
                            ctx,
                            pair_workers(pair),
                            pair.0.runtime_type,
                            outcome,
                            filled,
                        )
                    },
                    AdmissionOutcome::Waiting => outcome is Waiting && after == between
                        && filled.workers == ctx.workers && filled.pd_prefill_guard
                        == ctx.pd_prefill_guard,
                    AdmissionOutcome::Rejected(response) => outcome == StageOutcome::Failed(
                        response,
                    ) && after == between && filled.workers == ctx.workers
                        && filled.pd_prefill_guard == ctx.pd_prefill_guard,
                }
            },
{
    let roles = before.policy_registry.roles();
    let request = context_request(ctx, roles);
    lemma_asks_for(ctx, roles);
    let (admitted, between) = pd_run_parts(before, ctx, event, outcome, after, filled);
    if let AdmissionOutcome::Admitted(pair, guard) = admitted {
        lemma_ends_with(ctx, pair_workers(pair), outcome, filled);
        if event == AdmissionEvent::TimedOut {
            assert(false);
        }
        let (attempt, verdict) = pd_attempt(before, event, request, admitted, between);
        law_pd_pair_may_serve(
            before.policy_registry.state(),
            roles,
            before.worker_registry,
            request,
            before.prefill_admission,
            attempt,
            between.recorded(&before),
            between.policy_registry.state(),
        );
    }
}

/// The hashes are those that the multimodal part of the request lists, in order.
pub open spec fn contents_of(ctx: RequestContext, contents: Seq<Seq<u8>>) -> bool {
    &&& contents.len() == items_of(ctx)
    &&& forall|i: int|
        #![trigger contents[i]]
        0 <= i < contents.len() ==> contents[i]
            == ctx.multimodal_intermediate->0.routing_hashes->Ok_0@[i]@
}

/// The same where encoding is disaggregated. The items are those that the request lists; a request
/// without items holds no assignments, and one with items the assignments of the selection.
pub proof fn law_set_run_follows_admission<P: LoadBalancingPolicy>(
    before: WorkerSelectionStage<P>,
    ctx: RequestContext,
    event: AdmissionEvent,
    outcome: StageOutcome,
    after: WorkerSelectionStage<P>,
    filled: RequestContext,
)
    requires
        stage_run(before, ctx, event, outcome, after, filled),
        before.mode == WorkerSelectionMode::EncodePrefillDecode,
        ctx.preparation is Some,
        !hashes_failed(ctx),
    ensures
        exists|
            request: RequestView,
            contents: Seq<Seq<u8>>,
            admitted: AdmissionOutcome<EncodePrefillDecodeWorkerSelection>,
            between: WorkerSelectionStage<P>,
        |
            {
                &&& asks_for(request, ctx, before.policy_registry.roles().sticky)
                &&& contents_of(ctx, contents)
                &&& #[trigger] epd_admission(before, event, request, contents, admitted, between)
                &&& match admitted {
                    AdmissionOutcome::Admitted((assigned, prefill, decode, runtime), guard) => {
                        &&& filled.pd_prefill_guard == Some(guard)
                        &&& handed_over(between, ctx.pd_prefill_guard, after)
                        &&& ends_with(
                            ctx,
                            WorkerSelection::Disaggregated {
                                encode_assignments: if items_of(ctx) == 0 {
                                    None
                                } else {
                                    Some(assigned)
                                },
                                prefill,
                                decode,
                                runtime_type: runtime,
                            },
                            prefill.runtime_type,
                            outcome,
                            filled,
                        )
                    },
                    AdmissionOutcome::Waiting => outcome is Waiting && after == between
                        && filled.workers == ctx.workers && filled.pd_prefill_guard
                        == ctx.pd_prefill_guard,
                    AdmissionOutcome::Rejected(response) => outcome == StageOutcome::Failed(
                        response,
                    ) && after == between && filled.workers == ctx.workers
                        && filled.pd_prefill_guard == ctx.pd_prefill_guard,
                }
            },
{
    let roles = before.policy_registry.roles();
    let request = context_request(ctx, roles);
    lemma_asks_for(ctx, roles);
    let contents = item_hashes(ctx.multimodal_intermediate)->Ok_0;
    assert(contents_of(ctx, contents));
    let (admitted, between) = epd_run_parts(
        before,
        ctx,
        event,
        contents,
        outcome,
        after,
        filled,
    );
    if let AdmissionOutcome::Admitted((assigned, prefill, decode, runtime), guard) = admitted {
        lemma_ends_with(
            ctx,
            WorkerSelection::Disaggregated {
                encode_assignments: optional_assignments(assigned),
                prefill,
                decode,
                runtime_type: runtime,
            },
            outcome,
            filled,
        );
        if event == AdmissionEvent::TimedOut {
            assert(false);
        }
        let (attempt, verdict) = epd_attempt(
            before,
            event,
            request,
            contents,
            admitted,
            between,
        );
        law_epd_workers_may_serve(
            before.policy_registry.state(),
            roles,
            before.worker_registry,
            request,
            contents,
            before.prefill_admission,
            epd_outcome(attempt),
            between.recorded(&before),
            between.policy_registry.state(),
        );
    }
}

/// In every mode, a request is selected only with a runtime that takes its modalities: none of the
/// entries of its multimodal part lists the runtime of the sole worker, or of the prefill worker.
/// And it is refused with a 400 only for a runtime that is listed, of a worker on duty.
pub proof fn law_modalities_fit_the_runtime<P: LoadBalancingPolicy>(
    before: WorkerSelectionStage<P>,
    ctx: RequestContext,
    event: AdmissionEvent,
    outcome: StageOutcome,
    after: WorkerSelectionStage<P>,
    filled: RequestContext,
)
    requires
        stage_run(before, ctx, event, outcome, after, filled),
    ensures
        outcome is Selected ==> match filled.workers {
            Some(WorkerSelection::Single { worker }) => before.mode == WorkerSelectionMode::Regular
                && !lists_runtime(ctx, worker.runtime_type),
            Some(WorkerSelection::Disaggregated { prefill, .. }) => before.mode
                != WorkerSelectionMode::Regular && !lists_runtime(ctx, prefill.runtime_type),
            None => false,
        },
        outcome matches StageOutcome::Failed(response) && response.status == 400 ==> exists|
            runtime: RuntimeType,
        |
            #[trigger] ends_unsupported(outcome, ctx, runtime) && lists_runtime(ctx, runtime),
        before.mode != WorkerSelectionMode::Regular && (outcome matches StageOutcome::Failed(
            response,
        ) && response.status == 400) ==> filled.pd_prefill_guard is Some && ends_unsupported(
            outcome,
            ctx,
            filled.pd_prefill_guard->0.prefill.runtime_type,
        ),
{
    if ctx.preparation is Some {
        match before.mode {
            WorkerSelectionMode::Regular => {
                law_regular_run_selects_for_the_request(
                    before,
                    ctx,
                    event,
                    outcome,
                    after,
                    filled,
                );
            },
            WorkerSelectionMode::PrefillDecode => {
                lemma_pair_run_refusal(before, ctx, event, outcome, after, filled);
            },
            WorkerSelectionMode::EncodePrefillDecode => {
                if !hashes_failed(ctx) {
                    lemma_set_run_refusal(before, ctx, event, outcome, after, filled);
                }
            },
        }
    }
}

proof fn lemma_pair_run_refusal<P: LoadBalancingPolicy>(
    before: WorkerSelectionStage<P>,
    ctx: RequestContext,
    event: AdmissionEvent,
    outcome: StageOutcome,
    after: WorkerSelectionStage<P>,
    filled: RequestContext,
)
    requires
        stage_run(before, ctx, event, outcome, after, filled),
        before.mode == WorkerSelectionMode::PrefillDecode,
        ctx.preparation is Some,
    ensures
        outcome is Selected ==> filled.workers is Some && filled.workers->0 is Disaggregated
            && !lists_runtime(ctx, filled.workers->0->prefill.runtime_type),
        (outcome matches StageOutcome::Failed(response) && response.status == 400)
            ==> filled.pd_prefill_guard is Some && ends_unsupported(
            outcome,
            ctx,
            filled.pd_prefill_guard->0.prefill.runtime_type,
        ) && lists_runtime(ctx, filled.pd_prefill_guard->0.prefill.runtime_type),
{
    law_pair_run_follows_admission(before, ctx, event, outcome, after, filled);
    let (admitted, between) = pd_run_parts(before, ctx, event, outcome, after, filled);
    let request = context_request(ctx, before.policy_registry.roles());
    if event != AdmissionEvent::TimedOut {
        let (attempt, verdict) = pd_attempt(before, event, request, admitted, between);
        if let AdmissionOutcome::Admitted(pair, guard) = admitted {
            lemma_ends_with(ctx, pair_workers(pair), outcome, filled);
            law_pd_pair_may_serve(
                before.policy_registry.state(),
                before.policy_registry.roles(),
                before.worker_registry,
                request,
                before.prefill_admission,
                attempt,
                between.recorded(&before),
                between.policy_registry.state(),
            );
            assert(guard.prefill == pair.0);
        }
    }
}

proof fn lemma_set_run_refusal<P: LoadBalancingPolicy>(
    before: WorkerSelectionStage<P>,
    ctx: RequestContext,
    event: AdmissionEvent,
    outcome: StageOutcome,
    after: WorkerSelectionStage<P>,
    filled: RequestContext,
)
    requires
        stage_run(before, ctx, event, outcome, after, filled),
        before.mode == WorkerSelectionMode::EncodePrefillDecode,
        ctx.preparation is Some,
        !hashes_failed(ctx),
    ensures
        outcome is Selected ==> filled.workers is Some && filled.workers->0 is Disaggregated
            && !lists_runtime(ctx, filled.workers->0->prefill.runtime_type),
        (outcome matches StageOutcome::Failed(response) && response.status == 400)
            ==> filled.pd_prefill_guard is Some && ends_unsupported(
            outcome,
            ctx,
            filled.pd_prefill_guard->0.prefill.runtime_type,
        ) && lists_runtime(ctx, filled.pd_prefill_guard->0.prefill.runtime_type),
{
    let contents = item_hashes(ctx.multimodal_intermediate)->Ok_0;
    let request = context_request(ctx, before.policy_registry.roles());
    let (admitted, between) = epd_run_parts(
        before,
        ctx,
        event,
        contents,
        outcome,
        after,
        filled,
    );
    if event != AdmissionEvent::TimedOut {
        let (attempt, verdict) = epd_attempt(
            before,
            event,
            request,
            contents,
            admitted,
            between,
        );
        if let AdmissionOutcome::Admitted((assigned, prefill, decode, runtime), guard) = admitted {
            lemma_ends_with(
                ctx,
                WorkerSelection::Disaggregated {
                    encode_assignments: optional_assignments(assigned),
                    prefill,
                    decode,
                    runtime_type: runtime,
                },
                outcome,
                filled,
            );
            law_epd_workers_may_serve(
                before.policy_registry.state(),
                before.policy_registry.roles(),
                before.worker_registry,
                request,
                contents,
                before.prefill_admission,
                epd_outcome(attempt),
                between.recorded(&before),
                between.policy_registry.state(),
            );
            assert(guard.prefill == prefill);
        }
    }
}

/// The key by which a request sticks is left with it: the conversation of its id while the override
/// is on and if there is one, and else, while the override is on, the text of its routing-key
/// header.
pub proof fn law_sticky_key_is_left_with_the_request<P: LoadBalancingPolicy>(
    before: WorkerSelectionStage<P>,
    ctx: RequestContext,
    event: AdmissionEvent,
    outcome: StageOutcome,
    after: WorkerSelectionStage<P>,
    filled: RequestContext,
)
    requires
        stage_run(before, ctx, event, outcome, after, filled),
        ctx.preparation is Some,
        before.mode == WorkerSelectionMode::EncodePrefillDecode ==> !hashes_failed(ctx),
    ensures
        !before.policy_registry.roles().sticky ==> filled.sticky_key is None,
        exists|request: RequestView|
            {
                &&& #[trigger] asks_for(request, ctx, before.policy_registry.roles().sticky)
                &&& before.policy_registry.roles().sticky ==> match filled.sticky_key {
                    Some(key) => key_of(request) == Some(key@),
                    None => key_of(request) is None,
                }
            },
{
    let roles = before.policy_registry.roles();
    let request = context_request(ctx, roles);
    lemma_asks_for(ctx, roles);
    law_header_text_is_read(request.headers, "x-smg-routing-key"@);
}

/// A request without preparation, or with items whose hashes could not be derived where they are
/// needed, ends with a 500, and nothing changes.
pub proof fn law_unready_request_is_an_internal_error<P: LoadBalancingPolicy>(
    before: WorkerSelectionStage<P>,
    ctx: RequestContext,
    event: AdmissionEvent,
    outcome: StageOutcome,
    after: WorkerSelectionStage<P>,
    filled: RequestContext,
)
    requires
        stage_run(before, ctx, event, outcome, after, filled),
        ctx.preparation is None || before.mode == WorkerSelectionMode::EncodePrefillDecode
            && hashes_failed(ctx),
    ensures
        after == before,
        filled == ctx,
        outcome is Failed,
        outcome->Failed_0.status == 500,
        !outcome->Failed_0.shed,
        outcome->Failed_0.code@ == if ctx.preparation is None {
            "preparation_stage_not_completed"@
        } else {
            "encode_routing_hash_failed"@
        },
        outcome->Failed_0.message@ == if ctx.preparation is None {
            "Preparation stage not completed"@
        } else {
            "Failed to derive encode routing hashes: "@
                + ctx.multimodal_intermediate->0.routing_hashes->Err_0@
        },
{
}

/// A run leaves of the request what the stages before it left: its model, its headers, its id, its
/// preparation and its multimodal part.
pub proof fn law_run_leaves_the_request_as_it_came<P: LoadBalancingPolicy>(
    before: WorkerSelectionStage<P>,
    ctx: RequestContext,
    event: AdmissionEvent,
    outcome: StageOutcome,
    after: WorkerSelectionStage<P>,
    filled: RequestContext,
)
    requires
        stage_run(before, ctx, event, outcome, after, filled),
    ensures
        filled.model_id == ctx.model_id,
        filled.headers == ctx.headers,
        filled.rid == ctx.rid,
        filled.preparation == ctx.preparation,
        filled.multimodal_intermediate == ctx.multimodal_intermediate,
        outcome !is Selected ==> filled.workers == ctx.workers,
        outcome is Waiting ==> filled.pd_prefill_guard == ctx.pd_prefill_guard,
{
}

/// The runtime that builds a request is that of its sole worker, or the one that its legs share.
pub proof fn law_building_runtime_is_the_workers(workers: WorkerSelection)
    ensures
        workers matches WorkerSelection::Single { worker } ==> building_runtime(workers)
            == worker.runtime_type,
        workers matches WorkerSelection::Disaggregated { runtime_type, .. } ==> building_runtime(
            workers,
        ) == runtime_type,
{
}

/// A place that a request held before its new one is handed back, and with it nothing else of the
/// stage changes.
pub proof fn law_replaced_place_is_handed_back<P: LoadBalancingPolicy>(
    before: WorkerSelectionStage<P>,
    held: Option<PrefillLoadGuard>,
    after: WorkerSelectionStage<P>,
)
    requires
        handed_over(before, held, after),
    ensures
        after.worker_registry == before.worker_registry,
        after.policy_registry == before.policy_registry,
        after.mode == before.mode,
        after.selections == before.selections,
        held is None ==> after.prefill_admission == before.prefill_admission,
        before.prefill_admission is None <==> after.prefill_admission is None,
        held is Some && before.prefill_admission is Some ==> {
            let url = held->0.prefill.url@;
            let first = before.prefill_admission->0;
            let last = after.prefill_admission->0;
            &&& first.load(url) > 0 ==> one_place_more(last, first, url)
            &&& first.load(url) == 0 ==> no_place_moved(first, last)
            &&& last.queued() == first.queued()
        },
{
}

/// The load of every worker is what it was, but for one place more at the url.
pub open spec fn one_place_more(
    before: PrefillAdmission,
    after: PrefillAdmission,
    url: Seq<char>,
) -> bool {
    forall|any: Seq<char>|
        #![trigger after.load(any)]
        after.load(any) == before.load(any) + if any == url {
            1int
        } else {
            0int
        }
}

/// The load of every worker is what it was.
pub open spec fn no_place_moved(before: PrefillAdmission, after: PrefillAdmission) -> bool {
    forall|any: Seq<char>| #![trigger after.load(any)] after.load(any) == before.load(any)
}

/// The limits are what they were, and they are kept.
pub open spec fn limits_kept(before: PrefillAdmission, after: PrefillAdmission) -> bool {
    &&& after.limit() == before.limit()
    &&& after.max_queued() == before.max_queued()
    &&& after.timeout_ms() == before.timeout_ms()
    &&& after.queued() <= after.max_queued()
    &&& forall|any: Seq<char>| #![trigger after.load(any)] after.load(any) <= after.limit()
}

/// A request leaves the queue that it waited in.
pub open spec fn queue_after_leaving(before: PrefillAdmission, event: AdmissionEvent) -> int {
    if event == AdmissionEvent::Arrived || before.queued() == 0 {
        before.queued() as int
    } else {
        before.queued() - 1
    }
}

/// What admission makes of a selection. A selected request gets one place on its prefill worker and
/// leaves the queue. A request whose workers are full takes no place; it stays in the queue if it
/// waited, joins it if there is a place in it, and is told that the queue is full otherwise. A
/// request without workers takes no place, leaves the queue and ends. Limits are always kept.
pub proof fn law_admission_gives_one_place(
    before: PrefillAdmission,
    event: AdmissionEvent,
    attempt: Result<Arc<Worker>, GrpcPdCandidateError>,
    verdict: AdmissionVerdict,
    after: Option<PrefillAdmission>,
)
    requires
        settled(Some(before), event, attempt, verdict, after),
    ensures
        after is Some,
        limits_kept(before, after->0),
        attempt matches Ok(prefill) ==> {
            &&& verdict == AdmissionVerdict::Admitted(PrefillLoadGuard { prefill })
            &&& one_place_more(before, after->0, prefill.url@)
            &&& after->0.queued() == queue_after_leaving(before, event)
        },
        attempt is Err ==> no_place_moved(before, after->0),
        attempt == Err::<Arc<Worker>, GrpcPdCandidateError>(GrpcPdCandidateError::AtCapacity) ==> {
            let joins = event == AdmissionEvent::Arrived && before.queued() < before.max_queued();
            let refused = event == AdmissionEvent::Arrived && before.queued()
                >= before.max_queued();
            &&& refused ==> verdict == AdmissionVerdict::Failed(
                PrefillAcquireError::Rejected(PrefillAdmissionRejection::QueueFull),
            )
            &&& !refused ==> verdict is Waiting
            &&& after->0.queued() == before.queued() + if joins {
                1int
            } else {
                0int
            }
        },
        attempt == Err::<Arc<Worker>, GrpcPdCandidateError>(GrpcPdCandidateError::Unavailable)
            ==> {
            &&& verdict == AdmissionVerdict::Failed(
                PrefillAcquireError::Candidate(GrpcPdCandidateError::Unavailable),
            )
            &&& after->0.queued() == queue_after_leaving(before, event)
        },
{
}

/// Without admission a selected request is admitted, and any other ends.
pub proof fn law_without_admission_nobody_waits(
    event: AdmissionEvent,
    attempt: Result<Arc<Worker>, GrpcPdCandidateError>,
    verdict: AdmissionVerdict,
    after: Option<PrefillAdmission>,
)
    requires
        settled(None, event, attempt, verdict, after),
    ensures
        after is None,
        attempt matches Ok(prefill) ==> verdict == AdmissionVerdict::Admitted(
            PrefillLoadGuard { prefill },
        ),
        attempt matches Err(error) ==> verdict == AdmissionVerdict::Failed(
            PrefillAcquireError::Candidate(error),
        ),
{
}

/// A place that is handed back is free: one place less at the worker, if it held any.
pub proof fn law_released_place_is_free(
    before: PrefillAdmission,
    guard: PrefillLoadGuard,
    after: Option<PrefillAdmission>,
)
    requires
        released(Some(before), guard, after),
    ensures
        after is Some,
        limits_kept(before, after->0),
        after->0.queued() == before.queued(),
        before.load(guard.prefill.url@) > 0 ==> one_place_more(
            after->0,
            before,
            guard.prefill.url@,
        ),
        before.load(guard.prefill.url@) == 0 ==> no_place_moved(before, after->0),
{
}

/// The answer to a request that did not get a prefill worker: a 429 of its own for a full queue and
/// for a wait that was too long, and for anything else the shed or not found by the legs.
pub open spec fn acquire_answer(
    registry: WorkerRegistry,
    model: Seq<char>,
    legs: Seq<WorkerType>,
    error: PrefillAcquireError,
    answer: ResponseView,
) -> bool {
    match error {
        PrefillAcquireError::Rejected(PrefillAdmissionRejection::QueueFull) => answer.status == 429
            && answer.code == "pd_prefill_queue_full"@ && answer.message
            == "Prefill admission queue is full"@ && !answer.shed,
        PrefillAcquireError::Rejected(PrefillAdmissionRejection::QueueTimeout) => answer.status
            == 429 && answer.code == "pd_prefill_queue_timeout"@ && answer.message
            == "Timed out waiting for Prefill admission"@ && !answer.shed,
        _ => if exists|i: int|
            0 <= i < legs.len() && leg_vetoed(registry, model, #[trigger] legs[i]) {
            is_shed(answer)
        } else {
            is_not_found(answer)
        },
    }
}

/// Each acquire error has its answer.
pub proof fn law_acquire_errors_are_answered(
    registry: WorkerRegistry,
    model: Seq<char>,
    legs: Seq<WorkerType>,
    error: PrefillAcquireError,
)
    ensures
        acquire_answer(
            registry,
            model,
            legs,
            error,
            acquire_failure_view(registry, model, legs, error),
        ),
{
    law_failure_follows_the_vetoes(registry, model, legs);
}

/// The answer to a disaggregated request that gets no workers goes by its legs: prefill and decode,
/// and encode if it has items.
pub open spec fn ends_by_legs(
    registry: WorkerRegistry,
    model: Seq<char>,
    items: nat,
    answer: ResponseView,
) -> bool {
    if leg_vetoed(registry, model, WorkerType::Prefill) || leg_vetoed(
        registry,
        model,
        WorkerType::Decode,
    ) || items > 0 && leg_vetoed(registry, model, WorkerType::Encode) {
        is_shed(answer)
    } else {
        is_not_found(answer)
    }
}

proof fn lemma_ends_by_legs(registry: WorkerRegistry, model: Seq<char>, items: nat)
    ensures
        ends_by_legs(
            registry,
            model,
            items,
            failure_view(registry, model, demanded_legs(items)),
        ),
{
    let legs = demanded_legs(items);
    law_failure_follows_the_vetoes(registry, model, legs);
    assert(legs[0] == WorkerType::Prefill);
    assert(legs[1] == WorkerType::Decode);
    if items > 0 {
        assert(legs[2] == WorkerType::Encode);
    }
}

/// The answer is that the queue is full.
pub open spec fn is_queue_full(answer: ResponseView) -> bool {
    answer.status == 429 && answer.code == "pd_prefill_queue_full"@ && !answer.shed
}

/// The answer is that the wait was too long.
pub open spec fn is_queue_timeout(answer: ResponseView) -> bool {
    answer.status == 429 && answer.code == "pd_prefill_queue_timeout"@ && !answer.shed
}

/// The admission of a request that waited too long: it leaves the queue, takes no place, and asks
/// no policy.
pub open spec fn gives_up<P: LoadBalancingPolicy, S>(
    before: WorkerSelectionStage<P>,
    outcome: AdmissionOutcome<S>,
    after: WorkerSelectionStage<P>,
) -> bool {
    &&& outcome is Rejected
    &&& is_queue_timeout(outcome->Rejected_0@)
    &&& after.policy_registry.state() == before.policy_registry.state()
    &&& after.recorded(&before).len() == 0
    &&& before.prefill_admission is None <==> after.prefill_admission is None
    &&& before.prefill_admission matches Some(first) ==> {
        &&& no_place_moved(first, after.prefill_admission->0)
        &&& limits_kept(first, after.prefill_admission->0)
        &&& after.prefill_admission->0.queued() == queue_after_leaving(
            first,
            AdmissionEvent::TimedOut,
        )
    }
}

/// What admission makes of a selection for a request: admitted with the selection and a place on
/// its prefill worker; or waiting, under admission alone; or rejected for a full queue, or for want
/// of workers with the answer of its legs.
pub open spec fn admitted_as<S>(
    registry: WorkerRegistry,
    model: Seq<char>,
    items: nat,
    before: Option<PrefillAdmission>,
    event: AdmissionEvent,
    attempt: Result<S, GrpcPdCandidateError>,
    prefill: Result<Arc<Worker>, GrpcPdCandidateError>,
    outcome: AdmissionOutcome<S>,
    after: Option<PrefillAdmission>,
) -> bool {
    &&& before is None <==> after is None
    &&& before is Some ==> limits_kept(before->0, after->0)
    &&& match attempt {
        Ok(selection) => {
            &&& outcome is Admitted
            &&& outcome->Admitted_0 == selection
            &&& prefill is Ok
            &&& outcome->Admitted_1.prefill == prefill->Ok_0
            &&& before is Some ==> one_place_more(before->0, after->0, prefill->Ok_0.url@)
                && after->0.queued() == queue_after_leaving(before->0, event)
        },
        Err(GrpcPdCandidateError::Unavailable) => {
            &&& outcome is Rejected
            &&& ends_by_legs(registry, model, items, outcome->Rejected_0@)
            &&& before is Some ==> no_place_moved(before->0, after->0) && after->0.queued()
                == queue_after_leaving(before->0, event)
        },
        Err(GrpcPdCandidateError::AtCapacity) => before is Some ==> {
            let first = before->0;
            let last = after->0;
            &&& no_place_moved(first, last)
            &&& event != AdmissionEvent::Arrived ==> outcome is Waiting && last.queued()
                == first.queued()
            &&& event == AdmissionEvent::Arrived && first.queued() < first.max_queued()
                ==> outcome is Waiting && last.queued() == first.queued() + 1
            &&& event == AdmissionEvent::Arrived && first.queued() >= first.max_queued()
                ==> outcome is Rejected && is_queue_full(outcome->Rejected_0@) && last.queued()
                == first.queued()
        },
    }
}

/// An admission for a pair selects it under the load that there is, and makes of it what admission
/// makes of a selection. A request that waited too long gives up.
pub proof fn law_pair_admission<P: LoadBalancingPolicy>(
    before: WorkerSelectionStage<P>,
    event: AdmissionEvent,
    request: RequestView,
    outcome: AdmissionOutcome<PdWorkerPair>,
    after: WorkerSelectionStage<P>,
)
    requires
        pd_admission(before, event, request, outcome, after),
    ensures
        event == AdmissionEvent::TimedOut ==> gives_up(before, outcome, after),
        event != AdmissionEvent::TimedOut ==> exists|
            attempt: Result<PdWorkerPair, GrpcPdCandidateError>,
        |
            {
                &&& #[trigger] pd_selection(
                    before.policy_registry.state(),
                    before.policy_registry.roles(),
                    before.worker_registry,
                    request,
                    before.prefill_admission,
                    attempt,
                    after.recorded(&before),
                    after.policy_registry.state(),
                )
                &&& admitted_as(
                    before.worker_registry,
                    request.model,
                    0,
                    before.prefill_admission,
                    event,
                    attempt,
                    match attempt {
                        Ok(pair) => Ok(pair.0),
                        Err(error) => Err(error),
                    },
                    outcome,
                    after.prefill_admission,
                )
            },
{
    if event != AdmissionEvent::TimedOut {
        let (attempt, verdict) = pd_attempt(before, event, request, outcome, after);
        lemma_ends_by_legs(before.worker_registry, request.model, 0);
        assert(pd_prefill(attempt) == match attempt {
            Ok(pair) => Ok::<Arc<Worker>, GrpcPdCandidateError>(pair.0),
            Err(error) => Err(error),
        });
        if let Some(first) = before.prefill_admission {
            law_admission_gives_one_place(
                first,
                event,
                pd_prefill(attempt),
                verdict,
                after.prefill_admission,
            );
        }
    }
}

/// The same where encoding is disaggregated, with the encode leg for a request with items.
pub proof fn law_set_admission<P: LoadBalancingPolicy>(
    before: WorkerSelectionStage<P>,
    event: AdmissionEvent,
    request: RequestView,
    contents: Seq<Seq<u8>>,
    outcome: AdmissionOutcome<EncodePrefillDecodeWorkerSelection>,
    after: WorkerSelectionStage<P>,
)
    requires
        epd_admission(before, event, request, contents, outcome, after),
    ensures
        event == AdmissionEvent::TimedOut ==> gives_up(before, outcome, after),
        event != AdmissionEvent::TimedOut ==> exists|
            attempt: Result<EncodePrefillDecodeWorkerSelection, GrpcPdCandidateError>,
        |
            {
                &&& epd_selection(
                    before.policy_registry.state(),
                    before.policy_registry.roles(),
                    before.worker_registry,
                    request,
                    contents,
                    before.prefill_admission,
                    #[trigger] epd_outcome(attempt),
                    after.recorded(&before),
                    after.policy_registry.state(),
                )
                &&& admitted_as(
                    before.worker_registry,
                    request.model,
                    contents.len(),
                    before.prefill_admission,
                    event,
                    attempt,
                    match attempt {
                        Ok(selection) => Ok(selection.1),
                        Err(error) => Err(error),
                    },
                    outcome,
                    after.prefill_admission,
                )
            },
{
    if event != AdmissionEvent::TimedOut {
        let (attempt, verdict) = epd_attempt(before, event, request, contents, outcome, after);
        lemma_ends_by_legs(before.worker_registry, request.model, contents.len());
        assert(epd_prefill(attempt) == match attempt {
            Ok(selection) => Ok::<Arc<Worker>, GrpcPdCandidateError>(selection.1),
            Err(error) => Err(error),
        });
        let shown = epd_outcome(attempt);
        if let Some(first) = before.prefill_admission {
            law_admission_gives_one_place(
                first,
                event,
                epd_prefill(attempt),
                verdict,
                after.prefill_admission,
            );
        }
    }
}

/// The ring of a model is the one that was set for it last; there is none if none was set.
pub proof fn law_last_ring_counts(registry: WorkerRegistry, model: Seq<char>)
    ensures
        ({
            let rings = registry.rings();
            let ring = registry.hash_ring(model);
            &&& forall|i: int|
                #![trigger rings[i]]
                0 <= i < rings.len() && rings[i].model_id@ == model && (forall|j: int|
                    #![trigger rings[j]]
                    i < j < rings.len() ==> rings[j].model_id@ != model) ==> ring == Some(
                    rings[i].ring,
                )
            &&& (forall|i: int|
                #![trigger rings[i]]
                0 <= i < rings.len() ==> rings[i].model_id@ != model) ==> ring is None
        }),
{
    lemma_last_ring(registry.rings(), model);
}

proof fn lemma_last_ring(rings: Seq<ModelRing>, model: Seq<char>)
    ensures
        forall|i: int|
            0 <= i < rings.len() && (#[trigger] rings[i]).model_id@ == model && (forall|j: int|
                i < j < rings.len() ==> (#[trigger] rings[j]).model_id@ != model) ==> ring_of(
                rings,
                model,
            ) == Some(rings[i].ring),
        (forall|i: int| 0 <= i < rings.len() ==> (#[trigger] rings[i]).model_id@ != model)
            ==> ring_of(rings, model) is None,
    decreases rings.len(),
{
    if rings.len() > 0 {
        let rest = rings.drop_last();
        lemma_last_ring(rest, model);
        assert(forall|i: int| 0 <= i < rest.len() ==> #[trigger] rest[i] == rings[i]);
        let last = rings.len() - 1;
        if rings[last].model_id@ != model {
            assert forall|i: int|
                0 <= i < rings.len() && (#[trigger] rings[i]).model_id@ == model && (forall|j: int|
                    i < j < rings.len() ==> (#[trigger] rings[j]).model_id@ != model) implies
                ring_of(rings, model) == Some(rings[i].ring) by {
                assert(rest[i] == rings[i]);
                assert forall|j: int| i < j < rest.len() implies (#[trigger] rest[j]).model_id@
                    != model by {
                    assert(rest[j] == rings[j]);
                }
            }
        }
    }
}

/// A veto is set on or lifted from the workers with the url, and nothing else of any worker
/// changes.
pub proof fn law_veto_touches_nothing_else(
    before: Seq<Arc<Worker>>,
    url: Seq<char>,
    overloaded: bool,
    after: Seq<Arc<Worker>>,
)
    requires
        veto_set(before, url, overloaded, after),
    ensures
        after.len() == before.len(),
        forall|i: int|
            #![trigger after[i]]
            0 <= i < after.len() && before[i].url@ != url ==> after[i] == before[i],
        forall|i: int|
            #![trigger after[i]]
            0 <= i < after.len() && before[i].url@ == url ==> *after[i] == (Worker {
                overloaded,
                ..*before[i]
            }),
{
}

/// What the contracts read of their arguments is what the arguments hold.
pub proof fn law_views_are_faithful(
    context: &PrefillSelectionContext<'_>,
    hashes: Seq<Vec<u8>>,
    assigned: Vec<EncodeWorkerAssignment>,
    selection: EncodePrefillDecodeWorkerSelection,
    error: GrpcPdCandidateError,
    response: Response,
)
    ensures
        seen(Some(context)) == Some(*context.admission),
        seen(None) is None,
        hash_list(hashes).len() == hashes.len(),
        forall|i: int| 0 <= i < hashes.len() ==> #[trigger] hash_list(hashes)[i] == hashes[i]@,
        pointee(Some(&response)) == Some(response),
        pointee(None::<&Response>) is None,
        assignment_list(Some(assigned)) == Some(assigned@),
        assignment_list(None) is None,
        epd_outcome(Err(error)) == Err::<EpdOutcome, GrpcPdCandidateError>(error),
        epd_outcome(Ok(selection)) is Ok,
        epd_outcome(Ok(selection))->Ok_0.assigned == selection.0@,
        epd_outcome(Ok(selection))->Ok_0.prefill == selection.1,
        epd_outcome(Ok(selection))->Ok_0.decode == selection.2,
        epd_outcome(Ok(selection))->Ok_0.runtime == selection.3,
        response@.status == response.status,
        response@.code == response.code@,
        response@.message == response.message@,
        response@.shed == response.shed,
{
}

/// No operation of the stage changes its workers, its mode, or the roles of its policies.
pub proof fn law_stage_keeps_its_workers<P: LoadBalancingPolicy>(
    before: WorkerSelectionStage<P>,
    after: WorkerSelectionStage<P>,
)
    requires
        after.keeps(&before),
    ensures
        after.worker_registry == before.worker_registry,
        after.mode == before.mode,
        after.policy_registry.roles() == before.policy_registry.roles(),
        before.selections@.len() <= after.selections@.len(),
        forall|i: int|
            0 <= i < before.selections@.len() ==> #[trigger] after.selections@[i]
                == before.selections@[i],
{
    law_records_are_appended(before.selections@, after.selections@);
}

} // verus!
