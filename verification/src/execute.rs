//! The run of the stage on one request.

use crate::admission::AdmissionEvent;
use crate::context::{building_runtime, selection_runtime, RequestContext, WorkerSelection};
use crate::headers::{header_values, request_header, ROUTING_KEY_HEADER};
use crate::multimodal::{
    encode_item_hashes, ensure_backend_supports_modalities, item_hashes, objection,
};
use crate::policy::LoadBalancingPolicy;
use crate::policy_registry::{rid_key, PolicyRoles};
use crate::prefill::{epd_admission, handed_over, pd_admission, AdmissionOutcome};
use crate::response::{bad_request, error_view, internal_error, Response, ResponseView};
use crate::selection::{
    single_selection, EncodePrefillDecodeWorkerSelection, EncodeWorkerAssignment, PdWorkerPair,
    RequestView,
};
use crate::stage::{
    failure_view, lemma_nothing_added, request_view, WorkerSelectionMode, WorkerSelectionStage,
};
use crate::worker::{Worker, WorkerType};
use axum::http::{HeaderMap, HeaderValue};
use std::sync::Arc;
use vstd::prelude::*;
use vstd::string::StringExecFns;

verus! {

/// How far the stage has brought a request.
#[derive(Debug)]
pub enum StageOutcome {
    /// The workers of the request are selected.
    Selected,
    /// The request waits for a prefill worker.
    Waiting,
    /// The request ends with an answer.
    Failed(Response),
}

/// The contents of an optional string.
pub open spec fn string_view(text: Option<String>) -> Option<Seq<char>> {
    match text {
        Some(text) => Some(text@),
        None => None,
    }
}

/// What the headers of a request hold.
pub open spec fn context_headers(ctx: RequestContext) -> Option<Map<Seq<char>, Seq<u8>>> {
    match ctx.headers {
        Some(headers) => Some(header_values(headers)),
        None => None,
    }
}

/// What selection reads of a prepared request. An empty token list counts as none.
pub open spec fn context_request(ctx: RequestContext, roles: PolicyRoles) -> RequestView
    recommends
        ctx.preparation is Some,
{
    let preparation = ctx.preparation->0;
    RequestView {
        model: ctx.model_id@,
        text: string_view(preparation.routing_text),
        tokens: if preparation.token_ids@.len() == 0 {
            None
        } else {
            Some(preparation.token_ids@)
        },
        headers: context_headers(ctx),
        rid_key: rid_key(roles.sticky, string_view(ctx.rid)),
    }
}

/// The key by which the request sticks: from its id, or else from its headers.
pub open spec fn context_sticky_key(ctx: RequestContext, roles: PolicyRoles) -> Option<Seq<char>> {
    match rid_key(roles.sticky, string_view(ctx.rid)) {
        Some(key) => Some(key),
        None => if roles.sticky {
            request_header(context_headers(ctx), ROUTING_KEY_HEADER@)
        } else {
            None
        },
    }
}

/// What the stages before this one left of the request is unchanged.
pub open spec fn same_input(before: RequestContext, after: RequestContext) -> bool {
    &&& after.model_id == before.model_id
    &&& after.headers == before.headers
    &&& after.rid == before.rid
    &&& after.preparation == before.preparation
    &&& after.multimodal_intermediate == before.multimodal_intermediate
}

/// The outcome is a failure with this answer.
pub open spec fn failed_with(outcome: StageOutcome, view: ResponseView) -> bool {
    outcome matches StageOutcome::Failed(response) && response@ == view
}

/// Why the runtime of the selection cannot take the modalities of the request.
pub open spec fn context_objection(ctx: RequestContext, workers: WorkerSelection) -> Option<
    Seq<char>,
> {
    match ctx.multimodal_intermediate {
        Some(intermediate) => objection(intermediate.unsupported@, building_runtime(workers)),
        None => None,
    }
}

/// The end of a run that selected `workers`: they are the workers of the request, unless their
/// runtime cannot take its modalities.
pub open spec fn concluded(
    before: RequestContext,
    workers: WorkerSelection,
    outcome: StageOutcome,
    after: RequestContext,
) -> bool {
    match context_objection(before, workers) {
        Some(reason) => after.workers == before.workers && failed_with(
            outcome,
            error_view(400, "multimodal_not_supported"@, reason),
        ),
        None => after.workers == Some(workers) && outcome is Selected,
    }
}

/// A run in regular mode.
pub open spec fn regular_run<P: LoadBalancingPolicy>(
    before: WorkerSelectionStage<P>,
    ctx: RequestContext,
    outcome: StageOutcome,
    after: WorkerSelectionStage<P>,
    filled: RequestContext,
) -> bool {
    let roles = before.policy_registry.roles();
    &&& after.prefill_admission == before.prefill_admission
    &&& filled.pd_prefill_guard == ctx.pd_prefill_guard
    &&& exists|selected: Option<Arc<Worker>>|
        #[trigger] single_selection(
            before.policy_registry.state(),
            roles,
            before.worker_registry,
            context_request(ctx, roles),
            selected,
            after.recorded(&before),
            after.policy_registry.state(),
        ) && match selected {
            Some(worker) => concluded(ctx, WorkerSelection::Single { worker }, outcome, filled),
            None => filled.workers == ctx.workers && failed_with(
                outcome,
                failure_view(before.worker_registry, ctx.model_id@, seq![WorkerType::Regular]),
            ),
        }
}

/// The outcome of a run whose admission did not let the request in.
pub open spec fn not_admitted<S>(
    ctx: RequestContext,
    admitted: AdmissionOutcome<S>,
    outcome: StageOutcome,
    filled: RequestContext,
) -> bool {
    &&& filled.pd_prefill_guard == ctx.pd_prefill_guard
    &&& filled.workers == ctx.workers
    &&& match admitted {
        AdmissionOutcome::Rejected(response) => outcome == StageOutcome::Failed(response),
        _ => outcome is Waiting,
    }
}

/// A run in prefill and decode mode. A place that the request held before is handed back once
/// the request has its new one.
pub open spec fn pd_run<P: LoadBalancingPolicy>(
    before: WorkerSelectionStage<P>,
    ctx: RequestContext,
    event: AdmissionEvent,
    outcome: StageOutcome,
    after: WorkerSelectionStage<P>,
    filled: RequestContext,
) -> bool {
    let request = context_request(ctx, before.policy_registry.roles());
    exists|admitted: AdmissionOutcome<PdWorkerPair>, between: WorkerSelectionStage<P>|
        #[trigger] pd_admission(before, event, request, admitted, between) && match admitted {
            AdmissionOutcome::Admitted((prefill, decode, runtime_type), guard) => {
                &&& handed_over(between, ctx.pd_prefill_guard, after)
                &&& filled.pd_prefill_guard == Some(guard)
                &&& concluded(
                    ctx,
                    WorkerSelection::Disaggregated {
                        encode_assignments: None,
                        prefill,
                        decode,
                        runtime_type,
                    },
                    outcome,
                    filled,
                )
            },
            _ => after == between && not_admitted(ctx, admitted, outcome, filled),
        }
}

/// Assignments as a selection holds them: none for a request without items.
pub open spec fn optional_assignments(assigned: Vec<EncodeWorkerAssignment>) -> Option<
    Vec<EncodeWorkerAssignment>,
> {
    if assigned@.len() == 0 {
        None
    } else {
        Some(assigned)
    }
}

/// A run in encode, prefill and decode mode, once the item hashes are known.
pub open spec fn epd_run<P: LoadBalancingPolicy>(
    before: WorkerSelectionStage<P>,
    ctx: RequestContext,
    event: AdmissionEvent,
    hashes: Seq<Seq<u8>>,
    outcome: StageOutcome,
    after: WorkerSelectionStage<P>,
    filled: RequestContext,
) -> bool {
    let request = context_request(ctx, before.policy_registry.roles());
    exists|
        admitted: AdmissionOutcome<EncodePrefillDecodeWorkerSelection>,
        between: WorkerSelectionStage<P>,
    |
        #[trigger] epd_admission(before, event, request, hashes, admitted, between)
            && match admitted {
            AdmissionOutcome::Admitted((assigned, prefill, decode, runtime_type), guard) => {
                &&& handed_over(between, ctx.pd_prefill_guard, after)
                &&& filled.pd_prefill_guard == Some(guard)
                &&& concluded(
                    ctx,
                    WorkerSelection::Disaggregated {
                        encode_assignments: optional_assignments(assigned),
                        prefill,
                        decode,
                        runtime_type,
                    },
                    outcome,
                    filled,
                )
            },
            _ => after == between && not_admitted(ctx, admitted, outcome, filled),
        }
}

/// The run did nothing but fail.
pub open spec fn refused<P: LoadBalancingPolicy>(
    before: WorkerSelectionStage<P>,
    ctx: RequestContext,
    code: Seq<char>,
    message: Seq<char>,
    outcome: StageOutcome,
    after: WorkerSelectionStage<P>,
    filled: RequestContext,
) -> bool {
    &&& failed_with(outcome, error_view(500, code, message))
    &&& after == before
    &&& filled == ctx
}

/// A run of the stage on a request.
pub open spec fn stage_run<P: LoadBalancingPolicy>(
    before: WorkerSelectionStage<P>,
    ctx: RequestContext,
    event: AdmissionEvent,
    outcome: StageOutcome,
    after: WorkerSelectionStage<P>,
    filled: RequestContext,
) -> bool {
    let epd = before.mode == WorkerSelectionMode::EncodePrefillDecode;
    let hashes = item_hashes(ctx.multimodal_intermediate);
    if ctx.preparation is None {
        refused(
            before,
            ctx,
            "preparation_stage_not_completed"@,
            "Preparation stage not completed"@,
            outcome,
            after,
            filled,
        )
    } else if epd && hashes is Err {
        refused(
            before,
            ctx,
            "encode_routing_hash_failed"@,
            "Failed to derive encode routing hashes: "@ + hashes->Err_0,
            outcome,
            after,
            filled,
        )
    } else {
        &&& same_input(ctx, filled)
        &&& string_view(filled.sticky_key) == context_sticky_key(
            ctx,
            before.policy_registry.roles(),
        )
        &&& match before.mode {
            WorkerSelectionMode::Regular => regular_run(before, ctx, outcome, after, filled),
            WorkerSelectionMode::PrefillDecode => pd_run(
                before,
                ctx,
                event,
                outcome,
                after,
                filled,
            ),
            WorkerSelectionMode::EncodePrefillDecode => epd_run(
                before,
                ctx,
                event,
                hashes->Ok_0,
                outcome,
                after,
                filled,
            ),
        }
    }
}

/// Gives the request its workers, unless their runtime cannot take its modalities. This is
/// known here, before media are fetched only to fail later.
fn conclude(ctx: &mut RequestContext, workers: WorkerSelection) -> (outcome: StageOutcome)
    ensures
        same_input(*old(ctx), *final(ctx)),
        final(ctx).sticky_key == old(ctx).sticky_key,
        final(ctx).pd_prefill_guard == old(ctx).pd_prefill_guard,
        concluded(*old(ctx), workers, outcome, *final(ctx)),
{
    if let Some(intermediate) = ctx.multimodal_intermediate.as_ref() {
        if let Err(reason) = ensure_backend_supports_modalities(
            selection_runtime(&workers),
            intermediate,
        ) {
            return StageOutcome::Failed(bad_request("multimodal_not_supported", reason.as_str()));
        }
    }
    ctx.workers = Some(workers);
    StageOutcome::Selected
}

impl<P: LoadBalancingPolicy> WorkerSelectionStage<P> {
    /// Runs the stage on a request. A request that waits is run again with the event that ends
    /// its waiting.
    pub fn execute(&mut self, ctx: &mut RequestContext, event: AdmissionEvent) -> (outcome:
        StageOutcome)
        requires
            old(self).wf(),
        ensures
            final(self).keeps(old(self)),
            stage_run(*old(self), *old(ctx), event, outcome, *final(self), *final(ctx)),
    {
        proof {
            lemma_nothing_added(self.selections@);
        }
        let preparation = match &ctx.preparation {
            Some(preparation) => preparation,
            None => {
                return StageOutcome::Failed(
                    internal_error(
                        "preparation_stage_not_completed",
                        "Preparation stage not completed",
                    ),
                );
            },
        };
        let text: Option<&str> = match &preparation.routing_text {
            Some(text) => Some(text.as_str()),
            None => None,
        };
        let tokens: Option<&[u32]> = if preparation.token_ids.len() == 0 {
            None
        } else {
            Some(preparation.token_ids.as_slice())
        };
        let hashes: Vec<Vec<u8>> = if self.mode == WorkerSelectionMode::EncodePrefillDecode {
            match encode_item_hashes(ctx.multimodal_intermediate.as_ref()) {
                Ok(hashes) => hashes,
                Err(reason) => {
                    let mut message: String =
                        "Failed to derive encode routing hashes: ".to_owned();
                    message.append(reason.as_str());
                    return StageOutcome::Failed(
                        internal_error("encode_routing_hash_failed", message.as_str()),
                    );
                },
            }
        } else {
            Vec::new()
        };
        let headers: Option<&HeaderMap<HeaderValue>> = ctx.headers.as_ref();
        let rid: Option<&str> = match &ctx.rid {
            Some(rid) => Some(rid.as_str()),
            None => None,
        };
        let rid_key: Option<&str> = self.policy_registry.derive_rid_key(rid);
        let sticky_key: Option<String> = match rid_key {
            Some(key) => Some(key.to_owned()),
            None => match self.policy_registry.sticky_header_key(headers) {
                Some(key) => Some(key.to_owned()),
                None => None,
            },
        };
        ctx.sticky_key = sticky_key;
        let model_id: &str = ctx.model_id.as_str();
        let ghost request = context_request(*old(ctx), old(self).policy_registry.roles());
        assert(request_view(model_id, text, tokens, headers, rid_key) == request);
        match self.mode {
            WorkerSelectionMode::Regular => {
                match self.select_single_worker(model_id, text, tokens, headers, rid_key) {
                    Some(worker) => conclude(ctx, WorkerSelection::Single { worker }),
                    None => {
                        let legs: Vec<WorkerType> = vec![WorkerType::Regular];
                        assert(legs@ =~= seq![WorkerType::Regular]);
                        StageOutcome::Failed(self.selection_failure(model_id, legs.as_slice()))
                    },
                }
            },
            WorkerSelectionMode::PrefillDecode => {
                let admitted = self.admit_pd_pair(event, model_id, text, tokens, headers, rid_key);
                match admitted {
                    AdmissionOutcome::Admitted((prefill, decode, runtime_type), guard) => {
                        self.release_replaced(ctx.pd_prefill_guard.take());
                        ctx.pd_prefill_guard = Some(guard);
                        conclude(
                            ctx,
                            WorkerSelection::Disaggregated {
                                encode_assignments: None,
                                prefill,
                                decode,
                                runtime_type,
                            },
                        )
                    },
                    AdmissionOutcome::Waiting => StageOutcome::Waiting,
                    AdmissionOutcome::Rejected(response) => StageOutcome::Failed(response),
                }
            },
            WorkerSelectionMode::EncodePrefillDecode => {
                let admitted = self.admit_encode_prefill_decode_workers(
                    event,
                    model_id,
                    text,
                    tokens,
                    headers,
                    rid_key,
                    &hashes,
                );
                match admitted {
                    AdmissionOutcome::Admitted(selection, guard) => {
                        let (assigned, prefill, decode, runtime_type) = selection;
                        self.release_replaced(ctx.pd_prefill_guard.take());
                        ctx.pd_prefill_guard = Some(guard);
                        let encode_assignments = if assigned.len() == 0 {
                            None
                        } else {
                            Some(assigned)
                        };
                        conclude(
                            ctx,
                            WorkerSelection::Disaggregated {
                                encode_assignments,
                                prefill,
                                decode,
                                runtime_type,
                            },
                        )
                    },
                    AdmissionOutcome::Waiting => StageOutcome::Waiting,
                    AdmissionOutcome::Rejected(response) => StageOutcome::Failed(response),
                }
            },
        }
    }
}

} // verus!
