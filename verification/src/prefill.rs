//! Admission of disaggregated requests: the selection, the place on the prefill worker, and
//! the answer to a request that gets none.

use crate::admission::{
    AdmissionEvent, AdmissionVerdict, GrpcPdCandidateError, PrefillAcquireError, PrefillAdmission,
    PrefillAdmissionRejection, PrefillLoadGuard, PrefillSelectionContext,
};
use crate::laws::{lemma_epd_prefill_fits, lemma_pd_prefill_fits};
use crate::multimodal::hash_list;
use crate::policy::LoadBalancingPolicy;
use crate::registry::WorkerRegistry;
use crate::response::{
    error_view, too_many_requests, Response, ResponseView, PD_PREFILL_QUEUE_FULL,
    PD_PREFILL_QUEUE_TIMEOUT,
};
use crate::selection::{
    epd_outcome, epd_selection, pd_selection, EncodePrefillDecodeWorkerSelection, PdWorkerPair,
    RequestView,
};
use crate::stage::{failure_view, lemma_nothing_added, request_view, WorkerSelectionStage};
use crate::worker::{Worker, WorkerType};
use axum::http::{HeaderMap, HeaderValue};
use std::sync::Arc;
use vstd::prelude::*;

verus! {

/// What becomes of a request at admission.
#[derive(Debug)]
pub enum AdmissionOutcome<S> {
    /// The request has its workers, and a place on the prefill worker.
    Admitted(S, PrefillLoadGuard),
    /// The request waits: it is to be tried again when a prefill worker has room.
    Waiting,
    /// The request ends with an answer.
    Rejected(Response),
}

/// The answer to a request that did not get a prefill worker.
pub open spec fn acquire_failure_view(
    registry: WorkerRegistry,
    model: Seq<char>,
    legs: Seq<WorkerType>,
    error: PrefillAcquireError,
) -> ResponseView {
    match error {
        PrefillAcquireError::Rejected(PrefillAdmissionRejection::QueueFull) => error_view(
            429,
            PD_PREFILL_QUEUE_FULL@,
            "Prefill admission queue is full"@,
        ),
        PrefillAcquireError::Rejected(PrefillAdmissionRejection::QueueTimeout) => error_view(
            429,
            PD_PREFILL_QUEUE_TIMEOUT@,
            "Timed out waiting for Prefill admission"@,
        ),
        _ => failure_view(registry, model, legs),
    }
}

/// The legs that a disaggregated request with so many multimodal items needs.
pub open spec fn demanded_legs(items: nat) -> Seq<WorkerType> {
    if items > 0 {
        seq![WorkerType::Prefill, WorkerType::Decode, WorkerType::Encode]
    } else {
        seq![WorkerType::Prefill, WorkerType::Decode]
    }
}

/// How many requests wait once the request of `event` has left the queue.
pub open spec fn queue_left(before: PrefillAdmission, event: AdmissionEvent) -> int {
    if event != AdmissionEvent::Arrived && before.queued() > 0 {
        before.queued() - 1
    } else {
        before.queued() as int
    }
}

/// What admission makes of a selection attempt.
///
/// Without admission every selected request gets in. With admission a selected request gets a
/// place on its prefill worker; a request whose candidates are full waits, if it is in the
/// queue already or the queue has a place; and a request without candidates ends.
pub open spec fn settled(
    before: Option<PrefillAdmission>,
    event: AdmissionEvent,
    attempt: Result<Arc<Worker>, GrpcPdCandidateError>,
    verdict: AdmissionVerdict,
    after: Option<PrefillAdmission>,
) -> bool {
    match (before, after) {
        (None, None) => match attempt {
            Ok(prefill) => verdict == AdmissionVerdict::Admitted(PrefillLoadGuard { prefill }),
            Err(error) => verdict == AdmissionVerdict::Failed(
                PrefillAcquireError::Candidate(error),
            ),
        },
        (Some(before), Some(after)) => {
            &&& after.wf()
            &&& after.same_limits(&before)
            &&& match attempt {
                Ok(prefill) => {
                    &&& verdict == AdmissionVerdict::Admitted(PrefillLoadGuard { prefill })
                    &&& after.one_more(&before, prefill.url@)
                    &&& after.queued() == queue_left(before, event)
                },
                Err(GrpcPdCandidateError::AtCapacity) => {
                    &&& after.same_loads(&before)
                    &&& if event != AdmissionEvent::Arrived {
                        verdict == AdmissionVerdict::Waiting && after.queued() == before.queued()
                    } else if before.queued() < before.max_queued() {
                        verdict == AdmissionVerdict::Waiting && after.queued() == before.queued()
                            + 1
                    } else {
                        verdict == AdmissionVerdict::Failed(
                            PrefillAcquireError::Rejected(PrefillAdmissionRejection::QueueFull),
                        ) && after.queued() == before.queued()
                    }
                },
                Err(GrpcPdCandidateError::Unavailable) => {
                    &&& verdict == AdmissionVerdict::Failed(
                        PrefillAcquireError::Candidate(GrpcPdCandidateError::Unavailable),
                    )
                    &&& after.same_loads(&before)
                    &&& after.queued() == queue_left(before, event)
                },
            }
        },
        _ => false,
    }
}

/// The request left the queue, and nothing else changed.
pub open spec fn queue_entry_dropped(
    before: Option<PrefillAdmission>,
    after: Option<PrefillAdmission>,
) -> bool {
    match (before, after) {
        (None, None) => true,
        (Some(before), Some(after)) => {
            &&& after.wf()
            &&& after.same_limits(&before)
            &&& after.same_loads(&before)
            &&& after.queued() == queue_left(before, AdmissionEvent::TimedOut)
        },
        _ => false,
    }
}

/// The place of a request was handed back, if it was held.
pub open spec fn released(
    before: Option<PrefillAdmission>,
    guard: PrefillLoadGuard,
    after: Option<PrefillAdmission>,
) -> bool {
    match (before, after) {
        (None, None) => true,
        (Some(before), Some(after)) => {
            &&& after.wf()
            &&& after.same_limits(&before)
            &&& after.queued() == before.queued()
            &&& if before.load(guard.prefill.url@) == 0 {
                after.same_loads(&before)
            } else {
                before.one_more(&after, guard.prefill.url@)
            }
        },
        _ => false,
    }
}

/// A request that held a place before the run hands it back once it has its new one. Nothing
/// else changes.
pub open spec fn handed_over<P: LoadBalancingPolicy>(
    before: WorkerSelectionStage<P>,
    held: Option<PrefillLoadGuard>,
    after: WorkerSelectionStage<P>,
) -> bool {
    match held {
        None => after == before,
        Some(guard) => {
            &&& after.worker_registry == before.worker_registry
            &&& after.policy_registry == before.policy_registry
            &&& after.mode == before.mode
            &&& after.selections == before.selections
            &&& released(before.prefill_admission, guard, after.prefill_admission)
        },
    }
}

/// The outcome that a verdict gives a selection.
pub open spec fn answered<S>(
    registry: WorkerRegistry,
    model: Seq<char>,
    legs: Seq<WorkerType>,
    attempt: Result<S, GrpcPdCandidateError>,
    verdict: AdmissionVerdict,
    outcome: AdmissionOutcome<S>,
) -> bool {
    match verdict {
        AdmissionVerdict::Admitted(guard) => attempt matches Ok(selection) && outcome
            == AdmissionOutcome::Admitted(selection, guard),
        AdmissionVerdict::Waiting => outcome is Waiting,
        AdmissionVerdict::Failed(error) => outcome matches AdmissionOutcome::Rejected(response)
            && response@ == acquire_failure_view(registry, model, legs, error),
    }
}

/// The prefill worker of a selected pair.
pub open spec fn pd_prefill(outcome: Result<PdWorkerPair, GrpcPdCandidateError>) -> Result<
    Arc<Worker>,
    GrpcPdCandidateError,
> {
    match outcome {
        Ok((prefill, _, _)) => Ok(prefill),
        Err(error) => Err(error),
    }
}

/// The prefill worker of a selected encode, prefill and decode set.
pub open spec fn epd_prefill(
    outcome: Result<EncodePrefillDecodeWorkerSelection, GrpcPdCandidateError>,
) -> Result<Arc<Worker>, GrpcPdCandidateError> {
    match outcome {
        Ok((_, prefill, _, _)) => Ok(prefill),
        Err(error) => Err(error),
    }
}

/// A request that waited too long: it leaves the queue, and nothing is selected.
pub open spec fn timed_out<P: LoadBalancingPolicy, S>(
    before: WorkerSelectionStage<P>,
    model: Seq<char>,
    legs: Seq<WorkerType>,
    outcome: AdmissionOutcome<S>,
    after: WorkerSelectionStage<P>,
) -> bool {
    &&& outcome matches AdmissionOutcome::Rejected(response) && response@ == acquire_failure_view(
        before.worker_registry,
        model,
        legs,
        PrefillAcquireError::Rejected(PrefillAdmissionRejection::QueueTimeout),
    )
    &&& queue_entry_dropped(before.prefill_admission, after.prefill_admission)
    &&& after.policy_registry.state() == before.policy_registry.state()
    &&& after.recorded(&before).len() == 0
}

/// A request for a prefill and decode pair at admission.
pub open spec fn pd_admission<P: LoadBalancingPolicy>(
    before: WorkerSelectionStage<P>,
    event: AdmissionEvent,
    request: RequestView,
    outcome: AdmissionOutcome<PdWorkerPair>,
    after: WorkerSelectionStage<P>,
) -> bool {
    let legs = demanded_legs(0);
    if event == AdmissionEvent::TimedOut {
        timed_out(before, request.model, legs, outcome, after)
    } else {
        exists|
            attempt: Result<PdWorkerPair, GrpcPdCandidateError>,
            verdict: AdmissionVerdict,
        |
            {
                &&& pd_selection(
                    before.policy_registry.state(),
                    before.policy_registry.roles(),
                    before.worker_registry,
                    request,
                    before.prefill_admission,
                    attempt,
                    after.recorded(&before),
                    after.policy_registry.state(),
                )
                &&& settled(
                    before.prefill_admission,
                    event,
                    pd_prefill(attempt),
                    verdict,
                    after.prefill_admission,
                )
                &&& #[trigger] answered(
                    before.worker_registry,
                    request.model,
                    legs,
                    attempt,
                    verdict,
                    outcome,
                )
            }
    }
}

/// A request for encode, prefill and decode workers at admission.
pub open spec fn epd_admission<P: LoadBalancingPolicy>(
    before: WorkerSelectionStage<P>,
    event: AdmissionEvent,
    request: RequestView,
    hashes: Seq<Seq<u8>>,
    outcome: AdmissionOutcome<EncodePrefillDecodeWorkerSelection>,
    after: WorkerSelectionStage<P>,
) -> bool {
    let legs = demanded_legs(hashes.len());
    if event == AdmissionEvent::TimedOut {
        timed_out(before, request.model, legs, outcome, after)
    } else {
        exists|
            attempt: Result<EncodePrefillDecodeWorkerSelection, GrpcPdCandidateError>,
            verdict: AdmissionVerdict,
        |
            {
                &&& epd_selection(
                    before.policy_registry.state(),
                    before.policy_registry.roles(),
                    before.worker_registry,
                    request,
                    hashes,
                    before.prefill_admission,
                    epd_outcome(attempt),
                    after.recorded(&before),
                    after.policy_registry.state(),
                )
                &&& settled(
                    before.prefill_admission,
                    event,
                    epd_prefill(attempt),
                    verdict,
                    after.prefill_admission,
                )
                &&& #[trigger] answered(
                    before.worker_registry,
                    request.model,
                    legs,
                    attempt,
                    verdict,
                    outcome,
                )
            }
    }
}

impl<P: LoadBalancingPolicy> WorkerSelectionStage<P> {
    /// The answer to a request that did not get a prefill worker. A full queue and a wait that
    /// was too long are answered as such; anything else as a selection that found nothing.
    pub fn admission_response(
        &self,
        model_id: &str,
        legs: &[WorkerType],
        error: PrefillAcquireError,
    ) -> (response: Response)
        ensures
            response@ == acquire_failure_view(self.worker_registry, model_id@, legs@, error),
    {
        match error {
            PrefillAcquireError::Rejected(PrefillAdmissionRejection::QueueFull) =>
                too_many_requests(PD_PREFILL_QUEUE_FULL, "Prefill admission queue is full"),
            PrefillAcquireError::Rejected(PrefillAdmissionRejection::QueueTimeout) =>
                too_many_requests(
                PD_PREFILL_QUEUE_TIMEOUT,
                "Timed out waiting for Prefill admission",
            ),
            PrefillAcquireError::Rejected(PrefillAdmissionRejection::Unavailable)
            | PrefillAcquireError::Candidate(_) => self.selection_failure(model_id, legs),
        }
    }

    /// Makes of a selection attempt what admission makes of it.
    fn settle(
        &mut self,
        event: AdmissionEvent,
        attempt: Result<Arc<Worker>, GrpcPdCandidateError>,
    ) -> (verdict: AdmissionVerdict)
        requires
            old(self).wf(),
            attempt matches Ok(prefill) ==> (old(self).prefill_admission matches Some(admission)
                ==> admission.has_room(prefill.url@)),
        ensures
            final(self).wf(),
            final(self).worker_registry == old(self).worker_registry,
            final(self).policy_registry == old(self).policy_registry,
            final(self).mode == old(self).mode,
            final(self).selections == old(self).selections,
            settled(
                old(self).prefill_admission,
                event,
                attempt,
                verdict,
                final(self).prefill_admission,
            ),
    {
        let mut admission = match self.prefill_admission.take() {
            Some(admission) => admission,
            None => {
                return match attempt {
                    Ok(prefill) => AdmissionVerdict::Admitted(PrefillLoadGuard { prefill }),
                    Err(error) => AdmissionVerdict::Failed(PrefillAcquireError::Candidate(error)),
                };
            },
        };
        let queued = event != AdmissionEvent::Arrived;
        let ghost before = admission;
        let verdict = match attempt {
            Ok(prefill) => {
                if queued {
                    admission.leave_queue();
                }
                assert(admission.load(prefill.url@) == before.load(prefill.url@));
                let guard = admission.occupy(&prefill);
                match guard {
                    Some(guard) => AdmissionVerdict::Admitted(guard),
                    None => AdmissionVerdict::Waiting,
                }
            },
            Err(error) => {
                if error.is_at_capacity() {
                    if queued || admission.join_queue() {
                        AdmissionVerdict::Waiting
                    } else {
                        AdmissionVerdict::Failed(
                            PrefillAcquireError::Rejected(PrefillAdmissionRejection::QueueFull),
                        )
                    }
                } else {
                    if queued {
                        admission.leave_queue();
                    }
                    AdmissionVerdict::Failed(PrefillAcquireError::Candidate(error))
                }
            },
        };
        self.prefill_admission = Some(admission);
        verdict
    }

    /// A waiting request gives up.
    fn drop_queue_entry(&mut self)
        requires
            old(self).wf(),
        ensures
            final(self).wf(),
            final(self).worker_registry == old(self).worker_registry,
            final(self).policy_registry == old(self).policy_registry,
            final(self).mode == old(self).mode,
            final(self).selections == old(self).selections,
            queue_entry_dropped(old(self).prefill_admission, final(self).prefill_admission),
    {
        if let Some(mut admission) = self.prefill_admission.take() {
            admission.leave_queue();
            self.prefill_admission = Some(admission);
        }
    }

    /// Takes a request for a prefill and decode pair through admission.
    pub fn admit_pd_pair(
        &mut self,
        event: AdmissionEvent,
        model_id: &str,
        text: Option<&str>,
        tokens: Option<&[u32]>,
        headers: Option<&HeaderMap<HeaderValue>>,
        rid_key: Option<&str>,
    ) -> (outcome: AdmissionOutcome<PdWorkerPair>)
        requires
            old(self).wf(),
        ensures
            final(self).keeps(old(self)),
            pd_admission(
                *old(self),
                event,
                request_view(model_id, text, tokens, headers, rid_key),
                outcome,
                *final(self),
            ),
    {
        let legs: Vec<WorkerType> = vec![WorkerType::Prefill, WorkerType::Decode];
        assert(legs@ =~= demanded_legs(0));
        if event == AdmissionEvent::TimedOut {
            proof {
                lemma_nothing_added(self.selections@);
            }
            self.drop_queue_entry();
            return AdmissionOutcome::Rejected(
                self.admission_response(
                    model_id,
                    legs.as_slice(),
                    PrefillAcquireError::Rejected(PrefillAdmissionRejection::QueueTimeout),
                ),
            );
        }
        let admission = self.prefill_admission.take();
        let attempt = match &admission {
            Some(admission) => {
                let context = PrefillSelectionContext { admission };
                self.select_pd_pair_inner(model_id, text, tokens, headers, rid_key, Some(&context))
            },
            None => self.select_pd_pair_inner(model_id, text, tokens, headers, rid_key, None),
        };
        self.prefill_admission = admission;
        proof {
            lemma_pd_prefill_fits(
                old(self).policy_registry.state(),
                old(self).policy_registry.roles(),
                old(self).worker_registry,
                request_view(model_id, text, tokens, headers, rid_key),
                old(self).prefill_admission,
                attempt,
                self.recorded(old(self)),
                self.policy_registry.state(),
            );
        }
        let prefill = match &attempt {
            Ok(pair) => Ok(Arc::clone(&pair.0)),
            Err(error) => Err(*error),
        };
        let verdict = self.settle(event, prefill);
        let ghost shown = verdict;
        let outcome = match verdict {
            AdmissionVerdict::Admitted(guard) => match attempt {
                Ok(pair) => AdmissionOutcome::Admitted(pair, guard),
                Err(_) => AdmissionOutcome::Waiting,
            },
            AdmissionVerdict::Waiting => AdmissionOutcome::Waiting,
            AdmissionVerdict::Failed(error) => AdmissionOutcome::Rejected(
                self.admission_response(model_id, legs.as_slice(), error),
            ),
        };
        assert(answered(
            self.worker_registry,
            model_id@,
            demanded_legs(0),
            attempt,
            shown,
            outcome,
        ));
        outcome
    }

    /// Takes a request for encode, prefill and decode workers through admission.
    pub fn admit_encode_prefill_decode_workers(
        &mut self,
        event: AdmissionEvent,
        model_id: &str,
        text: Option<&str>,
        tokens: Option<&[u32]>,
        headers: Option<&HeaderMap<HeaderValue>>,
        rid_key: Option<&str>,
        encode_item_hashes: &Vec<Vec<u8>>,
    ) -> (outcome: AdmissionOutcome<EncodePrefillDecodeWorkerSelection>)
        requires
            old(self).wf(),
        ensures
            final(self).keeps(old(self)),
            epd_admission(
                *old(self),
                event,
                request_view(model_id, text, tokens, headers, rid_key),
                hash_list(encode_item_hashes@),
                outcome,
                *final(self),
            ),
    {
        let mut legs: Vec<WorkerType> = vec![WorkerType::Prefill, WorkerType::Decode];
        if encode_item_hashes.len() > 0 {
            legs.push(WorkerType::Encode);
        }
        assert(legs@ =~= demanded_legs(hash_list(encode_item_hashes@).len()));
        if event == AdmissionEvent::TimedOut {
            proof {
                lemma_nothing_added(self.selections@);
            }
            self.drop_queue_entry();
            return AdmissionOutcome::Rejected(
                self.admission_response(
                    model_id,
                    legs.as_slice(),
                    PrefillAcquireError::Rejected(PrefillAdmissionRejection::QueueTimeout),
                ),
            );
        }
        let admission = self.prefill_admission.take();
        let attempt = match &admission {
            Some(admission) => {
                let context = PrefillSelectionContext { admission };
                self.select_encode_prefill_decode_workers_inner(
                    model_id,
                    text,
                    tokens,
                    headers,
                    rid_key,
                    encode_item_hashes,
                    Some(&context),
                )
            },
            None => self.select_encode_prefill_decode_workers_inner(
                model_id,
                text,
                tokens,
                headers,
                rid_key,
                encode_item_hashes,
                None,
            ),
        };
        self.prefill_admission = admission;
        proof {
            lemma_epd_prefill_fits(
                old(self).policy_registry.state(),
                old(self).policy_registry.roles(),
                old(self).worker_registry,
                request_view(model_id, text, tokens, headers, rid_key),
                hash_list(encode_item_hashes@),
                old(self).prefill_admission,
                epd_outcome(attempt),
                self.recorded(old(self)),
                self.policy_registry.state(),
            );
        }
        let prefill = match &attempt {
            Ok(selection) => Ok(Arc::clone(&selection.1)),
            Err(error) => Err(*error),
        };
        let verdict = self.settle(event, prefill);
        let ghost shown = verdict;
        let ghost tried = attempt;
        let outcome = match verdict {
            AdmissionVerdict::Admitted(guard) => match attempt {
                Ok(selection) => AdmissionOutcome::Admitted(selection, guard),
                Err(_) => AdmissionOutcome::Waiting,
            },
            AdmissionVerdict::Waiting => AdmissionOutcome::Waiting,
            AdmissionVerdict::Failed(error) => AdmissionOutcome::Rejected(
                self.admission_response(model_id, legs.as_slice(), error),
            ),
        };
        assert(answered(
            self.worker_registry,
            model_id@,
            demanded_legs(hash_list(encode_item_hashes@).len()),
            tried,
            shown,
            outcome,
        ));
        outcome
    }

    /// Hands the place of a request on its prefill worker back.
    pub fn release_prefill(&mut self, guard: PrefillLoadGuard)
        requires
            old(self).wf(),
        ensures
            final(self).wf(),
            final(self).worker_registry == old(self).worker_registry,
            final(self).policy_registry == old(self).policy_registry,
            final(self).mode == old(self).mode,
            final(self).selections == old(self).selections,
            released(old(self).prefill_admission, guard, final(self).prefill_admission),
    {
        if let Some(mut admission) = self.prefill_admission.take() {
            admission.release(guard);
            self.prefill_admission = Some(admission);
        }
    }

    /// Hands back the place that a request held before it got its new one.
    pub fn release_replaced(&mut self, held: Option<PrefillLoadGuard>)
        requires
            old(self).wf(),
        ensures
            final(self).wf(),
            handed_over(*old(self), held, *final(self)),
    {
        if let Some(guard) = held {
            self.release_prefill(guard);
        }
    }
}

} // verus!
