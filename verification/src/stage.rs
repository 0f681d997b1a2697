//! The stage that selects the workers of a request.

use crate::admission::{GrpcPdCandidateError, PrefillAdmission, PrefillSelectionContext};
use crate::headers::{encode_routing_headers, extract_target_worker, optional_values, text_view};
use crate::multimodal::hash_list;
use crate::policy::{tokens_view, LoadBalancingPolicy, SelectWorkerInfo, WorkerLeg};
use crate::policy_registry::{policy_step, PolicyRegistry};
use crate::pool::{
    all_overloaded, any_on_runtime, has_runtime, ready_workers, runtime_workers, RoutingPool,
};
use crate::registry::{HashRing, ModelWorkerSnapshot, WorkerRegistry};
use crate::response::{
    model_not_found, not_found_view, shed_if_all_overloaded, shed_view, Response, ResponseView,
};
use crate::selection::{
    assignment_list, assignments, encode_info, encode_outcome, encode_records, encode_run,
    epd_outcome, epd_result, epd_selection, find_shared_runtime, lemma_first_shared_runtime,
    pair_records, pair_selection, pd_selection, prefill_result, ready_members, record_list,
    record_of, seen, select_pair_candidates, single_selection, EncodePrefillDecodeWorkerSelection,
    EncodeWorkerAssignment, EpdCandidates, EpdOutcome, PairCandidates, PdWorkerPair, RecordView,
    RequestView, SelectionRecord, CONSISTENT_HASHING,
};
use crate::worker::{ConnectionMode, RuntimeType, Worker, WorkerType};
use axum::http::{HeaderMap, HeaderValue};
use std::sync::Arc;
use vstd::prelude::*;

verus! {

/// Which workers a request needs.
#[derive(Clone, Copy, Debug, PartialEq, Eq, Structural)]
pub enum WorkerSelectionMode {
    /// One worker.
    Regular,
    /// A prefill and a decode worker.
    PrefillDecode,
    /// A prefill and a decode worker, and an encode worker per multimodal item.
    EncodePrefillDecode,
}

/// The stage that selects the workers of a request.
pub struct WorkerSelectionStage<P> {
    pub worker_registry: WorkerRegistry,
    pub policy_registry: PolicyRegistry<P>,
    pub mode: WorkerSelectionMode,
    pub prefill_admission: Option<PrefillAdmission>,
    /// The selections that are still to be counted.
    pub selections: Vec<SelectionRecord>,
}

/// What selection reads of a request.
pub open spec fn request_view(
    model_id: &str,
    text: Option<&str>,
    tokens: Option<&[u32]>,
    headers: Option<&HeaderMap<HeaderValue>>,
    rid_key: Option<&str>,
) -> RequestView {
    RequestView {
        model: model_id@,
        text: text_view(text),
        tokens: tokens_view(tokens),
        headers: optional_values(headers),
        rid_key: text_view(rid_key),
    }
}

/// Records were only added.
pub open spec fn extends(before: Seq<SelectionRecord>, after: Seq<SelectionRecord>) -> bool {
    before.len() <= after.len() && after.take(before.len() as int) == before
}

/// The records that were added.
pub open spec fn added(before: Seq<SelectionRecord>, after: Seq<SelectionRecord>) -> Seq<
    RecordView,
> {
    record_list(after.skip(before.len() as int))
}

/// The pool of one leg.
pub open spec fn leg_pool(leg: WorkerType) -> RoutingPool {
    match leg {
        WorkerType::Regular => RoutingPool::GrpcPipelineRegular,
        WorkerType::Prefill => RoutingPool::GrpcPrefill,
        WorkerType::Decode => RoutingPool::GrpcDecode,
        WorkerType::Encode => RoutingPool::GrpcEncode,
    }
}

/// The whole pool of the leg is vetoed for overload.
pub open spec fn leg_overloaded(
    registry: WorkerRegistry,
    model: Seq<char>,
    leg: WorkerType,
) -> bool {
    all_overloaded(registry.routing_pool(model, leg_pool(leg)))
}

/// The pool of one of the legs is wholly vetoed for overload.
pub open spec fn some_leg_overloaded(
    registry: WorkerRegistry,
    model: Seq<char>,
    legs: Seq<WorkerType>,
) -> bool {
    exists|i: int| 0 <= i < legs.len() && #[trigger] leg_overloaded(registry, model, legs[i])
}

/// The answer to a request whose selection over `legs` found nothing: a shed if the pool of a
/// leg is wholly vetoed, and else that nobody serves the model.
pub open spec fn failure_view(
    registry: WorkerRegistry,
    model: Seq<char>,
    legs: Seq<WorkerType>,
) -> ResponseView {
    if some_leg_overloaded(registry, model, legs) {
        shed_view(model)
    } else {
        not_found_view(model)
    }
}

fn record_selection(
    records: &mut Vec<SelectionRecord>,
    role: WorkerType,
    connection: ConnectionMode,
    model_id: &str,
    policy: &str,
)
    ensures
        extends(old(records)@, final(records)@),
        added(old(records)@, final(records)@) == seq![
            record_of(role, connection, model_id@, policy@),
        ],
{
    let record = SelectionRecord {
        role,
        connection,
        model_id: model_id.to_owned(),
        policy: policy.to_owned(),
    };
    records.push(record);
    assert(records@.take(old(records)@.len() as int) =~= old(records)@);
    assert(added(old(records)@, records@) =~= seq![
        record_of(role, connection, model_id@, policy@),
    ]);
}

/// Records that are added in two steps.
proof fn lemma_added(a: Seq<SelectionRecord>, b: Seq<SelectionRecord>, c: Seq<SelectionRecord>)
    requires
        extends(a, b),
        extends(b, c),
    ensures
        extends(a, c),
        added(a, c) == added(a, b) + added(b, c),
{
    assert(c.take(a.len() as int) =~= b.take(a.len() as int));
    assert(added(a, c) =~= added(a, b) + added(b, c)) by {
        assert forall|i: int| 0 <= i < b.len() implies #[trigger] c[i] == b[i] by {
            assert(c.take(b.len() as int)[i] == c[i]);
        }
    }
}

/// Nothing is added to a list by leaving it as it is.
pub proof fn lemma_nothing_added(a: Seq<SelectionRecord>)
    ensures
        extends(a, a),
        added(a, a).len() == 0,
{
    assert(a.take(a.len() as int) =~= a);
}

impl<P: LoadBalancingPolicy> WorkerSelectionStage<P> {
    /// The policies and the admission are well formed.
    pub open spec fn wf(&self) -> bool {
        &&& self.policy_registry.wf()
        &&& self.prefill_admission matches Some(admission) ==> admission.wf()
    }

    /// The stage differs from `before` at most in the state of its policies, its admission and
    /// its records, to which records were only added.
    pub open spec fn keeps(&self, before: &Self) -> bool {
        &&& self.wf()
        &&& self.worker_registry == before.worker_registry
        &&& self.mode == before.mode
        &&& self.policy_registry.roles() == before.policy_registry.roles()
        &&& extends(before.selections@, self.selections@)
    }

    /// The records that the stage has and `before` had not.
    pub open spec fn recorded(&self, before: &Self) -> Seq<RecordView> {
        added(before.selections@, self.selections@)
    }

    /// A stage in `mode`, without limits on the prefill load if it has no admission.
    pub fn new(
        worker_registry: WorkerRegistry,
        policy_registry: PolicyRegistry<P>,
        mode: WorkerSelectionMode,
        prefill_admission: Option<PrefillAdmission>,
    ) -> (stage: Self)
        ensures
            stage.worker_registry == worker_registry,
            stage.policy_registry == policy_registry,
            stage.mode == mode,
            stage.prefill_admission == prefill_admission,
            stage.selections@.len() == 0,
    {
        WorkerSelectionStage {
            worker_registry,
            policy_registry,
            mode,
            prefill_admission,
            selections: Vec::new(),
        }
    }

    /// The name of the stage.
    pub fn name(&self) -> (name: &'static str)
        ensures
            name@ == "WorkerSelection"@,
    {
        "WorkerSelection"
    }

    /// The name of the stage with its mode.
    pub fn signature(&self) -> (signature: String)
        ensures
            signature@ == match self.mode {
                WorkerSelectionMode::Regular => "WorkerSelectionStage(Regular)"@,
                WorkerSelectionMode::PrefillDecode => "WorkerSelectionStage(PrefillDecode)"@,
                WorkerSelectionMode::EncodePrefillDecode =>
                    "WorkerSelectionStage(EncodePrefillDecode)"@,
            },
    {
        match self.mode {
            WorkerSelectionMode::Regular => "WorkerSelectionStage(Regular)".to_owned(),
            WorkerSelectionMode::PrefillDecode => "WorkerSelectionStage(PrefillDecode)".to_owned(),
            WorkerSelectionMode::EncodePrefillDecode =>
                "WorkerSelectionStage(EncodePrefillDecode)".to_owned(),
        }
    }

    /// The pool over which one leg selects, whether the workers are available or not.
    pub fn leg_candidates(&self, model_id: &str, worker_type: WorkerType) -> (workers: Vec<
        Arc<Worker>,
    >)
        ensures
            workers@ == self.worker_registry.routing_pool(model_id@, leg_pool(worker_type)),
    {
        let pool = match worker_type {
            WorkerType::Regular => RoutingPool::GrpcPipelineRegular,
            WorkerType::Prefill => RoutingPool::GrpcPrefill,
            WorkerType::Decode => RoutingPool::GrpcDecode,
            WorkerType::Encode => RoutingPool::GrpcEncode,
        };
        self.worker_registry.get_routing_pool(model_id, pool)
    }

    /// The answer to a request whose selection found nothing. `legs` are the legs that the
    /// selection asked for: a leg that it did not need cannot shed the request.
    pub fn selection_failure(&self, model_id: &str, legs: &[WorkerType]) -> (response: Response)
        ensures
            response@ == failure_view(self.worker_registry, model_id@, legs@),
    {
        let mut i: usize = 0;
        while i < legs.len()
            invariant
                i <= legs@.len(),
                forall|j: int|
                    0 <= j < i ==> !#[trigger] leg_overloaded(
                        self.worker_registry,
                        model_id@,
                        legs@[j],
                    ),
            decreases legs@.len() - i,
        {
            let candidates: Vec<Arc<Worker>> = self.leg_candidates(model_id, legs[i]);
            if let Some(shed) = shed_if_all_overloaded(&candidates, model_id) {
                assert(leg_overloaded(self.worker_registry, model_id@, legs@[i as int]));
                return shed;
            }
            i = i + 1;
        }
        model_not_found(model_id)
    }

    /// The workers of one pool of the snapshot that may take a request now.
    pub fn available_workers(snapshot: &ModelWorkerSnapshot, pool: RoutingPool) -> (workers: Vec<
        Arc<Worker>,
    >)
        ensures
            workers@ == ready_members(snapshot.workers@, pool),
    {
        ready_workers(&snapshot.pool(pool))
    }

    /// Selects the worker of a regular request.
    pub fn select_single_worker(
        &mut self,
        model_id: &str,
        text: Option<&str>,
        tokens: Option<&[u32]>,
        headers: Option<&HeaderMap<HeaderValue>>,
        rid_key: Option<&str>,
    ) -> (selected: Option<Arc<Worker>>)
        requires
            old(self).wf(),
        ensures
            final(self).keeps(old(self)),
            final(self).prefill_admission == old(self).prefill_admission,
            single_selection(
                old(self).policy_registry.state(),
                old(self).policy_registry.roles(),
                old(self).worker_registry,
                request_view(model_id, text, tokens, headers, rid_key),
                selected,
                final(self).recorded(old(self)),
                final(self).policy_registry.state(),
            ),
    {
        proof {
            lemma_nothing_added(self.selections@);
        }
        let candidates: Vec<Arc<Worker>> = self.worker_registry.get_routing_pool(
            model_id,
            RoutingPool::GrpcPipelineRegular,
        );
        let policy = self.policy_registry.get_policy_or_default(model_id);
        let policy_name: String = self.policy_registry.policy_name(policy).to_owned();
        let available: Vec<Arc<Worker>> = if self.policy_registry.policy_filters(policy) {
            candidates
        } else {
            ready_workers(&candidates)
        };
        if available.len() == 0 {
            return None;
        }
        let hash_ring = self.worker_registry.get_hash_ring(model_id);
        let routing_key = self.policy_registry.resolve_routing_key(headers);
        let info = SelectWorkerInfo {
            request_text: text,
            tokens,
            headers,
            routing_key,
            rid_key,
            hash_ring,
            leg: WorkerLeg::Single,
        };
        let picked: Option<usize> = self.policy_registry.select_worker(policy, &available, &info);
        match picked {
            None => None,
            Some(at) => {
                let selected = Arc::clone(&available[at]);
                record_selection(
                    &mut self.selections,
                    WorkerType::Regular,
                    selected.connection_mode,
                    model_id,
                    policy_name.as_str(),
                );
                Some(selected)
            },
        }
    }

    /// Picks the prefill worker and then the decode worker from their candidates.
    fn select_pair(
        &mut self,
        available_prefill: &Vec<Arc<Worker>>,
        available_decode: &Vec<Arc<Worker>>,
        Ghost(runtime): Ghost<RuntimeType>,
        model_id: &str,
        text: Option<&str>,
        tokens: Option<&[u32]>,
        headers: Option<&HeaderMap<HeaderValue>>,
        rid_key: Option<&str>,
        capacity: Option<&PrefillSelectionContext<'_>>,
    ) -> (pair: Result<(Arc<Worker>, Arc<Worker>), GrpcPdCandidateError>)
        requires
            old(self).wf(),
        ensures
            final(self).keeps(old(self)),
            final(self).prefill_admission == old(self).prefill_admission,
            final(self).selections == old(self).selections,
            pair_selection(
                old(self).policy_registry.state(),
                old(self).policy_registry.roles(),
                PairCandidates {
                    prefill: available_prefill@,
                    decode: available_decode@,
                    runtime,
                },
                request_view(model_id, text, tokens, headers, rid_key),
                old(self).worker_registry.hash_ring(model_id@),
                seen(capacity),
                pair,
                final(self).policy_registry.state(),
            ),
    {
        proof {
            lemma_nothing_added(self.selections@);
        }
        let prefill_policy = self.policy_registry.get_prefill_policy();
        let decode_policy = self.policy_registry.get_decode_policy();
        let hash_ring = self.worker_registry.get_hash_ring(model_id);
        let routing_key = self.policy_registry.resolve_routing_key(headers);
        let mut info = SelectWorkerInfo {
            request_text: text,
            tokens,
            headers,
            routing_key,
            rid_key,
            hash_ring,
            leg: WorkerLeg::Prefill,
        };
        let prefill_at: Option<usize> = self.policy_registry.select_worker(
            prefill_policy,
            available_prefill,
            &info,
        );
        let ghost between = self.policy_registry.state();
        let ghost roles = self.policy_registry.roles();
        let ghost request = request_view(model_id, text, tokens, headers, rid_key);
        let ghost ring = self.worker_registry.hash_ring(model_id@);
        let ghost candidates = PairCandidates {
            prefill: available_prefill@,
            decode: available_decode@,
            runtime,
        };
        assert(info@ == request.info(ring, WorkerLeg::Prefill));
        let prefill = match prefill_at {
            Some(at) => Arc::clone(&available_prefill[at]),
            None => {
                assert(prefill_result(
                    prefill_at,
                    between,
                    roles,
                    candidates,
                    request,
                    ring,
                    seen(capacity),
                    Err(GrpcPdCandidateError::Unavailable),
                    self.policy_registry.state(),
                ));
                return Err(GrpcPdCandidateError::Unavailable);
            },
        };
        if let Some(context) = capacity {
            if !context.has_capacity(&prefill) {
                assert(prefill_result(
                    prefill_at,
                    between,
                    roles,
                    candidates,
                    request,
                    ring,
                    seen(capacity),
                    Err(GrpcPdCandidateError::AtCapacity),
                    self.policy_registry.state(),
                ));
                return Err(GrpcPdCandidateError::AtCapacity);
            }
        }
        info.leg = WorkerLeg::Decode;
        let decode_at: Option<usize> = self.policy_registry.select_worker(
            decode_policy,
            available_decode,
            &info,
        );
        let pair = match decode_at {
            Some(at) => Ok((prefill, Arc::clone(&available_decode[at]))),
            None => Err(GrpcPdCandidateError::Unavailable),
        };
        assert(prefill_result(
            prefill_at,
            between,
            roles,
            candidates,
            request,
            ring,
            seen(capacity),
            pair,
            self.policy_registry.state(),
        ));
        pair
    }

    /// Selects a prefill and decode pair, without a limit on the prefill load.
    pub fn select_pd_pair(
        &mut self,
        model_id: &str,
        text: Option<&str>,
        tokens: Option<&[u32]>,
        headers: Option<&HeaderMap<HeaderValue>>,
        rid_key: Option<&str>,
    ) -> (pair: Option<PdWorkerPair>)
        requires
            old(self).wf(),
        ensures
            final(self).keeps(old(self)),
            final(self).prefill_admission == old(self).prefill_admission,
            exists|outcome: Result<PdWorkerPair, GrpcPdCandidateError>|
                #[trigger] pd_selection(
                    old(self).policy_registry.state(),
                    old(self).policy_registry.roles(),
                    old(self).worker_registry,
                    request_view(model_id, text, tokens, headers, rid_key),
                    None,
                    outcome,
                    final(self).recorded(old(self)),
                    final(self).policy_registry.state(),
                ) && pair == outcome.ok(),
    {
        self.select_pd_pair_inner(model_id, text, tokens, headers, rid_key, None).ok()
    }

    /// Selects a prefill and decode pair. Both legs come from one snapshot of the membership,
    /// over gRPC, and run one runtime. With `capacity`, the prefill worker has room.
    pub fn select_pd_pair_inner(
        &mut self,
        model_id: &str,
        text: Option<&str>,
        tokens: Option<&[u32]>,
        headers: Option<&HeaderMap<HeaderValue>>,
        rid_key: Option<&str>,
        capacity: Option<&PrefillSelectionContext<'_>>,
    ) -> (outcome: Result<PdWorkerPair, GrpcPdCandidateError>)
        requires
            old(self).wf(),
        ensures
            final(self).keeps(old(self)),
            final(self).prefill_admission == old(self).prefill_admission,
            pd_selection(
                old(self).policy_registry.state(),
                old(self).policy_registry.roles(),
                old(self).worker_registry,
                request_view(model_id, text, tokens, headers, rid_key),
                seen(capacity),
                outcome,
                final(self).recorded(old(self)),
                final(self).policy_registry.state(),
            ),
    {
        proof {
            lemma_nothing_added(self.selections@);
        }
        let snapshot = self.worker_registry.get_routing_snapshot(model_id);
        let all_prefill: Vec<Arc<Worker>> = Self::available_workers(
            &snapshot,
            RoutingPool::GrpcPrefill,
        );
        let all_decode: Vec<Arc<Worker>> = Self::available_workers(
            &snapshot,
            RoutingPool::GrpcDecode,
        );
        if all_prefill.len() == 0 || all_decode.len() == 0 {
            return Err(GrpcPdCandidateError::Unavailable);
        }
        let target_runtime = all_prefill[0].runtime_type;
        if !any_on_runtime(&all_decode, target_runtime) {
            return Err(GrpcPdCandidateError::Unavailable);
        }
        let prefill_policy = self.policy_registry.get_prefill_policy();
        let decode_policy = self.policy_registry.get_decode_policy();
        let prefill_name: String = self.policy_registry.policy_name(prefill_policy).to_owned();
        let decode_name: String = self.policy_registry.policy_name(decode_policy).to_owned();
        let targeted = prefill_name.as_str().eq(CONSISTENT_HASHING) && extract_target_worker(
            headers,
        ).is_some();
        assert(has_runtime(all_prefill@, target_runtime)) by {
            assert(all_prefill@[0].runtime_type == target_runtime);
        }
        let (available_prefill, available_decode) = match select_pair_candidates(
            &all_prefill,
            &all_decode,
            target_runtime,
            targeted,
            capacity,
        ) {
            Ok(candidates) => candidates,
            Err(error) => {
                return Err(error);
            },
        };
        let pair = self.select_pair(
            &available_prefill,
            &available_decode,
            Ghost(target_runtime),
            model_id,
            text,
            tokens,
            headers,
            rid_key,
            capacity,
        );
        let (prefill, decode) = match pair {
            Ok(pair) => pair,
            Err(error) => {
                return Err(error);
            },
        };
        self.record_pair(model_id, &prefill, &decode, prefill_name.as_str(), decode_name.as_str());
        Ok((prefill, decode, target_runtime))
    }

    /// Records a prefill and decode pair.
    fn record_pair(
        &mut self,
        model_id: &str,
        prefill: &Worker,
        decode: &Worker,
        prefill_policy: &str,
        decode_policy: &str,
    )
        requires
            old(self).wf(),
        ensures
            final(self).keeps(old(self)),
            final(self).policy_registry == old(self).policy_registry,
            final(self).prefill_admission == old(self).prefill_admission,
            final(self).recorded(old(self)) == seq![
                record_of(
                    WorkerType::Prefill,
                    prefill.connection_mode,
                    model_id@,
                    prefill_policy@,
                ),
                record_of(WorkerType::Decode, decode.connection_mode, model_id@, decode_policy@),
            ],
    {
        record_selection(
            &mut self.selections,
            WorkerType::Prefill,
            prefill.connection_mode,
            model_id,
            prefill_policy,
        );
        let ghost between = self.selections@;
        record_selection(
            &mut self.selections,
            WorkerType::Decode,
            decode.connection_mode,
            model_id,
            decode_policy,
        );
        proof {
            lemma_added(old(self).selections@, between, self.selections@);
            assert(self.recorded(old(self)) =~= seq![
                record_of(
                    WorkerType::Prefill,
                    prefill.connection_mode,
                    model_id@,
                    prefill_policy@,
                ),
                record_of(WorkerType::Decode, decode.connection_mode, model_id@, decode_policy@),
            ]);
        }
    }

    /// Selects encode, prefill and decode workers, without a limit on the prefill load.
    pub fn select_encode_prefill_decode_workers(
        &mut self,
        model_id: &str,
        text: Option<&str>,
        tokens: Option<&[u32]>,
        headers: Option<&HeaderMap<HeaderValue>>,
        rid_key: Option<&str>,
        encode_item_hashes: &Vec<Vec<u8>>,
    ) -> (selection: Option<EncodePrefillDecodeWorkerSelection>)
        requires
            old(self).wf(),
        ensures
            final(self).keeps(old(self)),
            final(self).prefill_admission == old(self).prefill_admission,
            exists|outcome: Result<EncodePrefillDecodeWorkerSelection, GrpcPdCandidateError>|
                epd_selection(
                    old(self).policy_registry.state(),
                    old(self).policy_registry.roles(),
                    old(self).worker_registry,
                    request_view(model_id, text, tokens, headers, rid_key),
                    hash_list(encode_item_hashes@),
                    None,
                    #[trigger] epd_outcome(outcome),
                    final(self).recorded(old(self)),
                    final(self).policy_registry.state(),
                ) && selection == outcome.ok(),
    {
        let outcome = self.select_encode_prefill_decode_workers_inner(
            model_id,
            text,
            tokens,
            headers,
            rid_key,
            encode_item_hashes,
            None,
        );
        let ghost shown = epd_outcome(outcome);
        outcome.ok()
    }

    /// Selects an encode worker per item, and a prefill and decode pair. All legs come from one
    /// snapshot of the membership, over gRPC, and run one runtime.
    pub fn select_encode_prefill_decode_workers_inner(
        &mut self,
        model_id: &str,
        text: Option<&str>,
        tokens: Option<&[u32]>,
        headers: Option<&HeaderMap<HeaderValue>>,
        rid_key: Option<&str>,
        encode_item_hashes: &Vec<Vec<u8>>,
        capacity: Option<&PrefillSelectionContext<'_>>,
    ) -> (outcome: Result<EncodePrefillDecodeWorkerSelection, GrpcPdCandidateError>)
        requires
            old(self).wf(),
        ensures
            final(self).keeps(old(self)),
            final(self).prefill_admission == old(self).prefill_admission,
            epd_selection(
                old(self).policy_registry.state(),
                old(self).policy_registry.roles(),
                old(self).worker_registry,
                request_view(model_id, text, tokens, headers, rid_key),
                hash_list(encode_item_hashes@),
                seen(capacity),
                epd_outcome(outcome),
                final(self).recorded(old(self)),
                final(self).policy_registry.state(),
            ),
    {
        proof {
            lemma_nothing_added(self.selections@);
        }
        let snapshot = self.worker_registry.get_routing_snapshot(model_id);
        let all_encode: Vec<Arc<Worker>> = Self::available_workers(
            &snapshot,
            RoutingPool::GrpcEncode,
        );
        let all_prefill: Vec<Arc<Worker>> = Self::available_workers(
            &snapshot,
            RoutingPool::GrpcPrefill,
        );
        let all_decode: Vec<Arc<Worker>> = Self::available_workers(
            &snapshot,
            RoutingPool::GrpcDecode,
        );
        let needs_encode = encode_item_hashes.len() > 0;
        proof {
            lemma_first_shared_runtime(all_prefill@, all_encode@, all_decode@, needs_encode);
        }
        let target_runtime = match find_shared_runtime(
            &all_prefill,
            &all_encode,
            &all_decode,
            needs_encode,
        ) {
            Some(runtime) => runtime,
            None => {
                return Err(GrpcPdCandidateError::Unavailable);
            },
        };
        let available_encode: Vec<Arc<Worker>> = runtime_workers(
            &all_encode,
            target_runtime,
        );
        let prefill_policy = self.policy_registry.get_prefill_policy();
        let targeted = self.policy_registry.policy_name(prefill_policy).eq(CONSISTENT_HASHING)
            && extract_target_worker(headers).is_some();
        let (available_prefill, available_decode) = match select_pair_candidates(
            &all_prefill,
            &all_decode,
            target_runtime,
            targeted,
            capacity,
        ) {
            Ok(candidates) => candidates,
            Err(error) => {
                return Err(error);
            },
        };
        let pair = self.select_pair(
            &available_prefill,
            &available_decode,
            Ghost(target_runtime),
            model_id,
            text,
            tokens,
            headers,
            rid_key,
            capacity,
        );
        let (prefill, decode) = match pair {
            Ok(pair) => pair,
            Err(error) => {
                return Err(error);
            },
        };
        let decode_policy = self.policy_registry.get_decode_policy();
        let encode_policy = self.policy_registry.get_encode_policy();
        let prefill_name: String = self.policy_registry.policy_name(prefill_policy).to_owned();
        let decode_name: String = self.policy_registry.policy_name(decode_policy).to_owned();
        let hash_ring = self.worker_registry.get_hash_ring(model_id);
        let ghost between = *self;
        let assigned = assign_encode_workers(
            &available_encode,
            encode_item_hashes,
            model_id,
            self.policy_registry.policy_mut(encode_policy),
            hash_ring,
            &mut self.selections,
        );
        let ghost middle = between.policy_registry.state();
        let ghost last = self.policy_registry.state();
        let ghost roles = self.policy_registry.roles();
        let ghost encode = encode_policy.index as int;
        let ghost request = request_view(model_id, text, tokens, headers, rid_key);
        let ghost candidates = EpdCandidates {
            encode: available_encode@,
            pair: PairCandidates {
                prefill: available_prefill@,
                decode: available_decode@,
                runtime: target_runtime,
            },
        };
        let ghost shown = assignment_list(assigned);
        let ghost picks = choose|picks: Seq<usize>|
            #[trigger] encode_outcome(
                middle.policies[encode],
                candidates.encode,
                hash_list(encode_item_hashes@),
                hash_ring,
                picks,
                shown,
                last.policies[encode],
            ) && added(between.selections@, self.selections@) == encode_records(
                picks.len(),
                model_id@,
                middle.policies[encode].policy_name(),
            );
        assert(last.policies =~= middle.policies.update(encode, last.policies[encode]));
        assert(encode_outcome(
            middle.policies[encode],
            candidates.encode,
            hash_list(encode_item_hashes@),
            hash_ring,
            picks,
            shown,
            last.policies[encode],
        ));
        let encode_assignments = match assigned {
            Some(assignments) => assignments,
            None => {
                assert(epd_result(
                    middle,
                    roles,
                    candidates,
                    request,
                    prefill,
                    decode,
                    picks,
                    shown,
                    Err(GrpcPdCandidateError::Unavailable),
                    self.recorded(old(self)),
                ));
                return Err(GrpcPdCandidateError::Unavailable);
            },
        };
        let ghost encoded = self.selections@;
        self.record_pair(model_id, &prefill, &decode, prefill_name.as_str(), decode_name.as_str());
        proof {
            lemma_added(old(self).selections@, encoded, self.selections@);
            let outcome = EpdOutcome {
                assigned: encode_assignments@,
                prefill,
                decode,
                runtime: target_runtime,
            };
            assert(self.recorded(old(self)) =~= encode_records(
                picks.len(),
                model_id@,
                middle.policies[encode].policy_name(),
            ) + pair_records(middle, roles, model_id@, *prefill, *decode));
            assert(epd_result(
                middle,
                roles,
                candidates,
                request,
                prefill,
                decode,
                picks,
                shown,
                Ok(outcome),
                self.recorded(old(self)),
            ));
        }
        Ok((encode_assignments, prefill, decode, target_runtime))
    }
}

/// Assigns each item to an encode worker, by its content hash alone.
pub fn assign_encode_workers<P: LoadBalancingPolicy>(
    encode_workers: &Vec<Arc<Worker>>,
    item_hashes: &Vec<Vec<u8>>,
    model_id: &str,
    policy: &mut P,
    hash_ring: Option<Arc<HashRing>>,
    records: &mut Vec<SelectionRecord>,
) -> (assigned: Option<Vec<EncodeWorkerAssignment>>)
    ensures
        extends(old(records)@, final(records)@),
        exists|picks: Seq<usize>|
            #[trigger] encode_outcome(
                *old(policy),
                encode_workers@,
                hash_list(item_hashes@),
                hash_ring,
                picks,
                assignment_list(assigned),
                *final(policy),
            ) && added(old(records)@, final(records)@) == encode_records(
                picks.len(),
                model_id@,
                old(policy).policy_name(),
            ),
{
    let ghost hashes = hash_list(item_hashes@);
    let mut assigned: Vec<EncodeWorkerAssignment> = Vec::new();
    let mut i: usize = 0;
    let ghost mut picks: Seq<usize> = Seq::empty();
    proof {
        lemma_nothing_added(records@);
        assert(assigned@ =~= assignments(encode_workers@, picks));
        assert(added(old(records)@, records@) =~= encode_records(
            0,
            model_id@,
            old(policy).policy_name(),
        ));
    }
    while i < item_hashes.len()
        invariant
            i <= item_hashes@.len(),
            hashes == hash_list(item_hashes@),
            picks.len() == i,
            policy.policy_name() == old(policy).policy_name(),
            encode_run(
                *old(policy),
                encode_workers@,
                hashes.take(i as int),
                hash_ring,
                picks,
                *policy,
            ),
            assigned@ == assignments(encode_workers@, picks),
            extends(old(records)@, records@),
            added(old(records)@, records@) == encode_records(
                i as nat,
                model_id@,
                old(policy).policy_name(),
            ),
        decreases item_hashes@.len() - i,
    {
        let routing_headers = encode_routing_headers(item_hashes[i].as_slice());
        let ring = match &hash_ring {
            Some(ring) => Some(Arc::clone(ring)),
            None => None,
        };
        let info = SelectWorkerInfo {
            request_text: None,
            tokens: None,
            headers: Some(&routing_headers),
            routing_key: None,
            rid_key: None,
            hash_ring: ring,
            leg: WorkerLeg::Single,
        };
        let ghost before = *policy;
        assert(info@ == encode_info(hashes[i as int], hash_ring));
        let picked: Option<usize> = policy.select_worker(encode_workers, &info);
        assert(policy_step(
            before,
            encode_workers@,
            encode_info(hashes[i as int], hash_ring),
            picked,
            *policy,
        ));
        let at: usize = match picked {
            Some(at) => at,
            None => {
                assert(policy_step(
                    before,
                    encode_workers@,
                    encode_info(hashes[picks.len() as int], hash_ring),
                    None,
                    *policy,
                ));
                assert(encode_outcome(
                    *old(policy),
                    encode_workers@,
                    hashes,
                    hash_ring,
                    picks,
                    None,
                    *policy,
                ));
                return None;
            },
        };
        let worker = Arc::clone(&encode_workers[at]);
        let ghost recorded = records@;
        record_selection(
            records,
            WorkerType::Encode,
            ConnectionMode::Grpc,
            model_id,
            policy.name(),
        );
        assigned.push(EncodeWorkerAssignment { item_index: i, worker });
        proof {
            lemma_added(old(records)@, recorded, records@);
            assert(added(old(records)@, records@) =~= encode_records(
                (i + 1) as nat,
                model_id@,
                old(policy).policy_name(),
            ));
            let done = picks.push(at);
            assert(hashes.take(i + 1).drop_last() =~= hashes.take(i as int));
            assert(done.drop_last() =~= picks);
            assert(policy_step(
                before,
                encode_workers@,
                encode_info(hashes.take(i + 1).last(), hash_ring),
                Some(done.last()),
                *policy,
            ));
            assert(encode_run(
                *old(policy),
                encode_workers@,
                hashes.take(i + 1),
                hash_ring,
                done,
                *policy,
            ));
            picks = done;
            assert(assigned@ =~= assignments(encode_workers@, picks));
        }
        i = i + 1;
    }
    assert(hashes.take(i as int) =~= hashes);
    assert(encode_outcome(
        *old(policy),
        encode_workers@,
        hashes,
        hash_ring,
        picks,
        Some(assigned@),
        *policy,
    ));
    Some(assigned)
}

} // verus!
