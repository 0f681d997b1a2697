//! What a selection may return: the candidates of each leg, and the picks among them.

use crate::admission::{GrpcPdCandidateError, PrefillAdmission, PrefillSelectionContext};
use crate::headers::{encode_headers, request_header, ROUTING_KEY_HEADER, TARGET_WORKER_HEADER};
use crate::policy::{InfoView, LoadBalancingPolicy, WorkerLeg};
use crate::policy_registry::{policy_step, registry_step, PolicyRoles, PolicyState};
use crate::pool::{
    any_on_runtime, has_runtime, lemma_filter_elements, lemma_filter_step, members, on_runtime,
    ready, runtime_workers, serving, RoutingPool,
};
use crate::registry::{HashRing, WorkerRegistry};
use crate::worker::{ConnectionMode, RuntimeType, Worker, WorkerType};
use std::sync::Arc;
use vstd::prelude::*;

verus! {

/// The name of the policy under which a request may name its prefill worker.
pub const CONSISTENT_HASHING: &'static str = "consistent_hashing";

/// A prefill worker, a decode worker, and the runtime that both run.
pub type PdWorkerPair = (Arc<Worker>, Arc<Worker>, RuntimeType);

/// An encode worker for one multimodal item.
#[derive(Debug)]
pub struct EncodeWorkerAssignment {
    pub item_index: usize,
    pub worker: Arc<Worker>,
}

/// The encode worker of each item, a prefill worker, a decode worker, and their runtime.
pub type EncodePrefillDecodeWorkerSelection = (
    Vec<EncodeWorkerAssignment>,
    Arc<Worker>,
    Arc<Worker>,
    RuntimeType,
);

/// A selection to be counted: which role was given to a worker on which transport, for which
/// model, and by which policy.
#[derive(Debug)]
pub struct SelectionRecord {
    pub role: WorkerType,
    pub connection: ConnectionMode,
    pub model_id: String,
    pub policy: String,
}

/// The contents of a [`SelectionRecord`].
pub struct RecordView {
    pub role: WorkerType,
    pub connection: ConnectionMode,
    pub model: Seq<char>,
    pub policy: Seq<char>,
}

impl View for SelectionRecord {
    type V = RecordView;

    open spec fn view(&self) -> RecordView {
        RecordView {
            role: self.role,
            connection: self.connection,
            model: self.model_id@,
            policy: self.policy@,
        }
    }
}

/// The contents of a list of records.
pub open spec fn record_list(records: Seq<SelectionRecord>) -> Seq<RecordView> {
    records.map_values(|record: SelectionRecord| record@)
}

/// What selection reads of a request.
pub struct RequestView {
    pub model: Seq<char>,
    pub text: Option<Seq<char>>,
    pub tokens: Option<Seq<u32>>,
    pub headers: Option<Map<Seq<char>, Seq<u8>>>,
    pub rid_key: Option<Seq<char>>,
}

impl RequestView {
    /// What the policy of one leg is told.
    pub open spec fn info(self, ring: Option<Arc<HashRing>>, leg: WorkerLeg) -> InfoView {
        InfoView {
            request_text: self.text,
            tokens: self.tokens,
            headers: self.headers,
            routing_key: request_header(self.headers, ROUTING_KEY_HEADER@),
            rid_key: self.rid_key,
            hash_ring: ring,
            leg,
        }
    }
}

/// What the encode policy is told of one item: its content hash, and nothing of the request.
pub open spec fn encode_info(content_hash: Seq<u8>, ring: Option<Arc<HashRing>>) -> InfoView {
    InfoView {
        request_text: None,
        tokens: None,
        headers: Some(encode_headers(content_hash)),
        routing_key: None,
        rid_key: None,
        hash_ring: ring,
        leg: WorkerLeg::Single,
    }
}

/// The admission behind an optional view of it.
pub open spec fn seen(capacity: Option<&PrefillSelectionContext<'_>>) -> Option<PrefillAdmission> {
    match capacity {
        Some(context) => Some(*context.admission),
        None => None,
    }
}

/// The worker has room, or nothing limits the load.
pub open spec fn fits(capacity: Option<PrefillAdmission>, worker: Worker) -> bool {
    match capacity {
        Some(admission) => admission.has_room(worker.url@),
        None => true,
    }
}

/// The workers that have room, in order.
pub open spec fn with_room(
    workers: Seq<Arc<Worker>>,
    capacity: Option<PrefillAdmission>,
) -> Seq<Arc<Worker>> {
    workers.filter(|worker: Arc<Worker>| fits(capacity, *worker))
}

/// The available workers of one pool of a snapshot.
pub open spec fn ready_members(
    snapshot: Seq<Arc<Worker>>,
    pool: RoutingPool,
) -> Seq<Arc<Worker>> {
    ready(members(snapshot, pool))
}

/// The candidates of the two legs of a disaggregated request.
pub struct PairCandidates {
    pub prefill: Seq<Arc<Worker>>,
    pub decode: Seq<Arc<Worker>>,
    pub runtime: RuntimeType,
}

/// The prefill candidates that are left when workers without room are taken out. A request
/// that names its worker keeps them all: it waits for its worker rather than get another.
pub open spec fn room_candidates(
    prefill: Seq<Arc<Worker>>,
    targeted: bool,
    capacity: Option<PrefillAdmission>,
) -> Seq<Arc<Worker>> {
    if targeted {
        prefill
    } else {
        with_room(prefill, capacity)
    }
}

/// The candidates of a pair on `runtime`, from the available workers of each leg.
pub open spec fn pair_on_runtime(
    prefill: Seq<Arc<Worker>>,
    decode: Seq<Arc<Worker>>,
    runtime: RuntimeType,
    targeted: bool,
    capacity: Option<PrefillAdmission>,
) -> Result<PairCandidates, GrpcPdCandidateError> {
    let left = room_candidates(on_runtime(prefill, runtime), targeted, capacity);
    if left.len() == 0 {
        Err(GrpcPdCandidateError::AtCapacity)
    } else {
        Ok(PairCandidates { prefill: left, decode: on_runtime(decode, runtime), runtime })
    }
}

/// The candidates of a prefill and decode pair.
///
/// Both legs come from one snapshot and run one runtime: that of the first available prefill
/// worker.
pub open spec fn pd_candidates(
    snapshot: Seq<Arc<Worker>>,
    targeted: bool,
    capacity: Option<PrefillAdmission>,
) -> Result<PairCandidates, GrpcPdCandidateError> {
    let prefill = ready_members(snapshot, RoutingPool::GrpcPrefill);
    let decode = ready_members(snapshot, RoutingPool::GrpcDecode);
    if prefill.len() == 0 || !has_runtime(decode, prefill[0].runtime_type) {
        Err(GrpcPdCandidateError::Unavailable)
    } else {
        pair_on_runtime(prefill, decode, prefill[0].runtime_type, targeted, capacity)
    }
}

/// Every leg that the request needs has an available worker on `runtime`. Encoding is served
/// by the TokenSpeed runtime alone.
pub open spec fn shared_runtime(
    runtime: RuntimeType,
    encode: Seq<Arc<Worker>>,
    decode: Seq<Arc<Worker>>,
    needs_encode: bool,
) -> bool {
    &&& has_runtime(decode, runtime)
    &&& needs_encode ==> runtime == RuntimeType::TokenSpeed && has_runtime(encode, runtime)
}

/// The runtime of the first prefill worker whose runtime every needed leg shares.
pub open spec fn first_shared_runtime(
    prefill: Seq<Arc<Worker>>,
    encode: Seq<Arc<Worker>>,
    decode: Seq<Arc<Worker>>,
    needs_encode: bool,
) -> Option<RuntimeType>
    decreases prefill.len(),
{
    if prefill.len() == 0 {
        None
    } else if shared_runtime(prefill[0].runtime_type, encode, decode, needs_encode) {
        Some(prefill[0].runtime_type)
    } else {
        first_shared_runtime(prefill.drop_first(), encode, decode, needs_encode)
    }
}

/// The candidates of the three legs of a request with disaggregated encoding.
pub struct EpdCandidates {
    pub encode: Seq<Arc<Worker>>,
    pub pair: PairCandidates,
}

/// The candidates of an encode, prefill and decode set, from one snapshot and on one runtime.
pub open spec fn epd_candidates(
    snapshot: Seq<Arc<Worker>>,
    needs_encode: bool,
    targeted: bool,
    capacity: Option<PrefillAdmission>,
) -> Result<EpdCandidates, GrpcPdCandidateError> {
    let encode = ready_members(snapshot, RoutingPool::GrpcEncode);
    let prefill = ready_members(snapshot, RoutingPool::GrpcPrefill);
    let decode = ready_members(snapshot, RoutingPool::GrpcDecode);
    match first_shared_runtime(prefill, encode, decode, needs_encode) {
        None => Err(GrpcPdCandidateError::Unavailable),
        Some(runtime) => match pair_on_runtime(prefill, decode, runtime, targeted, capacity) {
            Err(error) => Err(error),
            Ok(pair) => Ok(EpdCandidates { encode: on_runtime(encode, runtime), pair }),
        },
    }
}

/// The request names its prefill worker, under a policy that heeds it.
pub open spec fn is_targeted(
    policy: Seq<char>,
    headers: Option<Map<Seq<char>, Seq<u8>>>,
) -> bool {
    policy == CONSISTENT_HASHING@ && request_header(headers, TARGET_WORKER_HEADER@) is Some
}

/// The request of a registry state names its prefill worker.
pub open spec fn request_targeted<P: LoadBalancingPolicy>(
    state: PolicyState<P>,
    roles: PolicyRoles,
    request: RequestView,
) -> bool {
    is_targeted(state.policies[roles.for_prefill().index as int].policy_name(), request.headers)
}

/// The workers that a regular request selects over: a policy that filters gets the whole pool,
/// any other the available workers of it.
pub open spec fn offered<P: LoadBalancingPolicy>(
    state: PolicyState<P>,
    roles: PolicyRoles,
    registry: WorkerRegistry,
    model: Seq<char>,
) -> Seq<Arc<Worker>> {
    let pool = registry.routing_pool(model, RoutingPool::GrpcPipelineRegular);
    if state.policies[roles.for_model(model).index as int].filters() {
        pool
    } else {
        ready(pool)
    }
}

/// One record of a selection.
pub open spec fn record_of(
    role: WorkerType,
    connection: ConnectionMode,
    model: Seq<char>,
    policy: Seq<char>,
) -> RecordView {
    RecordView { role, connection, model, policy }
}

/// A regular selection: what is returned, what is recorded, and the state of the policies
/// before and after.
pub open spec fn single_selection<P: LoadBalancingPolicy>(
    before: PolicyState<P>,
    roles: PolicyRoles,
    registry: WorkerRegistry,
    request: RequestView,
    selected: Option<Arc<Worker>>,
    records: Seq<RecordView>,
    after: PolicyState<P>,
) -> bool {
    let policy = roles.for_model(request.model);
    let workers = offered(before, roles, registry, request.model);
    let info = request.info(registry.hash_ring(request.model), WorkerLeg::Single);
    if workers.len() == 0 {
        selected is None && records.len() == 0 && after == before
    } else {
        exists|picked: Option<usize>|
            #[trigger] registry_step(before, roles.sticky, policy, workers, info, picked, after)
                && match picked {
                None => selected is None && records.len() == 0,
                Some(at) => {
                    &&& at < workers.len()
                    &&& selected == Some(workers[at as int])
                    &&& records == seq![
                        record_of(
                            WorkerType::Regular,
                            workers[at as int].connection_mode,
                            request.model,
                            before.policies[policy.index as int].policy_name(),
                        ),
                    ]
                },
            }
    }
}

/// The picks of a pair from its candidates: the prefill worker first, by the prefill policy;
/// then, if that worker has room, the decode worker, by the decode policy.
pub open spec fn pair_selection<P: LoadBalancingPolicy>(
    before: PolicyState<P>,
    roles: PolicyRoles,
    candidates: PairCandidates,
    request: RequestView,
    ring: Option<Arc<HashRing>>,
    capacity: Option<PrefillAdmission>,
    outcome: Result<(Arc<Worker>, Arc<Worker>), GrpcPdCandidateError>,
    after: PolicyState<P>,
) -> bool {
    exists|picked: Option<usize>, between: PolicyState<P>|
        #[trigger] registry_step(
            before,
            roles.sticky,
            roles.for_prefill(),
            candidates.prefill,
            request.info(ring, WorkerLeg::Prefill),
            picked,
            between,
        ) && prefill_result(
            picked,
            between,
            roles,
            candidates,
            request,
            ring,
            capacity,
            outcome,
            after,
        )
}

/// What follows the pick of the prefill worker: the pick of the decode worker, if the prefill
/// worker has room.
pub open spec fn prefill_result<P: LoadBalancingPolicy>(
    picked: Option<usize>,
    between: PolicyState<P>,
    roles: PolicyRoles,
    candidates: PairCandidates,
    request: RequestView,
    ring: Option<Arc<HashRing>>,
    capacity: Option<PrefillAdmission>,
    outcome: Result<(Arc<Worker>, Arc<Worker>), GrpcPdCandidateError>,
    after: PolicyState<P>,
) -> bool {
    match picked {
        None => outcome == Err::<(Arc<Worker>, Arc<Worker>), GrpcPdCandidateError>(
            GrpcPdCandidateError::Unavailable,
        ) && after == between,
        Some(at) => {
            let prefill = candidates.prefill[at as int];
            &&& at < candidates.prefill.len()
            &&& if !fits(capacity, *prefill) {
                outcome == Err::<(Arc<Worker>, Arc<Worker>), GrpcPdCandidateError>(
                    GrpcPdCandidateError::AtCapacity,
                ) && after == between
            } else {
                decode_selection(between, roles, candidates, request, ring, prefill, outcome, after)
            }
        },
    }
}

/// The pick of the decode worker, once the prefill worker is picked.
pub open spec fn decode_selection<P: LoadBalancingPolicy>(
    before: PolicyState<P>,
    roles: PolicyRoles,
    candidates: PairCandidates,
    request: RequestView,
    ring: Option<Arc<HashRing>>,
    prefill: Arc<Worker>,
    outcome: Result<(Arc<Worker>, Arc<Worker>), GrpcPdCandidateError>,
    after: PolicyState<P>,
) -> bool {
    exists|picked: Option<usize>|
        #[trigger] registry_step(
            before,
            roles.sticky,
            roles.for_decode(),
            candidates.decode,
            request.info(ring, WorkerLeg::Decode),
            picked,
            after,
        ) && match picked {
            None => outcome == Err::<(Arc<Worker>, Arc<Worker>), GrpcPdCandidateError>(
                GrpcPdCandidateError::Unavailable,
            ),
            Some(at) => at < candidates.decode.len() && outcome == Ok::<
                (Arc<Worker>, Arc<Worker>),
                GrpcPdCandidateError,
            >((prefill, candidates.decode[at as int])),
        }
}

/// The records of a pair.
pub open spec fn pair_records<P: LoadBalancingPolicy>(
    state: PolicyState<P>,
    roles: PolicyRoles,
    model: Seq<char>,
    prefill: Worker,
    decode: Worker,
) -> Seq<RecordView> {
    seq![
        record_of(
            WorkerType::Prefill,
            prefill.connection_mode,
            model,
            state.policies[roles.for_prefill().index as int].policy_name(),
        ),
        record_of(
            WorkerType::Decode,
            decode.connection_mode,
            model,
            state.policies[roles.for_decode().index as int].policy_name(),
        ),
    ]
}

/// A selection of a prefill and decode pair.
pub open spec fn pd_selection<P: LoadBalancingPolicy>(
    before: PolicyState<P>,
    roles: PolicyRoles,
    registry: WorkerRegistry,
    request: RequestView,
    capacity: Option<PrefillAdmission>,
    outcome: Result<PdWorkerPair, GrpcPdCandidateError>,
    records: Seq<RecordView>,
    after: PolicyState<P>,
) -> bool {
    let snapshot = serving(registry.workers(), request.model);
    let ring = registry.hash_ring(request.model);
    match pd_candidates(snapshot, request_targeted(before, roles, request), capacity) {
        Err(error) => outcome == Err::<PdWorkerPair, GrpcPdCandidateError>(error) && records.len()
            == 0 && after == before,
        Ok(candidates) => exists|pair: Result<(Arc<Worker>, Arc<Worker>), GrpcPdCandidateError>|
            #[trigger] pair_selection(
                before,
                roles,
                candidates,
                request,
                ring,
                capacity,
                pair,
                after,
            ) && match pair {
                Err(error) => outcome == Err::<PdWorkerPair, GrpcPdCandidateError>(error)
                    && records.len() == 0,
                Ok((prefill, decode)) => outcome == Ok::<PdWorkerPair, GrpcPdCandidateError>(
                    (prefill, decode, candidates.runtime),
                ) && records == pair_records(before, roles, request.model, *prefill, *decode),
            },
    }
}

/// The encode policy picks `picks` for the items of `hashes`, one after the other.
pub open spec fn encode_run<P: LoadBalancingPolicy>(
    before: P,
    workers: Seq<Arc<Worker>>,
    hashes: Seq<Seq<u8>>,
    ring: Option<Arc<HashRing>>,
    picks: Seq<usize>,
    after: P,
) -> bool
    decreases hashes.len(),
{
    if hashes.len() == 0 {
        picks.len() == 0 && after == before
    } else {
        &&& picks.len() == hashes.len()
        &&& exists|between: P|
            encode_run(
                before,
                workers,
                hashes.drop_last(),
                ring,
                picks.drop_last(),
                between,
            ) && #[trigger] policy_step(
                between,
                workers,
                encode_info(hashes.last(), ring),
                Some(picks.last()),
                after,
            )
    }
}

/// The assignments that the picks make: item by item, in order.
pub open spec fn assignments(
    workers: Seq<Arc<Worker>>,
    picks: Seq<usize>,
) -> Seq<EncodeWorkerAssignment> {
    Seq::new(
        picks.len(),
        |i: int|
            EncodeWorkerAssignment { item_index: i as usize, worker: workers[picks[i] as int] },
    )
}

/// The contents of optional assignments.
pub open spec fn assignment_list(assigned: Option<Vec<EncodeWorkerAssignment>>) -> Option<
    Seq<EncodeWorkerAssignment>,
> {
    match assigned {
        Some(assigned) => Some(assigned@),
        None => None,
    }
}

/// `picks` are the picks that were made: one per item where all items are assigned, and as
/// many as came before the first item for which the policy had no worker otherwise.
pub open spec fn encode_outcome<P: LoadBalancingPolicy>(
    before: P,
    workers: Seq<Arc<Worker>>,
    hashes: Seq<Seq<u8>>,
    ring: Option<Arc<HashRing>>,
    picks: Seq<usize>,
    assigned: Option<Seq<EncodeWorkerAssignment>>,
    after: P,
) -> bool {
    match assigned {
        Some(assigned) => encode_run(before, workers, hashes, ring, picks, after) && assigned
            == assignments(workers, picks),
        None => picks.len() < hashes.len() && exists|between: P|
            encode_run(
                before,
                workers,
                hashes.take(picks.len() as int),
                ring,
                picks,
                between,
            ) && #[trigger] policy_step(
                between,
                workers,
                encode_info(hashes[picks.len() as int], ring),
                None,
                after,
            ),
    }
}

/// The records of `count` encode assignments.
pub open spec fn encode_records(count: nat, model: Seq<char>, policy: Seq<char>) -> Seq<
    RecordView,
> {
    Seq::new(count, |i: int| record_of(WorkerType::Encode, ConnectionMode::Grpc, model, policy))
}

/// What is returned of an encode, prefill and decode selection.
pub struct EpdOutcome {
    pub assigned: Seq<EncodeWorkerAssignment>,
    pub prefill: Arc<Worker>,
    pub decode: Arc<Worker>,
    pub runtime: RuntimeType,
}

/// The contents of the result of an encode, prefill and decode selection.
pub open spec fn epd_outcome(
    outcome: Result<EncodePrefillDecodeWorkerSelection, GrpcPdCandidateError>,
) -> Result<EpdOutcome, GrpcPdCandidateError> {
    match outcome {
        Ok((assigned, prefill, decode, runtime)) => Ok(
            EpdOutcome { assigned: assigned@, prefill, decode, runtime },
        ),
        Err(error) => Err(error),
    }
}

/// The assignment of the items, once the pair is picked.
pub open spec fn epd_assignment<P: LoadBalancingPolicy>(
    before: PolicyState<P>,
    roles: PolicyRoles,
    candidates: EpdCandidates,
    request: RequestView,
    ring: Option<Arc<HashRing>>,
    hashes: Seq<Seq<u8>>,
    prefill: Arc<Worker>,
    decode: Arc<Worker>,
    outcome: Result<EpdOutcome, GrpcPdCandidateError>,
    records: Seq<RecordView>,
    after: PolicyState<P>,
) -> bool {
    let encode = roles.encode.index as int;
    &&& after.pins == before.pins
    &&& after.policies == before.policies.update(encode, after.policies[encode])
    &&& exists|picks: Seq<usize>, assigned: Option<Seq<EncodeWorkerAssignment>>|
        #[trigger] encode_outcome(
            before.policies[encode],
            candidates.encode,
            hashes,
            ring,
            picks,
            assigned,
            after.policies[encode],
        ) && epd_result(
            before,
            roles,
            candidates,
            request,
            prefill,
            decode,
            picks,
            assigned,
            outcome,
            records,
        )
}

/// The outcome of a selection whose items were assigned with `picks`.
pub open spec fn epd_result<P: LoadBalancingPolicy>(
    before: PolicyState<P>,
    roles: PolicyRoles,
    candidates: EpdCandidates,
    request: RequestView,
    prefill: Arc<Worker>,
    decode: Arc<Worker>,
    picks: Seq<usize>,
    assigned: Option<Seq<EncodeWorkerAssignment>>,
    outcome: Result<EpdOutcome, GrpcPdCandidateError>,
    records: Seq<RecordView>,
) -> bool {
    let name = before.policies[roles.encode.index as int].policy_name();
    match assigned {
        None => outcome == Err::<EpdOutcome, GrpcPdCandidateError>(
            GrpcPdCandidateError::Unavailable,
        ) && records == encode_records(picks.len(), request.model, name),
        Some(assigned) => outcome == Ok::<EpdOutcome, GrpcPdCandidateError>(
            EpdOutcome { assigned, prefill, decode, runtime: candidates.pair.runtime },
        ) && records == encode_records(picks.len(), request.model, name) + pair_records(
            before,
            roles,
            request.model,
            *prefill,
            *decode,
        ),
    }
}

/// A selection of encode, prefill and decode workers.
pub open spec fn epd_selection<P: LoadBalancingPolicy>(
    before: PolicyState<P>,
    roles: PolicyRoles,
    registry: WorkerRegistry,
    request: RequestView,
    hashes: Seq<Seq<u8>>,
    capacity: Option<PrefillAdmission>,
    outcome: Result<EpdOutcome, GrpcPdCandidateError>,
    records: Seq<RecordView>,
    after: PolicyState<P>,
) -> bool {
    let snapshot = serving(registry.workers(), request.model);
    let ring = registry.hash_ring(request.model);
    let targeted = request_targeted(before, roles, request);
    match epd_candidates(snapshot, hashes.len() > 0, targeted, capacity) {
        Err(error) => outcome == Err::<EpdOutcome, GrpcPdCandidateError>(error) && records.len()
            == 0 && after == before,
        Ok(candidates) => exists|
            pair: Result<(Arc<Worker>, Arc<Worker>), GrpcPdCandidateError>,
            between: PolicyState<P>,
        |
            #[trigger] pair_selection(
                before,
                roles,
                candidates.pair,
                request,
                ring,
                capacity,
                pair,
                between,
            ) && match pair {
                Err(error) => outcome == Err::<EpdOutcome, GrpcPdCandidateError>(error)
                    && records.len() == 0 && after == between,
                Ok((prefill, decode)) => epd_assignment(
                    between,
                    roles,
                    candidates,
                    request,
                    ring,
                    hashes,
                    prefill,
                    decode,
                    outcome,
                    records,
                    after,
                ),
            },
    }
}

/// The pick of the prefill worker behind the picks of a pair.
pub proof fn lemma_prefill_step<P: LoadBalancingPolicy>(
    before: PolicyState<P>,
    roles: PolicyRoles,
    candidates: PairCandidates,
    request: RequestView,
    ring: Option<Arc<HashRing>>,
    capacity: Option<PrefillAdmission>,
    pair: Result<(Arc<Worker>, Arc<Worker>), GrpcPdCandidateError>,
    after: PolicyState<P>,
) -> (found: (Option<usize>, PolicyState<P>))
    requires
        pair_selection(before, roles, candidates, request, ring, capacity, pair, after),
    ensures
        registry_step(
            before,
            roles.sticky,
            roles.for_prefill(),
            candidates.prefill,
            request.info(ring, WorkerLeg::Prefill),
            found.0,
            found.1,
        ),
        prefill_result(found.0, found.1, roles, candidates, request, ring, capacity, pair, after),
{
    choose|picked: Option<usize>, between: PolicyState<P>|
        #[trigger] registry_step(
            before,
            roles.sticky,
            roles.for_prefill(),
            candidates.prefill,
            request.info(ring, WorkerLeg::Prefill),
            picked,
            between,
        ) && prefill_result(
            picked,
            between,
            roles,
            candidates,
            request,
            ring,
            capacity,
            pair,
            after,
        )
}

/// The pick of the decode worker behind the picks of a pair.
pub proof fn lemma_decode_step<P: LoadBalancingPolicy>(
    before: PolicyState<P>,
    roles: PolicyRoles,
    candidates: PairCandidates,
    request: RequestView,
    ring: Option<Arc<HashRing>>,
    prefill: Arc<Worker>,
    pair: Result<(Arc<Worker>, Arc<Worker>), GrpcPdCandidateError>,
    after: PolicyState<P>,
) -> (found: Option<usize>)
    requires
        decode_selection(before, roles, candidates, request, ring, prefill, pair, after),
    ensures
        registry_step(
            before,
            roles.sticky,
            roles.for_decode(),
            candidates.decode,
            request.info(ring, WorkerLeg::Decode),
            found,
            after,
        ),
        match found {
            None => pair == Err::<(Arc<Worker>, Arc<Worker>), GrpcPdCandidateError>(
                GrpcPdCandidateError::Unavailable,
            ),
            Some(at) => at < candidates.decode.len() && pair == Ok::<
                (Arc<Worker>, Arc<Worker>),
                GrpcPdCandidateError,
            >((prefill, candidates.decode[at as int])),
        },
{
    choose|picked: Option<usize>|
        #[trigger] registry_step(
            before,
            roles.sticky,
            roles.for_decode(),
            candidates.decode,
            request.info(ring, WorkerLeg::Decode),
            picked,
            after,
        ) && match picked {
            None => pair == Err::<(Arc<Worker>, Arc<Worker>), GrpcPdCandidateError>(
                GrpcPdCandidateError::Unavailable,
            ),
            Some(at) => at < candidates.decode.len() && pair == Ok::<
                (Arc<Worker>, Arc<Worker>),
                GrpcPdCandidateError,
            >((prefill, candidates.decode[at as int])),
        }
}

/// Without a limit on the load, every worker has room.
pub proof fn lemma_unlimited_room(workers: Seq<Arc<Worker>>)
    ensures
        with_room(workers, None) == workers,
    decreases workers.len(),
{
    reveal(Seq::filter);
    if workers.len() > 0 {
        lemma_unlimited_room(workers.drop_last());
        assert(workers.drop_last().push(workers.last()) =~= workers);
    }
}

/// A list has a worker on `runtime` if and only if the list narrowed to it is not empty.
pub proof fn lemma_on_runtime(workers: Seq<Arc<Worker>>, runtime: RuntimeType)
    ensures
        has_runtime(workers, runtime) <==> on_runtime(workers, runtime).len() > 0,
{
    let keep = |worker: Arc<Worker>| worker.runtime_type == runtime;
    lemma_filter_elements(workers, keep);
    if has_runtime(workers, runtime) {
        let i = choose|i: int|
            0 <= i < workers.len() && (#[trigger] workers[i]).runtime_type == runtime;
        assert(workers.filter(keep).contains(workers[i]));
    }
    if on_runtime(workers, runtime).len() > 0 {
        let first = on_runtime(workers, runtime)[0];
        assert(workers.contains(first));
        let i = choose|i: int| 0 <= i < workers.len() && workers[i] == first;
        assert(workers[i].runtime_type == runtime);
    }
}

/// A runtime that is found shared is that of a prefill worker, and every needed leg shares it.
pub proof fn lemma_first_shared_runtime(
    prefill: Seq<Arc<Worker>>,
    encode: Seq<Arc<Worker>>,
    decode: Seq<Arc<Worker>>,
    needs_encode: bool,
)
    ensures
        match first_shared_runtime(prefill, encode, decode, needs_encode) {
            Some(runtime) => has_runtime(prefill, runtime) && shared_runtime(
                runtime,
                encode,
                decode,
                needs_encode,
            ),
            None => forall|i: int|
                0 <= i < prefill.len() ==> !shared_runtime(
                    (#[trigger] prefill[i]).runtime_type,
                    encode,
                    decode,
                    needs_encode,
                ),
        },
    decreases prefill.len(),
{
    if prefill.len() > 0 && !shared_runtime(
        prefill[0].runtime_type,
        encode,
        decode,
        needs_encode,
    ) {
        let rest = prefill.drop_first();
        lemma_first_shared_runtime(rest, encode, decode, needs_encode);
        assert(forall|i: int| 0 <= i < rest.len() ==> #[trigger] rest[i] == prefill[i + 1]);
        match first_shared_runtime(prefill, encode, decode, needs_encode) {
            Some(runtime) => {
                let i = choose|i: int|
                    0 <= i < rest.len() && (#[trigger] rest[i]).runtime_type == runtime;
                assert(prefill[i + 1].runtime_type == runtime);
            },
            None => {
                assert forall|i: int| 0 <= i < prefill.len() implies !shared_runtime(
                    (#[trigger] prefill[i]).runtime_type,
                    encode,
                    decode,
                    needs_encode,
                ) by {
                    if i > 0 {
                        assert(rest[i - 1] == prefill[i]);
                    }
                }
            },
        }
    }
}

/// The workers that have room.
fn workers_with_room(
    workers: &Vec<Arc<Worker>>,
    context: &PrefillSelectionContext<'_>,
) -> (kept: Vec<Arc<Worker>>)
    ensures
        kept@ == with_room(workers@, Some(*context.admission)),
{
    let ghost keep = |worker: Arc<Worker>| fits(Some(*context.admission), *worker);
    let mut kept: Vec<Arc<Worker>> = Vec::new();
    proof {
        reveal(Seq::filter);
        assert(workers@.take(0).filter(keep) =~= Seq::empty());
    }
    let mut i: usize = 0;
    while i < workers.len()
        invariant
            i <= workers@.len(),
            keep == (|worker: Arc<Worker>| fits(Some(*context.admission), *worker)),
            kept@ == workers@.take(i as int).filter(keep),
        decreases workers@.len() - i,
    {
        proof {
            lemma_filter_step(workers@, i as int, keep);
        }
        if context.has_capacity(&workers[i]) {
            kept.push(Arc::clone(&workers[i]));
        }
        i = i + 1;
    }
    assert(workers@.take(i as int) =~= workers@);
    kept
}

/// Narrows the available workers of both legs to `runtime`, and the prefill workers to those
/// with room unless the request names its worker.
pub fn select_pair_candidates(
    prefill: &Vec<Arc<Worker>>,
    decode: &Vec<Arc<Worker>>,
    runtime: RuntimeType,
    targeted: bool,
    capacity: Option<&PrefillSelectionContext<'_>>,
) -> (candidates: Result<(Vec<Arc<Worker>>, Vec<Arc<Worker>>), GrpcPdCandidateError>)
    requires
        has_runtime(prefill@, runtime),
    ensures
        match (candidates, pair_on_runtime(prefill@, decode@, runtime, targeted, seen(capacity))) {
            (Ok((left, right)), Ok(expected)) => left@ == expected.prefill && right@
                == expected.decode,
            (Err(error), Err(expected)) => error == expected,
            _ => false,
        },
{
    let mut left: Vec<Arc<Worker>> = runtime_workers(prefill, runtime);
    let right: Vec<Arc<Worker>> = runtime_workers(decode, runtime);
    proof {
        lemma_on_runtime(prefill@, runtime);
        lemma_unlimited_room(left@);
    }
    if let Some(context) = capacity {
        if !targeted {
            left = workers_with_room(&left, context);
            if left.len() == 0 {
                return Err(GrpcPdCandidateError::AtCapacity);
            }
        }
    }
    Ok((left, right))
}

/// The runtime of the first prefill worker whose runtime every needed leg shares.
pub fn find_shared_runtime(
    prefill: &Vec<Arc<Worker>>,
    encode: &Vec<Arc<Worker>>,
    decode: &Vec<Arc<Worker>>,
    needs_encode: bool,
) -> (runtime: Option<RuntimeType>)
    ensures
        runtime == first_shared_runtime(prefill@, encode@, decode@, needs_encode),
{
    let mut i: usize = 0;
    assert(prefill@.skip(0) =~= prefill@);
    while i < prefill.len()
        invariant
            i <= prefill@.len(),
            first_shared_runtime(prefill@, encode@, decode@, needs_encode) == first_shared_runtime(
                prefill@.skip(i as int),
                encode@,
                decode@,
                needs_encode,
            ),
        decreases prefill@.len() - i,
    {
        let runtime = prefill[i].runtime_type;
        assert(prefill@.skip(i as int).drop_first() =~= prefill@.skip(i + 1));
        if (!needs_encode || runtime == RuntimeType::TokenSpeed) && any_on_runtime(decode, runtime)
            && (!needs_encode || any_on_runtime(encode, runtime)) {
            return Some(runtime);
        }
        i = i + 1;
    }
    None
}

} // verus!
