//! What holds of requests without items where encoding is disaggregated.

use crate::admission::{GrpcPdCandidateError, PrefillAdmission};
use crate::policy::{InfoView, LoadBalancingPolicy, RoundRobinPolicy, WorkerLeg};
use crate::policy_registry::{
    policy_step, registry_step, roles_held, PolicyId, PolicyRoles, PolicyState,
};
use crate::pool::{serving, RoutingPool};
use crate::registry::{HashRing, WorkerRegistry};
use crate::selection::{
    assignments, decode_selection, encode_outcome, encode_records, encode_run, epd_assignment,
    epd_candidates, epd_result, epd_selection, first_shared_runtime, lemma_decode_step,
    lemma_prefill_step, pair_records, pair_selection, pd_candidates, pd_selection, ready_members,
    request_targeted, EncodeWorkerAssignment, EpdOutcome, PairCandidates, PdWorkerPair, RecordView,
    RequestView,
};
use crate::worker::Worker;
use std::sync::Arc;
use vstd::prelude::*;

verus! {

/// A policy of this kind is decided by its state: what it picks and how it goes on follows from
/// the state, the list and the info.
pub open spec fn decided_by_state<P: LoadBalancingPolicy>() -> bool {
    forall|
        before: P,
        workers: Seq<Arc<Worker>>,
        info: InfoView,
        one: Option<usize>,
        one_after: P,
        other: Option<usize>,
        other_after: P,
    |
        #[trigger] policy_step(before, workers, info, one, one_after) && #[trigger] policy_step(
            before,
            workers,
            info,
            other,
            other_after,
        ) ==> one == other && one_after == other_after
}

/// Round robin is decided by its state.
pub proof fn law_round_robin_is_decided_by_its_state()
    ensures
        decided_by_state::<RoundRobinPolicy>(),
{
}

/// The candidates of the pair of a request without items.
pub open spec fn text_candidates(
    snapshot: Seq<Arc<Worker>>,
    targeted: bool,
    capacity: Option<PrefillAdmission>,
) -> Result<PairCandidates, GrpcPdCandidateError> {
    match epd_candidates(snapshot, false, targeted, capacity) {
        Ok(candidates) => Ok(candidates.pair),
        Err(error) => Err(error),
    }
}

/// A selection of a pair from its candidates, as the outcome of a request without items.
pub open spec fn text_selection<P: LoadBalancingPolicy>(
    before: PolicyState<P>,
    roles: PolicyRoles,
    candidates: Result<PairCandidates, GrpcPdCandidateError>,
    request: RequestView,
    ring: Option<Arc<HashRing>>,
    capacity: Option<PrefillAdmission>,
    outcome: Result<EpdOutcome, GrpcPdCandidateError>,
    records: Seq<RecordView>,
    after: PolicyState<P>,
) -> bool {
    match candidates {
        Err(error) => outcome == Err::<EpdOutcome, GrpcPdCandidateError>(error) && records.len()
            == 0 && after == before,
        Ok(candidates) => exists|pair: Result<(Arc<Worker>, Arc<Worker>), GrpcPdCandidateError>|
            #[trigger] pair_selection(
                before,
                roles,
                candidates,
                request,
                ring,
                capacity,
                pair,
                after,
            ) && text_result(before, roles, candidates, request, pair, outcome, records),
    }
}

/// The outcome that a pair gives a request without items.
pub open spec fn text_result<P: LoadBalancingPolicy>(
    before: PolicyState<P>,
    roles: PolicyRoles,
    candidates: PairCandidates,
    request: RequestView,
    pair: Result<(Arc<Worker>, Arc<Worker>), GrpcPdCandidateError>,
    outcome: Result<EpdOutcome, GrpcPdCandidateError>,
    records: Seq<RecordView>,
) -> bool {
    match pair {
        Err(error) => outcome == Err::<EpdOutcome, GrpcPdCandidateError>(error) && records.len()
            == 0,
        Ok((prefill, decode)) => outcome == Ok::<EpdOutcome, GrpcPdCandidateError>(
            EpdOutcome { assigned: Seq::empty(), prefill, decode, runtime: candidates.runtime },
        ) && records == pair_records(before, roles, request.model, *prefill, *decode),
    }
}

proof fn lemma_step_keeps_names<P: LoadBalancingPolicy>(
    before: PolicyState<P>,
    sticky: bool,
    policy: PolicyId,
    workers: Seq<Arc<Worker>>,
    info: InfoView,
    picked: Option<usize>,
    after: PolicyState<P>,
)
    requires
        registry_step(before, sticky, policy, workers, info, picked, after),
        policy.index < before.policies.len(),
    ensures
        after.policies.len() == before.policies.len(),
        forall|i: int|
            0 <= i < before.policies.len() ==> (#[trigger] after.policies[i]).policy_name()
                == before.policies[i].policy_name(),
        forall|i: int|
            0 <= i < before.policies.len() && i != policy.index ==> #[trigger] after.policies[i]
                == before.policies[i],
{
}

/// The picks of a pair keep the names of the policies, and leave every policy but those of the
/// two legs as it is.
pub proof fn lemma_pair_keeps_policies<P: LoadBalancingPolicy>(
    before: PolicyState<P>,
    roles: PolicyRoles,
    candidates: PairCandidates,
    request: RequestView,
    ring: Option<Arc<HashRing>>,
    capacity: Option<PrefillAdmission>,
    pair: Result<(Arc<Worker>, Arc<Worker>), GrpcPdCandidateError>,
    after: PolicyState<P>,
)
    requires
        pair_selection(before, roles, candidates, request, ring, capacity, pair, after),
        roles_held(before, roles),
    ensures
        after.policies.len() == before.policies.len(),
        forall|i: int|
            0 <= i < before.policies.len() ==> (#[trigger] after.policies[i]).policy_name()
                == before.policies[i].policy_name(),
        forall|i: int|
            0 <= i < before.policies.len() && i != roles.for_prefill().index && i
                != roles.for_decode().index ==> #[trigger] after.policies[i] == before.policies[i],
{
    let prefill_info = request.info(ring, WorkerLeg::Prefill);
    let decode_info = request.info(ring, WorkerLeg::Decode);
    let (picked, between) = lemma_prefill_step(
        before,
        roles,
        candidates,
        request,
        ring,
        capacity,
        pair,
        after,
    );
    lemma_step_keeps_names(
        before,
        roles.sticky,
        roles.for_prefill(),
        candidates.prefill,
        prefill_info,
        picked,
        between,
    );
    if after != between {
        let later = choose|later: Option<usize>|
            #[trigger] registry_step(
                between,
                roles.sticky,
                roles.for_decode(),
                candidates.decode,
                decode_info,
                later,
                after,
            );
        lemma_step_keeps_names(
            between,
            roles.sticky,
            roles.for_decode(),
            candidates.decode,
            decode_info,
            later,
            after,
        );
    }
}

/// Without items, the selection of encode, prefill and decode workers is the selection of a pair,
/// and the encode policy is not asked.
proof fn lemma_text_selection<P: LoadBalancingPolicy>(
    before: PolicyState<P>,
    roles: PolicyRoles,
    registry: WorkerRegistry,
    request: RequestView,
    capacity: Option<PrefillAdmission>,
    outcome: Result<EpdOutcome, GrpcPdCandidateError>,
    records: Seq<RecordView>,
    after: PolicyState<P>,
)
    requires
        epd_selection(
            before,
            roles,
            registry,
            request,
            Seq::empty(),
            capacity,
            outcome,
            records,
            after,
        ),
        roles_held(before, roles),
    ensures
        text_selection(
            before,
            roles,
            text_candidates(
                serving(registry.workers(), request.model),
                request_targeted(before, roles, request),
                capacity,
            ),
            request,
            registry.hash_ring(request.model),
            capacity,
            outcome,
            records,
            after,
        ),
{
    let snapshot = serving(registry.workers(), request.model);
    let targeted = request_targeted(before, roles, request);
    let ring = registry.hash_ring(request.model);
    let none: Seq<Seq<u8>> = Seq::empty();
    if let Ok(candidates) = epd_candidates(snapshot, false, targeted, capacity) {
        let (pair, between) = choose|
            pair: Result<(Arc<Worker>, Arc<Worker>), GrpcPdCandidateError>,
            between: PolicyState<P>,
        |
            #[trigger] pair_selection(
                before,
                roles,
                candidates.pair,
                request,
                ring,
                capacity,
                pair,
                between,
            ) && match pair {
                Err(error) => outcome == Err::<EpdOutcome, GrpcPdCandidateError>(error)
                    && records.len() == 0 && after == between,
                Ok((prefill, decode)) => epd_assignment(
                    between,
                    roles,
                    candidates,
                    request,
                    ring,
                    none,
                    prefill,
                    decode,
                    outcome,
                    records,
                    after,
                ),
            };
        lemma_pair_keeps_policies(
            before,
            roles,
            candidates.pair,
            request,
            ring,
            capacity,
            pair,
            between,
        );
        if let Ok((prefill, decode)) = pair {
            let encode = roles.encode.index as int;
            let (picks, assigned) = choose|
                picks: Seq<usize>,
                assigned: Option<Seq<EncodeWorkerAssignment>>,
            |
                #[trigger] encode_outcome(
                    between.policies[encode],
                    candidates.encode,
                    none,
                    ring,
                    picks,
                    assigned,
                    after.policies[encode],
                ) && epd_result(
                    between,
                    roles,
                    candidates,
                    request,
                    prefill,
                    decode,
                    picks,
                    assigned,
                    outcome,
                    records,
                );
            assert(assigned is Some);
            assert(picks.len() == 0);
            assert(after.policies[encode] == between.policies[encode]);
            assert(after.policies =~= between.policies);
            assert(after == between);
            assert(assigned->0 =~= Seq::empty());
            assert(pair_records(between, roles, request.model, *prefill, *decode) =~= pair_records(
                before,
                roles,
                request.model,
                *prefill,
                *decode,
            ));
            assert(records =~= pair_records(before, roles, request.model, *prefill, *decode));
        }
        assert(text_result(before, roles, candidates.pair, request, pair, outcome, records));
    }
}

/// The converse.
proof fn lemma_text_selection_suffices<P: LoadBalancingPolicy>(
    before: PolicyState<P>,
    roles: PolicyRoles,
    registry: WorkerRegistry,
    request: RequestView,
    capacity: Option<PrefillAdmission>,
    outcome: Result<EpdOutcome, GrpcPdCandidateError>,
    records: Seq<RecordView>,
    after: PolicyState<P>,
)
    requires
        text_selection(
            before,
            roles,
            text_candidates(
                serving(registry.workers(), request.model),
                request_targeted(before, roles, request),
                capacity,
            ),
            request,
            registry.hash_ring(request.model),
            capacity,
            outcome,
            records,
            after,
        ),
        roles_held(before, roles),
    ensures
        epd_selection(
            before,
            roles,
            registry,
            request,
            Seq::empty(),
            capacity,
            outcome,
            records,
            after,
        ),
{
    let snapshot = serving(registry.workers(), request.model);
    let targeted = request_targeted(before, roles, request);
    let ring = registry.hash_ring(request.model);
    let none: Seq<Seq<u8>> = Seq::empty();
    if let Ok(candidates) = epd_candidates(snapshot, false, targeted, capacity) {
        let pair = choose|pair: Result<(Arc<Worker>, Arc<Worker>), GrpcPdCandidateError>|
            #[trigger] pair_selection(
                before,
                roles,
                candidates.pair,
                request,
                ring,
                capacity,
                pair,
                after,
            ) && text_result(before, roles, candidates.pair, request, pair, outcome, records);
        lemma_pair_keeps_policies(
            before,
            roles,
            candidates.pair,
            request,
            ring,
            capacity,
            pair,
            after,
        );
        if let Ok((prefill, decode)) = pair {
            let encode = roles.encode.index as int;
            let picks: Seq<usize> = Seq::empty();
            let assigned: Option<Seq<EncodeWorkerAssignment>> = Some(Seq::empty());
            assert(assignments(candidates.encode, picks) =~= Seq::empty());
            assert(encode_run(
                after.policies[encode],
                candidates.encode,
                none,
                ring,
                picks,
                after.policies[encode],
            ));
            assert(encode_outcome(
                after.policies[encode],
                candidates.encode,
                none,
                ring,
                picks,
                assigned,
                after.policies[encode],
            ));
            let name = after.policies[encode].policy_name();
            assert(pair_records(after, roles, request.model, *prefill, *decode) =~= pair_records(
                before,
                roles,
                request.model,
                *prefill,
                *decode,
            ));
            assert(records =~= encode_records(0, request.model, name) + pair_records(
                after,
                roles,
                request.model,
                *prefill,
                *decode,
            ));
            assert(epd_result(
                after,
                roles,
                candidates,
                request,
                prefill,
                decode,
                picks,
                assigned,
                outcome,
                records,
            ));
            assert(after.policies =~= after.policies.update(encode, after.policies[encode]));
            assert(epd_assignment(
                after,
                roles,
                candidates,
                request,
                ring,
                none,
                prefill,
                decode,
                outcome,
                records,
                after,
            ));
        }
    }
}

/// Without items, the shared runtime does not depend on the encode workers.
pub proof fn lemma_encode_workers_ignored(
    prefill: Seq<Arc<Worker>>,
    one: Seq<Arc<Worker>>,
    other: Seq<Arc<Worker>>,
    decode: Seq<Arc<Worker>>,
)
    ensures
        first_shared_runtime(prefill, one, decode, false) == first_shared_runtime(
            prefill,
            other,
            decode,
            false,
        ),
    decreases prefill.len(),
{
    if prefill.len() > 0 {
        lemma_encode_workers_ignored(prefill.drop_first(), one, other, decode);
    }
}

/// The registries agree on what a request without items for `model` selects over.
pub open spec fn same_pair_pools(
    one: WorkerRegistry,
    other: WorkerRegistry,
    model: Seq<char>,
) -> bool {
    &&& one.routing_pool(model, RoutingPool::GrpcPrefill) == other.routing_pool(
        model,
        RoutingPool::GrpcPrefill,
    )
    &&& one.routing_pool(model, RoutingPool::GrpcDecode) == other.routing_pool(
        model,
        RoutingPool::GrpcDecode,
    )
    &&& one.hash_ring(model) == other.hash_ring(model)
}

proof fn lemma_same_candidates(
    one: WorkerRegistry,
    other: WorkerRegistry,
    model: Seq<char>,
    targeted: bool,
    capacity: Option<PrefillAdmission>,
)
    requires
        same_pair_pools(one, other, model),
    ensures
        text_candidates(serving(one.workers(), model), targeted, capacity) == text_candidates(
            serving(other.workers(), model),
            targeted,
            capacity,
        ),
{
    let first = serving(one.workers(), model);
    let second = serving(other.workers(), model);
    lemma_encode_workers_ignored(
        ready_members(first, RoutingPool::GrpcPrefill),
        ready_members(first, RoutingPool::GrpcEncode),
        ready_members(second, RoutingPool::GrpcEncode),
        ready_members(first, RoutingPool::GrpcDecode),
    );
}

/// The encode pool cannot affect a request without items: registries that agree on the other two
/// pools and on the ring allow the same outcomes. The encode policy is not asked: it stays as it
/// is unless it serves another leg too.
pub proof fn law_encode_pool_is_ignored_without_items<P: LoadBalancingPolicy>(
    before: PolicyState<P>,
    roles: PolicyRoles,
    one: WorkerRegistry,
    other: WorkerRegistry,
    request: RequestView,
    capacity: Option<PrefillAdmission>,
    outcome: Result<EpdOutcome, GrpcPdCandidateError>,
    records: Seq<RecordView>,
    after: PolicyState<P>,
)
    requires
        epd_selection(before, roles, one, request, Seq::empty(), capacity, outcome, records, after),
        same_pair_pools(one, other, request.model),
        roles_held(before, roles),
    ensures
        epd_selection(
            before,
            roles,
            other,
            request,
            Seq::empty(),
            capacity,
            outcome,
            records,
            after,
        ),
        outcome matches Ok(selected) ==> selected.assigned.len() == 0,
        roles.encode != roles.for_prefill() && roles.encode != roles.for_decode()
            ==> after.policies[roles.encode.index as int]
            == before.policies[roles.encode.index as int],
{
    let targeted = request_targeted(before, roles, request);
    lemma_text_selection(before, roles, one, request, capacity, outcome, records, after);
    lemma_same_candidates(one, other, request.model, targeted, capacity);
    lemma_text_selection_suffices(before, roles, other, request, capacity, outcome, records, after);
    let candidates = text_candidates(serving(one.workers(), request.model), targeted, capacity);
    if let Ok(candidates) = candidates {
        let ring = one.hash_ring(request.model);
        let pair = choose|pair: Result<(Arc<Worker>, Arc<Worker>), GrpcPdCandidateError>|
            #[trigger] pair_selection(
                before,
                roles,
                candidates,
                request,
                ring,
                capacity,
                pair,
                after,
            ) && text_result(before, roles, candidates, request, pair, outcome, records);
        lemma_pair_keeps_policies(before, roles, candidates, request, ring, capacity, pair, after);
    }
}

proof fn lemma_step_decided<P: LoadBalancingPolicy>(
    before: PolicyState<P>,
    sticky: bool,
    policy: PolicyId,
    workers: Seq<Arc<Worker>>,
    info: InfoView,
    one: Option<usize>,
    one_after: PolicyState<P>,
    other: Option<usize>,
    other_after: PolicyState<P>,
)
    requires
        decided_by_state::<P>(),
        registry_step(before, sticky, policy, workers, info, one, one_after),
        registry_step(before, sticky, policy, workers, info, other, other_after),
    ensures
        one == other,
        one_after == other_after,
{
}

proof fn lemma_decode_decided<P: LoadBalancingPolicy>(
    before: PolicyState<P>,
    roles: PolicyRoles,
    candidates: PairCandidates,
    request: RequestView,
    ring: Option<Arc<HashRing>>,
    prefill: Arc<Worker>,
    one: Result<(Arc<Worker>, Arc<Worker>), GrpcPdCandidateError>,
    one_after: PolicyState<P>,
    other: Result<(Arc<Worker>, Arc<Worker>), GrpcPdCandidateError>,
    other_after: PolicyState<P>,
)
    requires
        decided_by_state::<P>(),
        decode_selection(before, roles, candidates, request, ring, prefill, one, one_after),
        decode_selection(before, roles, candidates, request, ring, prefill, other, other_after),
    ensures
        one == other,
        one_after == other_after,
{
    let info = request.info(ring, WorkerLeg::Decode);
    let first = lemma_decode_step(
        before,
        roles,
        candidates,
        request,
        ring,
        prefill,
        one,
        one_after,
    );
    let second = lemma_decode_step(
        before,
        roles,
        candidates,
        request,
        ring,
        prefill,
        other,
        other_after,
    );
    lemma_step_decided(
        before,
        roles.sticky,
        roles.for_decode(),
        candidates.decode,
        info,
        first,
        one_after,
        second,
        other_after,
    );
}

proof fn lemma_pair_decided<P: LoadBalancingPolicy>(
    before: PolicyState<P>,
    roles: PolicyRoles,
    candidates: PairCandidates,
    request: RequestView,
    ring: Option<Arc<HashRing>>,
    capacity: Option<PrefillAdmission>,
    one: Result<(Arc<Worker>, Arc<Worker>), GrpcPdCandidateError>,
    one_after: PolicyState<P>,
    other: Result<(Arc<Worker>, Arc<Worker>), GrpcPdCandidateError>,
    other_after: PolicyState<P>,
)
    requires
        decided_by_state::<P>(),
        pair_selection(before, roles, candidates, request, ring, capacity, one, one_after),
        pair_selection(before, roles, candidates, request, ring, capacity, other, other_after),
    ensures
        one == other,
        one_after == other_after,
{
    let info = request.info(ring, WorkerLeg::Prefill);
    let (first, one_between) = lemma_prefill_step(
        before,
        roles,
        candidates,
        request,
        ring,
        capacity,
        one,
        one_after,
    );
    let (second, other_between) = lemma_prefill_step(
        before,
        roles,
        candidates,
        request,
        ring,
        capacity,
        other,
        other_after,
    );
    lemma_step_decided(
        before,
        roles.sticky,
        roles.for_prefill(),
        candidates.prefill,
        info,
        first,
        one_between,
        second,
        other_between,
    );
    if let Some(at) = first {
        let prefill = candidates.prefill[at as int];
        let decoded = decode_selection(
            one_between,
            roles,
            candidates,
            request,
            ring,
            prefill,
            one,
            one_after,
        ) && decode_selection(
            one_between,
            roles,
            candidates,
            request,
            ring,
            prefill,
            other,
            other_after,
        );
        if decoded {
            lemma_decode_decided(
                one_between,
                roles,
                candidates,
                request,
                ring,
                prefill,
                one,
                one_after,
                other,
                other_after,
            );
        }
    }
}

/// Under policies that are decided by their state, two calls for a request without items return
/// the same and leave the same behind, whatever the encode pools of their registries hold.
pub proof fn law_encode_pool_changes_nothing_without_items<P: LoadBalancingPolicy>(
    before: PolicyState<P>,
    roles: PolicyRoles,
    one: WorkerRegistry,
    other: WorkerRegistry,
    request: RequestView,
    capacity: Option<PrefillAdmission>,
    outcome: Result<EpdOutcome, GrpcPdCandidateError>,
    records: Seq<RecordView>,
    after: PolicyState<P>,
    other_outcome: Result<EpdOutcome, GrpcPdCandidateError>,
    other_records: Seq<RecordView>,
    other_after: PolicyState<P>,
)
    requires
        decided_by_state::<P>(),
        epd_selection(before, roles, one, request, Seq::empty(), capacity, outcome, records, after),
        epd_selection(
            before,
            roles,
            other,
            request,
            Seq::empty(),
            capacity,
            other_outcome,
            other_records,
            other_after,
        ),
        same_pair_pools(one, other, request.model),
        roles_held(before, roles),
    ensures
        other_outcome == outcome,
        other_records == records,
        other_after == after,
{
    let targeted = request_targeted(before, roles, request);
    let ring = one.hash_ring(request.model);
    lemma_text_selection(before, roles, one, request, capacity, outcome, records, after);
    lemma_text_selection(
        before,
        roles,
        other,
        request,
        capacity,
        other_outcome,
        other_records,
        other_after,
    );
    lemma_same_candidates(one, other, request.model, targeted, capacity);
    let candidates = text_candidates(serving(one.workers(), request.model), targeted, capacity);
    if let Ok(candidates) = candidates {
        let first = choose|pair: Result<(Arc<Worker>, Arc<Worker>), GrpcPdCandidateError>|
            #[trigger] pair_selection(
                before,
                roles,
                candidates,
                request,
                ring,
                capacity,
                pair,
                after,
            ) && text_result(before, roles, candidates, request, pair, outcome, records);
        let second = choose|pair: Result<(Arc<Worker>, Arc<Worker>), GrpcPdCandidateError>|
            #[trigger] pair_selection(
                before,
                roles,
                candidates,
                request,
                ring,
                capacity,
                pair,
                other_after,
            ) && text_result(
                before,
                roles,
                candidates,
                request,
                pair,
                other_outcome,
                other_records,
            );
        lemma_pair_decided(
            before,
            roles,
            candidates,
            request,
            ring,
            capacity,
            first,
            after,
            second,
            other_after,
        );
    }
    assert(other_records =~= records);
}

/// The outcome of a pair selection as that of a selection without items.
pub open spec fn mirrored(outcome: Result<PdWorkerPair, GrpcPdCandidateError>) -> Result<
    EpdOutcome,
    GrpcPdCandidateError,
> {
    match outcome {
        Ok((prefill, decode, runtime)) => Ok(
            EpdOutcome { assigned: Seq::empty(), prefill, decode, runtime },
        ),
        Err(error) => Err(error),
    }
}

/// A request without items selects as a pair does, wherever a pair has candidates or finds its
/// prefill workers full: what the pair selection may return and leave behind, this selection may
/// too. (A pair takes the runtime of the first prefill worker; where that has no decode worker,
/// this selection still looks for another runtime.)
pub proof fn law_text_only_mirrors_a_pair<P: LoadBalancingPolicy>(
    before: PolicyState<P>,
    roles: PolicyRoles,
    registry: WorkerRegistry,
    request: RequestView,
    capacity: Option<PrefillAdmission>,
    outcome: Result<PdWorkerPair, GrpcPdCandidateError>,
    records: Seq<RecordView>,
    after: PolicyState<P>,
)
    requires
        pd_selection(before, roles, registry, request, capacity, outcome, records, after),
        roles_held(before, roles),
        outcome != Err::<PdWorkerPair, GrpcPdCandidateError>(GrpcPdCandidateError::Unavailable)
            || pd_candidates(
            serving(registry.workers(), request.model),
            request_targeted(before, roles, request),
            capacity,
        ) is Ok,
    ensures
        epd_selection(
            before,
            roles,
            registry,
            request,
            Seq::empty(),
            capacity,
            mirrored(outcome),
            records,
            after,
        ),
{
    let snapshot = serving(registry.workers(), request.model);
    let targeted = request_targeted(before, roles, request);
    let ring = registry.hash_ring(request.model);
    match pd_candidates(snapshot, targeted, capacity) {
        Err(error) => {
            assert(error == GrpcPdCandidateError::AtCapacity);
            assert(text_candidates(snapshot, targeted, capacity) == Err::<
                PairCandidates,
                GrpcPdCandidateError,
            >(error));
        },
        Ok(candidates) => {
            assert(text_candidates(snapshot, targeted, capacity) == Ok::<
                PairCandidates,
                GrpcPdCandidateError,
            >(candidates));
            let pair = choose|pair: Result<(Arc<Worker>, Arc<Worker>), GrpcPdCandidateError>|
                #[trigger] pair_selection(
                    before,
                    roles,
                    candidates,
                    request,
                    ring,
                    capacity,
                    pair,
                    after,
                ) && match pair {
                    Err(error) => outcome == Err::<PdWorkerPair, GrpcPdCandidateError>(error)
                        && records.len() == 0,
                    Ok((prefill, decode)) => outcome == Ok::<PdWorkerPair, GrpcPdCandidateError>(
                        (prefill, decode, candidates.runtime),
                    ) && records == pair_records(before, roles, request.model, *prefill, *decode),
                };
            assert(text_result(
                before,
                roles,
                candidates,
                request,
                pair,
                mirrored(outcome),
                records,
            ));
        },
    }
    lemma_text_selection_suffices(
        before,
        roles,
        registry,
        request,
        capacity,
        mirrored(outcome),
        records,
        after,
    );
}

/// Under policies that are decided by their state, a request without items gets what a pair
/// selection in the same state gets, wherever that has candidates or finds its prefill workers
/// full.
pub proof fn law_text_only_returns_the_pair<P: LoadBalancingPolicy>(
    before: PolicyState<P>,
    roles: PolicyRoles,
    registry: WorkerRegistry,
    request: RequestView,
    capacity: Option<PrefillAdmission>,
    outcome: Result<PdWorkerPair, GrpcPdCandidateError>,
    records: Seq<RecordView>,
    after: PolicyState<P>,
    text_outcome: Result<EpdOutcome, GrpcPdCandidateError>,
    text_records: Seq<RecordView>,
    text_after: PolicyState<P>,
)
    requires
        decided_by_state::<P>(),
        pd_selection(before, roles, registry, request, capacity, outcome, records, after),
        epd_selection(
            before,
            roles,
            registry,
            request,
            Seq::empty(),
            capacity,
            text_outcome,
            text_records,
            text_after,
        ),
        roles_held(before, roles),
        outcome != Err::<PdWorkerPair, GrpcPdCandidateError>(GrpcPdCandidateError::Unavailable)
            || pd_candidates(
            serving(registry.workers(), request.model),
            request_targeted(before, roles, request),
            capacity,
        ) is Ok,
    ensures
        text_outcome == mirrored(outcome),
        text_records == records,
        text_after == after,
{
    law_text_only_mirrors_a_pair(
        before,
        roles,
        registry,
        request,
        capacity,
        outcome,
        records,
        after,
    );
    law_encode_pool_changes_nothing_without_items(
        before,
        roles,
        registry,
        registry,
        request,
        capacity,
        mirrored(outcome),
        records,
        after,
        text_outcome,
        text_records,
        text_after,
    );
}

} // verus!
