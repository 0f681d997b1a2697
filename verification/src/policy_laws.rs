//! What holds of picks: keys that stick, turns that are even, and when success is owed.

use crate::admission::{GrpcPdCandidateError, PrefillAdmission};
use crate::laws::{
    law_epd_workers_may_serve, law_pd_pair_may_serve, law_single_worker_may_serve,
    lemma_candidate_kept, lemma_pair_candidates,
};
use crate::pick_laws::{key_of, law_policies_are_told_the_request, text_under};
use crate::policy::{next_count, InfoView, LoadBalancingPolicy, RoundRobinPolicy, WorkerLeg};
use crate::policy_registry::{
    conversation, lemma_position_of, policy_step, registry_step, sticky_key, turn_marker, PolicyId,
    PolicyRoles, PolicyState,
};
use crate::pool::{serving, RoutingPool};
use crate::registry::{distinct_urls, HashRing, WorkerRegistry};
use crate::selection::{
    decode_selection, encode_info, encode_outcome, encode_run, epd_assignment, epd_candidates,
    epd_result, epd_selection, fits, lemma_decode_step, lemma_first_shared_runtime,
    lemma_on_runtime, lemma_prefill_step, offered, pair_selection, pd_candidates, pd_selection,
    ready_members, request_targeted, single_selection, EncodeWorkerAssignment, EpdOutcome,
    PairCandidates, PdWorkerPair, RecordView, RequestView, CONSISTENT_HASHING,
};
use crate::worker::Worker;
use std::sync::Arc;
use vstd::arithmetic::div_mod::{
    lemma_fundamental_div_mod, lemma_fundamental_div_mod_converse, lemma_mod_bound,
    lemma_mod_decreases,
};
use vstd::prelude::*;

verus! {

/// After a pick under a key, with the override on, the key is pinned to the picked worker.
proof fn lemma_pinned<P: LoadBalancingPolicy>(
    before: PolicyState<P>,
    policy: PolicyId,
    workers: Seq<Arc<Worker>>,
    info: InfoView,
    at: usize,
    after: PolicyState<P>,
)
    requires
        registry_step(before, true, policy, workers, info, Some(at), after),
        sticky_key(info) is Some,
    ensures
        after.pins.dom().contains((info.leg, sticky_key(info)->0)),
        after.pins[(info.leg, sticky_key(info)->0)] == workers[at as int].url@,
        at < workers.len(),
{
    lemma_position_of(workers, before.pins[(info.leg, sticky_key(info)->0)]);
}

/// With the override on, a key sticks: once a worker was picked under it, the same leg gets a
/// worker with the same url under it for as long as an available one is in the list. The
/// policies are not asked again, and nothing changes.
pub proof fn law_key_sticks<P: LoadBalancingPolicy>(
    before: PolicyState<P>,
    policy: PolicyId,
    workers: Seq<Arc<Worker>>,
    info: InfoView,
    at: usize,
    between: PolicyState<P>,
    later_policy: PolicyId,
    later_workers: Seq<Arc<Worker>>,
    later_info: InfoView,
    later: Option<usize>,
    after: PolicyState<P>,
)
    requires
        registry_step(before, true, policy, workers, info, Some(at), between),
        registry_step(between, true, later_policy, later_workers, later_info, later, after),
        sticky_key(info) is Some,
        sticky_key(later_info) == sticky_key(info),
        later_info.leg == info.leg,
        exists|i: int|
            0 <= i < later_workers.len() && (#[trigger] later_workers[i]).available()
                && later_workers[i].url@ == workers[at as int].url@,
    ensures
        later is Some,
        later->0 < later_workers.len(),
        later_workers[later->0 as int].url@ == workers[at as int].url@,
        after == between,
{
    lemma_pinned(before, policy, workers, info, at, between);
    let url = workers[at as int].url@;
    lemma_position_of(later_workers, url);
}

/// The request id decides before the header: a key from the header is not looked at where the
/// request id gives one.
pub proof fn law_request_id_outranks_header(info: InfoView, header: Option<Seq<char>>)
    requires
        info.rid_key is Some,
    ensures
        sticky_key(InfoView { routing_key: header, ..info }) == sticky_key(info),
{
}

/// Keys stick per leg: a pick on one leg leaves the pins of the others as they are.
pub proof fn law_legs_stick_apart<P: LoadBalancingPolicy>(
    before: PolicyState<P>,
    sticky: bool,
    policy: PolicyId,
    workers: Seq<Arc<Worker>>,
    info: InfoView,
    picked: Option<usize>,
    after: PolicyState<P>,
    leg: WorkerLeg,
    key: Seq<char>,
)
    requires
        registry_step(before, sticky, policy, workers, info, picked, after),
        leg != info.leg,
    ensures
        after.pins.dom().contains((leg, key)) == before.pins.dom().contains((leg, key)),
        before.pins.dom().contains((leg, key)) ==> after.pins[(leg, key)] == before.pins[(
            leg,
            key,
        )],
{
}

/// With the override on, the requests with one key stay on one worker: a request that follows
/// another for the same model with the same key gets the worker that the other got. The key is the
/// one of the request id, or else the text of the routing-key header.
pub proof fn law_key_stays_on_its_worker<P: LoadBalancingPolicy>(
    before: PolicyState<P>,
    roles: PolicyRoles,
    registry: WorkerRegistry,
    request: RequestView,
    worker: Arc<Worker>,
    records: Seq<RecordView>,
    between: PolicyState<P>,
    later_request: RequestView,
    later: Option<Arc<Worker>>,
    later_records: Seq<RecordView>,
    after: PolicyState<P>,
)
    requires
        registry.wf(),
        roles.sticky,
        single_selection(before, roles, registry, request, Some(worker), records, between),
        single_selection(
            between,
            roles,
            registry,
            later_request,
            later,
            later_records,
            after,
        ),
        key_of(request) is Some,
        key_of(later_request) == key_of(request),
        later_request.model == request.model,
    ensures
        later == Some(worker),
{
    let ring = registry.hash_ring(request.model);
    law_policies_are_told_the_request(request, ring, WorkerLeg::Single);
    law_policies_are_told_the_request(later_request, ring, WorkerLeg::Single);
    let policy = roles.for_model(request.model);
    let workers = offered(before, roles, registry, request.model);
    let info = request.info(registry.hash_ring(request.model), WorkerLeg::Single);
    let later_info = later_request.info(registry.hash_ring(request.model), WorkerLeg::Single);
    let picked = choose|picked: Option<usize>|
        #[trigger] registry_step(before, true, policy, workers, info, picked, between)
            && picked is Some && picked->0 < workers.len() && workers[picked->0 as int] == worker;
    lemma_pinned(before, policy, workers, info, picked->0, between);
    assert(offered(between, roles, registry, request.model) == workers) by {
        let id = policy.index as int;
        assert(between.policies[id].filters() == before.policies[id].filters());
    }
    law_single_worker_may_serve(
        before,
        roles,
        registry,
        request,
        Some(worker),
        records,
        between,
    );
    assert(workers[picked->0 as int].available());
    let again = choose|again: Option<usize>|
        #[trigger] registry_step(between, true, policy, workers, later_info, again, after)
            && match again {
            None => later is None,
            Some(at) => at < workers.len() && later == Some(workers[at as int]),
        };
    law_key_sticks(
        before,
        policy,
        workers,
        info,
        picked->0,
        between,
        policy,
        workers,
        later_info,
        again,
        after,
    );
    law_single_worker_may_serve(
        between,
        roles,
        registry,
        later_request,
        later,
        later_records,
        after,
    );
    lemma_one_worker_per_url(registry, workers[again->0 as int], worker);
}

/// With the override on, the requests of one conversation stay on one worker: a request that
/// follows another of the same conversation gets the worker that the other got, whatever its
/// headers, text and tokens are.
pub proof fn law_conversation_stays_on_its_worker<P: LoadBalancingPolicy>(
    before: PolicyState<P>,
    roles: PolicyRoles,
    registry: WorkerRegistry,
    request: RequestView,
    worker: Arc<Worker>,
    records: Seq<RecordView>,
    between: PolicyState<P>,
    later_request: RequestView,
    later: Option<Arc<Worker>>,
    later_records: Seq<RecordView>,
    after: PolicyState<P>,
)
    requires
        registry.wf(),
        roles.sticky,
        single_selection(before, roles, registry, request, Some(worker), records, between),
        single_selection(
            between,
            roles,
            registry,
            later_request,
            later,
            later_records,
            after,
        ),
        request.rid_key is Some,
        later_request.rid_key == request.rid_key,
        later_request.model == request.model,
    ensures
        later == Some(worker),
{
    law_key_stays_on_its_worker(
        before,
        roles,
        registry,
        request,
        worker,
        records,
        between,
        later_request,
        later,
        later_records,
        after,
    );
}

/// With the override on, the routing-key header keeps requests without a request id: of two that
/// follow one another for one model with the same text under `x-smg-routing-key`, the second gets
/// the worker that the first got.
pub proof fn law_header_key_stays_on_its_worker<P: LoadBalancingPolicy>(
    before: PolicyState<P>,
    roles: PolicyRoles,
    registry: WorkerRegistry,
    request: RequestView,
    worker: Arc<Worker>,
    records: Seq<RecordView>,
    between: PolicyState<P>,
    later_request: RequestView,
    later: Option<Arc<Worker>>,
    later_records: Seq<RecordView>,
    after: PolicyState<P>,
)
    requires
        registry.wf(),
        roles.sticky,
        single_selection(before, roles, registry, request, Some(worker), records, between),
        single_selection(
            between,
            roles,
            registry,
            later_request,
            later,
            later_records,
            after,
        ),
        request.rid_key is None,
        later_request.rid_key is None,
        text_under(request.headers, "x-smg-routing-key"@) is Some,
        text_under(later_request.headers, "x-smg-routing-key"@) == text_under(
            request.headers,
            "x-smg-routing-key"@,
        ),
        later_request.model == request.model,
    ensures
        later == Some(worker),
{
    law_key_stays_on_its_worker(
        before,
        roles,
        registry,
        request,
        worker,
        records,
        between,
        later_request,
        later,
        later_records,
        after,
    );
}

/// With the override on, the key of a pair is pinned to its workers, on each leg.
proof fn lemma_pair_pinned<P: LoadBalancingPolicy>(
    before: PolicyState<P>,
    roles: PolicyRoles,
    candidates: PairCandidates,
    request: RequestView,
    ring: Option<Arc<HashRing>>,
    capacity: Option<PrefillAdmission>,
    prefill: Arc<Worker>,
    decode: Arc<Worker>,
    after: PolicyState<P>,
)
    requires
        pair_selection(
            before,
            roles,
            candidates,
            request,
            ring,
            capacity,
            Ok((prefill, decode)),
            after,
        ),
        roles.sticky,
        key_of(request) is Some,
    ensures
        candidates.prefill.contains(prefill),
        candidates.decode.contains(decode),
        pair_pinned(after, key_of(request)->0, prefill, decode),
{
    law_policies_are_told_the_request(request, ring, WorkerLeg::Prefill);
    law_policies_are_told_the_request(request, ring, WorkerLeg::Decode);
    let key = key_of(request)->0;
    let prefill_info = request.info(ring, WorkerLeg::Prefill);
    let decode_info = request.info(ring, WorkerLeg::Decode);
    let (picked, between) = lemma_prefill_step(
        before,
        roles,
        candidates,
        request,
        ring,
        capacity,
        Ok((prefill, decode)),
        after,
    );
    let later = lemma_decode_step(
        between,
        roles,
        candidates,
        request,
        ring,
        prefill,
        Ok((prefill, decode)),
        after,
    );
    lemma_pinned(
        before,
        roles.for_prefill(),
        candidates.prefill,
        prefill_info,
        picked->0,
        between,
    );
    lemma_pinned(between, roles.for_decode(), candidates.decode, decode_info, later->0, after);
    law_legs_stick_apart(
        between,
        true,
        roles.for_decode(),
        candidates.decode,
        decode_info,
        later,
        after,
        WorkerLeg::Prefill,
        key,
    );
}

/// The key is pinned to the two workers, each on its leg.
pub open spec fn pair_pinned<P>(
    state: PolicyState<P>,
    key: Seq<char>,
    prefill: Arc<Worker>,
    decode: Arc<Worker>,
) -> bool {
    &&& state.pins.dom().contains((WorkerLeg::Prefill, key))
    &&& state.pins[(WorkerLeg::Prefill, key)] == prefill.url@
    &&& state.pins.dom().contains((WorkerLeg::Decode, key))
    &&& state.pins[(WorkerLeg::Decode, key)] == decode.url@
}

/// A pair follows the pins of its key: the decode worker in any case, and the prefill worker
/// where it is a candidate with room.
proof fn lemma_pair_follows_pins<P: LoadBalancingPolicy>(
    before: PolicyState<P>,
    roles: PolicyRoles,
    candidates: PairCandidates,
    request: RequestView,
    ring: Option<Arc<HashRing>>,
    capacity: Option<PrefillAdmission>,
    prefill: Arc<Worker>,
    decode: Arc<Worker>,
    outcome: Result<(Arc<Worker>, Arc<Worker>), GrpcPdCandidateError>,
    after: PolicyState<P>,
)
    requires
        pair_selection(before, roles, candidates, request, ring, capacity, outcome, after),
        roles.sticky,
        key_of(request) is Some,
        pair_pinned(before, key_of(request)->0, prefill, decode),
        candidates.decode.contains(decode),
        decode.available(),
        prefill.available(),
    ensures
        outcome matches Ok((_, second)) ==> second.url@ == decode.url@,
        candidates.prefill.contains(prefill) && fits(capacity, *prefill) ==> {
            &&& outcome is Ok
            &&& outcome->Ok_0.0.url@ == prefill.url@
            &&& outcome->Ok_0.1.url@ == decode.url@
            &&& after == before
        },
{
    law_policies_are_told_the_request(request, ring, WorkerLeg::Prefill);
    law_policies_are_told_the_request(request, ring, WorkerLeg::Decode);
    let key = key_of(request)->0;
    let prefill_info = request.info(ring, WorkerLeg::Prefill);
    let (picked, between) = lemma_prefill_step(
        before,
        roles,
        candidates,
        request,
        ring,
        capacity,
        outcome,
        after,
    );
    lemma_position_of(candidates.prefill, prefill.url@);
    lemma_position_of(candidates.decode, decode.url@);
    law_legs_stick_apart(
        before,
        true,
        roles.for_prefill(),
        candidates.prefill,
        prefill_info,
        picked,
        between,
        WorkerLeg::Decode,
        key,
    );
    let d = choose|i: int| 0 <= i < candidates.decode.len() && candidates.decode[i] == decode;
    assert(candidates.decode[d].available());
    if candidates.prefill.contains(prefill) {
        let i = choose|i: int|
            0 <= i < candidates.prefill.len() && candidates.prefill[i] == prefill;
        assert(candidates.prefill[i].available());
        assert(picked is Some);
        assert(candidates.prefill[picked->0 as int].url@ == prefill.url@);
    }
    if let Some(at) = picked {
        let first = candidates.prefill[at as int];
        let decoded = decode_selection(
            between,
            roles,
            candidates,
            request,
            ring,
            first,
            outcome,
            after,
        );
        if decoded {
            let later = lemma_decode_step(
                between,
                roles,
                candidates,
                request,
                ring,
                first,
                outcome,
                after,
            );
            assert(later is Some);
        }
    }
}

/// Registered workers with one url are one worker.
proof fn lemma_one_worker_per_url(registry: WorkerRegistry, one: Arc<Worker>, other: Arc<Worker>)
    requires
        registry.wf(),
        registry.workers().contains(one),
        registry.workers().contains(other),
        one.url@ == other.url@,
    ensures
        one == other,
{
    let all = registry.workers();
    let i = choose|i: int| 0 <= i < all.len() && all[i] == one;
    let j = choose|j: int| 0 <= j < all.len() && all[j] == other;
    assert(distinct_urls(all));
    assert(all[i].url@ == all[j].url@);
}

/// With the override on, the requests with one key stay on one pair: a request that follows
/// another for the same model with the same key gets the decode worker that the other got, and its
/// prefill worker too unless that is full by now. Where the pair is kept, no policy is asked. The
/// key is the one of the request id, or else the text of the routing-key header.
pub proof fn law_key_stays_on_its_pair<P: LoadBalancingPolicy>(
    before: PolicyState<P>,
    roles: PolicyRoles,
    registry: WorkerRegistry,
    request: RequestView,
    capacity: Option<PrefillAdmission>,
    pair: PdWorkerPair,
    records: Seq<RecordView>,
    between: PolicyState<P>,
    later_request: RequestView,
    later_capacity: Option<PrefillAdmission>,
    later: Result<PdWorkerPair, GrpcPdCandidateError>,
    later_records: Seq<RecordView>,
    after: PolicyState<P>,
)
    requires
        registry.wf(),
        roles.sticky,
        pd_selection(before, roles, registry, request, capacity, Ok(pair), records, between),
        pd_selection(
            between,
            roles,
            registry,
            later_request,
            later_capacity,
            later,
            later_records,
            after,
        ),
        key_of(request) is Some,
        key_of(later_request) == key_of(request),
        later_request.model == request.model,
    ensures
        later matches Ok((_, decode, runtime)) ==> decode == pair.1 && runtime == pair.2,
        fits(later_capacity, *pair.0) ==> later == Ok::<PdWorkerPair, GrpcPdCandidateError>(pair)
            && after == between,
{
    let snapshot = serving(registry.workers(), request.model);
    let ring = registry.hash_ring(request.model);
    let prefill = ready_members(snapshot, RoutingPool::GrpcPrefill);
    let decode = ready_members(snapshot, RoutingPool::GrpcDecode);
    let targeted = request_targeted(before, roles, request);
    let later_targeted = request_targeted(between, roles, later_request);
    let candidates = pd_candidates(snapshot, targeted, capacity)->Ok_0;
    law_pd_pair_may_serve(
        before,
        roles,
        registry,
        request,
        capacity,
        Ok(pair),
        records,
        between,
    );
    law_pd_pair_may_serve(
        between,
        roles,
        registry,
        later_request,
        later_capacity,
        later,
        later_records,
        after,
    );
    lemma_pair_pinned(
        before,
        roles,
        candidates,
        request,
        ring,
        capacity,
        pair.0,
        pair.1,
        between,
    );
    lemma_candidate_kept(
        prefill,
        decode,
        candidates.runtime,
        targeted,
        capacity,
        later_targeted,
        later_capacity,
        pair.0,
    );
    if let Ok(later_candidates) = pd_candidates(snapshot, later_targeted, later_capacity) {
        let picks = choose|picks: Result<(Arc<Worker>, Arc<Worker>), GrpcPdCandidateError>|
            #[trigger] pair_selection(
                between,
                roles,
                later_candidates,
                later_request,
                ring,
                later_capacity,
                picks,
                after,
            ) && match picks {
                Err(error) => later == Err::<PdWorkerPair, GrpcPdCandidateError>(error),
                Ok((first, second)) => later == Ok::<PdWorkerPair, GrpcPdCandidateError>(
                    (first, second, later_candidates.runtime),
                ),
            };
        lemma_pair_follows_pins(
            between,
            roles,
            later_candidates,
            later_request,
            ring,
            later_capacity,
            pair.0,
            pair.1,
            picks,
            after,
        );
        if let Ok((first, second, _)) = later {
            lemma_one_worker_per_url(registry, second, pair.1);
            if first.url@ == pair.0.url@ {
                lemma_one_worker_per_url(registry, first, pair.0);
            }
        }
    }
}

/// With the override on, the requests of one conversation stay on one pair: a request that
/// follows another of the same conversation gets the decode worker that the other got, and its
/// prefill worker too unless that is full by now. Where the pair is kept, no policy is asked.
pub proof fn law_conversation_stays_on_its_pair<P: LoadBalancingPolicy>(
    before: PolicyState<P>,
    roles: PolicyRoles,
    registry: WorkerRegistry,
    request: RequestView,
    capacity: Option<PrefillAdmission>,
    pair: PdWorkerPair,
    records: Seq<RecordView>,
    between: PolicyState<P>,
    later_request: RequestView,
    later_capacity: Option<PrefillAdmission>,
    later: Result<PdWorkerPair, GrpcPdCandidateError>,
    later_records: Seq<RecordView>,
    after: PolicyState<P>,
)
    requires
        registry.wf(),
        roles.sticky,
        pd_selection(before, roles, registry, request, capacity, Ok(pair), records, between),
        pd_selection(
            between,
            roles,
            registry,
            later_request,
            later_capacity,
            later,
            later_records,
            after,
        ),
        request.rid_key is Some,
        later_request.rid_key == request.rid_key,
        later_request.model == request.model,
    ensures
        later matches Ok((_, decode, runtime)) ==> decode == pair.1 && runtime == pair.2,
        fits(later_capacity, *pair.0) ==> later == Ok::<PdWorkerPair, GrpcPdCandidateError>(pair)
            && after == between,
{
    law_key_stays_on_its_pair(
        before,
        roles,
        registry,
        request,
        capacity,
        pair,
        records,
        between,
        later_request,
        later_capacity,
        later,
        later_records,
        after,
    );
}

/// With the override on, the routing-key header keeps requests without a request id on one pair,
/// as the request id does.
pub proof fn law_header_key_stays_on_its_pair<P: LoadBalancingPolicy>(
    before: PolicyState<P>,
    roles: PolicyRoles,
    registry: WorkerRegistry,
    request: RequestView,
    capacity: Option<PrefillAdmission>,
    pair: PdWorkerPair,
    records: Seq<RecordView>,
    between: PolicyState<P>,
    later_request: RequestView,
    later_capacity: Option<PrefillAdmission>,
    later: Result<PdWorkerPair, GrpcPdCandidateError>,
    later_records: Seq<RecordView>,
    after: PolicyState<P>,
)
    requires
        registry.wf(),
        roles.sticky,
        pd_selection(before, roles, registry, request, capacity, Ok(pair), records, between),
        pd_selection(
            between,
            roles,
            registry,
            later_request,
            later_capacity,
            later,
            later_records,
            after,
        ),
        request.rid_key is None,
        later_request.rid_key is None,
        text_under(request.headers, "x-smg-routing-key"@) is Some,
        text_under(later_request.headers, "x-smg-routing-key"@) == text_under(
            request.headers,
            "x-smg-routing-key"@,
        ),
        later_request.model == request.model,
    ensures
        later matches Ok((_, decode, runtime)) ==> decode == pair.1 && runtime == pair.2,
        fits(later_capacity, *pair.0) ==> later == Ok::<PdWorkerPair, GrpcPdCandidateError>(pair)
            && after == between,
{
    law_key_stays_on_its_pair(
        before,
        roles,
        registry,
        request,
        capacity,
        pair,
        records,
        between,
        later_request,
        later_capacity,
        later,
        later_records,
        after,
    );
}

/// The same of requests with one key where encoding is disaggregated, between requests that both
/// have items or both have none.
pub proof fn law_key_stays_on_its_set<P: LoadBalancingPolicy>(
    before: PolicyState<P>,
    roles: PolicyRoles,
    registry: WorkerRegistry,
    request: RequestView,
    hashes: Seq<Seq<u8>>,
    capacity: Option<PrefillAdmission>,
    selected: EpdOutcome,
    records: Seq<RecordView>,
    between: PolicyState<P>,
    later_request: RequestView,
    later_hashes: Seq<Seq<u8>>,
    later_capacity: Option<PrefillAdmission>,
    later: Result<EpdOutcome, GrpcPdCandidateError>,
    later_records: Seq<RecordView>,
    after: PolicyState<P>,
)
    requires
        registry.wf(),
        roles.sticky,
        epd_selection(
            before,
            roles,
            registry,
            request,
            hashes,
            capacity,
            Ok(selected),
            records,
            between,
        ),
        epd_selection(
            between,
            roles,
            registry,
            later_request,
            later_hashes,
            later_capacity,
            later,
            later_records,
            after,
        ),
        key_of(request) is Some,
        key_of(later_request) == key_of(request),
        later_request.model == request.model,
        hashes.len() > 0 <==> later_hashes.len() > 0,
    ensures
        later matches Ok(other) ==> {
            &&& other.decode == selected.decode
            &&& other.runtime == selected.runtime
            &&& fits(later_capacity, *selected.prefill) ==> other.prefill == selected.prefill
        },
{
    let snapshot = serving(registry.workers(), request.model);
    let ring = registry.hash_ring(request.model);
    let prefill = ready_members(snapshot, RoutingPool::GrpcPrefill);
    let decode = ready_members(snapshot, RoutingPool::GrpcDecode);
    let targeted = request_targeted(before, roles, request);
    let later_targeted = request_targeted(between, roles, later_request);
    let items = hashes.len() > 0;
    let candidates = epd_candidates(snapshot, items, targeted, capacity)->Ok_0;
    law_epd_workers_may_serve(
        before,
        roles,
        registry,
        request,
        hashes,
        capacity,
        Ok(selected),
        records,
        between,
    );
    law_epd_workers_may_serve(
        between,
        roles,
        registry,
        later_request,
        later_hashes,
        later_capacity,
        later,
        later_records,
        after,
    );
    let paired = choose|paired: PolicyState<P>|
        #[trigger] pair_selection(
            before,
            roles,
            candidates.pair,
            request,
            ring,
            capacity,
            Ok((selected.prefill, selected.decode)),
            paired,
        ) && between.pins == paired.pins;
    lemma_pair_pinned(
        before,
        roles,
        candidates.pair,
        request,
        ring,
        capacity,
        selected.prefill,
        selected.decode,
        paired,
    );
    lemma_candidate_kept(
        prefill,
        decode,
        candidates.pair.runtime,
        targeted,
        capacity,
        later_targeted,
        later_capacity,
        selected.prefill,
    );
    if let Ok(other) = later {
        let later_candidates = epd_candidates(
            snapshot,
            items,
            later_targeted,
            later_capacity,
        )->Ok_0;
        let later_paired = choose|later_paired: PolicyState<P>|
            #[trigger] pair_selection(
                between,
                roles,
                later_candidates.pair,
                later_request,
                ring,
                later_capacity,
                Ok((other.prefill, other.decode)),
                later_paired,
            );
        lemma_pair_follows_pins(
            between,
            roles,
            later_candidates.pair,
            later_request,
            ring,
            later_capacity,
            selected.prefill,
            selected.decode,
            Ok((other.prefill, other.decode)),
            later_paired,
        );
        lemma_one_worker_per_url(registry, other.decode, selected.decode);
        if other.prefill.url@ == selected.prefill.url@ {
            lemma_one_worker_per_url(registry, other.prefill, selected.prefill);
        }
    }
}

/// The requests of one conversation stay on one set where encoding is disaggregated, between
/// requests that both have items or both have none.
pub proof fn law_conversation_stays_on_its_set<P: LoadBalancingPolicy>(
    before: PolicyState<P>,
    roles: PolicyRoles,
    registry: WorkerRegistry,
    request: RequestView,
    hashes: Seq<Seq<u8>>,
    capacity: Option<PrefillAdmission>,
    selected: EpdOutcome,
    records: Seq<RecordView>,
    between: PolicyState<P>,
    later_request: RequestView,
    later_hashes: Seq<Seq<u8>>,
    later_capacity: Option<PrefillAdmission>,
    later: Result<EpdOutcome, GrpcPdCandidateError>,
    later_records: Seq<RecordView>,
    after: PolicyState<P>,
)
    requires
        registry.wf(),
        roles.sticky,
        epd_selection(
            before,
            roles,
            registry,
            request,
            hashes,
            capacity,
            Ok(selected),
            records,
            between,
        ),
        epd_selection(
            between,
            roles,
            registry,
            later_request,
            later_hashes,
            later_capacity,
            later,
            later_records,
            after,
        ),
        request.rid_key is Some,
        later_request.rid_key == request.rid_key,
        later_request.model == request.model,
        hashes.len() > 0 <==> later_hashes.len() > 0,
    ensures
        later matches Ok(other) ==> {
            &&& other.decode == selected.decode
            &&& other.runtime == selected.runtime
            &&& fits(later_capacity, *selected.prefill) ==> other.prefill == selected.prefill
        },
{
    law_key_stays_on_its_set(
        before,
        roles,
        registry,
        request,
        hashes,
        capacity,
        selected,
        records,
        between,
        later_request,
        later_hashes,
        later_capacity,
        later,
        later_records,
        after,
    );
}

/// The same of requests with one routing-key header and without a request id.
pub proof fn law_header_key_stays_on_its_set<P: LoadBalancingPolicy>(
    before: PolicyState<P>,
    roles: PolicyRoles,
    registry: WorkerRegistry,
    request: RequestView,
    hashes: Seq<Seq<u8>>,
    capacity: Option<PrefillAdmission>,
    selected: EpdOutcome,
    records: Seq<RecordView>,
    between: PolicyState<P>,
    later_request: RequestView,
    later_hashes: Seq<Seq<u8>>,
    later_capacity: Option<PrefillAdmission>,
    later: Result<EpdOutcome, GrpcPdCandidateError>,
    later_records: Seq<RecordView>,
    after: PolicyState<P>,
)
    requires
        registry.wf(),
        roles.sticky,
        epd_selection(
            before,
            roles,
            registry,
            request,
            hashes,
            capacity,
            Ok(selected),
            records,
            between,
        ),
        epd_selection(
            between,
            roles,
            registry,
            later_request,
            later_hashes,
            later_capacity,
            later,
            later_records,
            after,
        ),
        request.rid_key is None,
        later_request.rid_key is None,
        text_under(request.headers, "x-smg-routing-key"@) is Some,
        text_under(later_request.headers, "x-smg-routing-key"@) == text_under(
            request.headers,
            "x-smg-routing-key"@,
        ),
        later_request.model == request.model,
        hashes.len() > 0 <==> later_hashes.len() > 0,
    ensures
        later matches Ok(other) ==> {
            &&& other.decode == selected.decode
            &&& other.runtime == selected.runtime
            &&& fits(later_capacity, *selected.prefill) ==> other.prefill == selected.prefill
        },
{
    law_key_stays_on_its_set(
        before,
        roles,
        registry,
        request,
        hashes,
        capacity,
        selected,
        records,
        between,
        later_request,
        later_hashes,
        later_capacity,
        later,
        later_records,
        after,
    );
}

/// A turn marker behind a text does not move the first marker of the text.
proof fn lemma_turn_marker(base: Seq<char>, digit: char, rest: Seq<char>, from: int)
    requires
        '0' <= digit <= '9',
        0 <= from <= base.len(),
    ensures
        turn_marker(base + seq!['_', 't', digit] + rest, from) == turn_marker(base, from),
    decreases base.len() - from,
{
    let rid = base + seq!['_', 't', digit] + rest;
    let end = base.len() as int;
    assert(rid[end] == '_');
    assert(rid[end + 1] == 't');
    assert(rid[end + 2] == digit);
    assert(forall|i: int| 0 <= i < base.len() ==> #[trigger] rid[i] == base[i]);
    if from < base.len() {
        lemma_turn_marker(base, digit, rest, from + 1);
    }
}

/// The turns of a conversation belong to it: a turn number behind a request id, and whatever
/// follows it, leave the conversation as it is.
pub proof fn law_turns_share_their_conversation(base: Seq<char>, digit: char, rest: Seq<char>)
    requires
        '0' <= digit <= '9',
    ensures
        conversation(base + seq!['_', 't', digit] + rest) == conversation(base),
        turn_marker(base, 0) == base.len() ==> conversation(base) == base,
{
    lemma_turn_marker(base, digit, rest, 0);
    lemma_marker_bound(base, 0);
    assert(conversation(base + seq!['_', 't', digit] + rest) =~= conversation(base));
}

proof fn lemma_marker_bound(rid: Seq<char>, from: int)
    requires
        0 <= from,
    ensures
        turn_marker(rid, from) <= rid.len(),
        0 <= turn_marker(rid, from),
    decreases rid.len() - from,
{
    if from + 2 < rid.len() {
        lemma_marker_bound(rid, from + 1);
    }
}

/// A policy of this kind picks from every list that is not empty.
pub open spec fn never_refuses<P: LoadBalancingPolicy>() -> bool {
    forall|before: P, workers: Seq<Arc<Worker>>, info: InfoView, after: P|
        workers.len() > 0 ==> !#[trigger] policy_step(before, workers, info, None, after)
}

/// Round robin picks from every list that is not empty.
pub proof fn law_round_robin_never_refuses()
    ensures
        never_refuses::<RoundRobinPolicy>(),
{
}

/// Under a policy that never refuses, a regular request gets a worker if and only if the list
/// that it selects over is not empty.
pub proof fn law_single_worker_is_owed<P: LoadBalancingPolicy>(
    before: PolicyState<P>,
    roles: PolicyRoles,
    registry: WorkerRegistry,
    request: RequestView,
    selected: Option<Arc<Worker>>,
    records: Seq<RecordView>,
    after: PolicyState<P>,
)
    requires
        single_selection(before, roles, registry, request, selected, records, after),
        never_refuses::<P>(),
    ensures
        selected is Some <==> offered(before, roles, registry, request.model).len() > 0,
{
}

proof fn lemma_pair_is_owed<P: LoadBalancingPolicy>(
    before: PolicyState<P>,
    roles: PolicyRoles,
    candidates: PairCandidates,
    request: RequestView,
    ring: Option<Arc<HashRing>>,
    capacity: Option<PrefillAdmission>,
    outcome: Result<(Arc<Worker>, Arc<Worker>), GrpcPdCandidateError>,
    after: PolicyState<P>,
)
    requires
        pair_selection(before, roles, candidates, request, ring, capacity, outcome, after),
        never_refuses::<P>(),
        candidates.prefill.len() > 0,
        candidates.decode.len() > 0,
        forall|worker: Arc<Worker>| #[trigger]
            candidates.prefill.contains(worker) ==> fits(capacity, *worker),
    ensures
        outcome is Ok,
{
    let (picked, between) = choose|picked: Option<usize>, between: PolicyState<P>|
        #[trigger] registry_step(
            before,
            roles.sticky,
            roles.for_prefill(),
            candidates.prefill,
            request.info(ring, WorkerLeg::Prefill),
            picked,
            between,
        ) && match picked {
            None => outcome is Err,
            Some(at) => at < candidates.prefill.len() && (!fits(
                capacity,
                *candidates.prefill[at as int],
            ) || decode_selection(
                between,
                roles,
                candidates,
                request,
                ring,
                candidates.prefill[at as int],
                outcome,
                after,
            )),
        };
    assert(picked is Some);
    assert(candidates.prefill.contains(candidates.prefill[picked->0 as int]));
}

/// Under policies that never refuse, a request that does not name its worker gets a pair if and
/// only if there are candidates for it.
pub proof fn law_pair_is_owed<P: LoadBalancingPolicy>(
    before: PolicyState<P>,
    roles: PolicyRoles,
    registry: WorkerRegistry,
    request: RequestView,
    capacity: Option<PrefillAdmission>,
    outcome: Result<PdWorkerPair, GrpcPdCandidateError>,
    records: Seq<RecordView>,
    after: PolicyState<P>,
)
    requires
        pd_selection(before, roles, registry, request, capacity, outcome, records, after),
        never_refuses::<P>(),
        !request_targeted(before, roles, request),
    ensures
        outcome is Ok <==> pd_candidates(
            serving(registry.workers(), request.model),
            false,
            capacity,
        ) is Ok,
{
    let snapshot = serving(registry.workers(), request.model);
    if let Ok(candidates) = pd_candidates(snapshot, false, capacity) {
        let prefill = ready_members(snapshot, RoutingPool::GrpcPrefill);
        let decode = ready_members(snapshot, RoutingPool::GrpcDecode);
        let ring = registry.hash_ring(request.model);
        lemma_pair_candidates(prefill, decode, candidates.runtime, false, capacity);
        lemma_on_runtime(decode, candidates.runtime);
        let pair = choose|pair: Result<(Arc<Worker>, Arc<Worker>), GrpcPdCandidateError>|
            #[trigger] pair_selection(
                before,
                roles,
                candidates,
                request,
                ring,
                capacity,
                pair,
                after,
            ) && (pair is Ok <==> outcome is Ok);
        lemma_pair_is_owed(before, roles, candidates, request, ring, capacity, pair, after);
    }
}

/// The same with disaggregated encoding.
pub proof fn law_encode_set_is_owed<P: LoadBalancingPolicy>(
    before: PolicyState<P>,
    roles: PolicyRoles,
    registry: WorkerRegistry,
    request: RequestView,
    hashes: Seq<Seq<u8>>,
    capacity: Option<PrefillAdmission>,
    outcome: Result<EpdOutcome, GrpcPdCandidateError>,
    records: Seq<RecordView>,
    after: PolicyState<P>,
)
    requires
        epd_selection(before, roles, registry, request, hashes, capacity, outcome, records, after),
        never_refuses::<P>(),
        !request_targeted(before, roles, request),
    ensures
        outcome is Ok <==> epd_candidates(
            serving(registry.workers(), request.model),
            hashes.len() > 0,
            false,
            capacity,
        ) is Ok,
{
    let snapshot = serving(registry.workers(), request.model);
    if let Ok(candidates) = epd_candidates(snapshot, hashes.len() > 0, false, capacity) {
        let encode = ready_members(snapshot, RoutingPool::GrpcEncode);
        let prefill = ready_members(snapshot, RoutingPool::GrpcPrefill);
        let decode = ready_members(snapshot, RoutingPool::GrpcDecode);
        let ring = registry.hash_ring(request.model);
        let runtime = candidates.pair.runtime;
        lemma_first_shared_runtime(prefill, encode, decode, hashes.len() > 0);
        lemma_pair_candidates(prefill, decode, runtime, false, capacity);
        lemma_on_runtime(decode, runtime);
        lemma_on_runtime(encode, runtime);
        let (pair, between) = choose|
            pair: Result<(Arc<Worker>, Arc<Worker>), GrpcPdCandidateError>,
            between: PolicyState<P>,
        |
            #[trigger] pair_selection(
                before,
                roles,
                candidates.pair,
                request,
                ring,
                capacity,
                pair,
                between,
            ) && match pair {
                Err(_) => outcome is Err,
                Ok((first, second)) => epd_assignment(
                    between,
                    roles,
                    candidates,
                    request,
                    ring,
                    hashes,
                    first,
                    second,
                    outcome,
                    records,
                    after,
                ),
            };
        lemma_pair_is_owed(
            before,
            roles,
            candidates.pair,
            request,
            ring,
            capacity,
            pair,
            between,
        );
        let id = roles.encode.index as int;
        let (picks, assigned) = choose|
            picks: Seq<usize>,
            assigned: Option<Seq<EncodeWorkerAssignment>>,
        |
            #[trigger] encode_outcome(
                between.policies[id],
                candidates.encode,
                hashes,
                ring,
                picks,
                assigned,
                after.policies[id],
            ) && epd_result(
                between,
                roles,
                candidates,
                request,
                pair->Ok_0.0,
                pair->Ok_0.1,
                picks,
                assigned,
                outcome,
                records,
            );
        if assigned is None {
            let middle = choose|middle: P|
                encode_run(
                    between.policies[id],
                    candidates.encode,
                    hashes.take(picks.len() as int),
                    ring,
                    picks,
                    middle,
                ) && #[trigger] policy_step(
                    middle,
                    candidates.encode,
                    encode_info(hashes[picks.len() as int], ring),
                    None,
                    after.policies[id],
                );
            assert(candidates.encode.len() > 0);
        }
    }
}

/// Consecutive round-robin picks from one list, each by the state that the one before left.
pub open spec fn consecutive_turns(
    policies: Seq<RoundRobinPolicy>,
    workers: Seq<Arc<Worker>>,
    infos: Seq<InfoView>,
    picks: Seq<Option<usize>>,
) -> bool {
    &&& infos.len() == picks.len()
    &&& policies.len() == picks.len() + 1
    &&& forall|k: int|
        #![trigger picks[k]]
        0 <= k < picks.len() ==> policy_step(
            policies[k],
            workers,
            infos[k],
            picks[k],
            policies[k + 1],
        )
}

proof fn lemma_turn(
    policies: Seq<RoundRobinPolicy>,
    workers: Seq<Arc<Worker>>,
    infos: Seq<InfoView>,
    picks: Seq<Option<usize>>,
    k: int,
)
    requires
        consecutive_turns(policies, workers, infos, picks),
        workers.len() > 0,
        policies[0].counter + picks.len() <= usize::MAX,
        0 <= k <= picks.len(),
    ensures
        policies[k].counter == policies[0].counter + k,
        k < picks.len() ==> picks[k] == Some(
            ((policies[0].counter + k) % (workers.len() as int)) as usize,
        ),
    decreases k,
{
    if k > 0 {
        lemma_turn(policies, workers, infos, picks, k - 1);
        let last = picks[k - 1];
    }
    if k < picks.len() {
        let next = picks[k];
    }
}

/// The remainder of a sum of a number and one that is less than the divisor.
proof fn lemma_turn_position(start: int, k: int, n: int)
    requires
        0 <= start,
        0 <= k < n,
    ensures
        (start + k) % n == if start % n + k < n {
            start % n + k
        } else {
            start % n + k - n
        },
{
    lemma_fundamental_div_mod(start, n);
    let rest = start % n + k;
    if rest < n {
        lemma_fundamental_div_mod_converse(
            start + k,
            n,
            start / n,
            rest,
        );
    } else {
        assert(start + k == n * (start / n + 1) + (rest - n)) by (nonlinear_arith)
            requires
                start == n * (start / n) + start % n,
                rest == start % n + k,
        ;
        lemma_fundamental_div_mod_converse(
            start + k,
            n,
            start / n + 1,
            rest - n,
        );
    }
}

/// Within `n` steps from `start`, the turn of position `i` comes.
proof fn lemma_turn_comes(start: int, n: int, i: int) -> (k: int)
    requires
        0 <= start,
        0 <= i < n,
    ensures
        0 <= k < n,
        (start + k) % n == i,
{
    let at = start % n;
    lemma_mod_bound(start, n);
    let k = if at <= i {
        i - at
    } else {
        i - at + n
    };
    lemma_turn_position(start, k, n);
    k
}

/// Round robin is even: of as many consecutive picks as the list has workers, each worker gets
/// exactly one. (The picks at which the counter starts over are left out.)
pub proof fn law_round_robin_turns_are_even(
    policies: Seq<RoundRobinPolicy>,
    workers: Seq<Arc<Worker>>,
    infos: Seq<InfoView>,
    picks: Seq<Option<usize>>,
)
    requires
        consecutive_turns(policies, workers, infos, picks),
        picks.len() == workers.len(),
        policies[0].counter + picks.len() <= usize::MAX,
    ensures
        forall|i: usize| i < workers.len() ==> #[trigger] picks.contains(Some(i)),
        forall|j: int, k: int|
            0 <= j < k < picks.len() ==> #[trigger] picks[j] != #[trigger] picks[k],
{
    let n = workers.len() as int;
    let start = policies[0].counter as int;
    assert forall|i: usize| i < workers.len() implies #[trigger] picks.contains(Some(i)) by {
        let k = lemma_turn_comes(start, n, i as int);
        lemma_turn(policies, workers, infos, picks, k);
        assert(picks[k] == Some(i));
    }
    assert forall|j: int, k: int| 0 <= j < k < picks.len() implies #[trigger] picks[j]
        != #[trigger] picks[k] by {
        lemma_mod_bound(start, n);
        lemma_turn_position(start, j, n);
        lemma_turn_position(start, k, n);
        lemma_turn(policies, workers, infos, picks, j);
        lemma_turn(policies, workers, infos, picks, k);
    }
}

/// The worker whose turn it is.
pub open spec fn turn_of(workers: Seq<Arc<Worker>>, counter: usize) -> Arc<Worker> {
    workers[counter as int % workers.len() as int]
}

proof fn lemma_pair_takes_turns(
    before: PolicyState<RoundRobinPolicy>,
    roles: PolicyRoles,
    candidates: PairCandidates,
    request: RequestView,
    ring: Option<Arc<HashRing>>,
    capacity: Option<PrefillAdmission>,
    outcome: Result<(Arc<Worker>, Arc<Worker>), GrpcPdCandidateError>,
    after: PolicyState<RoundRobinPolicy>,
)
    requires
        pair_selection(before, roles, candidates, request, ring, capacity, outcome, after),
        !roles.sticky,
        roles.for_prefill().index < before.policies.len(),
        roles.for_decode().index < before.policies.len(),
        candidates.prefill.len() > 0,
        candidates.decode.len() > 0,
        forall|worker: Arc<Worker>| #[trigger]
            candidates.prefill.contains(worker) ==> fits(capacity, *worker),
    ensures
        ({
            let first = roles.for_prefill().index as int;
            let second = roles.for_decode().index as int;
            let start = before.policies[first].counter;
            let decode_start = if first == second {
                next_count(start)
            } else {
                before.policies[second].counter
            };
            &&& outcome == Ok::<(Arc<Worker>, Arc<Worker>), GrpcPdCandidateError>(
                (turn_of(candidates.prefill, start), turn_of(candidates.decode, decode_start)),
            )
            &&& first != second ==> after.policies[first].counter == next_count(start)
            &&& after.policies[second].counter == next_count(decode_start)
        }),
{
    let first = roles.for_prefill().index as int;
    let second = roles.for_decode().index as int;
    let start = before.policies[first].counter;
    let n = candidates.prefill.len() as int;
    let (picked, between) = choose|picked: Option<usize>, between: PolicyState<RoundRobinPolicy>|
        #[trigger] registry_step(
            before,
            roles.sticky,
            roles.for_prefill(),
            candidates.prefill,
            request.info(ring, WorkerLeg::Prefill),
            picked,
            between,
        ) && match picked {
            None => outcome is Err,
            Some(at) => at < candidates.prefill.len() && (!fits(
                capacity,
                *candidates.prefill[at as int],
            ) || decode_selection(
                between,
                roles,
                candidates,
                request,
                ring,
                candidates.prefill[at as int],
                outcome,
                after,
            )),
        };
    lemma_mod_bound(start as int, n);
    assert(picked == Some((start as int % n) as usize));
    assert(picked->0 < candidates.prefill.len());
    assert((start as int % n) <= start) by {
        lemma_mod_decreases(start as nat, n as nat);
    }
    let prefill = candidates.prefill[picked->0 as int];
    assert(candidates.prefill.contains(prefill));
    assert(between.policies[first].counter == next_count(start));
    let decode_start = between.policies[second].counter;
    let m = candidates.decode.len() as int;
    let later = choose|later: Option<usize>|
        #[trigger] registry_step(
            between,
            roles.sticky,
            roles.for_decode(),
            candidates.decode,
            request.info(ring, WorkerLeg::Decode),
            later,
            after,
        ) && match later {
            None => outcome is Err,
            Some(at) => at < candidates.decode.len() && outcome == Ok::<
                (Arc<Worker>, Arc<Worker>),
                GrpcPdCandidateError,
            >((prefill, candidates.decode[at as int])),
        };
    lemma_mod_bound(decode_start as int, m);
    assert((decode_start as int % m) <= decode_start) by {
        lemma_mod_decreases(decode_start as nat, m as nat);
    }
    assert(later == Some((decode_start as int % m) as usize));
}

/// With round robin on both legs and without the override, each leg takes the worker whose turn
/// it is. Legs with policies of their own move on by one each, so that neither skips a worker.
/// Legs that share one policy move it on twice per request.
pub proof fn law_legs_take_turns(
    before: PolicyState<RoundRobinPolicy>,
    roles: PolicyRoles,
    registry: WorkerRegistry,
    request: RequestView,
    capacity: Option<PrefillAdmission>,
    outcome: Result<PdWorkerPair, GrpcPdCandidateError>,
    records: Seq<RecordView>,
    after: PolicyState<RoundRobinPolicy>,
)
    requires
        pd_selection(before, roles, registry, request, capacity, outcome, records, after),
        !roles.sticky,
        roles.for_prefill().index < before.policies.len(),
        roles.for_decode().index < before.policies.len(),
    ensures
        pd_candidates(serving(registry.workers(), request.model), false, capacity) matches Ok(
            candidates,
        ) ==> {
            let first = roles.for_prefill().index as int;
            let second = roles.for_decode().index as int;
            let start = before.policies[first].counter;
            let decode_start = if first == second {
                next_count(start)
            } else {
                before.policies[second].counter
            };
            &&& outcome matches Ok((prefill, decode, _)) && prefill == turn_of(
                candidates.prefill,
                start,
            ) && decode == turn_of(candidates.decode, decode_start)
            &&& first != second ==> after.policies[first].counter == next_count(start)
            &&& after.policies[second].counter == next_count(decode_start)
        },
{
    assert("round_robin"@ != CONSISTENT_HASHING@) by {
        reveal_strlit("round_robin");
        reveal_strlit("consistent_hashing");
        assert("round_robin"@.len() != "consistent_hashing"@.len());
    }
    assert(!request_targeted(before, roles, request));
    let snapshot = serving(registry.workers(), request.model);
    if let Ok(candidates) = pd_candidates(snapshot, false, capacity) {
        let prefill = ready_members(snapshot, RoutingPool::GrpcPrefill);
        let decode = ready_members(snapshot, RoutingPool::GrpcDecode);
        let ring = registry.hash_ring(request.model);
        lemma_pair_candidates(prefill, decode, candidates.runtime, false, capacity);
        lemma_on_runtime(decode, candidates.runtime);
        let pair = choose|pair: Result<(Arc<Worker>, Arc<Worker>), GrpcPdCandidateError>|
            #[trigger] pair_selection(
                before,
                roles,
                candidates,
                request,
                ring,
                capacity,
                pair,
                after,
            ) && match pair {
                Err(_) => outcome is Err,
                Ok((first, second)) => outcome == Ok::<PdWorkerPair, GrpcPdCandidateError>(
                    (first, second, candidates.runtime),
                ),
            };
        lemma_pair_takes_turns(before, roles, candidates, request, ring, capacity, pair, after);
    }
}

/// Consecutive selections of pairs for one model from one registry, each by the state that the
/// one before left.
pub open spec fn consecutive_pairs(
    states: Seq<PolicyState<RoundRobinPolicy>>,
    roles: PolicyRoles,
    registry: WorkerRegistry,
    model: Seq<char>,
    requests: Seq<RequestView>,
    outcomes: Seq<Result<PdWorkerPair, GrpcPdCandidateError>>,
    records: Seq<Seq<RecordView>>,
) -> bool {
    &&& requests.len() == outcomes.len()
    &&& records.len() == outcomes.len()
    &&& states.len() == outcomes.len() + 1
    &&& forall|k: int|
        #![trigger outcomes[k]]
        0 <= k < outcomes.len() ==> requests[k].model == model && pd_selection(
            states[k],
            roles,
            registry,
            requests[k],
            None,
            outcomes[k],
            records[k],
            states[k + 1],
        )
}

/// The legs of a selection, at these positions of their candidates.
pub open spec fn legs_at(
    candidates: PairCandidates,
    outcome: Result<PdWorkerPair, GrpcPdCandidateError>,
    prefill_at: int,
    decode_at: int,
) -> bool {
    outcome matches Ok((prefill, decode, _)) && prefill == candidates.prefill[prefill_at]
        && decode == candidates.decode[decode_at]
}

proof fn lemma_pair_turn(
    states: Seq<PolicyState<RoundRobinPolicy>>,
    roles: PolicyRoles,
    registry: WorkerRegistry,
    model: Seq<char>,
    requests: Seq<RequestView>,
    outcomes: Seq<Result<PdWorkerPair, GrpcPdCandidateError>>,
    records: Seq<Seq<RecordView>>,
    k: int,
)
    requires
        consecutive_pairs(states, roles, registry, model, requests, outcomes, records),
        !roles.sticky,
        roles.for_prefill().index < states[0].policies.len(),
        roles.for_decode().index < states[0].policies.len(),
        roles.for_prefill() != roles.for_decode(),
        pd_candidates(serving(registry.workers(), model), false, None) is Ok,
        states[0].policies[roles.for_prefill().index as int].counter + outcomes.len()
            <= usize::MAX,
        states[0].policies[roles.for_decode().index as int].counter + outcomes.len()
            <= usize::MAX,
        0 <= k <= outcomes.len(),
    ensures
        states[k].policies.len() == states[0].policies.len(),
        states[k].policies[roles.for_prefill().index as int].counter
            == states[0].policies[roles.for_prefill().index as int].counter + k,
        states[k].policies[roles.for_decode().index as int].counter
            == states[0].policies[roles.for_decode().index as int].counter + k,
    decreases k,
{
    if k > 0 {
        lemma_pair_turn(states, roles, registry, model, requests, outcomes, records, k - 1);
        let last = outcomes[k - 1];
        law_legs_take_turns(
            states[k - 1],
            roles,
            registry,
            requests[k - 1],
            None,
            last,
            records[k - 1],
            states[k],
        );
    }
}

/// The worker is the prefill worker of one of the requests.
pub open spec fn prefill_selected(
    outcomes: Seq<Result<PdWorkerPair, GrpcPdCandidateError>>,
    worker: Arc<Worker>,
) -> bool {
    exists|k: int| 0 <= k < outcomes.len() && (#[trigger] outcomes[k])->Ok_0.0 == worker
}

/// The worker is the decode worker of one of the requests.
pub open spec fn decode_selected(
    outcomes: Seq<Result<PdWorkerPair, GrpcPdCandidateError>>,
    worker: Arc<Worker>,
) -> bool {
    exists|k: int| 0 <= k < outcomes.len() && (#[trigger] outcomes[k])->Ok_0.1 == worker
}

/// Each candidate of either leg is selected, in as many requests as the leg has candidates.
pub open spec fn every_candidate_selected(
    candidates: PairCandidates,
    outcomes: Seq<Result<PdWorkerPair, GrpcPdCandidateError>>,
) -> bool {
    &&& outcomes.len() >= candidates.prefill.len() ==> forall|i: int|
        0 <= i < candidates.prefill.len() ==> #[trigger] prefill_selected(
            outcomes,
            candidates.prefill[i],
        )
    &&& outcomes.len() >= candidates.decode.len() ==> forall|i: int|
        0 <= i < candidates.decode.len() ==> #[trigger] decode_selected(
            outcomes,
            candidates.decode[i],
        )
}

/// The requests take the candidates of either leg in turn, from where the policy stands.
pub open spec fn legs_in_turn(
    candidates: PairCandidates,
    outcomes: Seq<Result<PdWorkerPair, GrpcPdCandidateError>>,
    prefill: int,
    decode: int,
) -> bool {
    forall|k: int|
        #![trigger outcomes[k]]
        0 <= k < outcomes.len() ==> legs_at(
            candidates,
            outcomes[k],
            (prefill + k) % candidates.prefill.len() as int,
            (decode + k) % candidates.decode.len() as int,
        )
}

proof fn lemma_turns_cover(
    candidates: PairCandidates,
    outcomes: Seq<Result<PdWorkerPair, GrpcPdCandidateError>>,
    prefill: int,
    decode: int,
)
    requires
        legs_in_turn(candidates, outcomes, prefill, decode),
        0 <= prefill,
        0 <= decode,
    ensures
        every_candidate_selected(candidates, outcomes),
{
    let n = candidates.prefill.len() as int;
    let m = candidates.decode.len() as int;
    if outcomes.len() >= n {
        assert forall|i: int| 0 <= i < n implies #[trigger] prefill_selected(
            outcomes,
            candidates.prefill[i],
        ) by {
            let k = lemma_turn_comes(prefill, n, i);
            assert(legs_at(candidates, outcomes[k], (prefill + k) % n, (decode + k) % m));
        }
    }
    if outcomes.len() >= m {
        assert forall|i: int| 0 <= i < m implies #[trigger] decode_selected(
            outcomes,
            candidates.decode[i],
        ) by {
            let k = lemma_turn_comes(decode, m, i);
            assert(legs_at(candidates, outcomes[k], (prefill + k) % n, (decode + k) % m));
        }
    }
}

/// Round robin with a policy of its own on each leg is even on each leg: the requests take the
/// candidates of either leg in turn, so that in as many requests as a leg has candidates every
/// one of them is selected. (The requests at which a counter starts over are left out.)
pub proof fn law_independent_legs_are_even(
    states: Seq<PolicyState<RoundRobinPolicy>>,
    roles: PolicyRoles,
    registry: WorkerRegistry,
    model: Seq<char>,
    requests: Seq<RequestView>,
    outcomes: Seq<Result<PdWorkerPair, GrpcPdCandidateError>>,
    records: Seq<Seq<RecordView>>,
)
    requires
        consecutive_pairs(states, roles, registry, model, requests, outcomes, records),
        !roles.sticky,
        roles.for_prefill().index < states[0].policies.len(),
        roles.for_decode().index < states[0].policies.len(),
        roles.for_prefill() != roles.for_decode(),
        pd_candidates(serving(registry.workers(), model), false, None) is Ok,
        states[0].policies[roles.for_prefill().index as int].counter + outcomes.len()
            <= usize::MAX,
        states[0].policies[roles.for_decode().index as int].counter + outcomes.len()
            <= usize::MAX,
    ensures
        legs_in_turn(
            pd_candidates(serving(registry.workers(), model), false, None)->Ok_0,
            outcomes,
            states[0].policies[roles.for_prefill().index as int].counter as int,
            states[0].policies[roles.for_decode().index as int].counter as int,
        ),
        every_candidate_selected(
            pd_candidates(serving(registry.workers(), model), false, None)->Ok_0,
            outcomes,
        ),
{
    let candidates = pd_candidates(serving(registry.workers(), model), false, None)->Ok_0;
    let prefill = states[0].policies[roles.for_prefill().index as int].counter as int;
    let decode = states[0].policies[roles.for_decode().index as int].counter as int;
    assert forall|k: int|
        #![trigger outcomes[k]]
        0 <= k < outcomes.len() implies legs_at(
        candidates,
        outcomes[k],
        (prefill + k) % candidates.prefill.len() as int,
        (decode + k) % candidates.decode.len() as int,
    ) by {
        lemma_pair_turn(states, roles, registry, model, requests, outcomes, records, k);
        law_legs_take_turns(
            states[k],
            roles,
            registry,
            requests[k],
            None,
            outcomes[k],
            records[k],
            states[k + 1],
        );
    }
    lemma_turns_cover(candidates, outcomes, prefill, decode);
}

} // verus!
