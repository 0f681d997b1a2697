//! What the policies are shown and told, and how their picks become the result of a selection.

use crate::admission::{GrpcPdCandidateError, PrefillAdmission};
use crate::encode_laws::lemma_pair_keeps_policies;
use crate::headers::{
    all_visible_bytes, ascii_bytes, ascii_text, encode_headers, header_values, hex_digit, hex_text,
    is_visible_byte, optional_values, request_header,
};
use crate::policy::{InfoView, LoadBalancingPolicy, SelectWorkerInfo, WorkerLeg};
use crate::policy_registry::{
    conversation, lemma_position_of, policy_step, registry_step, rid_key, roles_held, turn_marker,
    PolicyId, PolicyRoles, PolicyState,
};
use crate::pool::{on_runtime, serving, RoutingPool};
use crate::registry::{HashRing, WorkerRegistry};
use crate::roster_laws::{
    in_service, law_pools_hold_the_roster, lemma_filter_twice, lemma_filters_agree, on_duty, roster,
};
use crate::selection::{
    decode_selection, encode_info, encode_outcome, encode_run, epd_assignment, epd_candidates,
    epd_result, epd_selection, first_shared_runtime, fits, lemma_decode_step,
    lemma_first_shared_runtime, lemma_on_runtime, lemma_prefill_step, pair_selection, pd_candidates,
    pd_selection, ready_members, request_targeted, room_candidates, shared_runtime,
    single_selection, EncodeWorkerAssignment, EpdOutcome, PairCandidates, PdWorkerPair, RecordView,
    RequestView, SelectionRecord,
};
use crate::stage::{added, extends, request_view};
use crate::worker::{ConnectionMode, RuntimeType, Worker, WorkerType};
use axum::http::{HeaderMap, HeaderValue};
use std::sync::Arc;
use vstd::prelude::*;

verus! {

/// The text under a header: there is some if the header is there and each of its bytes is visible
/// ASCII, a space or a tab, and then it has one character per byte.
pub open spec fn text_under(headers: Option<Map<Seq<char>, Seq<u8>>>, name: Seq<char>) -> Option<
    Seq<char>,
> {
    match headers {
        Some(values) => if values.dom().contains(name) && forall|i: int|
            0 <= i < values[name].len() ==> (32 <= (#[trigger] values[name][i]) < 127
                || values[name][i] == 9) {
            Some(Seq::new(values[name].len(), |i: int| values[name][i] as char))
        } else {
            None
        },
        None => None,
    }
}

/// A header is read as the text under it, and not at all where it is missing or is no text.
pub proof fn law_header_text_is_read(headers: Option<Map<Seq<char>, Seq<u8>>>, name: Seq<char>)
    ensures
        request_header(headers, name) == text_under(headers, name),
{
    if let Some(values) = headers {
        if values.dom().contains(name) {
            let bytes = values[name];
            if all_visible_bytes(bytes) {
                assert forall|i: int| 0 <= i < bytes.len() implies (32 <= (
                #[trigger] values[name][i]) < 127 || values[name][i] == 9) by {
                    assert(is_visible_byte(bytes[i]));
                }
                assert(ascii_text(bytes) =~= Seq::new(
                    bytes.len(),
                    |i: int| values[name][i] as char,
                ));
            } else {
                let i = choose|i: int|
                    0 <= i < bytes.len() && !is_visible_byte(#[trigger] bytes[i]);
                assert(!(32 <= values[name][i] < 127 || values[name][i] == 9));
            }
        }
    }
}

/// What the policy of a leg is told of a request: all of it, with the text of its routing-key
/// header, the ring, and the leg.
pub open spec fn told(
    request: RequestView,
    ring: Option<Arc<HashRing>>,
    leg: WorkerLeg,
) -> InfoView {
    InfoView {
        request_text: request.text,
        tokens: request.tokens,
        headers: request.headers,
        routing_key: text_under(request.headers, "x-smg-routing-key"@),
        rid_key: request.rid_key,
        hash_ring: ring,
        leg,
    }
}

/// On every leg, the policy is told the text, the tokens, the headers and the keys of the request,
/// and the ring. So a policy that picks by a header, as by the one that names a worker, sees it.
pub proof fn law_policies_are_told_the_request(
    request: RequestView,
    ring: Option<Arc<HashRing>>,
    leg: WorkerLeg,
)
    ensures
        request.info(ring, leg) == told(request, ring, leg),
        request.info(ring, leg).headers == request.headers,
        request.info(ring, leg).request_text == request.text,
        request.info(ring, leg).tokens == request.tokens,
        request.info(ring, leg).rid_key == request.rid_key,
        request.info(ring, leg).routing_key == text_under(
            request.headers,
            "x-smg-routing-key"@,
        ),
        request.info(ring, leg).hash_ring == ring,
        request.info(ring, leg).leg == leg,
{
    law_header_text_is_read(request.headers, "x-smg-routing-key"@);
}

/// What a policy is told is what it is handed: nothing of it is lost on the way.
pub proof fn law_infos_are_handed_over_whole(info: SelectWorkerInfo<'_>)
    ensures
        info@.request_text is Some <==> info.request_text is Some,
        info.request_text is Some ==> info@.request_text->0 == info.request_text->0@,
        info@.tokens is Some <==> info.tokens is Some,
        info.tokens is Some ==> info@.tokens->0 == info.tokens->0@,
        info@.headers == optional_values(info.headers),
        info.headers is None <==> info@.headers is None,
        info@.routing_key is Some <==> info.routing_key is Some,
        info.routing_key is Some ==> info@.routing_key->0 == info.routing_key->0@,
        info@.rid_key is Some <==> info.rid_key is Some,
        info.rid_key is Some ==> info@.rid_key->0 == info.rid_key->0@,
        info@.hash_ring == info.hash_ring,
        info@.leg == info.leg,
{
}

/// A request is what it is asked with: its model, its text, its tokens, its headers and its key.
pub proof fn law_requests_are_taken_whole(
    model_id: &str,
    text: Option<&str>,
    tokens: Option<&[u32]>,
    headers: Option<&HeaderMap<HeaderValue>>,
    key: Option<&str>,
)
    ensures
        ({
            let request = request_view(model_id, text, tokens, headers, key);
            &&& request.model == model_id@
            &&& request.text is Some <==> text is Some
            &&& text is Some ==> request.text->0 == text->0@
            &&& request.tokens is Some <==> tokens is Some
            &&& tokens is Some ==> request.tokens->0 == tokens->0@
            &&& request.headers is Some <==> headers is Some
            &&& headers is Some ==> request.headers->0 == header_values(
                *headers->0,
            )
            &&& request.rid_key is Some <==> key is Some
            &&& key is Some ==> request.rid_key->0 == key->0@
        }),
{
}

/// The header map that routes an item: the routing key alone, with two lower-case hexadecimal
/// digits per byte of the content, the high one first.
pub open spec fn carries_content(headers: Map<Seq<char>, Seq<u8>>, content: Seq<u8>) -> bool {
    let name = "x-smg-routing-key"@;
    &&& headers.dom() == set![name]
    &&& headers[name].len() == 2 * content.len()
    &&& forall|i: int|
        #![trigger content[i]]
        0 <= i < content.len() ==> {
            let high = content[i] as int / 16;
            let low = content[i] as int % 16;
            &&& headers[name][2 * i] == if high < 10 {
                48 + high
            } else {
                87 + high
            }
            &&& headers[name][2 * i + 1] == if low < 10 {
                48 + low
            } else {
                87 + low
            }
        }
}

/// The encode policy is told of an item its content, by the routing-key header, and the ring. It
/// is told nothing of the request: no text, no tokens, no conversation.
pub proof fn law_encode_policy_is_told_content_and_ring(
    content: Seq<u8>,
    ring: Option<Arc<HashRing>>,
)
    ensures
        encode_info(content, ring).hash_ring == ring,
        encode_info(content, ring).headers is Some,
        carries_content(encode_info(content, ring).headers->0, content),
        encode_info(content, ring).request_text is None,
        encode_info(content, ring).tokens is None,
        encode_info(content, ring).routing_key is None,
        encode_info(content, ring).rid_key is None,
        encode_info(content, ring).leg == WorkerLeg::Single,
{
    let name = "x-smg-routing-key"@;
    let headers = encode_headers(content);
    assert(headers.dom() =~= set![name]);
    assert(headers[name] == ascii_bytes(hex_text(content)));
    assert forall|i: int|
        #![trigger content[i]]
        0 <= i < content.len() implies {
        let high = content[i] as int / 16;
        let low = content[i] as int % 16;
        &&& headers[name][2 * i] == if high < 10 {
            48 + high
        } else {
            87 + high
        }
        &&& headers[name][2 * i + 1] == if low < 10 {
            48 + low
        } else {
            87 + low
        }
    } by {
        assert((2 * i) / 2 == i && (2 * i + 1) / 2 == i);
        assert((2 * i) % 2 == 0 && (2 * i + 1) % 2 == 1);
        assert(hex_text(content)[2 * i] == hex_digit(content[i] as int / 16));
        assert(hex_text(content)[2 * i + 1] == hex_digit(content[i] as int % 16));
    }
}

/// The key by which a request sticks: from its id if that gives one, and else the text of its
/// routing-key header.
pub open spec fn key_of(request: RequestView) -> Option<Seq<char>> {
    if request.rid_key is Some {
        request.rid_key
    } else {
        text_under(request.headers, "x-smg-routing-key"@)
    }
}

/// The key under which a pick is asked for.
pub open spec fn key_in(info: InfoView) -> Option<Seq<char>> {
    if info.rid_key is Some {
        info.rid_key
    } else {
        info.routing_key
    }
}

/// The key is pinned, on the leg, to the url of a worker of the list that is in service.
pub open spec fn held_by_pin(
    pins: Map<(WorkerLeg, Seq<char>), Seq<char>>,
    workers: Seq<Arc<Worker>>,
    info: InfoView,
) -> bool {
    &&& key_in(info) is Some
    &&& pins.dom().contains((info.leg, key_in(info)->0))
    &&& exists|i: int|
        0 <= i < workers.len() && in_service(*#[trigger] workers[i]) && workers[i].url@
            == pins[(info.leg, key_in(info)->0)]
}

/// A pick is the pinned worker where the override is on and the key is pinned to a worker of the
/// list that is in service; then nothing changes. Any other pick is one that the policy of the
/// role may make in its state, from this list and with this info; then that policy alone moves on,
/// and with the override on the key is pinned to the pick, and no other pin changes.
pub proof fn law_pick_is_the_pin_or_the_policys<P: LoadBalancingPolicy>(
    before: PolicyState<P>,
    sticky: bool,
    policy: PolicyId,
    workers: Seq<Arc<Worker>>,
    info: InfoView,
    picked: Option<usize>,
    after: PolicyState<P>,
)
    requires
        registry_step(before, sticky, policy, workers, info, picked, after),
    ensures
        picked matches Some(at) ==> at < workers.len(),
        sticky && held_by_pin(before.pins, workers, info) ==> {
            &&& after == before
            &&& picked is Some
            &&& in_service(*workers[picked->0 as int])
            &&& workers[picked->0 as int].url@ == before.pins[(info.leg, key_in(info)->0)]
        },
        !(sticky && held_by_pin(before.pins, workers, info)) ==> {
            let id = policy.index as int;
            &&& P::may_pick(before.policies[id], workers, info, picked, after.policies[id])
            &&& after.policies == before.policies.update(id, after.policies[id])
            &&& after.policies[id].policy_name() == before.policies[id].policy_name()
            &&& after.policies[id].filters() == before.policies[id].filters()
            &&& before.policies[id].filters() && picked is Some ==> in_service(
                *workers[picked->0 as int],
            )
            &&& after.pins == if sticky && key_in(info) is Some && picked is Some {
                before.pins.insert((info.leg, key_in(info)->0), workers[picked->0 as int].url@)
            } else {
                before.pins
            }
        },
{
    if key_in(info) is Some && before.pins.dom().contains((info.leg, key_in(info)->0)) {
        let url = before.pins[(info.leg, key_in(info)->0)];
        lemma_position_of(workers, url);
        if held_by_pin(before.pins, workers, info) {
            let i = choose|i: int|
                0 <= i < workers.len() && in_service(*#[trigger] workers[i]) && workers[i].url@
                    == url;
            assert(workers[i].available());
        } else {
            assert forall|i: int| 0 <= i < workers.len() implies !((#[trigger] workers[i]).url@
                == url && workers[i].available()) by {
                assert(!(in_service(*workers[i]) && workers[i].url@ == url));
            }
        }
    }
}

/// A model has the policy that was set for it last, or the main one if none was set. The prefill
/// and the decode leg have their own policies, or the main one if they have none.
pub proof fn law_roles_name_their_policies(roles: PolicyRoles, model: Seq<char>)
    ensures
        forall|i: int|
            0 <= i < roles.models.len() && (#[trigger] roles.models[i]).model_id@ == model && (
            forall|j: int|
                i < j < roles.models.len() ==> (#[trigger] roles.models[j]).model_id@ != model)
                ==> roles.for_model(model) == roles.models[i].policy,
        (forall|i: int|
            0 <= i < roles.models.len() ==> (#[trigger] roles.models[i]).model_id@ != model)
            ==> roles.for_model(model) == roles.main,
        roles.prefill is Some ==> roles.for_prefill() == roles.prefill->0,
        roles.prefill is None ==> roles.for_prefill() == roles.main,
        roles.decode is Some ==> roles.for_decode() == roles.decode->0,
        roles.decode is None ==> roles.for_decode() == roles.main,
    decreases roles.models.len(),
{
    if roles.models.len() > 0 {
        let rest = PolicyRoles { models: roles.models.drop_last(), ..roles };
        law_roles_name_their_policies(rest, model);
        assert(forall|i: int|
            0 <= i < rest.models.len() ==> #[trigger] rest.models[i] == roles.models[i]);
        let last = roles.models.len() - 1;
        if roles.models[last].model_id@ != model {
            assert(rest.for_model(model) == roles.for_model(model));
            assert forall|i: int|
                0 <= i < roles.models.len() && (#[trigger] roles.models[i]).model_id@ == model && (
                forall|j: int|
                    i < j < roles.models.len() ==> (#[trigger] roles.models[j]).model_id@ != model)
                implies roles.for_model(model) == roles.models[i].policy by {
                assert(rest.models[i] == roles.models[i]);
                assert forall|j: int| i < j < rest.models.len() implies (
                #[trigger] rest.models[j]).model_id@ != model by {
                    assert(rest.models[j] == roles.models[j]);
                }
            }
        } else {
            assert(roles.models.last() == roles.models[last]);
        }
    }
}

/// A turn marker stands at `at`: an underscore, a `t` and a digit.
pub open spec fn marker_at(rid: Seq<char>, at: int) -> bool {
    &&& 0 <= at
    &&& at + 2 < rid.len()
    &&& rid[at] == '_'
    &&& rid[at + 1] == 't'
    &&& '0' <= rid[at + 2] <= '9'
}

/// The text is what the request id has before its first turn marker, or all of it if it has none.
pub open spec fn stands_before_marker(rid: Seq<char>, text: Seq<char>) -> bool {
    &&& text.len() <= rid.len()
    &&& text == rid.take(text.len() as int)
    &&& text.len() == rid.len() || marker_at(rid, text.len() as int)
    &&& forall|i: int| 0 <= i < text.len() ==> !#[trigger] marker_at(rid, i)
}

proof fn lemma_first_marker(rid: Seq<char>, from: int)
    requires
        0 <= from <= rid.len(),
    ensures
        from <= turn_marker(rid, from) <= rid.len(),
        turn_marker(rid, from) == rid.len() || marker_at(rid, turn_marker(rid, from)),
        forall|i: int| from <= i < turn_marker(rid, from) ==> !#[trigger] marker_at(rid, i),
    decreases rid.len() - from,
{
    if from + 2 < rid.len() && !marker_at(rid, from) {
        lemma_first_marker(rid, from + 1);
    }
}

/// While the override is on, a request id gives the key that stands before its first turn marker,
/// unless nothing does; and without the override it gives none.
pub proof fn law_request_id_gives_its_conversation(sticky: bool, rid: Option<Seq<char>>)
    ensures
        rid_key(sticky, rid) matches Some(key) ==> sticky && rid is Some && key.len() > 0
            && stands_before_marker(rid->0, key),
        rid_key(sticky, rid) is None ==> !sticky || rid is None || stands_before_marker(
            rid->0,
            Seq::empty(),
        ),
{
    if let Some(rid) = rid {
        lemma_first_marker(rid, 0);
        assert(stands_before_marker(rid, conversation(rid)));
        if conversation(rid).len() == 0 {
            assert(conversation(rid) =~= Seq::empty());
        }
    }
}

/// The record counts this role, transport, model and policy.
pub open spec fn counts(
    record: RecordView,
    role: WorkerType,
    connection: ConnectionMode,
    model: Seq<char>,
    policy: Seq<char>,
) -> bool {
    &&& record.role == role
    &&& record.connection == connection
    &&& record.model == model
    &&& record.policy == policy
}

/// Records are added at the end, and each is added as it is.
pub proof fn law_records_are_appended(
    before: Seq<SelectionRecord>,
    after: Seq<SelectionRecord>,
)
    requires
        extends(before, after),
    ensures
        after.len() == before.len() + added(before, after).len(),
        forall|i: int| 0 <= i < before.len() ==> #[trigger] after[i] == before[i],
        forall|k: int|
            #![trigger added(before, after)[k]]
            0 <= k < added(before, after).len() ==> {
                let record = after[before.len() + k];
                counts(
                    added(before, after)[k],
                    record.role,
                    record.connection,
                    record.model_id@,
                    record.policy@,
                )
            },
{
    assert forall|i: int| 0 <= i < before.len() implies #[trigger] after[i] == before[i] by {
        assert(after.take(before.len() as int)[i] == after[i]);
    }
}

/// The list that the policy of a regular request is shown: every worker of the roster if it
/// filters by itself, and those in service otherwise.
pub open spec fn shown_for_regular<P: LoadBalancingPolicy>(
    before: PolicyState<P>,
    roles: PolicyRoles,
    registry: WorkerRegistry,
    model: Seq<char>,
) -> Seq<Arc<Worker>> {
    if before.policies[roles.for_model(model).index as int].filters() {
        roster(registry, model, WorkerType::Regular)
    } else {
        on_duty(registry, model, WorkerType::Regular)
    }
}

/// A regular request gets the worker that is picked, in the role of the policy of its model, from
/// the list of its roster, with the whole request and the ring of the model told. One record counts
/// it. Where the list is empty, or nothing is picked, it gets none and nothing is recorded.
pub proof fn law_regular_worker_is_picked<P: LoadBalancingPolicy>(
    before: PolicyState<P>,
    roles: PolicyRoles,
    registry: WorkerRegistry,
    request: RequestView,
    selected: Option<Arc<Worker>>,
    records: Seq<RecordView>,
    after: PolicyState<P>,
)
    requires
        single_selection(before, roles, registry, request, selected, records, after),
    ensures
        ({
            let list = shown_for_regular(before, roles, registry, request.model);
            let info = told(request, registry.hash_ring(request.model), WorkerLeg::Single);
            let policy = roles.for_model(request.model);
            &&& list.len() == 0 ==> selected is None && after == before
            &&& list.len() > 0 ==> exists|picked: Option<usize>|
                {
                    &&& #[trigger] registry_step(
                        before,
                        roles.sticky,
                        policy,
                        list,
                        info,
                        picked,
                        after,
                    )
                    &&& selected is Some <==> picked is Some
                    &&& picked matches Some(at) ==> at < list.len() && selected->0
                        == list[at as int]
                }
            &&& selected is None ==> records.len() == 0
            &&& selected matches Some(worker) ==> records.len() == 1 && counts(
                records[0],
                WorkerType::Regular,
                worker.connection_mode,
                request.model,
                before.policies[policy.index as int].policy_name(),
            )
        }),
{
    law_pools_hold_the_roster(registry, request.model);
    law_policies_are_told_the_request(
        request,
        registry.hash_ring(request.model),
        WorkerLeg::Single,
    );
}

/// The worker has room for one more request, or nothing limits its load.
pub open spec fn roomy(capacity: Option<PrefillAdmission>, worker: Worker) -> bool {
    capacity is Some ==> capacity->0.load(worker.url@) < capacity->0.limit()
}

/// The request names its prefill worker, by a header that is text, and the policy of the prefill
/// leg is the one that heeds it.
pub open spec fn names_worker<P: LoadBalancingPolicy>(
    before: PolicyState<P>,
    roles: PolicyRoles,
    request: RequestView,
) -> bool {
    &&& before.policies[roles.for_prefill().index as int].policy_name() == "consistent_hashing"@
    &&& text_under(request.headers, "x-smg-target-worker"@) is Some
}

/// The workers of a list on a runtime.
pub open spec fn running(workers: Seq<Arc<Worker>>, runtime: RuntimeType) -> Seq<Arc<Worker>> {
    workers.filter(|worker: Arc<Worker>| worker.runtime_type == runtime)
}

/// The prefill workers on a runtime that a request may get now: all of them if it names its worker,
/// and else those with room.
pub open spec fn takers(
    workers: Seq<Arc<Worker>>,
    runtime: RuntimeType,
    named: bool,
    capacity: Option<PrefillAdmission>,
) -> Seq<Arc<Worker>> {
    workers.filter(
        |worker: Arc<Worker>|
            worker.runtime_type == runtime && (named || roomy(capacity, *worker)),
    )
}

proof fn lemma_takers(
    workers: Seq<Arc<Worker>>,
    runtime: RuntimeType,
    named: bool,
    capacity: Option<PrefillAdmission>,
)
    ensures
        room_candidates(on_runtime(workers, runtime), named, capacity) == takers(
            workers,
            runtime,
            named,
            capacity,
        ),
        on_runtime(workers, runtime) == running(workers, runtime),
{
    let keep = |worker: Arc<Worker>| worker.runtime_type == runtime;
    let room = |worker: Arc<Worker>| fits(capacity, *worker);
    let both = |worker: Arc<Worker>|
        worker.runtime_type == runtime && (named || roomy(capacity, *worker));
    if named {
        lemma_filters_agree(workers, keep, both);
    } else {
        lemma_filter_twice(workers, keep, room, both);
    }
    lemma_filters_agree(workers, keep, |worker: Arc<Worker>| worker.runtime_type == runtime);
}

/// The two picks of a pair, one after the other: the prefill worker in its role and then the decode
/// worker in its own, each from its list and told the whole request.
pub open spec fn picked_in_turn<P: LoadBalancingPolicy>(
    before: PolicyState<P>,
    roles: PolicyRoles,
    request: RequestView,
    ring: Option<Arc<HashRing>>,
    prefill_list: Seq<Arc<Worker>>,
    decode_list: Seq<Arc<Worker>>,
    prefill: Arc<Worker>,
    decode: Arc<Worker>,
    after: PolicyState<P>,
) -> bool {
    exists|p: usize, between: PolicyState<P>, d: usize|
        {
            &&& #[trigger] registry_step(
                before,
                roles.sticky,
                roles.for_prefill(),
                prefill_list,
                told(request, ring, WorkerLeg::Prefill),
                Some(p),
                between,
            )
            &&& p < prefill_list.len()
            &&& prefill == prefill_list[p as int]
            &&& #[trigger] registry_step(
                between,
                roles.sticky,
                roles.for_decode(),
                decode_list,
                told(request, ring, WorkerLeg::Decode),
                Some(d),
                after,
            )
            &&& d < decode_list.len()
            &&& decode == decode_list[d as int]
        }
}

/// The prefill role picked a worker of its list that has no room.
pub open spec fn full_worker_picked<P: LoadBalancingPolicy>(
    before: PolicyState<P>,
    roles: PolicyRoles,
    request: RequestView,
    ring: Option<Arc<HashRing>>,
    prefill_list: Seq<Arc<Worker>>,
    capacity: Option<PrefillAdmission>,
    after: PolicyState<P>,
) -> bool {
    exists|p: usize|
        {
            &&& #[trigger] registry_step(
                before,
                roles.sticky,
                roles.for_prefill(),
                prefill_list,
                told(request, ring, WorkerLeg::Prefill),
                Some(p),
                after,
            )
            &&& p < prefill_list.len()
            &&& !roomy(capacity, *prefill_list[p as int])
        }
}

/// The prefill role or, after it, the decode role picked nothing.
pub open spec fn nothing_picked<P: LoadBalancingPolicy>(
    before: PolicyState<P>,
    roles: PolicyRoles,
    request: RequestView,
    ring: Option<Arc<HashRing>>,
    prefill_list: Seq<Arc<Worker>>,
    decode_list: Seq<Arc<Worker>>,
    after: PolicyState<P>,
) -> bool {
    ||| registry_step(
        before,
        roles.sticky,
        roles.for_prefill(),
        prefill_list,
        told(request, ring, WorkerLeg::Prefill),
        None,
        after,
    )
    ||| exists|p: usize, between: PolicyState<P>|
        {
            &&& #[trigger] registry_step(
                before,
                roles.sticky,
                roles.for_prefill(),
                prefill_list,
                told(request, ring, WorkerLeg::Prefill),
                Some(p),
                between,
            )
            &&& registry_step(
                between,
                roles.sticky,
                roles.for_decode(),
                decode_list,
                told(request, ring, WorkerLeg::Decode),
                None,
                after,
            )
        }
}

proof fn lemma_pair_in_turn<P: LoadBalancingPolicy>(
    before: PolicyState<P>,
    roles: PolicyRoles,
    candidates: PairCandidates,
    request: RequestView,
    ring: Option<Arc<HashRing>>,
    capacity: Option<PrefillAdmission>,
    pair: Result<(Arc<Worker>, Arc<Worker>), GrpcPdCandidateError>,
    after: PolicyState<P>,
)
    requires
        pair_selection(before, roles, candidates, request, ring, capacity, pair, after),
    ensures
        match pair {
            Ok((prefill, decode)) => roomy(capacity, *prefill) && picked_in_turn(
                before,
                roles,
                request,
                ring,
                candidates.prefill,
                candidates.decode,
                prefill,
                decode,
                after,
            ),
            Err(GrpcPdCandidateError::AtCapacity) => full_worker_picked(
                before,
                roles,
                request,
                ring,
                candidates.prefill,
                capacity,
                after,
            ),
            Err(GrpcPdCandidateError::Unavailable) => nothing_picked(
                before,
                roles,
                request,
                ring,
                candidates.prefill,
                candidates.decode,
                after,
            ),
        },
{
    law_policies_are_told_the_request(request, ring, WorkerLeg::Prefill);
    law_policies_are_told_the_request(request, ring, WorkerLeg::Decode);
    let (picked, between) = lemma_prefill_step(
        before,
        roles,
        candidates,
        request,
        ring,
        capacity,
        pair,
        after,
    );
    if let Some(at) = picked {
        let prefill = candidates.prefill[at as int];
        let decoded = decode_selection(
            between,
            roles,
            candidates,
            request,
            ring,
            prefill,
            pair,
            after,
        );
        if decoded {
            let later = lemma_decode_step(
                between,
                roles,
                candidates,
                request,
                ring,
                prefill,
                pair,
                after,
            );
            if let Ok((first, second)) = pair {
                assert(registry_step(
                    before,
                    roles.sticky,
                    roles.for_prefill(),
                    candidates.prefill,
                    told(request, ring, WorkerLeg::Prefill),
                    Some(at),
                    between,
                ));
                assert(registry_step(
                    between,
                    roles.sticky,
                    roles.for_decode(),
                    candidates.decode,
                    told(request, ring, WorkerLeg::Decode),
                    Some(later->0),
                    after,
                ));
            }
        }
    }
}

proof fn lemma_named<P: LoadBalancingPolicy>(
    before: PolicyState<P>,
    roles: PolicyRoles,
    request: RequestView,
)
    ensures
        request_targeted(before, roles, request) == names_worker(before, roles, request),
{
    law_header_text_is_read(request.headers, "x-smg-target-worker"@);
}

/// A pair is picked from the prefill and the decode workers on duty for the model that run the
/// runtime of the first prefill worker on duty. The prefill worker is picked first, in its role,
/// among those with room, or among all where the request names its worker; it has room; and the
/// decode worker is picked then, in its own role. Both policies are told the whole request and the
/// ring of the model. Two records count the pair, the prefill worker first.
pub proof fn law_pair_is_picked<P: LoadBalancingPolicy>(
    before: PolicyState<P>,
    roles: PolicyRoles,
    registry: WorkerRegistry,
    request: RequestView,
    capacity: Option<PrefillAdmission>,
    pair: PdWorkerPair,
    records: Seq<RecordView>,
    after: PolicyState<P>,
)
    requires
        pd_selection(before, roles, registry, request, capacity, Ok(pair), records, after),
    ensures
        ({
            let duty = on_duty(registry, request.model, WorkerType::Prefill);
            let runtime = duty[0].runtime_type;
            &&& duty.len() > 0
            &&& pair.2 == runtime
            &&& roomy(capacity, *pair.0)
            &&& picked_in_turn(
                before,
                roles,
                request,
                registry.hash_ring(request.model),
                takers(duty, runtime, names_worker(before, roles, request), capacity),
                running(on_duty(registry, request.model, WorkerType::Decode), runtime),
                pair.0,
                pair.1,
                after,
            )
            &&& records.len() == 2
            &&& counts(
                records[0],
                WorkerType::Prefill,
                pair.0.connection_mode,
                request.model,
                before.policies[roles.for_prefill().index as int].policy_name(),
            )
            &&& counts(
                records[1],
                WorkerType::Decode,
                pair.1.connection_mode,
                request.model,
                before.policies[roles.for_decode().index as int].policy_name(),
            )
        }),
{
    let snapshot = serving(registry.workers(), request.model);
    let ring = registry.hash_ring(request.model);
    law_pools_hold_the_roster(registry, request.model);
    lemma_named(before, roles, request);
    let named = names_worker(before, roles, request);
    let duty = on_duty(registry, request.model, WorkerType::Prefill);
    let decode_duty = on_duty(registry, request.model, WorkerType::Decode);
    lemma_takers(duty, duty[0].runtime_type, named, capacity);
    lemma_takers(decode_duty, duty[0].runtime_type, named, capacity);
    let candidates = pd_candidates(snapshot, named, capacity)->Ok_0;
    lemma_pair_in_turn(
        before,
        roles,
        candidates,
        request,
        ring,
        capacity,
        Ok((pair.0, pair.1)),
        after,
    );
}

/// Why a pair is not found. It is unavailable only if no prefill worker is on duty, or no decode
/// worker on the runtime of the first one, and then no policy is asked; or if a role picked
/// nothing. It is at capacity only if there are both, but no prefill worker on the runtime has
/// room, and then no policy is asked; or if the prefill role picked a worker without room. Nothing
/// is recorded.
pub proof fn law_pair_fails_for_a_cause<P: LoadBalancingPolicy>(
    before: PolicyState<P>,
    roles: PolicyRoles,
    registry: WorkerRegistry,
    request: RequestView,
    capacity: Option<PrefillAdmission>,
    error: GrpcPdCandidateError,
    records: Seq<RecordView>,
    after: PolicyState<P>,
)
    requires
        pd_selection(before, roles, registry, request, capacity, Err(error), records, after),
    ensures
        ({
            let ring = registry.hash_ring(request.model);
            let duty = on_duty(registry, request.model, WorkerType::Prefill);
            let runtime = duty[0].runtime_type;
            let prefill = takers(duty, runtime, names_worker(before, roles, request), capacity);
            let decode = running(on_duty(registry, request.model, WorkerType::Decode), runtime);
            &&& records.len() == 0
            &&& error == GrpcPdCandidateError::Unavailable ==> {
                ||| (duty.len() == 0 || decode.len() == 0) && after == before
                ||| prefill.len() > 0 && decode.len() > 0 && nothing_picked(
                    before,
                    roles,
                    request,
                    ring,
                    prefill,
                    decode,
                    after,
                )
            }
            &&& error == GrpcPdCandidateError::AtCapacity ==> duty.len() > 0 && decode.len() > 0
                && {
                ||| prefill.len() == 0 && after == before
                ||| full_worker_picked(before, roles, request, ring, prefill, capacity, after)
            }
        }),
{
    let snapshot = serving(registry.workers(), request.model);
    let ring = registry.hash_ring(request.model);
    law_pools_hold_the_roster(registry, request.model);
    lemma_named(before, roles, request);
    let named = names_worker(before, roles, request);
    let duty = on_duty(registry, request.model, WorkerType::Prefill);
    let decode_duty = on_duty(registry, request.model, WorkerType::Decode);
    lemma_takers(duty, duty[0].runtime_type, named, capacity);
    lemma_takers(decode_duty, duty[0].runtime_type, named, capacity);
    lemma_on_runtime(decode_duty, duty[0].runtime_type);
    if let Ok(candidates) = pd_candidates(snapshot, named, capacity) {
        lemma_pair_in_turn(
            before,
            roles,
            candidates,
            request,
            ring,
            capacity,
            Err(error),
            after,
        );
    }
}

/// A policy picks for an item, told its content and the ring.
pub open spec fn item_picked<P: LoadBalancingPolicy>(
    before: P,
    workers: Seq<Arc<Worker>>,
    content: Seq<u8>,
    ring: Option<Arc<HashRing>>,
    picked: Option<usize>,
    after: P,
) -> bool {
    exists|info: InfoView|
        {
            &&& #[trigger] P::may_pick(before, workers, info, picked, after)
            &&& info.headers is Some
            &&& carries_content(info.headers->0, content)
            &&& info.hash_ring == ring
            &&& info.request_text is None
            &&& info.tokens is None
            &&& info.routing_key is None
            &&& info.rid_key is None
            &&& info.leg == WorkerLeg::Single
        }
}

/// Items are picked for one after the other, each by the state that the one before left.
pub open spec fn items_in_turn<P: LoadBalancingPolicy>(
    states: Seq<P>,
    workers: Seq<Arc<Worker>>,
    contents: Seq<Seq<u8>>,
    ring: Option<Arc<HashRing>>,
    picks: Seq<usize>,
) -> bool {
    &&& states.len() == picks.len() + 1
    &&& picks.len() <= contents.len()
    &&& forall|i: int|
        #![trigger picks[i]]
        0 <= i < picks.len() ==> picks[i] < workers.len() && item_picked(
            states[i],
            workers,
            contents[i],
            ring,
            Some(picks[i]),
            states[i + 1],
        )
}

proof fn lemma_item_picked<P: LoadBalancingPolicy>(
    before: P,
    workers: Seq<Arc<Worker>>,
    content: Seq<u8>,
    ring: Option<Arc<HashRing>>,
    picked: Option<usize>,
    after: P,
)
    requires
        policy_step(before, workers, encode_info(content, ring), picked, after),
    ensures
        item_picked(before, workers, content, ring, picked, after),
{
    law_encode_policy_is_told_content_and_ring(content, ring);
    let info = encode_info(content, ring);
    assert(P::may_pick(before, workers, info, picked, after));
}

proof fn lemma_item_states<P: LoadBalancingPolicy>(
    before: P,
    workers: Seq<Arc<Worker>>,
    contents: Seq<Seq<u8>>,
    ring: Option<Arc<HashRing>>,
    picks: Seq<usize>,
    after: P,
) -> (states: Seq<P>)
    requires
        encode_run(before, workers, contents, ring, picks, after),
    ensures
        picks.len() == contents.len(),
        items_in_turn(states, workers, contents, ring, picks),
        states[0] == before,
        states.last() == after,
    decreases contents.len(),
{
    if contents.len() == 0 {
        seq![before]
    } else {
        let between = choose|between: P|
            encode_run(
                before,
                workers,
                contents.drop_last(),
                ring,
                picks.drop_last(),
                between,
            ) && #[trigger] policy_step(
                between,
                workers,
                encode_info(contents.last(), ring),
                Some(picks.last()),
                after,
            );
        let earlier = lemma_item_states(
            before,
            workers,
            contents.drop_last(),
            ring,
            picks.drop_last(),
            between,
        );
        let states = earlier.push(after);
        lemma_item_picked(between, workers, contents.last(), ring, Some(picks.last()), after);
        assert forall|i: int|
            #![trigger picks[i]]
            0 <= i < picks.len() implies picks[i] < workers.len() && item_picked(
            states[i],
            workers,
            contents[i],
            ring,
            Some(picks[i]),
            states[i + 1],
        ) by {
            if i < picks.len() - 1 {
                assert(picks.drop_last()[i] == picks[i]);
                assert(contents.drop_last()[i] == contents[i]);
            } else {
                assert(states[i] == earlier.last());
            }
        }
        states
    }
}

/// Items are assigned in order, each to the worker that the encode policy picks for it when told
/// its content and the ring, in the state that the item before left. All of them are, unless the
/// policy has no worker for one: then the assignment ends there.
pub proof fn law_items_are_assigned_by_content<P: LoadBalancingPolicy>(
    before: P,
    workers: Seq<Arc<Worker>>,
    contents: Seq<Seq<u8>>,
    ring: Option<Arc<HashRing>>,
    picks: Seq<usize>,
    assigned: Option<Seq<EncodeWorkerAssignment>>,
    after: P,
)
    requires
        encode_outcome(before, workers, contents, ring, picks, assigned, after),
    ensures
        exists|states: Seq<P>|
            {
                &&& #[trigger] items_in_turn(states, workers, contents, ring, picks)
                &&& states[0] == before
                &&& assigned is Some ==> states.last() == after
                &&& assigned is None ==> picks.len() < contents.len() && item_picked(
                    states.last(),
                    workers,
                    contents[picks.len() as int],
                    ring,
                    None,
                    after,
                )
            },
        assigned matches Some(list) ==> list.len() == contents.len() && picks.len()
            == contents.len() && forall|i: int|
            0 <= i < list.len() ==> (#[trigger] list[i]).item_index == i as usize
                && list[i].worker == workers[picks[i] as int],
{
    match assigned {
        Some(list) => {
            let states = lemma_item_states(before, workers, contents, ring, picks, after);
        },
        None => {
            let done = contents.take(picks.len() as int);
            let between = choose|between: P|
                encode_run(before, workers, done, ring, picks, between) && #[trigger] policy_step(
                    between,
                    workers,
                    encode_info(contents[picks.len() as int], ring),
                    None,
                    after,
                );
            let states = lemma_item_states(before, workers, done, ring, picks, between);
            lemma_item_picked(between, workers, contents[picks.len() as int], ring, None, after);
            assert(items_in_turn(states, workers, contents, ring, picks)) by {
                assert forall|i: int|
                    #![trigger picks[i]]
                    0 <= i < picks.len() implies picks[i] < workers.len() && item_picked(
                    states[i],
                    workers,
                    contents[i],
                    ring,
                    Some(picks[i]),
                    states[i + 1],
                ) by {
                    assert(done[i] == contents[i]);
                }
            }
        },
    }
}

/// A policy of this kind takes the worker that a request names: what it picks for a request with a
/// target header is decided by the list and the text of the header.
pub open spec fn heeds_target<P: LoadBalancingPolicy>(
    choice: spec_fn(Seq<Arc<Worker>>, Seq<char>) -> usize,
) -> bool {
    forall|before: P, workers: Seq<Arc<Worker>>, info: InfoView, picked: Option<usize>, after: P|
        #[trigger] P::may_pick(before, workers, info, picked, after) && text_under(
            info.headers,
            "x-smg-target-worker"@,
        ) is Some ==> picked == Some(
            choice(workers, text_under(info.headers, "x-smg-target-worker"@)->0),
        )
}

/// Under policies that heed the target header, a pair for a request that names its prefill worker
/// has that worker, among all those on duty that run the runtime, full or not. Without the
/// override, that is: a key that sticks goes before the name.
pub proof fn law_named_worker_is_served<P: LoadBalancingPolicy>(
    choice: spec_fn(Seq<Arc<Worker>>, Seq<char>) -> usize,
    before: PolicyState<P>,
    roles: PolicyRoles,
    registry: WorkerRegistry,
    request: RequestView,
    capacity: Option<PrefillAdmission>,
    pair: PdWorkerPair,
    records: Seq<RecordView>,
    after: PolicyState<P>,
)
    requires
        pd_selection(before, roles, registry, request, capacity, Ok(pair), records, after),
        heeds_target::<P>(choice),
        names_worker(before, roles, request),
        !roles.sticky,
    ensures
        ({
            let name = text_under(request.headers, "x-smg-target-worker"@)->0;
            let duty = on_duty(registry, request.model, WorkerType::Prefill);
            let list = running(duty, duty[0].runtime_type);
            pair.0 == list[choice(list, name) as int]
        }),
{
    let ring = registry.hash_ring(request.model);
    let duty = on_duty(registry, request.model, WorkerType::Prefill);
    let runtime = duty[0].runtime_type;
    let list = takers(duty, runtime, true, capacity);
    let decode = running(on_duty(registry, request.model, WorkerType::Decode), runtime);
    law_pair_is_picked(before, roles, registry, request, capacity, pair, records, after);
    lemma_takers(duty, runtime, true, capacity);
    let (p, between, d) = choose|p: usize, between: PolicyState<P>, d: usize|
        {
            &&& #[trigger] registry_step(
                before,
                roles.sticky,
                roles.for_prefill(),
                list,
                told(request, ring, WorkerLeg::Prefill),
                Some(p),
                between,
            )
            &&& p < list.len()
            &&& pair.0 == list[p as int]
            &&& #[trigger] registry_step(
                between,
                roles.sticky,
                roles.for_decode(),
                decode,
                told(request, ring, WorkerLeg::Decode),
                Some(d),
                after,
            )
        };
    law_pick_is_the_pin_or_the_policys(
        before,
        roles.sticky,
        roles.for_prefill(),
        list,
        told(request, ring, WorkerLeg::Prefill),
        Some(p),
        between,
    );
}

/// Some worker runs the runtime.
pub open spec fn someone_runs(workers: Seq<Arc<Worker>>, runtime: RuntimeType) -> bool {
    exists|i: int| 0 <= i < workers.len() && (#[trigger] workers[i]).runtime_type == runtime
}

/// Every leg that the request needs has a worker on duty with the runtime. Items are encoded by
/// TokenSpeed alone.
pub open spec fn runtime_serves(
    registry: WorkerRegistry,
    model: Seq<char>,
    items: bool,
    runtime: RuntimeType,
) -> bool {
    &&& someone_runs(on_duty(registry, model, WorkerType::Decode), runtime)
    &&& items ==> runtime == RuntimeType::TokenSpeed && someone_runs(
        on_duty(registry, model, WorkerType::Encode),
        runtime,
    )
}

/// The runtime is that of the first prefill worker on duty whose runtime serves every needed leg.
pub open spec fn first_that_serves(
    registry: WorkerRegistry,
    model: Seq<char>,
    items: bool,
    runtime: RuntimeType,
) -> bool {
    let duty = on_duty(registry, model, WorkerType::Prefill);
    exists|i: int|
        0 <= i < duty.len() && (#[trigger] duty[i]).runtime_type == runtime && runtime_serves(
            registry,
            model,
            items,
            runtime,
        ) && forall|j: int|
            0 <= j < i ==> !runtime_serves(
                registry,
                model,
                items,
                (#[trigger] duty[j]).runtime_type,
            )
}

/// The runtime of no prefill worker on duty serves every needed leg.
pub open spec fn none_serves(registry: WorkerRegistry, model: Seq<char>, items: bool) -> bool {
    let duty = on_duty(registry, model, WorkerType::Prefill);
    forall|i: int|
        0 <= i < duty.len() ==> !runtime_serves(
            registry,
            model,
            items,
            (#[trigger] duty[i]).runtime_type,
        )
}

proof fn lemma_first_found(
    prefill: Seq<Arc<Worker>>,
    encode: Seq<Arc<Worker>>,
    decode: Seq<Arc<Worker>>,
    items: bool,
)
    ensures
        first_shared_runtime(prefill, encode, decode, items) matches Some(runtime) ==> exists|
            i: int,
        |
            0 <= i < prefill.len() && (#[trigger] prefill[i]).runtime_type == runtime
                && shared_runtime(runtime, encode, decode, items) && forall|j: int|
                0 <= j < i ==> !shared_runtime(
                    (#[trigger] prefill[j]).runtime_type,
                    encode,
                    decode,
                    items,
                ),
    decreases prefill.len(),
{
    if prefill.len() > 0 {
        let rest = prefill.drop_first();
        assert(forall|i: int| 0 <= i < rest.len() ==> #[trigger] rest[i] == prefill[i + 1]);
        if shared_runtime(prefill[0].runtime_type, encode, decode, items) {
            assert(prefill[0].runtime_type == prefill[0].runtime_type);
        } else {
            lemma_first_found(rest, encode, decode, items);
            if let Some(runtime) = first_shared_runtime(rest, encode, decode, items) {
                let i = choose|i: int|
                    0 <= i < rest.len() && (#[trigger] rest[i]).runtime_type == runtime
                        && shared_runtime(runtime, encode, decode, items)
                        && forall|j: int|
                        0 <= j < i ==> !shared_runtime(
                            (#[trigger] rest[j]).runtime_type,
                            encode,
                            decode,
                            items,
                        );
                assert(prefill[i + 1].runtime_type == runtime);
                assert forall|j: int| 0 <= j < i + 1 implies !shared_runtime(
                    (#[trigger] prefill[j]).runtime_type,
                    encode,
                    decode,
                    items,
                ) by {
                    if j > 0 {
                        assert(rest[j - 1] == prefill[j]);
                    }
                }
            }
        }
    }
}

/// The runtime that is found for a set is the first that serves every needed leg.
pub proof fn lemma_runtime_found(registry: WorkerRegistry, model: Seq<char>, items: bool)
    ensures
        ({
            let snapshot = serving(registry.workers(), model);
            let found = first_shared_runtime(
                ready_members(snapshot, RoutingPool::GrpcPrefill),
                ready_members(snapshot, RoutingPool::GrpcEncode),
                ready_members(snapshot, RoutingPool::GrpcDecode),
                items,
            );
            &&& found matches Some(runtime) ==> first_that_serves(registry, model, items, runtime)
            &&& found is None ==> none_serves(registry, model, items)
        }),
{
    law_pools_hold_the_roster(registry, model);
    let encode = on_duty(registry, model, WorkerType::Encode);
    let prefill = on_duty(registry, model, WorkerType::Prefill);
    let decode = on_duty(registry, model, WorkerType::Decode);
    lemma_first_found(prefill, encode, decode, items);
    lemma_first_shared_runtime(prefill, encode, decode, items);
    assert(forall|runtime: RuntimeType|
        shared_runtime(runtime, encode, decode, items)
            == #[trigger] runtime_serves(registry, model, items, runtime));
}

/// The records of a set: one per item that was picked for, and then those of the pair.
pub open spec fn items_counted(
    records: Seq<RecordView>,
    count: nat,
    model: Seq<char>,
    policy: Seq<char>,
) -> bool {
    &&& records.len() >= count
    &&& forall|i: int|
        0 <= i < count ==> counts(
            #[trigger] records[i],
            WorkerType::Encode,
            ConnectionMode::Grpc,
            model,
            policy,
        )
}

/// Where encoding is disaggregated, the pair is picked as any pair, from the workers on duty that
/// run the first runtime that serves every needed leg; and each item is assigned, in order, to the
/// worker that the encode policy picks for its content over the ring of the model, from the encode
/// workers on duty that run it. One record per item and then those of the pair count the set.
pub proof fn law_set_is_picked<P: LoadBalancingPolicy>(
    before: PolicyState<P>,
    roles: PolicyRoles,
    registry: WorkerRegistry,
    request: RequestView,
    contents: Seq<Seq<u8>>,
    capacity: Option<PrefillAdmission>,
    selected: EpdOutcome,
    records: Seq<RecordView>,
    after: PolicyState<P>,
)
    requires
        epd_selection(
            before,
            roles,
            registry,
            request,
            contents,
            capacity,
            Ok(selected),
            records,
            after,
        ),
        roles_held(before, roles),
    ensures
        first_that_serves(registry, request.model, contents.len() > 0, selected.runtime),
        roomy(capacity, *selected.prefill),
        ({
            let ring = registry.hash_ring(request.model);
            let id = roles.encode.index as int;
            let encode = running(
                on_duty(registry, request.model, WorkerType::Encode),
                selected.runtime,
            );
            exists|between: PolicyState<P>, states: Seq<P>, picks: Seq<usize>|
                {
                    &&& #[trigger] picked_in_turn(
                        before,
                        roles,
                        request,
                        ring,
                        takers(
                            on_duty(registry, request.model, WorkerType::Prefill),
                            selected.runtime,
                            names_worker(before, roles, request),
                            capacity,
                        ),
                        running(
                            on_duty(registry, request.model, WorkerType::Decode),
                            selected.runtime,
                        ),
                        selected.prefill,
                        selected.decode,
                        between,
                    )
                    &&& #[trigger] items_in_turn(states, encode, contents, ring, picks)
                    &&& picks.len() == contents.len()
                    &&& states[0] == between.policies[id]
                    &&& after.policies == between.policies.update(id, states.last())
                    &&& after.pins == between.pins
                    &&& forall|i: int|
                        0 <= i < contents.len() ==> (#[trigger] selected.assigned[i]).worker
                            == encode[picks[i] as int]
                }
        }),
        selected.assigned.len() == contents.len(),
        forall|i: int|
            0 <= i < contents.len() ==> (#[trigger] selected.assigned[i]).item_index == i as usize,
        records.len() == contents.len() + 2,
        items_counted(
            records,
            contents.len(),
            request.model,
            before.policies[roles.encode.index as int].policy_name(),
        ),
        counts(
            records[contents.len() as int],
            WorkerType::Prefill,
            selected.prefill.connection_mode,
            request.model,
            before.policies[roles.for_prefill().index as int].policy_name(),
        ),
        counts(
            records[contents.len() as int + 1],
            WorkerType::Decode,
            selected.decode.connection_mode,
            request.model,
            before.policies[roles.for_decode().index as int].policy_name(),
        ),
{
    let snapshot = serving(registry.workers(), request.model);
    let ring = registry.hash_ring(request.model);
    let items = contents.len() > 0;
    let id = roles.encode.index as int;
    let named = names_worker(before, roles, request);
    law_pools_hold_the_roster(registry, request.model);
    lemma_named(before, roles, request);
    lemma_runtime_found(registry, request.model, items);
    let candidates = epd_candidates(snapshot, items, named, capacity)->Ok_0;
    let runtime = candidates.pair.runtime;
    lemma_takers(
        on_duty(registry, request.model, WorkerType::Prefill),
        runtime,
        named,
        capacity,
    );
    lemma_takers(on_duty(registry, request.model, WorkerType::Decode), runtime, named, capacity);
    lemma_takers(on_duty(registry, request.model, WorkerType::Encode), runtime, named, capacity);
    let (prefill, decode, between, picks, assigned) = lemma_set_parts(
        before,
        roles,
        registry,
        request,
        contents,
        capacity,
        Ok(selected),
        records,
        after,
    );
    law_items_are_assigned_by_content(
        between.policies[id],
        candidates.encode,
        contents,
        ring,
        picks,
        assigned,
        after.policies[id],
    );
    let states = choose|states: Seq<P>|
        {
            &&& #[trigger] items_in_turn(states, candidates.encode, contents, ring, picks)
            &&& states[0] == between.policies[id]
            &&& states.last() == after.policies[id]
        };
    lemma_pair_in_turn(
        before,
        roles,
        candidates.pair,
        request,
        ring,
        capacity,
        Ok((prefill, decode)),
        between,
    );
    lemma_pair_keeps_policies(
        before,
        roles,
        candidates.pair,
        request,
        ring,
        capacity,
        Ok((prefill, decode)),
        between,
    );
}

/// The pair and the item picks behind a selection whose pair was picked.
proof fn lemma_set_parts<P: LoadBalancingPolicy>(
    before: PolicyState<P>,
    roles: PolicyRoles,
    registry: WorkerRegistry,
    request: RequestView,
    contents: Seq<Seq<u8>>,
    capacity: Option<PrefillAdmission>,
    outcome: Result<EpdOutcome, GrpcPdCandidateError>,
    records: Seq<RecordView>,
    after: PolicyState<P>,
) -> (found: (
    Arc<Worker>,
    Arc<Worker>,
    PolicyState<P>,
    Seq<usize>,
    Option<Seq<EncodeWorkerAssignment>>,
))
    requires
        epd_selection(
            before,
            roles,
            registry,
            request,
            contents,
            capacity,
            outcome,
            records,
            after,
        ),
        outcome is Ok,
    ensures
        ({
            let (prefill, decode, between, picks, assigned) = found;
            let snapshot = serving(registry.workers(), request.model);
            let ring = registry.hash_ring(request.model);
            let targeted = request_targeted(before, roles, request);
            let candidates = epd_candidates(
                snapshot,
                contents.len() > 0,
                targeted,
                capacity,
            )->Ok_0;
            let id = roles.encode.index as int;
            &&& epd_candidates(snapshot, contents.len() > 0, targeted, capacity) is Ok
            &&& pair_selection(
                before,
                roles,
                candidates.pair,
                request,
                ring,
                capacity,
                Ok((prefill, decode)),
                between,
            )
            &&& after.pins == between.pins
            &&& after.policies == between.policies.update(id, after.policies[id])
            &&& encode_outcome(
                between.policies[id],
                candidates.encode,
                contents,
                ring,
                picks,
                assigned,
                after.policies[id],
            )
            &&& epd_result(
                between,
                roles,
                candidates,
                request,
                prefill,
                decode,
                picks,
                assigned,
                outcome,
                records,
            )
        }),
{
    let snapshot = serving(registry.workers(), request.model);
    let ring = registry.hash_ring(request.model);
    let targeted = request_targeted(before, roles, request);
    let candidates = epd_candidates(snapshot, contents.len() > 0, targeted, capacity)->Ok_0;
    let id = roles.encode.index as int;
    let (pair, between) = choose|
        pair: Result<(Arc<Worker>, Arc<Worker>), GrpcPdCandidateError>,
        between: PolicyState<P>,
    |
        #[trigger] pair_selection(
            before,
            roles,
            candidates.pair,
            request,
            ring,
            capacity,
            pair,
            between,
        ) && pair is Ok && epd_assignment(
            between,
            roles,
            candidates,
            request,
            ring,
            contents,
            pair->Ok_0.0,
            pair->Ok_0.1,
            outcome,
            records,
            after,
        );
    let (picks, assigned) = choose|
        picks: Seq<usize>,
        assigned: Option<Seq<EncodeWorkerAssignment>>,
    |
        #[trigger] encode_outcome(
            between.policies[id],
            candidates.encode,
            contents,
            ring,
            picks,
            assigned,
            after.policies[id],
        ) && epd_result(
            between,
            roles,
            candidates,
            request,
            pair->Ok_0.0,
            pair->Ok_0.1,
            picks,
            assigned,
            outcome,
            records,
        );
    (pair->Ok_0.0, pair->Ok_0.1, between, picks, assigned)
}

/// The encode policy had no worker for one of the items, after a pair was picked. The items before
/// it are counted, and nothing else.
pub open spec fn item_without_worker<P: LoadBalancingPolicy>(
    before: PolicyState<P>,
    roles: PolicyRoles,
    request: RequestView,
    ring: Option<Arc<HashRing>>,
    prefill_list: Seq<Arc<Worker>>,
    decode_list: Seq<Arc<Worker>>,
    encode_list: Seq<Arc<Worker>>,
    contents: Seq<Seq<u8>>,
    capacity: Option<PrefillAdmission>,
    records: Seq<RecordView>,
    after: PolicyState<P>,
) -> bool {
    let id = roles.encode.index as int;
    exists|
        prefill: Arc<Worker>,
        decode: Arc<Worker>,
        between: PolicyState<P>,
        states: Seq<P>,
        picks: Seq<usize>,
    |
        {
            &&& #[trigger] picked_in_turn(
                before,
                roles,
                request,
                ring,
                prefill_list,
                decode_list,
                prefill,
                decode,
                between,
            )
            &&& roomy(capacity, *prefill)
            &&& #[trigger] items_in_turn(states, encode_list, contents, ring, picks)
            &&& states[0] == between.policies[id]
            &&& picks.len() < contents.len()
            &&& item_picked(
                states.last(),
                encode_list,
                contents[picks.len() as int],
                ring,
                None,
                after.policies[id],
            )
            &&& after.policies == between.policies.update(id, after.policies[id])
            &&& after.pins == between.pins
            &&& records.len() == picks.len()
            &&& items_counted(
                records,
                picks.len(),
                request.model,
                between.policies[id].policy_name(),
            )
        }
}

/// Why a set is not found. It is unavailable only if no runtime serves every needed leg, and then
/// no policy is asked; or if the prefill or the decode role picked nothing; or if the encode policy
/// had no worker for an item. It is at capacity only if no prefill worker on the runtime has room,
/// and then no policy is asked; or if the prefill role picked a worker without room.
pub proof fn law_set_fails_for_a_cause<P: LoadBalancingPolicy>(
    before: PolicyState<P>,
    roles: PolicyRoles,
    registry: WorkerRegistry,
    request: RequestView,
    contents: Seq<Seq<u8>>,
    capacity: Option<PrefillAdmission>,
    error: GrpcPdCandidateError,
    records: Seq<RecordView>,
    after: PolicyState<P>,
)
    requires
        epd_selection(
            before,
            roles,
            registry,
            request,
            contents,
            capacity,
            Err(error),
            records,
            after,
        ),
    ensures
        set_failed(
            before,
            roles,
            registry,
            request,
            contents,
            capacity,
            error,
            records,
            after,
        ),
{
    let snapshot = serving(registry.workers(), request.model);
    let ring = registry.hash_ring(request.model);
    let items = contents.len() > 0;
    let id = roles.encode.index as int;
    let named = names_worker(before, roles, request);
    law_pools_hold_the_roster(registry, request.model);
    lemma_named(before, roles, request);
    lemma_runtime_found(registry, request.model, items);
    let found = first_shared_runtime(
        ready_members(snapshot, RoutingPool::GrpcPrefill),
        ready_members(snapshot, RoutingPool::GrpcEncode),
        ready_members(snapshot, RoutingPool::GrpcDecode),
        items,
    );
    if let Some(runtime) = found {
        let prefill_duty = on_duty(registry, request.model, WorkerType::Prefill);
        let decode_duty = on_duty(registry, request.model, WorkerType::Decode);
        let encode_duty = on_duty(registry, request.model, WorkerType::Encode);
        lemma_takers(prefill_duty, runtime, named, capacity);
        lemma_takers(decode_duty, runtime, named, capacity);
        lemma_takers(encode_duty, runtime, named, capacity);
        assert(first_that_serves(registry, request.model, items, runtime));
        if let Ok(candidates) = epd_candidates(snapshot, items, named, capacity) {
            let (pair, between) = choose|
                pair: Result<(Arc<Worker>, Arc<Worker>), GrpcPdCandidateError>,
                between: PolicyState<P>,
            |
                #[trigger] pair_selection(
                    before,
                    roles,
                    candidates.pair,
                    request,
                    ring,
                    capacity,
                    pair,
                    between,
                ) && match pair {
                    Err(cause) => cause == error && records.len() == 0 && after == between,
                    Ok((prefill, decode)) => epd_assignment(
                        between,
                        roles,
                        candidates,
                        request,
                        ring,
                        contents,
                        prefill,
                        decode,
                        Err(error),
                        records,
                        after,
                    ),
                };
            lemma_pair_in_turn(
                before,
                roles,
                candidates.pair,
                request,
                ring,
                capacity,
                pair,
                between,
            );
            if let Ok((prefill, decode)) = pair {
                let (picks, assigned) = choose|
                    picks: Seq<usize>,
                    assigned: Option<Seq<EncodeWorkerAssignment>>,
                |
                    #[trigger] encode_outcome(
                        between.policies[id],
                        candidates.encode,
                        contents,
                        ring,
                        picks,
                        assigned,
                        after.policies[id],
                    ) && epd_result(
                        between,
                        roles,
                        candidates,
                        request,
                        prefill,
                        decode,
                        picks,
                        assigned,
                        Err(error),
                        records,
                    );
                law_items_are_assigned_by_content(
                    between.policies[id],
                    candidates.encode,
                    contents,
                    ring,
                    picks,
                    assigned,
                    after.policies[id],
                );
                let states = choose|states: Seq<P>|
                    {
                        &&& #[trigger] items_in_turn(
                            states,
                            candidates.encode,
                            contents,
                            ring,
                            picks,
                        )
                        &&& states[0] == between.policies[id]
                        &&& item_picked(
                            states.last(),
                            candidates.encode,
                            contents[picks.len() as int],
                            ring,
                            None,
                            after.policies[id],
                        )
                    };
                assert(items_counted(
                    records,
                    picks.len(),
                    request.model,
                    between.policies[id].policy_name(),
                ));
                assert(item_without_worker(
                    before,
                    roles,
                    request,
                    ring,
                    candidates.pair.prefill,
                    candidates.pair.decode,
                    candidates.encode,
                    contents,
                    capacity,
                    records,
                    after,
                ));
            }
        }
    }
}

/// The causes for which a set may fail.
pub open spec fn set_failed<P: LoadBalancingPolicy>(
    before: PolicyState<P>,
    roles: PolicyRoles,
    registry: WorkerRegistry,
    request: RequestView,
    contents: Seq<Seq<u8>>,
    capacity: Option<PrefillAdmission>,
    error: GrpcPdCandidateError,
    records: Seq<RecordView>,
    after: PolicyState<P>,
) -> bool {
    let ring = registry.hash_ring(request.model);
    let items = contents.len() > 0;
    let named = names_worker(before, roles, request);
    let prefill_duty = on_duty(registry, request.model, WorkerType::Prefill);
    let decode_duty = on_duty(registry, request.model, WorkerType::Decode);
    let encode_duty = on_duty(registry, request.model, WorkerType::Encode);
    ||| {
        &&& none_serves(registry, request.model, items)
        &&& error == GrpcPdCandidateError::Unavailable
        &&& records.len() == 0
        &&& after == before
    }
    ||| exists|runtime: RuntimeType|
        {
            let prefill = takers(prefill_duty, runtime, named, capacity);
            let decode = running(decode_duty, runtime);
            let encode = running(encode_duty, runtime);
            &&& #[trigger] first_that_serves(registry, request.model, items, runtime)
            &&& error == GrpcPdCandidateError::AtCapacity ==> records.len() == 0 && {
                ||| prefill.len() == 0 && after == before
                ||| full_worker_picked(before, roles, request, ring, prefill, capacity, after)
            }
            &&& error == GrpcPdCandidateError::Unavailable ==> prefill.len() > 0 && {
                ||| records.len() == 0 && nothing_picked(
                    before,
                    roles,
                    request,
                    ring,
                    prefill,
                    decode,
                    after,
                )
                ||| item_without_worker(
                    before,
                    roles,
                    request,
                    ring,
                    prefill,
                    decode,
                    encode,
                    contents,
                    capacity,
                    records,
                    after,
                )
            }
        }
}

} // verus!
