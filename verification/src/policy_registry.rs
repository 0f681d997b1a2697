//! The policies of a gateway by role, and the routing-key override that keeps requests with
//! one key on one worker.

use crate::headers::{
    extract_routing_key, optional_values, request_header, text_view, ROUTING_KEY_HEADER,
};
use crate::policy::{
    policy_filters_unavailable_workers, sound_pick, InfoView, LoadBalancingPolicy, SelectWorkerInfo,
    WorkerLeg,
};
use crate::worker::Worker;
use axum::http::{HeaderMap, HeaderValue};
use std::sync::Arc;
use vstd::prelude::*;
use vstd::string::StrSliceExecFns;

verus! {

/// A policy of a registry. Two roles with one id share one policy and its state.
#[derive(Clone, Copy, Debug, PartialEq, Eq, Structural)]
pub struct PolicyId {
    pub index: usize,
}

/// The policy of one model.
#[derive(Debug)]
pub struct ModelPolicy {
    pub model_id: String,
    pub policy: PolicyId,
}

/// A key that sticks to a worker, on one leg.
#[derive(Debug)]
pub struct StickyPin {
    pub leg: WorkerLeg,
    pub key: String,
    pub url: String,
}

/// What the pins say: the url to which each key sticks, per leg.
pub open spec fn pin_map(pins: Seq<StickyPin>) -> Map<(WorkerLeg, Seq<char>), Seq<char>>
    decreases pins.len(),
{
    if pins.len() == 0 {
        Map::empty()
    } else {
        let last = pins.last();
        pin_map(pins.drop_last()).insert((last.leg, last.key@), last.url@)
    }
}

/// A key has at most one pin per leg.
pub open spec fn unique_pins(pins: Seq<StickyPin>) -> bool {
    forall|i: int, j: int|
        0 <= i < j < pins.len() ==> !(#[trigger] pins[i].leg == #[trigger] pins[j].leg
            && pins[i].key@ == pins[j].key@)
}

/// Which policy serves which role.
pub struct PolicyRoles {
    pub main: PolicyId,
    pub models: Seq<ModelPolicy>,
    pub prefill: Option<PolicyId>,
    pub decode: Option<PolicyId>,
    pub encode: PolicyId,
    /// The routing-key override is on.
    pub sticky: bool,
}

/// The policy that `models` names for `model`, the last entry first.
pub open spec fn model_policy(models: Seq<ModelPolicy>, model: Seq<char>) -> Option<PolicyId>
    decreases models.len(),
{
    if models.len() == 0 {
        None
    } else if models.last().model_id@ == model {
        Some(models.last().policy)
    } else {
        model_policy(models.drop_last(), model)
    }
}

/// The policy that is named for a model is that of an entry.
proof fn lemma_model_policy(models: Seq<ModelPolicy>, model: Seq<char>)
    ensures
        model_policy(models, model) matches Some(policy) ==> exists|i: int|
            0 <= i < models.len() && (#[trigger] models[i]).policy == policy,
    decreases models.len(),
{
    if models.len() > 0 {
        if models.last().model_id@ == model {
            assert(models[models.len() - 1].policy == models.last().policy);
        } else {
            let rest = models.drop_last();
            lemma_model_policy(rest, model);
            assert(forall|i: int| 0 <= i < rest.len() ==> #[trigger] rest[i] == models[i]);
        }
    }
}

impl PolicyRoles {
    /// The policy for whole requests of `model`: the model's own, or else the main one.
    pub open spec fn for_model(self, model: Seq<char>) -> PolicyId {
        match model_policy(self.models, model) {
            Some(policy) => policy,
            None => self.main,
        }
    }

    /// The policy of the prefill leg: the main one if none was set.
    pub open spec fn for_prefill(self) -> PolicyId {
        match self.prefill {
            Some(policy) => policy,
            None => self.main,
        }
    }

    /// The policy of the decode leg: the main one if none was set.
    pub open spec fn for_decode(self) -> PolicyId {
        match self.decode {
            Some(policy) => policy,
            None => self.main,
        }
    }
}

/// What changes when workers are picked: the states of the policies, and the pins.
pub struct PolicyState<P> {
    pub policies: Seq<P>,
    pub pins: Map<(WorkerLeg, Seq<char>), Seq<char>>,
}

/// Every leg has a policy.
pub open spec fn roles_held<P>(state: PolicyState<P>, roles: PolicyRoles) -> bool {
    &&& roles.for_prefill().index < state.policies.len()
    &&& roles.for_decode().index < state.policies.len()
    &&& roles.encode.index < state.policies.len()
}

/// One pick by one policy.
pub open spec fn policy_step<P: LoadBalancingPolicy>(
    before: P,
    workers: Seq<Arc<Worker>>,
    info: InfoView,
    picked: Option<usize>,
    after: P,
) -> bool {
    &&& P::may_pick(before, workers, info, picked, after)
    &&& sound_pick(workers, before.filters(), picked)
    &&& after.policy_name() == before.policy_name()
    &&& after.filters() == before.filters()
}

/// The key by which the override keeps a request: the one derived from the request id, and
/// only without it the one from the header.
pub open spec fn sticky_key(info: InfoView) -> Option<Seq<char>> {
    match info.rid_key {
        Some(key) => Some(key),
        None => info.routing_key,
    }
}

/// The first available worker with the url.
pub open spec fn position_of(workers: Seq<Arc<Worker>>, url: Seq<char>) -> Option<int>
    decreases workers.len(),
{
    if workers.len() == 0 {
        None
    } else {
        match position_of(workers.drop_last(), url) {
            Some(at) => Some(at),
            None => if workers.last().url@ == url && workers.last().available() {
                Some(workers.len() - 1)
            } else {
                None
            },
        }
    }
}

/// Where the worker stands to which the request sticks, if it sticks to one that is available.
pub open spec fn pinned_position(
    pins: Map<(WorkerLeg, Seq<char>), Seq<char>>,
    workers: Seq<Arc<Worker>>,
    info: InfoView,
) -> Option<int> {
    match sticky_key(info) {
        Some(key) => if pins.dom().contains((info.leg, key)) {
            position_of(workers, pins[(info.leg, key)])
        } else {
            None
        },
        None => None,
    }
}

/// The pins after a pick that a policy made.
pub open spec fn pinned_after(
    pins: Map<(WorkerLeg, Seq<char>), Seq<char>>,
    sticky: bool,
    workers: Seq<Arc<Worker>>,
    info: InfoView,
    picked: Option<usize>,
) -> Map<(WorkerLeg, Seq<char>), Seq<char>> {
    match (sticky_key(info), picked) {
        (Some(key), Some(at)) => if sticky {
            pins.insert((info.leg, key), workers[at as int].url@)
        } else {
            pins
        },
        _ => pins,
    }
}

/// One pick through the registry.
///
/// With the override on, a request whose key is pinned to an available worker of the list gets
/// that worker and changes nothing. Any other request is left to the policy, and with the
/// override on its key is pinned to the worker that the policy picked.
pub open spec fn registry_step<P: LoadBalancingPolicy>(
    before: PolicyState<P>,
    sticky: bool,
    policy: PolicyId,
    workers: Seq<Arc<Worker>>,
    info: InfoView,
    picked: Option<usize>,
    after: PolicyState<P>,
) -> bool {
    let pinned = pinned_position(before.pins, workers, info);
    if sticky && pinned is Some {
        &&& picked matches Some(at) && at == pinned->0
        &&& after == before
    } else {
        let id = policy.index as int;
        &&& policy_step(before.policies[id], workers, info, picked, after.policies[id])
        &&& after.policies == before.policies.update(id, after.policies[id])
        &&& after.pins == pinned_after(before.pins, sticky, workers, info, picked)
    }
}

/// The first marker of a conversation turn at `from` or behind it: `_t` and a digit. The
/// length of the text if there is none.
pub open spec fn turn_marker(rid: Seq<char>, from: int) -> int
    decreases rid.len() - from,
{
    if from + 2 >= rid.len() || from < 0 {
        rid.len() as int
    } else if rid[from] == '_' && rid[from + 1] == 't' && '0' <= rid[from + 2] <= '9' {
        from
    } else {
        turn_marker(rid, from + 1)
    }
}

/// The conversation that a request id belongs to: what stands before the first turn marker.
pub open spec fn conversation(rid: Seq<char>) -> Seq<char> {
    rid.take(turn_marker(rid, 0))
}

/// A pick that the registry made lies in the list.
pub proof fn lemma_position_of(workers: Seq<Arc<Worker>>, url: Seq<char>)
    ensures
        match position_of(workers, url) {
            Some(at) => 0 <= at < workers.len() && workers[at].url@ == url
                && workers[at].available() && forall|i: int|
                0 <= i < at ==> !((#[trigger] workers[i]).url@ == url && workers[i].available()),
            None => forall|i: int|
                0 <= i < workers.len() ==> !((#[trigger] workers[i]).url@ == url
                    && workers[i].available()),
        },
    decreases workers.len(),
{
    if workers.len() > 0 {
        lemma_position_of(workers.drop_last(), url);
        let rest = workers.drop_last();
        assert(forall|i: int| 0 <= i < rest.len() ==> #[trigger] workers[i] == rest[i]);
    }
}

proof fn lemma_pin_lookup(pins: Seq<StickyPin>, i: int)
    requires
        unique_pins(pins),
        0 <= i < pins.len(),
    ensures
        pin_map(pins).dom().contains((pins[i].leg, pins[i].key@)),
        pin_map(pins)[(pins[i].leg, pins[i].key@)] == pins[i].url@,
    decreases pins.len(),
{
    if i < pins.len() - 1 {
        lemma_pin_lookup(pins.drop_last(), i);
        assert(pins.drop_last()[i] == pins[i]);
        assert(!(pins[i].leg == pins.last().leg && pins[i].key@ == pins.last().key@));
    }
}

proof fn lemma_pin_absent(pins: Seq<StickyPin>, leg: WorkerLeg, key: Seq<char>)
    requires
        forall|i: int|
            0 <= i < pins.len() ==> !((#[trigger] pins[i]).leg == leg && pins[i].key@ == key),
    ensures
        !pin_map(pins).dom().contains((leg, key)),
    decreases pins.len(),
{
    if pins.len() > 0 {
        let rest = pins.drop_last();
        assert(forall|i: int| 0 <= i < rest.len() ==> #[trigger] rest[i] == pins[i]);
        lemma_pin_absent(rest, leg, key);
    }
}

proof fn lemma_pin_replaced(pins: Seq<StickyPin>, i: int, pin: StickyPin)
    requires
        unique_pins(pins),
        0 <= i < pins.len(),
        pin.leg == pins[i].leg,
        pin.key@ == pins[i].key@,
    ensures
        unique_pins(pins.update(i, pin)),
        pin_map(pins.update(i, pin)) == pin_map(pins).insert((pin.leg, pin.key@), pin.url@),
    decreases pins.len(),
{
    let changed = pins.update(i, pin);
    let last = pins.last();
    if i == pins.len() - 1 {
        assert(changed.drop_last() =~= pins.drop_last());
        assert(pin_map(changed) =~= pin_map(pins).insert((pin.leg, pin.key@), pin.url@));
    } else {
        lemma_pin_replaced(pins.drop_last(), i, pin);
        assert(changed.drop_last() =~= pins.drop_last().update(i, pin));
        assert(!(pins[i].leg == last.leg && pins[i].key@ == last.key@));
        assert(pin_map(changed) =~= pin_map(pins).insert((pin.leg, pin.key@), pin.url@));
    }
}

/// The policies of a gateway.
pub struct PolicyRegistry<P> {
    policies: Vec<P>,
    main: PolicyId,
    models: Vec<ModelPolicy>,
    prefill: Option<PolicyId>,
    decode: Option<PolicyId>,
    encode: PolicyId,
    sticky: bool,
    pins: Vec<StickyPin>,
}

impl<P: LoadBalancingPolicy> PolicyRegistry<P> {
    /// Which policy serves which role.
    pub closed spec fn roles(&self) -> PolicyRoles {
        PolicyRoles {
            main: self.main,
            models: self.models@,
            prefill: self.prefill,
            decode: self.decode,
            encode: self.encode,
            sticky: self.sticky,
        }
    }

    /// What changes when workers are picked.
    pub closed spec fn state(&self) -> PolicyState<P> {
        PolicyState { policies: self.policies@, pins: pin_map(self.pins@) }
    }

    /// The registry holds the policy.
    pub open spec fn has_policy(&self, policy: PolicyId) -> bool {
        policy.index < self.state().policies.len()
    }

    spec fn pins_unique(&self) -> bool {
        unique_pins(self.pins@)
    }

    /// Every role names a policy that the registry holds, and every key has one pin per leg.
    pub closed spec fn wf(&self) -> bool {
        &&& self.pins_unique()
        &&& self.has_policy(self.main)
        &&& self.has_policy(self.encode)
        &&& self.prefill matches Some(policy) ==> self.has_policy(policy)
        &&& self.decode matches Some(policy) ==> self.has_policy(policy)
        &&& forall|i: int|
            0 <= i < self.models@.len() ==> self.has_policy((#[trigger] self.models@[i]).policy)
    }

    /// In a well-formed registry every leg has a policy, and so have the whole requests of every
    /// model.
    pub proof fn law_every_leg_has_a_policy(&self)
        requires
            self.wf(),
        ensures
            roles_held(self.state(), self.roles()),
            forall|model: Seq<char>| self.has_policy(#[trigger] self.roles().for_model(model)),
    {
        assert forall|model: Seq<char>| self.has_policy(
            #[trigger] self.roles().for_model(model),
        ) by {
            lemma_model_policy(self.models@, model);
        }
    }

    /// A registry with a main policy and a policy for encoding, and without the override.
    pub fn new(main: P, encode: P) -> (registry: Self)
        ensures
            registry.wf(),
            registry.state().policies == seq![main, encode],
            registry.state().pins == Map::<(WorkerLeg, Seq<char>), Seq<char>>::empty(),
            registry.roles().main == (PolicyId { index: 0 }),
            registry.roles().encode == (PolicyId { index: 1 }),
            registry.roles().prefill is None,
            registry.roles().decode is None,
            registry.roles().models.len() == 0,
            !registry.roles().sticky,
    {
        let mut policies: Vec<P> = Vec::new();
        policies.push(main);
        policies.push(encode);
        PolicyRegistry {
            policies,
            main: PolicyId { index: 0 },
            models: Vec::new(),
            prefill: None,
            decode: None,
            encode: PolicyId { index: 1 },
            sticky: false,
            pins: Vec::new(),
        }
    }

    /// The same registry with the override on.
    pub fn with_override(main: P, encode: P) -> (registry: Self)
        ensures
            registry.wf(),
            registry.state().policies == seq![main, encode],
            registry.state().pins == Map::<(WorkerLeg, Seq<char>), Seq<char>>::empty(),
            registry.roles().main == (PolicyId { index: 0 }),
            registry.roles().encode == (PolicyId { index: 1 }),
            registry.roles().prefill is None,
            registry.roles().decode is None,
            registry.roles().models.len() == 0,
            registry.roles().sticky,
    {
        let mut registry = Self::new(main, encode);
        registry.sticky = true;
        registry
    }

    /// Adds a policy that has no role yet.
    pub fn add_policy(&mut self, policy: P) -> (id: PolicyId)
        requires
            old(self).wf(),
        ensures
            final(self).wf(),
            final(self).roles() == old(self).roles(),
            final(self).state().policies == old(self).state().policies.push(policy),
            final(self).state().pins == old(self).state().pins,
            id.index == old(self).state().policies.len(),
    {
        let id = PolicyId { index: self.policies.len() };
        self.policies.push(policy);
        id
    }

    /// Gives the prefill leg a policy of its own.
    pub fn set_prefill_policy(&mut self, policy: PolicyId)
        requires
            old(self).wf(),
            old(self).has_policy(policy),
        ensures
            final(self).wf(),
            final(self).state() == old(self).state(),
            final(self).roles() == (PolicyRoles { prefill: Some(policy), ..old(self).roles() }),
    {
        self.prefill = Some(policy);
    }

    /// Gives the decode leg a policy of its own.
    pub fn set_decode_policy(&mut self, policy: PolicyId)
        requires
            old(self).wf(),
            old(self).has_policy(policy),
        ensures
            final(self).wf(),
            final(self).state() == old(self).state(),
            final(self).roles() == (PolicyRoles { decode: Some(policy), ..old(self).roles() }),
    {
        self.decode = Some(policy);
    }

    /// Gives encoding another policy.
    pub fn set_encode_policy(&mut self, policy: PolicyId)
        requires
            old(self).wf(),
            old(self).has_policy(policy),
        ensures
            final(self).wf(),
            final(self).state() == old(self).state(),
            final(self).roles() == (PolicyRoles { encode: policy, ..old(self).roles() }),
    {
        self.encode = policy;
    }

    /// Gives a model a policy of its own.
    pub fn set_model_policy(&mut self, model_id: String, policy: PolicyId)
        requires
            old(self).wf(),
            old(self).has_policy(policy),
        ensures
            final(self).wf(),
            final(self).state() == old(self).state(),
            final(self).roles() == (PolicyRoles {
                models: old(self).roles().models.push(ModelPolicy { model_id, policy }),
                ..old(self).roles()
            }),
    {
        self.models.push(ModelPolicy { model_id, policy });
    }

    /// The policy of the prefill leg.
    pub fn get_prefill_policy(&self) -> (policy: PolicyId)
        requires
            self.wf(),
        ensures
            policy == self.roles().for_prefill(),
            self.has_policy(policy),
    {
        match self.prefill {
            Some(policy) => policy,
            None => self.main,
        }
    }

    /// The policy of the decode leg.
    pub fn get_decode_policy(&self) -> (policy: PolicyId)
        requires
            self.wf(),
        ensures
            policy == self.roles().for_decode(),
            self.has_policy(policy),
    {
        match self.decode {
            Some(policy) => policy,
            None => self.main,
        }
    }

    /// The policy for encoding.
    pub fn get_encode_policy(&self) -> (policy: PolicyId)
        requires
            self.wf(),
        ensures
            policy == self.roles().encode,
            self.has_policy(policy),
    {
        self.encode
    }

    /// The policy for whole requests of a model.
    pub fn get_policy_or_default(&self, model_id: &str) -> (policy: PolicyId)
        requires
            self.wf(),
        ensures
            policy == self.roles().for_model(model_id@),
            self.has_policy(policy),
    {
        let mut i: usize = self.models.len();
        assert(self.models@.take(i as int) =~= self.models@);
        while i > 0
            invariant
                self.wf(),
                i <= self.models@.len(),
                model_policy(self.models@, model_id@) == model_policy(
                    self.models@.take(i as int),
                    model_id@,
                ),
            decreases i,
        {
            let ghost prefix = self.models@.take(i as int);
            i = i - 1;
            assert(prefix.drop_last() =~= self.models@.take(i as int));
            if self.models[i].model_id.as_str().eq(model_id) {
                return self.models[i].policy;
            }
        }
        self.main
    }

    /// The name of a policy.
    pub fn policy_name(&self, policy: PolicyId) -> (name: &str)
        requires
            self.has_policy(policy),
        ensures
            name@ == self.state().policies[policy.index as int].policy_name(),
    {
        self.policies[policy.index].name()
    }

    /// Whether a policy leaves unavailable workers out by itself.
    pub fn policy_filters(&self, policy: PolicyId) -> (filters: bool)
        requires
            self.has_policy(policy),
        ensures
            filters == self.state().policies[policy.index as int].filters(),
    {
        policy_filters_unavailable_workers(&self.policies[policy.index])
    }

    /// The routing key that the request carries in its headers.
    pub fn resolve_routing_key<'a>(
        &self,
        headers: Option<&'a HeaderMap<HeaderValue>>,
    ) -> (key: Option<&'a str>)
        ensures
            text_view(key) == request_header(optional_values(headers), ROUTING_KEY_HEADER@),
    {
        extract_routing_key(headers)
    }

    /// The key from the headers by which the override keeps the request.
    pub fn sticky_header_key<'a>(
        &self,
        headers: Option<&'a HeaderMap<HeaderValue>>,
    ) -> (key: Option<&'a str>)
        ensures
            text_view(key) == if self.roles().sticky {
                request_header(optional_values(headers), ROUTING_KEY_HEADER@)
            } else {
                None
            },
    {
        if self.sticky {
            extract_routing_key(headers)
        } else {
            None
        }
    }

    /// The key that is derived from the request id, while the override is on: the conversation
    /// of the request.
    pub fn derive_rid_key<'a>(&self, rid: Option<&'a str>) -> (key: Option<&'a str>)
        ensures
            text_view(key) == rid_key(self.roles().sticky, text_view(rid)),
    {
        let rid: &'a str = match rid {
            Some(rid) => rid,
            None => {
                return None;
            },
        };
        if !self.sticky {
            return None;
        }
        let len: usize = rid.unicode_len();
        let mut at: usize = 0;
        while at < len && !is_turn_marker(rid, at, len)
            invariant
                len == rid@.len(),
                at <= len,
                turn_marker(rid@, 0) == turn_marker(rid@, at as int),
            decreases len - at,
        {
            at = at + 1;
        }
        let key: &'a str = rid.substring_char(0, at);
        assert(at == turn_marker(rid@, 0));
        assert(key@ =~= conversation(rid@));
        if at == 0 {
            return None;
        }
        Some(key)
    }

    /// The policy itself, for picks that the override does not touch.
    pub fn policy_mut(&mut self, policy: PolicyId) -> (inner: &mut P)
        requires
            old(self).wf(),
            old(self).has_policy(policy),
        ensures
            *inner == old(self).state().policies[policy.index as int],
            final(self).wf(),
            final(self).roles() == old(self).roles(),
            final(self).state().pins == old(self).state().pins,
            final(self).state().policies == old(self).state().policies.update(
                policy.index as int,
                *final(inner),
            ),
    {
        &mut self.policies[policy.index]
    }

    /// Picks a worker from the list: by the override if it is on and the key of the request is
    /// pinned to an available worker of the list, and by the policy otherwise.
    pub fn select_worker(
        &mut self,
        policy: PolicyId,
        workers: &Vec<Arc<Worker>>,
        info: &SelectWorkerInfo<'_>,
    ) -> (picked: Option<usize>)
        requires
            old(self).wf(),
            old(self).has_policy(policy),
        ensures
            final(self).wf(),
            final(self).roles() == old(self).roles(),
            registry_step(
                old(self).state(),
                old(self).roles().sticky,
                policy,
                workers@,
                info@,
                picked,
                final(self).state(),
            ),
            picked matches Some(at) ==> at < workers@.len(),
    {
        if !self.sticky {
            return self.delegate(policy, workers, info);
        }
        let key: &str = match info.rid_key {
            Some(key) => key,
            None => match info.routing_key {
                Some(key) => key,
                None => {
                    return self.delegate(policy, workers, info);
                },
            },
        };
        let pin: Option<usize> = self.find_pin(info.leg, key);
        if let Some(pin) = pin {
            let at: Option<usize> = find_available(workers, self.pins[pin].url.as_str());
            proof {
                lemma_pin_lookup(self.pins@, pin as int);
                lemma_position_of(workers@, self.pins@[pin as int].url@);
            }
            if let Some(at) = at {
                return Some(at);
            }
        } else {
            proof {
                lemma_pin_absent(self.pins@, info.leg, key@);
            }
        }
        let picked: Option<usize> = self.delegate(policy, workers, info);
        if let Some(at) = picked {
            self.pin(pin, info.leg, key, workers[at].url.as_str());
        }
        picked
    }

    /// Picks a worker by the policy alone.
    fn delegate(
        &mut self,
        policy: PolicyId,
        workers: &Vec<Arc<Worker>>,
        info: &SelectWorkerInfo<'_>,
    ) -> (picked: Option<usize>)
        requires
            old(self).wf(),
            old(self).has_policy(policy),
        ensures
            final(self).wf(),
            final(self).roles() == old(self).roles(),
            final(self).pins == old(self).pins,
            policy_step(
                old(self).state().policies[policy.index as int],
                workers@,
                info@,
                picked,
                final(self).state().policies[policy.index as int],
            ),
            final(self).state().policies == old(self).state().policies.update(
                policy.index as int,
                final(self).state().policies[policy.index as int],
            ),
    {
        self.policies[policy.index].select_worker(workers, info)
    }

    fn find_pin(&self, leg: WorkerLeg, key: &str) -> (found: Option<usize>)
        ensures
            match found {
                Some(i) => i < self.pins@.len() && self.pins@[i as int].leg == leg
                    && self.pins@[i as int].key@ == key@,
                None => forall|i: int|
                    0 <= i < self.pins@.len() ==> !((#[trigger] self.pins@[i]).leg == leg
                        && self.pins@[i].key@ == key@),
            },
    {
        let mut i: usize = 0;
        while i < self.pins.len()
            invariant
                i <= self.pins@.len(),
                forall|j: int|
                    0 <= j < i ==> !((#[trigger] self.pins@[j]).leg == leg && self.pins@[j].key@
                        == key@),
            decreases self.pins@.len() - i,
        {
            if self.pins[i].leg == leg && self.pins[i].key.as_str().eq(key) {
                return Some(i);
            }
            i = i + 1;
        }
        None
    }

    fn pin(&mut self, at: Option<usize>, leg: WorkerLeg, key: &str, url: &str)
        requires
            old(self).wf(),
            match at {
                Some(i) => i < old(self).pins@.len() && old(self).pins@[i as int].leg == leg
                    && old(self).pins@[i as int].key@ == key@,
                None => forall|i: int|
                    0 <= i < old(self).pins@.len() ==> !((#[trigger] old(self).pins@[i]).leg == leg
                        && old(self).pins@[i].key@ == key@),
            },
        ensures
            final(self).wf(),
            final(self).roles() == old(self).roles(),
            final(self).state().policies == old(self).state().policies,
            final(self).state().pins == old(self).state().pins.insert((leg, key@), url@),
    {
        let pin = StickyPin { leg, key: key.to_owned(), url: url.to_owned() };
        match at {
            Some(i) => {
                proof {
                    lemma_pin_replaced(self.pins@, i as int, pin);
                }
                self.pins.set(i, pin);
            },
            None => {
                self.pins.push(pin);
                assert(self.pins@.drop_last() =~= old(self).pins@);
            },
        }
    }
}

/// The key that a request id gives: its conversation, while the override is on and if there is
/// one.
pub open spec fn rid_key(sticky: bool, rid: Option<Seq<char>>) -> Option<Seq<char>> {
    match rid {
        Some(rid) => if sticky && conversation(rid).len() > 0 {
            Some(conversation(rid))
        } else {
            None
        },
        None => None,
    }
}

fn is_turn_marker(rid: &str, at: usize, len: usize) -> (marker: bool)
    requires
        len == rid@.len(),
        at < len,
    ensures
        marker <==> at + 2 < len && rid@[at as int] == '_' && rid@[at + 1] == 't' && '0' <= rid@[at
            + 2] <= '9',
{
    if len - at <= 2 {
        return false;
    }
    let digit: char = rid.get_char(at + 2);
    rid.get_char(at) == '_' && rid.get_char(at + 1) == 't' && '0' <= digit && digit <= '9'
}

/// The first available worker with the url.
fn find_available(workers: &Vec<Arc<Worker>>, url: &str) -> (found: Option<usize>)
    ensures
        match (found, position_of(workers@, url@)) {
            (Some(at), Some(position)) => at == position,
            (None, None) => true,
            _ => false,
        },
{
    proof {
        lemma_position_of(workers@, url@);
    }
    let mut i: usize = 0;
    while i < workers.len()
        invariant
            i <= workers@.len(),
            forall|j: int|
                0 <= j < i ==> !((#[trigger] workers@[j]).url@ == url@ && workers@[j].available()),
        decreases workers@.len() - i,
    {
        if workers[i].url.as_str().eq(url) && workers[i].is_available() {
            proof {
                lemma_position_of(workers@, url@);
                assert(workers@[i as int].available());
            }
            return Some(i);
        }
        i = i + 1;
    }
    None
}

} // verus!
