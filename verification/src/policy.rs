//! Load-balancing policies: how one worker is picked from a list.

use crate::headers::{optional_values, text_view};
use crate::registry::HashRing;
use crate::worker::Worker;
use axum::http::{HeaderMap, HeaderValue};
use std::sync::Arc;
use vstd::prelude::*;

verus! {

/// The leg of the request for which a worker is picked. Keys stick per leg.
#[derive(Clone, Copy, Debug, PartialEq, Eq, Structural)]
pub enum WorkerLeg {
    Single,
    Prefill,
    Decode,
}

/// What a policy may look at besides the workers.
pub struct SelectWorkerInfo<'a> {
    pub request_text: Option<&'a str>,
    pub tokens: Option<&'a [u32]>,
    pub headers: Option<&'a HeaderMap<HeaderValue>>,
    pub routing_key: Option<&'a str>,
    pub rid_key: Option<&'a str>,
    pub hash_ring: Option<Arc<HashRing>>,
    pub leg: WorkerLeg,
}

/// The contents of a [`SelectWorkerInfo`].
pub struct InfoView {
    pub request_text: Option<Seq<char>>,
    pub tokens: Option<Seq<u32>>,
    pub headers: Option<Map<Seq<char>, Seq<u8>>>,
    pub routing_key: Option<Seq<char>>,
    pub rid_key: Option<Seq<char>>,
    pub hash_ring: Option<Arc<HashRing>>,
    pub leg: WorkerLeg,
}

/// The contents of an optional token list.
pub open spec fn tokens_view(tokens: Option<&[u32]>) -> Option<Seq<u32>> {
    match tokens {
        Some(tokens) => Some(tokens@),
        None => None,
    }
}

impl<'a> View for SelectWorkerInfo<'a> {
    type V = InfoView;

    open spec fn view(&self) -> InfoView {
        InfoView {
            request_text: text_view(self.request_text),
            tokens: tokens_view(self.tokens),
            headers: optional_values(self.headers),
            routing_key: text_view(self.routing_key),
            rid_key: text_view(self.rid_key),
            hash_ring: self.hash_ring,
            leg: self.leg,
        }
    }
}

/// The pick lies in the list, and a policy that filters picks an available worker.
pub open spec fn sound_pick(
    workers: Seq<Arc<Worker>>,
    filters: bool,
    picked: Option<usize>,
) -> bool {
    picked matches Some(at) ==> at < workers.len() && (filters ==> workers[at as int].available())
}

/// A rule by which one worker is picked from a list. A policy may keep state between picks.
pub trait LoadBalancingPolicy: Sized {
    /// The name of the policy.
    spec fn policy_name(&self) -> Seq<char>;

    /// The policy leaves unavailable workers out by itself.
    spec fn filters(&self) -> bool;

    /// In state `before`, the policy may answer `picked` and be in state `after` then.
    spec fn may_pick(
        before: Self,
        workers: Seq<Arc<Worker>>,
        info: InfoView,
        picked: Option<usize>,
        after: Self,
    ) -> bool;

    /// The name of the policy.
    fn name(&self) -> (name: &str)
        ensures
            name@ == self.policy_name(),
    ;

    /// Whether the policy leaves unavailable workers out by itself.
    fn filters_unavailable_workers(&self) -> (filters: bool)
        ensures
            filters == self.filters(),
    ;

    /// Picks a position in the list, or none.
    fn select_worker(
        &mut self,
        workers: &Vec<Arc<Worker>>,
        info: &SelectWorkerInfo<'_>,
    ) -> (picked: Option<usize>)
        ensures
            Self::may_pick(*old(self), workers@, info@, picked, *final(self)),
            sound_pick(workers@, old(self).filters(), picked),
            final(self).policy_name() == old(self).policy_name(),
            final(self).filters() == old(self).filters(),
    ;
}

/// Whether the policy may be handed workers that are not available.
pub fn policy_filters_unavailable_workers<P: LoadBalancingPolicy>(policy: &P) -> (filters: bool)
    ensures
        filters == policy.filters(),
{
    policy.filters_unavailable_workers()
}

/// Takes the workers of the list in turn.
#[derive(Debug)]
pub struct RoundRobinPolicy {
    pub counter: usize,
}

impl RoundRobinPolicy {
    /// A policy that starts with the first worker.
    pub fn new() -> (policy: Self)
        ensures
            policy.counter == 0,
    {
        RoundRobinPolicy { counter: 0 }
    }
}

/// The counter after one more pick.
pub open spec fn next_count(counter: usize) -> usize {
    if counter == usize::MAX {
        0
    } else {
        (counter + 1) as usize
    }
}

impl LoadBalancingPolicy for RoundRobinPolicy {
    open spec fn policy_name(&self) -> Seq<char> {
        "round_robin"@
    }

    open spec fn filters(&self) -> bool {
        false
    }

    open spec fn may_pick(
        before: Self,
        workers: Seq<Arc<Worker>>,
        info: InfoView,
        picked: Option<usize>,
        after: Self,
    ) -> bool {
        if workers.len() == 0 {
            picked is None && after == before
        } else {
            picked == Some((before.counter as int % workers.len() as int) as usize)
                && after.counter == next_count(before.counter)
        }
    }

    fn name(&self) -> (name: &str) {
        "round_robin"
    }

    fn filters_unavailable_workers(&self) -> (filters: bool) {
        false
    }

    fn select_worker(
        &mut self,
        workers: &Vec<Arc<Worker>>,
        info: &SelectWorkerInfo<'_>,
    ) -> (picked: Option<usize>) {
        if workers.len() == 0 {
            return None;
        }
        let at: usize = self.counter % workers.len();
        if self.counter == usize::MAX {
            self.counter = 0;
        } else {
            self.counter = self.counter + 1;
        }
        Some(at)
    }
}

/// A policy that is given as a function.
pub struct FnPolicy<F: Fn(&Vec<Arc<Worker>>, &SelectWorkerInfo<'_>) -> Option<usize>> {
    name: String,
    filters: bool,
    select: F,
}

/// The function takes every list and every info, and its picks are sound.
pub open spec fn picks_soundly<
    F: Fn(&Vec<Arc<Worker>>, &SelectWorkerInfo<'_>) -> Option<usize>,
>(select: F, filters: bool) -> bool {
    &&& forall|workers: &Vec<Arc<Worker>>, info: &SelectWorkerInfo<'_>| #[trigger]
        call_requires(select, (workers, info))
    &&& forall|
        workers: &Vec<Arc<Worker>>,
        info: &SelectWorkerInfo<'_>,
        picked: Option<usize>,
    | #[trigger]
        call_ensures(select, (workers, info), picked) ==> sound_pick(workers@, filters, picked)
}

impl<F: Fn(&Vec<Arc<Worker>>, &SelectWorkerInfo<'_>) -> Option<usize>> FnPolicy<F> {
    #[verifier::type_invariant]
    spec fn sound(self) -> bool {
        picks_soundly(self.select, self.filters)
    }

    /// The name that was given.
    pub closed spec fn given_name(&self) -> Seq<char> {
        self.name@
    }

    /// Whether the function is said to leave unavailable workers out.
    pub closed spec fn given_filters(&self) -> bool {
        self.filters
    }

    /// The function that was given.
    pub closed spec fn given_select(&self) -> F {
        self.select
    }

    /// A policy under `name` that answers what `select` answers.
    pub fn new(name: String, filters: bool, select: F) -> (policy: Self)
        requires
            picks_soundly(select, filters),
        ensures
            policy.given_name() == name@,
            policy.given_filters() == filters,
            policy.given_select() == select,
    {
        FnPolicy { name, filters, select }
    }
}

impl<F: Fn(&Vec<Arc<Worker>>, &SelectWorkerInfo<'_>) -> Option<usize>> LoadBalancingPolicy
    for FnPolicy<F> {
    open spec fn policy_name(&self) -> Seq<char> {
        self.given_name()
    }

    open spec fn filters(&self) -> bool {
        self.given_filters()
    }

    open spec fn may_pick(
        before: Self,
        workers: Seq<Arc<Worker>>,
        info: InfoView,
        picked: Option<usize>,
        after: Self,
    ) -> bool {
        &&& after == before
        &&& exists|list: &Vec<Arc<Worker>>, told: &SelectWorkerInfo<'_>|
            list@ == workers && told@ == info && #[trigger] call_ensures(
                before.given_select(),
                (list, told),
                picked,
            )
    }

    fn name(&self) -> (name: &str) {
        self.name.as_str()
    }

    fn filters_unavailable_workers(&self) -> (filters: bool) {
        self.filters
    }

    fn select_worker(
        &mut self,
        workers: &Vec<Arc<Worker>>,
        info: &SelectWorkerInfo<'_>,
    ) -> (picked: Option<usize>) {
        proof {
            use_type_invariant(&*self);
        }
        let picked = (self.select)(workers, info);
        assert(call_ensures(self.given_select(), (workers, info), picked));
        picked
    }
}

} // verus!
