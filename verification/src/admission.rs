//! Admission to prefill workers: how many requests a worker takes at once, and how many wait.

use crate::worker::Worker;
use std::sync::Arc;
use vstd::prelude::*;

verus! {

/// Why a selection found no candidates.
#[derive(Clone, Copy, Debug, PartialEq, Eq, Structural)]
pub enum GrpcPdCandidateError {
    /// No set of workers can serve the request now.
    Unavailable,
    /// Workers could serve the request, but the prefill workers are full.
    AtCapacity,
}

impl GrpcPdCandidateError {
    /// Whether the request could be served once a prefill worker has room.
    pub fn is_at_capacity(&self) -> (full: bool)
        ensures
            full == (*self == GrpcPdCandidateError::AtCapacity),
    {
        *self == GrpcPdCandidateError::AtCapacity
    }
}

/// Why a request is not let in.
#[derive(Clone, Copy, Debug, PartialEq, Eq, Structural)]
pub enum PrefillAdmissionRejection {
    QueueFull,
    QueueTimeout,
    Unavailable,
}

/// Why a request did not get a prefill worker.
#[derive(Clone, Copy, Debug, PartialEq, Eq, Structural)]
pub enum PrefillAcquireError {
    Rejected(PrefillAdmissionRejection),
    Candidate(GrpcPdCandidateError),
}

/// What brings a request to admission.
#[derive(Clone, Copy, Debug, PartialEq, Eq, Structural)]
pub enum AdmissionEvent {
    /// The request is new.
    Arrived,
    /// The request waits, and a prefill worker may have room now.
    CapacityFreed,
    /// The request has waited too long.
    TimedOut,
}

/// The place of a request on its prefill worker. It is handed back with
/// [`PrefillAdmission::release`].
#[derive(Debug)]
pub struct PrefillLoadGuard {
    pub prefill: Arc<Worker>,
}

/// What admission makes of a selection.
#[derive(Debug)]
pub enum AdmissionVerdict {
    /// The request has a place on the prefill worker.
    Admitted(PrefillLoadGuard),
    /// The request waits in the queue.
    Waiting,
    /// The request ends.
    Failed(PrefillAcquireError),
}

/// How often the url occurs.
pub open spec fn occurrences(urls: Seq<String>, url: Seq<char>) -> nat
    decreases urls.len(),
{
    if urls.len() == 0 {
        0
    } else {
        occurrences(urls.drop_last(), url) + if urls.last()@ == url {
            1nat
        } else {
            0nat
        }
    }
}

proof fn lemma_occurrences_removed(urls: Seq<String>, at: int, url: Seq<char>)
    requires
        0 <= at < urls.len(),
    ensures
        occurrences(urls, url) == occurrences(urls.remove(at), url) + if urls[at]@ == url {
            1nat
        } else {
            0nat
        },
    decreases urls.len(),
{
    if at == urls.len() - 1 {
        assert(urls.remove(at) =~= urls.drop_last());
    } else {
        lemma_occurrences_removed(urls.drop_last(), at, url);
        assert(urls.remove(at).drop_last() =~= urls.drop_last().remove(at));
        assert(urls.remove(at).last() == urls.last());
    }
}

proof fn lemma_occurrences_none(urls: Seq<String>, url: Seq<char>)
    requires
        forall|i: int| 0 <= i < urls.len() ==> (#[trigger] urls[i])@ != url,
    ensures
        occurrences(urls, url) == 0,
    decreases urls.len(),
{
    if urls.len() > 0 {
        let rest = urls.drop_last();
        assert(forall|i: int| 0 <= i < rest.len() ==> #[trigger] rest[i] == urls[i]);
        lemma_occurrences_none(rest, url);
    }
}

/// The prefill workers' load, and the queue in front of them.
pub struct PrefillAdmission {
    limit: usize,
    max_queued: usize,
    queue_timeout_ms: u64,
    places: Vec<String>,
    queued: usize,
}

impl PrefillAdmission {
    /// How many requests one prefill worker takes at once.
    pub closed spec fn limit(&self) -> nat {
        self.limit as nat
    }

    /// How many requests may wait.
    pub closed spec fn max_queued(&self) -> nat {
        self.max_queued as nat
    }

    /// How long a request may wait, in milliseconds.
    pub closed spec fn timeout_ms(&self) -> nat {
        self.queue_timeout_ms as nat
    }

    /// How many requests wait.
    pub closed spec fn queued(&self) -> nat {
        self.queued as nat
    }

    /// How many requests have a place on the worker at `url`.
    pub closed spec fn load(&self, url: Seq<char>) -> nat {
        occurrences(self.places@, url)
    }

    /// No worker holds more requests than it takes, and no more requests wait than may.
    pub open spec fn wf(&self) -> bool {
        &&& self.queued() <= self.max_queued()
        &&& forall|url: Seq<char>| #[trigger] self.load(url) <= self.limit()
    }

    /// The worker at `url` has room for one more request.
    pub open spec fn has_room(&self, url: Seq<char>) -> bool {
        self.load(url) < self.limit()
    }

    /// The limits are those of `other`.
    pub open spec fn same_limits(&self, other: &PrefillAdmission) -> bool {
        &&& self.limit() == other.limit()
        &&& self.max_queued() == other.max_queued()
        &&& self.timeout_ms() == other.timeout_ms()
    }

    /// Every worker has the load that it has in `other`.
    pub open spec fn same_loads(&self, other: &PrefillAdmission) -> bool {
        forall|url: Seq<char>| #[trigger] self.load(url) == other.load(url)
    }

    /// The worker at `url` has one request more than in `other`, the others have as many.
    pub open spec fn one_more(&self, other: &PrefillAdmission, url: Seq<char>) -> bool {
        forall|any: Seq<char>| #[trigger]
            self.load(any) == other.load(any) + if any == url {
                1nat
            } else {
                0nat
            }
    }

    /// Admission without load and without queue.
    pub fn new(limit: usize, max_queued: usize, queue_timeout_ms: u64) -> (admission: Self)
        ensures
            admission.wf(),
            admission.limit() == limit,
            admission.max_queued() == max_queued,
            admission.timeout_ms() == queue_timeout_ms,
            admission.queued() == 0,
            forall|url: Seq<char>| #[trigger] admission.load(url) == 0,
    {
        PrefillAdmission { limit, max_queued, queue_timeout_ms, places: Vec::new(), queued: 0 }
    }

    /// How many requests wait.
    pub fn queued_requests(&self) -> (count: usize)
        ensures
            count == self.queued(),
    {
        self.queued
    }

    /// How long a request may wait, in milliseconds.
    pub fn queue_timeout_ms(&self) -> (timeout: u64)
        ensures
            timeout == self.timeout_ms(),
    {
        self.queue_timeout_ms
    }

    /// How many requests have a place on the worker at `url`.
    pub fn worker_load(&self, url: &str) -> (load: usize)
        ensures
            load == self.load(url@),
    {
        let mut load: usize = 0;
        let mut i: usize = 0;
        while i < self.places.len()
            invariant
                load <= i <= self.places@.len(),
                load == occurrences(self.places@.take(i as int), url@),
            decreases self.places@.len() - i,
        {
            assert(self.places@.take(i + 1).drop_last() =~= self.places@.take(i as int));
            if self.places[i].as_str().eq(url) {
                load = load + 1;
            }
            i = i + 1;
        }
        assert(self.places@.take(i as int) =~= self.places@);
        load
    }

    /// Gives a request a place on the worker, if the worker has room.
    pub fn occupy(&mut self, worker: &Arc<Worker>) -> (guard: Option<PrefillLoadGuard>)
        requires
            old(self).wf(),
        ensures
            final(self).wf(),
            final(self).same_limits(old(self)),
            final(self).queued() == old(self).queued(),
            guard is Some <==> old(self).has_room(worker.url@),
            guard is None ==> final(self).same_loads(old(self)),
            guard matches Some(place) ==> place.prefill == *worker && final(self).one_more(
                old(self),
                worker.url@,
            ),
    {
        if self.worker_load(worker.url.as_str()) >= self.limit {
            return None;
        }
        self.places.push(worker.url.clone());
        proof {
            assert(self.places@.drop_last() =~= old(self).places@);
            assert(self.one_more(old(self), worker.url@));
            assert forall|url: Seq<char>| #[trigger] self.load(url) <= self.limit() by {
                assert(old(self).load(url) <= old(self).limit());
            }
        }
        Some(PrefillLoadGuard { prefill: Arc::clone(worker) })
    }

    /// Takes the place of a request back.
    pub fn release(&mut self, guard: PrefillLoadGuard)
        requires
            old(self).wf(),
        ensures
            final(self).wf(),
            final(self).same_limits(old(self)),
            final(self).queued() == old(self).queued(),
            if old(self).load(guard.prefill.url@) == 0 {
                final(self).same_loads(old(self))
            } else {
                old(self).one_more(final(self), guard.prefill.url@)
            },
    {
        let url: &str = guard.prefill.url.as_str();
        let mut i: usize = 0;
        while i < self.places.len()
            invariant
                *self == *old(self),
                i <= self.places@.len(),
                url@ == guard.prefill.url@,
                old(self).wf(),
                forall|j: int| 0 <= j < i ==> (#[trigger] self.places@[j])@ != url@,
            decreases self.places@.len() - i,
        {
            if self.places[i].as_str().eq(url) {
                self.places.remove(i);
                proof {
                    assert forall|any: Seq<char>| #[trigger]
                        old(self).load(any) == self.load(any) + if any == url@ {
                            1nat
                        } else {
                            0nat
                        } by {
                        lemma_occurrences_removed(old(self).places@, i as int, any);
                    }
                    assert(old(self).load(url@) == self.load(url@) + 1);
                    assert forall|any: Seq<char>| #[trigger] self.load(any) <= self.limit() by {
                        assert(old(self).load(any) <= old(self).limit());
                    }
                }
                return ;
            }
            i = i + 1;
        }
        proof {
            lemma_occurrences_none(self.places@, url@);
        }
    }

    /// A waiting request leaves the queue.
    pub fn leave_queue(&mut self)
        requires
            old(self).wf(),
        ensures
            final(self).wf(),
            final(self).same_limits(old(self)),
            final(self).same_loads(old(self)),
            final(self).queued() == if old(self).queued() == 0 {
                0
            } else {
                old(self).queued() - 1
            },
    {
        if self.queued > 0 {
            self.queued = self.queued - 1;
        }
        assert(forall|url: Seq<char>| #[trigger] self.load(url) == old(self).load(url));
    }

    /// A request joins the queue, if there is a place in it.
    pub fn join_queue(&mut self) -> (joined: bool)
        requires
            old(self).wf(),
        ensures
            final(self).wf(),
            final(self).same_limits(old(self)),
            final(self).same_loads(old(self)),
            joined == (old(self).queued() < old(self).max_queued()),
            final(self).queued() == old(self).queued() + if joined {
                1nat
            } else {
                0nat
            },
    {
        if self.queued >= self.max_queued {
            return false;
        }
        self.queued = self.queued + 1;
        assert(forall|url: Seq<char>| #[trigger] self.load(url) == old(self).load(url));
        true
    }
}

/// What a selection sees of admission: which prefill workers have room.
pub struct PrefillSelectionContext<'a> {
    pub admission: &'a PrefillAdmission,
}

impl<'a> PrefillSelectionContext<'a> {
    /// Whether the worker has room for one more request.
    pub fn has_capacity(&self, worker: &Worker) -> (room: bool)
        ensures
            room == self.admission.has_room(worker.url@),
    {
        self.admission.worker_load(worker.url.as_str()) < self.admission.limit
    }
}

} // verus!
