//! The unit carried by the shared queue, and how a queue's contents are
//! accounted for in specifications.

use vstd::prelude::*;

verus! {

/// Identifier a submitter attaches to one unit of deferred work.
///
/// The pool never looks inside a job: it only moves it from the submitter to
/// exactly one worker. The callable itself is carried by the embedding
/// program, keyed by this identifier.
pub type JobId = usize;

/// What flows through the shared ingress queue: either one job, or the
/// sentinel that tells whichever worker dequeues it to exit its loop.
///
/// Mixing the sentinel into the work queue keeps one ordered delivery path:
/// a worker cannot see its shutdown before the work that was queued earlier.
#[derive(Clone, Copy, PartialEq, Eq, Structural, Debug)]
pub enum ControlMessage {
    Work(JobId),
    Shutdown,
}

/// The job identifiers a single message contributes to the queue's workload.
pub open spec fn work_of(m: ControlMessage) -> Seq<JobId> {
    match m {
        ControlMessage::Work(j) => seq![j],
        ControlMessage::Shutdown => Seq::empty(),
    }
}

/// The job identifiers of the `Work` messages of `q`, in queue order.
pub open spec fn work_ids(q: Seq<ControlMessage>) -> Seq<JobId>
    decreases q.len(),
{
    if q.len() == 0 {
        Seq::empty()
    } else {
        work_of(q[0]) + work_ids(q.drop_first())
    }
}

/// How many `Shutdown` sentinels `q` holds.
pub open spec fn shutdown_count(q: Seq<ControlMessage>) -> nat
    decreases q.len(),
{
    if q.len() == 0 {
        0
    } else {
        (if q[0] is Shutdown {
            1nat
        } else {
            0nat
        }) + shutdown_count(q.drop_first())
    }
}

/// Workload accounting distributes over concatenation of queues.
pub proof fn lemma_work_ids_concat(a: Seq<ControlMessage>, b: Seq<ControlMessage>)
    ensures
        work_ids(a + b) == work_ids(a) + work_ids(b),
    decreases a.len(),
{
    if a.len() == 0 {
        assert(a + b =~= b);
        assert(work_ids(a) + work_ids(b) =~= work_ids(b));
    } else {
        lemma_work_ids_concat(a.drop_first(), b);
        assert((a + b).drop_first() =~= a.drop_first() + b);
        assert(work_ids(a + b) =~= work_ids(a) + work_ids(b));
    }
}

/// Sentinel accounting distributes over concatenation of queues.
pub proof fn lemma_shutdown_count_concat(a: Seq<ControlMessage>, b: Seq<ControlMessage>)
    ensures
        shutdown_count(a + b) == shutdown_count(a) + shutdown_count(b),
    decreases a.len(),
{
    if a.len() == 0 {
        assert(a + b =~= b);
    } else {
        lemma_shutdown_count_concat(a.drop_first(), b);
        assert((a + b).drop_first() =~= a.drop_first() + b);
    }
}

/// A one-message queue holds exactly that message's workload.
pub proof fn lemma_work_ids_singleton(m: ControlMessage)
    ensures
        work_ids(seq![m]) == work_of(m),
{
    reveal_with_fuel(work_ids, 2);
    assert(seq![m].drop_first() =~= Seq::<ControlMessage>::empty());
    assert(work_ids(seq![m]) =~= work_of(m));
}

/// A one-message queue holds exactly that message's sentinel count.
pub proof fn lemma_shutdown_count_singleton(m: ControlMessage)
    ensures
        shutdown_count(seq![m]) == (if m is Shutdown {
            1nat
        } else {
            0nat
        }),
{
    reveal_with_fuel(shutdown_count, 2);
    assert(seq![m].drop_first() =~= Seq::<ControlMessage>::empty());
}

/// Enqueueing one message at the back extends the workload by that message's
/// contribution and leaves earlier work in place.
pub proof fn lemma_work_ids_push(q: Seq<ControlMessage>, m: ControlMessage)
    ensures
        work_ids(q.push(m)) == work_ids(q) + work_of(m),
{
    assert(q.push(m) =~= q + seq![m]);
    lemma_work_ids_concat(q, seq![m]);
    lemma_work_ids_singleton(m);
}

/// Enqueueing one message at the back adds that message's sentinel count.
pub proof fn lemma_shutdown_count_push(q: Seq<ControlMessage>, m: ControlMessage)
    ensures
        shutdown_count(q.push(m)) == shutdown_count(q) + (if m is Shutdown {
            1nat
        } else {
            0nat
        }),
{
    assert(q.push(m) =~= q + seq![m]);
    lemma_shutdown_count_concat(q, seq![m]);
    lemma_shutdown_count_singleton(m);
}

/// A queue whose last message is a sentinel holds at least one sentinel.
pub proof fn lemma_shutdown_count_last(q: Seq<ControlMessage>)
    requires
        q.len() > 0,
        q.last() is Shutdown,
    ensures
        shutdown_count(q) >= 1,
    decreases q.len(),
{
    if q.len() == 1 {
        assert(q[0] == q.last());
    } else {
        assert(q.drop_first().last() == q.last());
        lemma_shutdown_count_last(q.drop_first());
    }
}

} // verus!
