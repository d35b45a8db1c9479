//! A worker: an ordinal identity bound to one thread of execution, with the
//! accounting that specifications do over a whole bench of workers.

use vstd::prelude::*;
use crate::message::JobId;

verus! {

/// Where one worker stands in its loop.
///
/// `Terminated` is reached only through a `Shutdown` message and is
/// absorbing: no transition leaves it.
#[derive(Clone, Copy, PartialEq, Eq, Structural, Debug)]
pub enum WorkerState {
    /// Blocked on the shared queue, waiting for the next message.
    Idle,
    /// Running the job with this identifier, outside the queue's lock.
    Executing(JobId),
    /// Exited its loop after receiving the shutdown sentinel.
    Terminated,
}

/// One worker: its ordinal identity, where it stands in its loop, and
/// whether the pool still holds its join handle.
///
/// The handle is a single-owner slot consumed when the worker is joined, so
/// a second join is ruled out by the precondition of the join transition.
#[derive(Clone, Copy, PartialEq, Eq, Structural, Debug)]
pub struct Worker {
    pub id: usize,
    pub state: WorkerState,
    pub handle_held: bool,
}

impl Worker {
    /// A freshly spawned worker: idle, with its join handle still owned.
    pub fn new(id: usize) -> (w: Worker)
        ensures
            w.id == id,
            w.state is Idle,
            w.handle_held,
    {
        Worker { id, state: WorkerState::Idle, handle_held: true }
    }
}

/// The job identifiers one worker is executing: none, or exactly one.
pub open spec fn executing_of(w: Worker) -> Seq<JobId> {
    match w.state {
        WorkerState::Executing(j) => seq![j],
        _ => Seq::empty(),
    }
}

/// The identifiers of all jobs in flight on the bench `ws`, bench order.
pub open spec fn executing_ids(ws: Seq<Worker>) -> Seq<JobId>
    decreases ws.len(),
{
    if ws.len() == 0 {
        Seq::empty()
    } else {
        executing_of(ws[0]) + executing_ids(ws.drop_first())
    }
}

/// Whether one worker counts as terminated.
pub open spec fn terminated_one(w: Worker) -> nat {
    if w.state is Terminated {
        1
    } else {
        0
    }
}

/// How many workers on the bench `ws` have terminated.
pub open spec fn terminated_count(ws: Seq<Worker>) -> nat
    decreases ws.len(),
{
    if ws.len() == 0 {
        0
    } else {
        terminated_one(ws[0]) + terminated_count(ws.drop_first())
    }
}

/// In-flight accounting distributes over concatenation of benches.
pub proof fn lemma_executing_ids_concat(a: Seq<Worker>, b: Seq<Worker>)
    ensures
        executing_ids(a + b) == executing_ids(a) + executing_ids(b),
    decreases a.len(),
{
    if a.len() == 0 {
        assert(a + b =~= b);
        assert(executing_ids(a) + executing_ids(b) =~= executing_ids(b));
    } else {
        lemma_executing_ids_concat(a.drop_first(), b);
        assert((a + b).drop_first() =~= a.drop_first() + b);
        assert(executing_ids(a + b) =~= executing_ids(a) + executing_ids(b));
    }
}

/// Termination accounting distributes over concatenation of benches.
pub proof fn lemma_terminated_count_concat(a: Seq<Worker>, b: Seq<Worker>)
    ensures
        terminated_count(a + b) == terminated_count(a) + terminated_count(b),
    decreases a.len(),
{
    if a.len() == 0 {
        assert(a + b =~= b);
    } else {
        lemma_terminated_count_concat(a.drop_first(), b);
        assert((a + b).drop_first() =~= a.drop_first() + b);
    }
}

/// A one-worker bench contributes exactly that worker's in-flight job.
pub proof fn lemma_executing_ids_singleton(w: Worker)
    ensures
        executing_ids(seq![w]) == executing_of(w),
{
    reveal_with_fuel(executing_ids, 2);
    assert(seq![w].drop_first() =~= Seq::<Worker>::empty());
    assert(executing_ids(seq![w]) =~= executing_of(w));
}

/// A one-worker bench contributes exactly that worker's termination count.
pub proof fn lemma_terminated_count_singleton(w: Worker)
    ensures
        terminated_count(seq![w]) == terminated_one(w),
{
    reveal_with_fuel(terminated_count, 2);
    assert(seq![w].drop_first() =~= Seq::<Worker>::empty());
}

/// A worker joining the bench at the back adds its own contribution to both
/// accounts.
pub proof fn lemma_worker_push(ws: Seq<Worker>, w: Worker)
    ensures
        executing_ids(ws.push(w)) == executing_ids(ws) + executing_of(w),
        terminated_count(ws.push(w)) == terminated_count(ws) + terminated_one(w),
{
    assert(ws.push(w) =~= ws + seq![w]);
    lemma_executing_ids_concat(ws, seq![w]);
    lemma_terminated_count_concat(ws, seq![w]);
    lemma_executing_ids_singleton(w);
    lemma_terminated_count_singleton(w);
}

/// Both accounts of a bench split around any one position.
pub proof fn lemma_worker_split(ws: Seq<Worker>, i: int)
    requires
        0 <= i < ws.len(),
    ensures
        executing_ids(ws) == executing_ids(ws.take(i)) + executing_of(ws[i]) + executing_ids(
            ws.skip(i + 1),
        ),
        terminated_count(ws) == terminated_count(ws.take(i)) + terminated_one(ws[i])
            + terminated_count(ws.skip(i + 1)),
{
    let a = ws.take(i);
    let m = seq![ws[i]];
    let b = ws.skip(i + 1);
    assert(ws =~= a + m + b);
    assert(a + m + b =~= a + (m + b));
    lemma_executing_ids_concat(a, m + b);
    lemma_executing_ids_concat(m, b);
    lemma_executing_ids_singleton(ws[i]);
    lemma_terminated_count_concat(a, m + b);
    lemma_terminated_count_concat(m, b);
    lemma_terminated_count_singleton(ws[i]);
    assert(executing_ids(a) + (executing_of(ws[i]) + executing_ids(b)) =~= executing_ids(a)
        + executing_of(ws[i]) + executing_ids(b));
}

/// Replacing the worker at one position replaces exactly its contribution
/// to both accounts; the rest of the bench is untouched.
pub proof fn lemma_worker_update(ws: Seq<Worker>, i: int, w: Worker)
    requires
        0 <= i < ws.len(),
    ensures
        executing_ids(ws.update(i, w)) == executing_ids(ws.take(i)) + executing_of(w)
            + executing_ids(ws.skip(i + 1)),
        terminated_count(ws.update(i, w)) == terminated_count(ws.take(i)) + terminated_one(w)
            + terminated_count(ws.skip(i + 1)),
{
    let ws2 = ws.update(i, w);
    assert(ws2.take(i) =~= ws.take(i));
    assert(ws2.skip(i + 1) =~= ws.skip(i + 1));
    lemma_worker_split(ws2, i);
}

/// At most every worker on the bench has terminated.
pub proof fn lemma_terminated_count_le(ws: Seq<Worker>)
    ensures
        terminated_count(ws) <= ws.len(),
    decreases ws.len(),
{
    if ws.len() > 0 {
        lemma_terminated_count_le(ws.drop_first());
    }
}

/// The termination count reaches the bench's size exactly when every worker
/// has terminated.
pub proof fn lemma_terminated_count_all(ws: Seq<Worker>)
    ensures
        terminated_count(ws) == ws.len() <==> (forall|i: int|
            0 <= i < ws.len() ==> (#[trigger] ws[i]).state is Terminated),
    decreases ws.len(),
{
    if ws.len() > 0 {
        let rest = ws.drop_first();
        lemma_terminated_count_all(rest);
        lemma_terminated_count_le(rest);
        if terminated_count(ws) == ws.len() {
            assert(terminated_count(rest) == rest.len());
            assert forall|i: int|
                0 <= i < ws.len() implies (#[trigger] ws[i]).state is Terminated by {
                if i > 0 {
                    assert(rest[i - 1] == ws[i]);
                    assert(rest[i - 1].state is Terminated);
                }
            }
        } else {
            if ws[0].state is Terminated && terminated_count(rest) == rest.len() {
                assert(terminated_count(ws) == ws.len());
            }
        }
    }
}

/// A bench on which no worker is executing carries no job in flight.
pub proof fn lemma_executing_ids_none(ws: Seq<Worker>)
    requires
        forall|i: int| 0 <= i < ws.len() ==> !((#[trigger] ws[i]).state is Executing),
    ensures
        executing_ids(ws) == Seq::<JobId>::empty(),
    decreases ws.len(),
{
    if ws.len() > 0 {
        assert(forall|i: int|
            0 <= i < ws.drop_first().len() ==> #[trigger] ws.drop_first()[i] == ws[i + 1]);
        lemma_executing_ids_none(ws.drop_first());
        assert(executing_of(ws[0]) + Seq::<JobId>::empty() =~= executing_of(ws[0]));
        assert(executing_of(ws[0]) =~= Seq::<JobId>::empty());
    }
}

} // verus!
