//! The pool: a bench of workers, one shared FIFO queue, and the disposal
//! protocol that signals and then joins every worker.

use vstd::prelude::*;
use crate::message::{
    ControlMessage, JobId, lemma_shutdown_count_last, lemma_shutdown_count_push,
    lemma_work_ids_push, shutdown_count, work_ids, work_of,
};
use crate::worker::{
    Worker, WorkerState, executing_ids, executing_of, lemma_executing_ids_none,
    lemma_terminated_count_all, lemma_worker_push, lemma_worker_split, lemma_worker_update,
    terminated_count, terminated_one,
};

verus! {

/// No jobs at all, counted as a bag: the empty bag.
proof fn lemma_empty_jobs_to_multiset()
    ensures
        Seq::<JobId>::empty().to_multiset() == vstd::multiset::Multiset::<JobId>::empty(),
{
    broadcast use vstd::seq_lib::group_to_multiset_ensures;
    broadcast use vstd::multiset::group_multiset_axioms;

    assert(Seq::<JobId>::empty().to_multiset() =~= vstd::multiset::Multiset::<JobId>::empty())
        by {
        assert forall|j: JobId| #[trigger]
            Seq::<JobId>::empty().to_multiset().count(j) == 0 by {
            assert(!Seq::<JobId>::empty().contains(j));
        }
    }
}

/// The worker pool, as the state machine its proofs are about.
///
/// `workers` is the bench spawned at construction; `queue` is the shared
/// ingress channel, front at index zero. `submitted`, `delivered` and
/// `completed` record job identifiers in the order they were accepted,
/// handed to a worker, and finished. `disposed` says whether the shutdown
/// sentinels have been sent; after that no further submission is admitted.
pub struct ThreadPoll {
    pub workers: Vec<Worker>,
    pub queue: Vec<ControlMessage>,
    pub submitted: Vec<JobId>,
    pub delivered: Vec<JobId>,
    pub completed: Vec<JobId>,
    pub disposed: bool,
}

impl ThreadPoll {
    /// Every job is somewhere, and nowhere twice: what was submitted is
    /// exactly what was already handed out plus what still waits in the
    /// queue, in order; and what was handed out is exactly what finished
    /// plus what is in some worker's hands right now.
    pub open spec fn jobs_accounted(self) -> bool {
        &&& self.delivered@ + work_ids(self.queue@) == self.submitted@
        &&& self.completed@.to_multiset().add(executing_ids(self.workers@).to_multiset())
            == self.delivered@.to_multiset()
    }

    /// One shutdown sentinel per worker, no more and no fewer: before
    /// disposal none exists and none was consumed; after disposal, the
    /// sentinels still queued and the workers already terminated add up to
    /// the whole bench.
    pub open spec fn shutdown_accounted(self) -> bool {
        shutdown_count(self.queue@) + terminated_count(self.workers@) == if self.disposed {
            self.workers@.len()
        } else {
            0
        }
    }

    /// The pool's invariant: established by construction, preserved by
    /// every transition.
    pub open spec fn wf(self) -> bool {
        &&& self.workers@.len() > 0
        &&& forall|i: int| 0 <= i < self.workers@.len() ==> (#[trigger] self.workers@[i]).id == i
        &&& forall|i: int|
            0 <= i < self.workers@.len() ==> ((#[trigger] self.workers@[i]).handle_held
                || self.workers@[i].state is Terminated)
        &&& self.jobs_accounted()
        &&& self.shutdown_accounted()
        &&& (self.disposed && self.queue@.len() > 0 ==> self.queue@.last() is Shutdown)
    }

    /// Construct a pool of `size` workers.
    ///
    /// A zero size is a construction error and is ruled out here, as the
    /// pool aborts on it: a caller that cannot exclude zero must test first.
    /// Every worker starts idle, with its join handle owned by the pool,
    /// before any job can be submitted.
    pub fn new(size: usize) -> (pool: ThreadPoll)
        requires
            size > 0,
        ensures
            pool.wf(),
            !pool.disposed,
            pool.workers@.len() == size,
            forall|i: int| 0 <= i < size ==> (#[trigger] pool.workers@[i]).state is Idle,
            forall|i: int| 0 <= i < size ==> (#[trigger] pool.workers@[i]).handle_held,
            forall|i: int| 0 <= i < size ==> (#[trigger] pool.workers@[i]).id == i,
            pool.queue@ == Seq::<ControlMessage>::empty(),
            pool.submitted@ == Seq::<JobId>::empty(),
            pool.delivered@ == Seq::<JobId>::empty(),
            pool.completed@ == Seq::<JobId>::empty(),
    {
        let mut workers: Vec<Worker> = Vec::new();
        for id in 0..size
            invariant
                workers@.len() == id,
                forall|i: int| 0 <= i < id ==> (#[trigger] workers@[i]).state is Idle,
                forall|i: int| 0 <= i < id ==> (#[trigger] workers@[i]).handle_held,
                forall|i: int| 0 <= i < id ==> (#[trigger] workers@[i]).id == i,
                executing_ids(workers@) == Seq::<JobId>::empty(),
                terminated_count(workers@) == 0,
        {
            let w = Worker::new(id);
            proof {
                lemma_worker_push(workers@, w);
                assert(executing_ids(workers@) + executing_of(w)
                    =~= Seq::<JobId>::empty());
            }
            workers.push(w);
        }
        let pool = ThreadPoll {
            workers,
            queue: Vec::new(),
            submitted: Vec::new(),
            delivered: Vec::new(),
            completed: Vec::new(),
            disposed: false,
        };
        proof {
            broadcast use vstd::seq_lib::group_to_multiset_ensures;
            assert(pool.delivered@ + work_ids(pool.queue@) =~= pool.submitted@);
            assert(pool.completed@.to_multiset().add(
                executing_ids(pool.workers@).to_multiset(),
            ) =~= pool.delivered@.to_multiset());
        }
        pool
    }

    /// Submit one job for asynchronous execution.
    ///
    /// The job goes to the back of the shared queue wrapped as `Work`; the
    /// call does not wait for any worker. Submission to a disposed pool is a
    /// contract violation on which the pool aborts, so it is ruled out here;
    /// `try_execute` is the guarded form.
    pub fn execute(&mut self, job: JobId)
        requires
            old(self).wf(),
            !old(self).disposed,
        ensures
            final(self).wf(),
            !final(self).disposed,
            final(self).queue@ == old(self).queue@.push(ControlMessage::Work(job)),
            final(self).submitted@ == old(self).submitted@.push(job),
            final(self).workers@ == old(self).workers@,
            final(self).delivered@ == old(self).delivered@,
            final(self).completed@ == old(self).completed@,
    {
        proof {
            lemma_work_ids_push(self.queue@, ControlMessage::Work(job));
            lemma_shutdown_count_push(self.queue@, ControlMessage::Work(job));
        }
        self.queue.push(ControlMessage::Work(job));
        self.submitted.push(job);
        proof {
            assert(self.delivered@ + work_ids(self.queue@) =~= self.submitted@);
        }
    }

    /// Guarded submission: accepts the job exactly when the pool has not
    /// been disposed, and otherwise leaves the pool unchanged and reports
    /// the refusal instead of aborting.
    pub fn try_execute(&mut self, job: JobId) -> (accepted: bool)
        requires
            old(self).wf(),
        ensures
            final(self).wf(),
            accepted == !old(self).disposed,
            accepted ==> final(self).queue@ == old(self).queue@.push(ControlMessage::Work(job))
                && final(self).submitted@ == old(self).submitted@.push(job)
                && final(self).workers@ == old(self).workers@
                && final(self).delivered@ == old(self).delivered@
                && final(self).completed@ == old(self).completed@
                && !final(self).disposed,
            !accepted ==> *final(self) == *old(self),
    {
        if self.disposed {
            false
        } else {
            self.execute(job);
            true
        }
    }

    /// One worker, blocked on the shared queue, takes the message at the
    /// front. The exclusive access this models covers only the dequeue: the
    /// worker leaves with the message, and the queue is free for the others
    /// before the job runs. On `Work` the worker starts executing that job;
    /// on `Shutdown` it exits its loop for good.
    pub fn worker_dequeue(&mut self, w: usize) -> (msg: ControlMessage)
        requires
            old(self).wf(),
            w < old(self).workers@.len(),
            old(self).workers@[w as int].state is Idle,
            old(self).queue@.len() > 0,
        ensures
            final(self).wf(),
            msg == old(self).queue@[0],
            final(self).queue@ == old(self).queue@.drop_first(),
            final(self).disposed == old(self).disposed,
            final(self).submitted@ == old(self).submitted@,
            final(self).completed@ == old(self).completed@,
            final(self).workers@.len() == old(self).workers@.len(),
            forall|i: int|
                0 <= i < old(self).workers@.len() && i != w ==> final(self).workers@[i] == old(self).workers@[i],
            final(self).workers@[w as int].id == old(self).workers@[w as int].id,
            final(self).workers@[w as int].handle_held == old(self).workers@[
                w as int
            ].handle_held,
            msg matches ControlMessage::Work(j) ==> final(self).workers@[w as int].state
                == WorkerState::Executing(j) && final(self).delivered@ == old(self).delivered@.push(j),
            msg is Shutdown ==> final(self).workers@[w as int].state is Terminated && final(self).delivered@ == old(self).delivered@,
    {
        proof {
            assert(old(self).queue@.remove(0) =~= old(self).queue@.drop_first());
        }
        let msg = self.queue.remove(0);
        let mut wk = self.workers[w];
        let ghost ws = old(self).workers@;
        let ghost q = old(self).queue@;
        match msg {
            ControlMessage::Work(j) => {
                wk.state = WorkerState::Executing(j);
                self.workers[w] = wk;
                self.delivered.push(j);
                proof {
                    broadcast use vstd::seq_lib::group_to_multiset_ensures;

                    lemma_worker_split(ws, w as int);
                    lemma_worker_update(ws, w as int, wk);
                    assert(self.workers@ == ws.update(w as int, wk));
                    let a = executing_ids(ws.take(w as int));
                    let b = executing_ids(ws.skip(w as int + 1));
                    assert(executing_of(ws[w as int]) =~= Seq::<JobId>::empty());
                    assert(executing_ids(ws) =~= a + b);
                    assert(executing_ids(self.workers@) =~= (a + b).insert(a.len() as int, j));
                    assert(executing_ids(self.workers@).to_multiset() == (
                    a + b).to_multiset().insert(j));
                    // the front of the queue carried exactly job `j`
                    assert(work_ids(q) == seq![j] + work_ids(q.drop_first()));
                    assert(self.delivered@ + work_ids(self.queue@) =~= old(self).delivered@ + (
                    seq![j] + work_ids(q.drop_first())));
                    // finished + in flight balances against delivered
                    assert(self.completed@.to_multiset().add(
                        executing_ids(self.workers@).to_multiset(),
                    ) =~= self.delivered@.to_multiset()) by {
                        broadcast use vstd::multiset::group_multiset_axioms;

                        assert(self.delivered@.to_multiset() == old(self).delivered@.to_multiset().insert(j));
                    }
                    assert(terminated_one(ws[w as int]) == terminated_one(wk));
                    assert(terminated_count(self.workers@) == terminated_count(ws));
                    assert(shutdown_count(q) == shutdown_count(q.drop_first()));
                    if self.disposed && self.queue@.len() > 0 {
                        assert(self.queue@.last() == q.last());
                    }
                }
            }
            ControlMessage::Shutdown => {
                wk.state = WorkerState::Terminated;
                self.workers[w] = wk;
                proof {
                    lemma_worker_split(ws, w as int);
                    lemma_worker_update(ws, w as int, wk);
                    assert(self.workers@ == ws.update(w as int, wk));
                    assert(executing_of(ws[w as int]) =~= executing_of(wk));
                    assert(executing_ids(self.workers@) =~= executing_ids(ws));
                    assert(work_ids(q) == Seq::<JobId>::empty() + work_ids(q.drop_first()));
                    assert(self.delivered@ + work_ids(self.queue@) =~= old(self).delivered@
                        + work_ids(q));
                    assert(terminated_count(self.workers@) == terminated_count(ws) + 1);
                    assert(shutdown_count(q) == 1 + shutdown_count(q.drop_first()));
                    if self.disposed && self.queue@.len() > 0 {
                        assert(self.queue@.last() == q.last());
                    }
                }
            }
        }
        msg
    }

    /// The worker `w` finishes the job in its hands and turns back to the
    /// queue. This is a transition of its own, apart from the dequeue, which
    /// is what lets long jobs on one worker overlap with dequeues by the
    /// others.
    pub fn worker_finish(&mut self, w: usize) -> (job: JobId)
        requires
            old(self).wf(),
            w < old(self).workers@.len(),
            old(self).workers@[w as int].state is Executing,
        ensures
            final(self).wf(),
            old(self).workers@[w as int].state == WorkerState::Executing(job),
            final(self).completed@ == old(self).completed@.push(job),
            final(self).queue@ == old(self).queue@,
            final(self).submitted@ == old(self).submitted@,
            final(self).delivered@ == old(self).delivered@,
            final(self).disposed == old(self).disposed,
            final(self).workers@.len() == old(self).workers@.len(),
            forall|i: int|
                0 <= i < old(self).workers@.len() && i != w ==> final(self).workers@[i] == old(self).workers@[i],
            final(self).workers@[w as int].state is Idle,
            final(self).workers@[w as int].id == old(self).workers@[w as int].id,
            final(self).workers@[w as int].handle_held == old(self).workers@[
                w as int
            ].handle_held,
    {
        let mut wk = self.workers[w];
        let job: JobId = match wk.state {
            WorkerState::Executing(j) => j,
            _ => {
                proof {
                    assert(false);
                }
                0
            }
        };
        wk.state = WorkerState::Idle;
        self.workers[w] = wk;
        self.completed.push(job);
        proof {
            broadcast use vstd::seq_lib::group_to_multiset_ensures;

            let ws = old(self).workers@;
            lemma_worker_split(ws, w as int);
            lemma_worker_update(ws, w as int, wk);
            assert(self.workers@ == ws.update(w as int, wk));
            let a = executing_ids(ws.take(w as int));
            let b = executing_ids(ws.skip(w as int + 1));
            assert(executing_of(ws[w as int]) =~= seq![job]);
            assert(executing_ids(self.workers@) =~= a + b);
            assert(executing_ids(ws) =~= (a + b).insert(a.len() as int, job));
            assert(executing_ids(ws).to_multiset() == (a + b).to_multiset().insert(job));
            assert(self.completed@.to_multiset().add(
                executing_ids(self.workers@).to_multiset(),
            ) =~= self.delivered@.to_multiset()) by {
                broadcast use vstd::multiset::group_multiset_axioms;

                assert(self.completed@.to_multiset() == old(self).completed@.to_multiset().insert(job));
            }
            assert(terminated_one(ws[w as int]) == terminated_one(wk));
            assert(terminated_count(self.workers@) == terminated_count(ws));
        }
        job
    }

    /// First phase of disposal: send one shutdown sentinel per worker, all
    /// of them before any join. Signalling all workers first is what keeps
    /// disposal deadlock-free: every worker, wherever it stands, finds its
    /// own sentinel behind whatever work still queues.
    pub fn send_shutdowns(&mut self)
        requires
            old(self).wf(),
            !old(self).disposed,
        ensures
            final(self).wf(),
            final(self).disposed,
            final(self).workers@ == old(self).workers@,
            final(self).submitted@ == old(self).submitted@,
            final(self).delivered@ == old(self).delivered@,
            final(self).completed@ == old(self).completed@,
            final(self).queue@.len() == old(self).queue@.len() + old(self).workers@.len(),
            work_ids(final(self).queue@) == work_ids(old(self).queue@),
            shutdown_count(final(self).queue@) == old(self).workers@.len(),
    {
        let n = self.workers.len();
        let mut k: usize = 0;
        proof {
            // before disposal no sentinel exists and no worker terminated
            assert(shutdown_count(self.queue@) == 0);
        }
        while k < n
            invariant
                k <= n,
                n == old(self).workers@.len(),
                self.workers@ == old(self).workers@,
                self.submitted@ == old(self).submitted@,
                self.delivered@ == old(self).delivered@,
                self.completed@ == old(self).completed@,
                self.disposed == old(self).disposed,
                !self.disposed,
                self.queue@.len() == old(self).queue@.len() + k,
                work_ids(self.queue@) == work_ids(old(self).queue@),
                shutdown_count(self.queue@) == k,
                k > 0 ==> self.queue@.last() is Shutdown,
                old(self).jobs_accounted(),
                terminated_count(self.workers@) == 0,
            decreases n - k,
        {
            proof {
                lemma_work_ids_push(self.queue@, ControlMessage::Shutdown);
                lemma_shutdown_count_push(self.queue@, ControlMessage::Shutdown);
                assert(work_ids(self.queue@) + work_of(ControlMessage::Shutdown) =~= work_ids(
                    self.queue@,
                ));
            }
            self.queue.push(ControlMessage::Shutdown);
            k = k + 1;
        }
        self.disposed = true;
        proof {
            assert(self.delivered@ + work_ids(self.queue@) == self.submitted@);
        }
    }

    /// Some worker that has not terminated yet: the witness the disposal
    /// loop acts through while sentinels remain unconsumed.
    fn find_live_worker(&self) -> (w: usize)
        requires
            self.wf(),
            terminated_count(self.workers@) < self.workers@.len(),
        ensures
            w < self.workers@.len(),
            !(self.workers@[w as int].state is Terminated),
    {
        let n = self.workers.len();
        let mut w: usize = 0;
        while w < n
            invariant
                w <= n,
                n == self.workers@.len(),
                terminated_count(self.workers@) < self.workers@.len(),
                forall|k: int|
                    0 <= k < w ==> (#[trigger] self.workers@[k]).state is Terminated,
            decreases n - w,
        {
            let st = self.workers[w].state;
            match st {
                WorkerState::Terminated => {
                    w = w + 1;
                }
                _ => {
                    return w;
                }
            }
        }
        proof {
            lemma_terminated_count_all(self.workers@);
            assert(false);
        }
        0
    }

    /// The workers' own loops, run to their end: messages are taken from
    /// the front one worker at a time, jobs in hand are finished, until the
    /// queue — work first, sentinels behind — is empty and with it every
    /// worker has seen its shutdown. When this returns, all submitted work
    /// has been executed, exactly once each.
    pub fn run_workers(&mut self)
        requires
            old(self).wf(),
            old(self).disposed,
        ensures
            final(self).wf(),
            final(self).disposed,
            final(self).queue@.len() == 0,
            final(self).submitted@ == old(self).submitted@,
            final(self).workers@.len() == old(self).workers@.len(),
            forall|i: int|
                0 <= i < old(self).workers@.len() ==> (#[trigger] final(self).workers@[i]).state is Terminated,
            forall|i: int|
                0 <= i < old(self).workers@.len() ==> (#[trigger] final(self).workers@[i]).handle_held == old(self).workers@[i].handle_held,
            final(self).delivered@ == final(self).submitted@,
            final(self).completed@.to_multiset() == old(self).submitted@.to_multiset(),
    {
        while self.queue.len() > 0
            invariant
                self.wf(),
                self.disposed,
                self.submitted@ == old(self).submitted@,
                self.workers@.len() == old(self).workers@.len(),
                forall|i: int|
                    0 <= i < old(self).workers@.len() ==> (#[trigger] self.workers@[i]).handle_held
                        == old(self).workers@[i].handle_held,
            decreases self.queue@.len(),
        {
            proof {
                lemma_shutdown_count_last(self.queue@);
            }
            let w = self.find_live_worker();
            let st = self.workers[w].state;
            match st {
                WorkerState::Executing(_) => {
                    let _finished: JobId = self.worker_finish(w);
                }
                _ => {},
            }
            let _msg: ControlMessage = self.worker_dequeue(w);
        }
        proof {
            // an empty queue holds no sentinel, so every worker has seen its own
            assert(shutdown_count(self.queue@) == 0);
            assert(terminated_count(self.workers@) == self.workers@.len());
            lemma_terminated_count_all(self.workers@);
            lemma_executing_ids_none(self.workers@);
            // and it holds no work either, so delivery caught up with submission
            assert(work_ids(self.queue@) == Seq::<JobId>::empty());
            assert(self.delivered@ + work_ids(self.queue@) =~= self.delivered@);
            // nothing is in flight, so completion caught up with delivery
            broadcast use vstd::multiset::group_multiset_axioms;

            lemma_empty_jobs_to_multiset();
            assert(self.completed@.to_multiset().add(
                executing_ids(self.workers@).to_multiset(),
            ) =~= self.completed@.to_multiset());
        }
    }

    /// Join one worker: take the handle out of its single-owner slot —
    /// making a second join unrepresentable — and block until the thread is
    /// gone. That the worker has terminated is the state in which the join
    /// returns; a worker still working keeps the disposer waiting, which the
    /// precondition mirrors.
    pub fn join_worker(&mut self, w: usize)
        requires
            old(self).wf(),
            w < old(self).workers@.len(),
            old(self).workers@[w as int].state is Terminated,
            old(self).workers@[w as int].handle_held,
        ensures
            final(self).wf(),
            final(self).queue@ == old(self).queue@,
            final(self).submitted@ == old(self).submitted@,
            final(self).delivered@ == old(self).delivered@,
            final(self).completed@ == old(self).completed@,
            final(self).disposed == old(self).disposed,
            final(self).workers@.len() == old(self).workers@.len(),
            forall|i: int|
                0 <= i < old(self).workers@.len() && i != w ==> final(self).workers@[i] == old(self).workers@[i],
            final(self).workers@[w as int].state == old(self).workers@[w as int].state,
            final(self).workers@[w as int].id == old(self).workers@[w as int].id,
            !final(self).workers@[w as int].handle_held,
    {
        let mut wk = self.workers[w];
        wk.handle_held = false;
        self.workers[w] = wk;
        proof {
            let ws = old(self).workers@;
            lemma_worker_split(ws, w as int);
            lemma_worker_update(ws, w as int, wk);
            assert(self.workers@ == ws.update(w as int, wk));
            assert(executing_of(ws[w as int]) =~= executing_of(wk));
            assert(executing_ids(self.workers@) =~= executing_ids(ws));
            assert(terminated_one(ws[w as int]) == terminated_one(wk));
            assert(terminated_count(self.workers@) == terminated_count(ws));
        }
    }

    /// Second phase of disposal: join every worker in bench order, blocking
    /// on each in turn. Each handle leaves its slot exactly once.
    pub fn join_all(&mut self)
        requires
            old(self).wf(),
            forall|i: int|
                0 <= i < old(self).workers@.len() ==> (#[trigger] old(self).workers@[i]).state is Terminated,
        ensures
            final(self).wf(),
            final(self).queue@ == old(self).queue@,
            final(self).submitted@ == old(self).submitted@,
            final(self).delivered@ == old(self).delivered@,
            final(self).completed@ == old(self).completed@,
            final(self).disposed == old(self).disposed,
            final(self).workers@.len() == old(self).workers@.len(),
            forall|i: int|
                0 <= i < old(self).workers@.len() ==> (#[trigger] final(self).workers@[i]).state is Terminated,
            forall|i: int|
                0 <= i < old(self).workers@.len() ==> !(#[trigger] final(self).workers@[i]).handle_held,
    {
        let n = self.workers.len();
        let mut w: usize = 0;
        while w < n
            invariant
                w <= n,
                n == self.workers@.len(),
                self.wf(),
                self.queue@ == old(self).queue@,
                self.submitted@ == old(self).submitted@,
                self.delivered@ == old(self).delivered@,
                self.completed@ == old(self).completed@,
                self.disposed == old(self).disposed,
                self.workers@.len() == old(self).workers@.len(),
                forall|i: int|
                    0 <= i < n ==> (#[trigger] self.workers@[i]).state is Terminated,
                forall|i: int| 0 <= i < w ==> !(#[trigger] self.workers@[i]).handle_held,
            decreases n - w,
        {
            let held = self.workers[w].handle_held;
            if held {
                self.join_worker(w);
            }
            w = w + 1;
        }
    }

    /// Tear the pool down, as its end of scope does: signal every worker,
    /// let them drain the queue, then join each one. Blocks, in the model as
    /// in the pool it describes, until no worker remains running — and by
    /// then every job ever submitted has been executed exactly once.
    pub fn dispose(&mut self)
        requires
            old(self).wf(),
            !old(self).disposed,
        ensures
            final(self).wf(),
            final(self).disposed,
            final(self).queue@.len() == 0,
            final(self).submitted@ == old(self).submitted@,
            final(self).workers@.len() == old(self).workers@.len(),
            forall|i: int|
                0 <= i < old(self).workers@.len() ==> (#[trigger] final(self).workers@[i]).state is Terminated,
            forall|i: int|
                0 <= i < old(self).workers@.len() ==> !(#[trigger] final(self).workers@[i]).handle_held,
            final(self).delivered@ == old(self).submitted@,
            final(self).completed@.to_multiset() == old(self).submitted@.to_multiset(),
    {
        self.send_shutdowns();
        self.run_workers();
        self.join_all();
    }

    /// Law: in any reachable pool, nothing is lost and nothing runs twice.
    /// Once the queue holds no work and no worker is mid-job, the jobs that
    /// finished are exactly the jobs that were submitted — each identifier
    /// as many times as it was submitted — whatever order workers took them
    /// in.
    pub proof fn lemma_drained_jobs_complete(p: ThreadPoll)
        requires
            p.wf(),
            work_ids(p.queue@) == Seq::<JobId>::empty(),
            executing_ids(p.workers@) == Seq::<JobId>::empty(),
        ensures
            p.completed@.to_multiset() == p.submitted@.to_multiset(),
            forall|j: JobId| #[trigger] p.completed@.to_multiset().count(j)
                == p.submitted@.to_multiset().count(j),
    {
        broadcast use vstd::multiset::group_multiset_axioms;

        assert(p.delivered@ + Seq::<JobId>::empty() =~= p.delivered@);
        lemma_empty_jobs_to_multiset();
        assert(p.completed@.to_multiset().add(executing_ids(p.workers@).to_multiset())
            =~= p.completed@.to_multiset());
    }

    /// Law: disposal's sentinels are exhaustive. In a disposed pool whose
    /// queue holds no sentinel any more, every worker has terminated: each
    /// of the exactly-as-many sentinels as workers reached one worker, and
    /// no worker outlives its own.
    pub proof fn lemma_sentinels_spent_all_terminated(p: ThreadPoll)
        requires
            p.wf(),
            p.disposed,
            shutdown_count(p.queue@) == 0,
        ensures
            forall|i: int|
                0 <= i < p.workers@.len() ==> (#[trigger] p.workers@[i]).state is Terminated,
    {
        lemma_terminated_count_all(p.workers@);
    }

    /// Law: delivery follows submission order. What has been handed to
    /// workers is exactly the front of what was submitted, and the work
    /// still queued is exactly the rest, in order: the single channel is
    /// first-in, first-out for the single producer.
    pub proof fn lemma_fifo_delivery(p: ThreadPoll)
        requires
            p.wf(),
        ensures
            p.delivered@ == p.submitted@.take(p.delivered@.len() as int),
            work_ids(p.queue@) == p.submitted@.skip(p.delivered@.len() as int),
    {
        assert(p.delivered@ =~= p.submitted@.take(p.delivered@.len() as int));
        assert(work_ids(p.queue@) =~= p.submitted@.skip(p.delivered@.len() as int));
    }

    /// How many workers the pool was constructed with.
    pub fn worker_count(&self) -> (n: usize)
        ensures
            n == self.workers@.len(),
    {
        self.workers.len()
    }

    /// Where worker `w` stands in its loop.
    pub fn worker_state(&self, w: usize) -> (st: WorkerState)
        requires
            w < self.workers@.len(),
        ensures
            st == self.workers@[w as int].state,
    {
        self.workers[w].state
    }

    /// Whether the pool still owns worker `w`'s join handle.
    pub fn worker_handle_held(&self, w: usize) -> (held: bool)
        requires
            w < self.workers@.len(),
        ensures
            held == self.workers@[w as int].handle_held,
    {
        self.workers[w].handle_held
    }

    /// Whether the shutdown sentinels have been sent.
    pub fn is_disposed(&self) -> (d: bool)
        ensures
            d == self.disposed,
    {
        self.disposed
    }

    /// How many messages wait in the shared queue.
    pub fn queue_len(&self) -> (n: usize)
        ensures
            n == self.queue@.len(),
    {
        self.queue.len()
    }

    /// The identifiers of all jobs accepted so far, in submission order.
    pub fn submitted_jobs(&self) -> (jobs: &Vec<JobId>)
        ensures
            jobs@ == self.submitted@,
    {
        &self.submitted
    }

    /// The identifiers of all jobs finished so far, in completion order.
    pub fn completed_jobs(&self) -> (jobs: &Vec<JobId>)
        ensures
            jobs@ == self.completed@,
    {
        &self.completed
    }

}

} // verus!
