use crate::job::{all_sound, ids_of, Job, QueuedJob};
use crate::worker::{Phase, Worker};
use vstd::prelude::*;

verus! {

/// The worker pool: a fixed set of workers, the pending-job queue they
/// share, and the sending handle of that queue, present until teardown
/// consumes it. `log` records the payloads of the jobs that have run to
/// completion, in completion order: it is the pool's observable history.
/// `next_ticket` is the stamp the next submission will receive.
pub struct ThreadPool {
    pub workers: Vec<Worker>,
    pub sender: bool,
    pub queue: Vec<QueuedJob>,
    pub log: Vec<u64>,
    pub next_ticket: u64,
}

/// How many of the workers from position `i` on are still live.
pub open spec fn live_from(ws: Seq<Worker>, i: int) -> int
    decreases ws.len() - i,
{
    if 0 <= i < ws.len() {
        (if ws[i].is_live() {
            1int
        } else {
            0int
        }) + live_from(ws, i + 1)
    } else {
        0
    }
}

/// The payloads teardown logs, in order, when `live` workers remain to
/// drain the queue: jobs are taken front to back, a sound job runs and is
/// logged, a faulty one silently costs its worker, and whatever is still
/// queued once no worker is left is lost with the queue.
pub open spec fn drain_ids(q: Seq<QueuedJob>, live: int) -> Seq<u64>
    decreases q.len(),
{
    if live <= 0 || q.len() == 0 {
        Seq::empty()
    } else if q[0].job.faulty {
        drain_ids(q.drop_first(), live - 1)
    } else {
        seq![q[0].job.id] + drain_ids(q.drop_first(), live)
    }
}

proof fn lemma_live_from_nonneg(ws: Seq<Worker>, i: int)
    ensures
        live_from(ws, i) >= 0,
    decreases ws.len() - i,
{
    if 0 <= i < ws.len() {
        lemma_live_from_nonneg(ws, i + 1);
    }
}

/// A live worker at position `j` puts the live count from any earlier
/// position at one or more.
pub proof fn lemma_live_from_at(ws: Seq<Worker>, i: int, j: int)
    requires
        0 <= i <= j < ws.len(),
        ws[j].is_live(),
    ensures
        live_from(ws, i) >= 1,
    decreases j - i,
{
    lemma_live_from_nonneg(ws, i + 1);
    if i < j {
        lemma_live_from_at(ws, i + 1, j);
    }
}

proof fn lemma_live_from_update(ws: Seq<Worker>, v: Worker, i: int, j: int)
    requires
        0 <= j < ws.len(),
        0 <= i <= ws.len(),
    ensures
        live_from(ws.update(j, v), i) == live_from(ws, i) + (if i <= j {
            (if v.is_live() {
                1int
            } else {
                0int
            }) - (if ws[j].is_live() {
                1int
            } else {
                0int
            })
        } else {
            0int
        }),
    decreases ws.len() - i,
{
    if i < ws.len() {
        lemma_live_from_update(ws, v, i + 1, j);
        if i != j {
            assert(ws.update(j, v)[i] == ws[i]);
        }
    }
}

/// With no live worker from position `i` on, the live count there is zero.
pub proof fn lemma_live_from_zero(ws: Seq<Worker>, i: int)
    requires
        forall|k: int| i <= k < ws.len() ==> !(#[trigger] ws[k]).is_live(),
    ensures
        live_from(ws, i) == 0,
    decreases ws.len() - i,
{
    if 0 <= i < ws.len() {
        lemma_live_from_zero(ws, i + 1);
    }
}

/// With no faulty job pending and at least one live worker, the drain runs
/// every pending job: it logs exactly the pending payloads, in order.
pub proof fn lemma_drain_ids_all_sound(q: Seq<QueuedJob>, live: int)
    requires
        all_sound(q),
        live >= 1,
    ensures
        drain_ids(q, live) == ids_of(q),
    decreases q.len(),
{
    if q.len() == 0 {
        assert(drain_ids(q, live) =~= ids_of(q));
    } else {
        assert(!q[0].job.faulty);
        assert forall|i: int| 0 <= i < q.drop_first().len() implies !(#[trigger] q.drop_first()[i]).job.faulty by {
            assert(q.drop_first()[i] == q[i + 1]);
        }
        lemma_drain_ids_all_sound(q.drop_first(), live);
        assert(drain_ids(q, live) =~= ids_of(q));
    }
}

impl ThreadPool {
    pub open spec fn n(self) -> int {
        self.workers@.len() as int
    }

    /// Workers are created in order and keep their ordinal identity.
    pub open spec fn ids_in_order(self) -> bool {
        forall|i: int| 0 <= i < self.n() ==> (#[trigger] self.workers@[i]).id == i
    }

    /// The dequeue lock: at most one worker is in the act of removing a job.
    pub open spec fn holder_unique(self) -> bool {
        forall|i: int, j: int|
            0 <= i < self.n() && 0 <= j < self.n() && i != j
                && (#[trigger] self.workers@[i]).phase is Holding
                ==> !((#[trigger] self.workers@[j]).phase is Holding)
    }

    /// Nobody holds the dequeue lock.
    pub open spec fn no_holder(self) -> bool {
        forall|i: int| 0 <= i < self.n() ==> !((#[trigger] self.workers@[i]).phase is Holding)
    }

    /// Every ticket in circulation was stamped by a past submission.
    pub open spec fn tickets_bounded(self) -> bool {
        &&& forall|i: int|
            0 <= i < self.queue@.len() ==> (#[trigger] self.queue@[i]).ticket < self.next_ticket
        &&& forall|k: int|
            0 <= k < self.n() ==> ((#[trigger] self.workers@[k]).phase matches Phase::Running(a)
                ==> a.ticket < self.next_ticket)
    }

    /// No job instance is ever in two places: tickets are pairwise distinct
    /// across the queue and the workers' hands.
    pub open spec fn tickets_distinct(self) -> bool {
        &&& forall|i: int, j: int|
            0 <= i < self.queue@.len() && 0 <= j < self.queue@.len() && i != j
                ==> (#[trigger] self.queue@[i]).ticket != (#[trigger] self.queue@[j]).ticket
        &&& forall|k: int, i: int|
            0 <= k < self.n() && 0 <= i < self.queue@.len()
                ==> ((#[trigger] self.workers@[k]).phase matches Phase::Running(a)
                    ==> a.ticket != (#[trigger] self.queue@[i]).ticket)
        &&& forall|k1: int, k2: int|
            0 <= k1 < self.n() && 0 <= k2 < self.n() && k1 != k2
                ==> ((#[trigger] self.workers@[k1]).phase matches Phase::Running(a)
                    ==> ((#[trigger] self.workers@[k2]).phase matches Phase::Running(b)
                        ==> a.ticket != b.ticket))
    }

    /// Well-formedness: what construction establishes and every operation
    /// preserves.
    pub open spec fn wf(self) -> bool {
        &&& self.n() >= 1
        &&& self.ids_in_order()
        &&& self.holder_unique()
        &&& self.tickets_bounded()
        &&& self.tickets_distinct()
    }

    /// The sending handle has not been consumed by teardown yet.
    pub open spec fn has_sender(self) -> bool {
        self.sender
    }

    /// A submission is possible only while the sending handle exists.
    pub open spec fn can_submit(self) -> bool {
        self.has_sender()
    }

    /// Every worker is parked at the receive point or gone: no step is in
    /// flight. This holds between any two operations of the pool's public
    /// protocol.
    pub open spec fn quiescent(self) -> bool {
        forall|i: int|
            0 <= i < self.n() ==> ((#[trigger] self.workers@[i]).phase is Waiting
                || self.workers@[i].phase is Exited)
    }

    /// At least one worker has not exited.
    pub open spec fn some_live(self) -> bool {
        exists|i: int| 0 <= i < self.n() && (#[trigger] self.workers@[i]).is_live()
    }

    /// Every worker has exited.
    pub open spec fn all_exited(self) -> bool {
        forall|i: int| 0 <= i < self.n() ==> (#[trigger] self.workers@[i]).phase is Exited
    }

    /// A pool as `new` hands it out: `size` workers in order, all parked,
    /// the queue empty, nothing run yet, the sending handle present.
    pub open spec fn fresh(self, size: int) -> bool {
        &&& self.n() == size
        &&& self.ids_in_order()
        &&& forall|i: int| 0 <= i < self.n() ==> (#[trigger] self.workers@[i]).phase is Waiting
        &&& self.sender
        &&& self.queue@.len() == 0
        &&& self.log@.len() == 0
        &&& self.next_ticket == 0
    }

    /// Build a pool of `size` workers. Exactly `size` workers exist and all
    /// are live before this returns.
    pub fn new(size: usize) -> (pool: ThreadPool)
        requires
            size > 0,
        ensures
            pool.wf(),
            pool.fresh(size as int),
            pool.quiescent(),
    {
        let mut workers: Vec<Worker> = Vec::new();
        let mut i: usize = 0;
        while i < size
            invariant
                i <= size,
                workers@.len() == i as int,
                forall|k: int| 0 <= k < i as int ==> (#[trigger] workers@[k]).id == k,
                forall|k: int| 0 <= k < i as int ==> (#[trigger] workers@[k]).phase is Waiting,
            decreases size - i,
        {
            workers.push(Worker::new(i));
            i = i + 1;
        }
        ThreadPool {
            workers,
            sender: true,
            queue: Vec::new(),
            log: Vec::new(),
            next_ticket: 0,
        }
    }

    /// How one submission changes the pool: the job joins the back of the
    /// queue stamped with the next ticket, and nothing else moves.
    pub open spec fn execute_rel(pre: ThreadPool, post: ThreadPool, job: Job) -> bool {
        &&& post.queue@ == pre.queue@.push((QueuedJob { ticket: pre.next_ticket, job }))
        &&& post.next_ticket == pre.next_ticket + 1
        &&& post.workers@ == pre.workers@
        &&& post.sender == pre.sender
        &&& post.log@ == pre.log@
    }

    /// Submit a job: enqueue it, never blocking on worker availability.
    /// Possible only while the sending handle exists; teardown removes it.
    pub fn execute(&mut self, job: Job)
        requires
            old(self).wf(),
            old(self).can_submit(),
            old(self).next_ticket < u64::MAX,
        ensures
            final(self).wf(),
            final(self).quiescent() == old(self).quiescent(),
            ThreadPool::execute_rel(*old(self), *final(self), job),
    {
        let qj = QueuedJob { ticket: self.next_ticket, job };
        self.queue.push(qj);
        self.next_ticket = self.next_ticket + 1;
    }

    /// All workers as before except worker `w`, now in phase `p`, with the
    /// rest of the pool unchanged.
    pub open spec fn steps_worker(pre: ThreadPool, post: ThreadPool, w: int, p: Phase) -> bool {
        &&& post.workers@ == pre.workers@.update(w, (Worker { id: pre.workers@[w].id, phase: p }))
        &&& post.queue@ == pre.queue@
        &&& post.sender == pre.sender
        &&& post.log@ == pre.log@
        &&& post.next_ticket == pre.next_ticket
    }

    /// Worker `w` takes the dequeue lock. Blocking on the lock is modeled
    /// by the precondition: the step is possible only when nobody holds it.
    pub fn acquire(&mut self, w: usize)
        requires
            old(self).wf(),
            w < old(self).n(),
            old(self).workers@[w as int].phase is Waiting,
            old(self).no_holder(),
        ensures
            final(self).wf(),
            ThreadPool::steps_worker(*old(self), *final(self), w as int, Phase::Holding),
    {
        let id: usize = self.workers[w].id;
        self.workers.set(w, Worker { id, phase: Phase::Holding });
    }

    /// What the receive attempt of worker `w` comes to: with a job pending
    /// it takes the front one; with the queue drained and the sending side
    /// closed it sees the disconnect signal and exits; otherwise it goes
    /// back to waiting (the blocked receive, seen as a retry).
    pub open spec fn dequeue_rel(pre: ThreadPool, post: ThreadPool, w: int) -> bool {
        if pre.queue@.len() > 0 {
            &&& post.workers@ == pre.workers@.update(
                w,
                (Worker { id: pre.workers@[w].id, phase: Phase::Running(pre.queue@[0]) }),
            )
            &&& post.queue@ == pre.queue@.drop_first()
            &&& post.sender == pre.sender
            &&& post.log@ == pre.log@
            &&& post.next_ticket == pre.next_ticket
        } else if !pre.sender {
            ThreadPool::steps_worker(pre, post, w, Phase::Exited)
        } else {
            ThreadPool::steps_worker(pre, post, w, Phase::Waiting)
        }
    }

    /// Worker `w`, holding the dequeue lock, performs one receive and
    /// releases the lock. At most one worker can be here at a time, so no
    /// job is ever handed to two workers.
    pub fn dequeue(&mut self, w: usize)
        requires
            old(self).wf(),
            w < old(self).n(),
            old(self).workers@[w as int].phase is Holding,
        ensures
            final(self).wf(),
            ThreadPool::dequeue_rel(*old(self), *final(self), w as int),
    {
        let id: usize = self.workers[w].id;
        if self.queue.len() > 0 {
            let qj = self.queue.remove(0);
            self.workers.set(w, Worker { id, phase: Phase::Running(qj) });
            proof {
                assert(self.queue@ =~= old(self).queue@.drop_first());
            }
        } else if !self.sender {
            self.workers.set(w, Worker { id, phase: Phase::Exited });
        } else {
            self.workers.set(w, Worker { id, phase: Phase::Waiting });
        }
    }

    /// What running the dequeued job does: a sound job runs to completion
    /// and its payload joins the log, and the worker parks again; a faulty
    /// job kills its worker, which exits without logging, permanently
    /// shrinking the pool's capacity by one.
    pub open spec fn finish_rel(pre: ThreadPool, post: ThreadPool, w: int, qj: QueuedJob) -> bool {
        if qj.job.faulty {
            ThreadPool::steps_worker(pre, post, w, Phase::Exited)
        } else {
            &&& post.workers@ == pre.workers@.update(
                w,
                (Worker { id: pre.workers@[w].id, phase: Phase::Waiting }),
            )
            &&& post.queue@ == pre.queue@
            &&& post.sender == pre.sender
            &&& post.log@ == pre.log@.push(qj.job.id)
            &&& post.next_ticket == pre.next_ticket
        }
    }

    /// Worker `w` runs the job it is holding to completion (or to failure:
    /// a fault is not caught, and takes the worker with it).
    pub fn finish(&mut self, w: usize)
        requires
            old(self).wf(),
            w < old(self).n(),
            old(self).workers@[w as int].phase is Running,
        ensures
            final(self).wf(),
            ThreadPool::finish_rel(
                *old(self),
                *final(self),
                w as int,
                old(self).workers@[w as int].phase->Running_0,
            ),
    {
        let id: usize = self.workers[w].id;
        let phase = self.workers[w].phase;
        match phase {
            Phase::Running(qj) => {
                if qj.job.faulty {
                    self.workers.set(w, Worker { id, phase: Phase::Exited });
                } else {
                    self.log.push(qj.job.id);
                    self.workers.set(w, Worker { id, phase: Phase::Waiting });
                }
            },
            _ => {},
        }
    }

    /// What teardown guarantees, whatever was pending when it began: the
    /// sending handle is gone, every worker has exited, the queue (dropped
    /// with its channel) is empty, and the completion log has grown by
    /// exactly the drain of the pending queue over the workers that were
    /// live — every pending payload in queue order when no pending job is
    /// faulty, and with each faulty job silently costing one worker
    /// otherwise.
    pub open spec fn shutdown_rel(pre: ThreadPool, post: ThreadPool) -> bool {
        &&& !post.sender
        &&& post.all_exited()
        &&& post.queue@.len() == 0
        &&& post.next_ticket == pre.next_ticket
        &&& post.workers@.len() == pre.workers@.len()
        &&& post.log@ == pre.log@ + drain_ids(pre.queue@, live_from(pre.workers@, 0))
    }

    /// Tear the pool down: first consume the sending handle, so no further
    /// job can be accepted and each worker's next receive on a drained
    /// queue sees the disconnect signal; then join every worker in
    /// construction order. This returns only once every worker has exited.
    pub fn shutdown(&mut self)
        requires
            old(self).wf(),
            old(self).has_sender(),
            old(self).quiescent(),
        ensures
            final(self).wf(),
            final(self).quiescent(),
            ThreadPool::shutdown_rel(*old(self), *final(self)),
    {
        self.sender = false;
        let n: usize = self.workers.len();
        let mut w: usize = 0;
        while w < n
            invariant
                self.wf(),
                !self.sender,
                w <= n,
                n == self.n(),
                old(self).quiescent(),
                self.workers@.len() == old(self).workers@.len(),
                self.next_ticket == old(self).next_ticket,
                forall|k: int| 0 <= k < w as int ==> (#[trigger] self.workers@[k]).phase is Exited,
                forall|k: int|
                    w as int <= k < n as int ==> (#[trigger] self.workers@[k]).phase == old(
                        self,
                    ).workers@[k].phase,
                self.log@ + drain_ids(self.queue@, live_from(self.workers@, 0)) == old(
                    self,
                ).log@ + drain_ids(old(self).queue@, live_from(old(self).workers@, 0)),
            decreases n - w,
        {
            while !self.workers[w].exited()
                invariant
                    self.wf(),
                    !self.sender,
                    w < n,
                    n == self.n(),
                    old(self).quiescent(),
                    self.workers@.len() == old(self).workers@.len(),
                    self.next_ticket == old(self).next_ticket,
                    forall|k: int|
                        0 <= k < w as int ==> (#[trigger] self.workers@[k]).phase is Exited,
                    forall|k: int|
                        (w as int) < k < (n as int) ==> (#[trigger] self.workers@[k]).phase == old(
                            self,
                        ).workers@[k].phase,
                    self.workers@[w as int].phase is Waiting || self.workers@[w as int].phase
                        is Exited,
                    self.log@ + drain_ids(self.queue@, live_from(self.workers@, 0)) == old(
                        self,
                    ).log@ + drain_ids(old(self).queue@, live_from(old(self).workers@, 0)),
                decreases self.queue@.len() + (if self.workers@[w as int].phase is Exited {
                    0int
                } else {
                    1int
                }),
            {
                let ghost s0 = *self;
                self.acquire(w);
                self.dequeue(w);
                let ph = self.workers[w].phase;
                match ph {
                    Phase::Running(_) => self.finish(w),
                    _ => {},
                }
                proof {
                    let lw = live_from(s0.workers@, 0);
                    lemma_live_from_at(s0.workers@, 0, w as int);
                    let cur = self.workers@[w as int];
                    if cur.is_live() {
                        assert(self.workers@ =~= s0.workers@);
                    } else {
                        assert(self.workers@ =~= s0.workers@.update(w as int, cur));
                        lemma_live_from_update(s0.workers@, cur, 0, w as int);
                        assert(live_from(self.workers@, 0) == lw - 1);
                    }
                    if s0.queue@.len() > 0 {
                        if s0.queue@[0].job.faulty {
                            assert(drain_ids(s0.queue@, lw) == drain_ids(
                                s0.queue@.drop_first(),
                                lw - 1,
                            ));
                        } else {
                            assert(drain_ids(s0.queue@, lw) == seq![s0.queue@[0].job.id]
                                + drain_ids(s0.queue@.drop_first(), lw));
                            assert(self.log@ + drain_ids(self.queue@, live_from(self.workers@, 0))
                                =~= s0.log@ + drain_ids(s0.queue@, lw));
                        }
                    } else {
                        assert(drain_ids(s0.queue@, lw) =~= Seq::<u64>::empty());
                        assert(drain_ids(self.queue@, live_from(self.workers@, 0))
                            =~= Seq::<u64>::empty());
                        assert(self.log@ + drain_ids(self.queue@, live_from(self.workers@, 0))
                            =~= s0.log@ + drain_ids(s0.queue@, lw));
                    }
                }
            }
            w = w + 1;
        }
        proof {
            lemma_live_from_zero(self.workers@, 0);
            assert(drain_ids(self.queue@, live_from(self.workers@, 0)) =~= Seq::<u64>::empty());
            assert(self.log@ =~= self.log@ + drain_ids(self.queue@, live_from(self.workers@, 0)));
        }
        self.queue = Vec::new();
    }
}

} // verus!
