//! The pool's guarantees, stated and proved once over the contracts of
//! `ThreadPool`'s operations.

use crate::job::{all_sound, all_sound_jobs, ids_of, job_ids, Job, QueuedJob};
use crate::pool::{drain_ids, lemma_drain_ids_all_sound, lemma_live_from_at, lemma_live_from_zero, live_from, ThreadPool};
use crate::worker::Phase;
use vstd::prelude::*;

verus! {

/// A freshly built pool of `size` workers is fully staffed: exactly `size`
/// workers exist, each bound to its ordinal identity, and every one of
/// them is live before construction returns.
pub proof fn lemma_new_pool_fully_staffed(p: ThreadPool, size: int)
    requires
        p.fresh(size),
    ensures
        p.n() == size,
        forall|i: int| 0 <= i < p.n() ==> (#[trigger] p.workers@[i]).is_live(),
        forall|i: int| 0 <= i < p.n() ==> (#[trigger] p.workers@[i]).id == i,
{
}

/// Dequeuing is mutually exclusive: while one worker holds the receive
/// lock, no other worker does, however many workers race for it.
pub proof fn lemma_dequeue_is_mutually_exclusive(p: ThreadPool, i: int, j: int)
    requires
        p.wf(),
        0 <= i < p.n(),
        0 <= j < p.n(),
        i != j,
        p.workers@[i].phase is Holding,
    ensures
        !(p.workers@[j].phase is Holding),
{
}

/// No two workers ever execute the same job instance at the same time: in
/// any well-formed pool state, the jobs in two distinct workers' hands
/// carry distinct tickets.
pub proof fn lemma_no_job_instance_shared(
    p: ThreadPool,
    i: int,
    j: int,
    a: QueuedJob,
    b: QueuedJob,
)
    requires
        p.wf(),
        0 <= i < p.n(),
        0 <= j < p.n(),
        i != j,
        p.workers@[i].phase == Phase::Running(a),
        p.workers@[j].phase == Phase::Running(b),
    ensures
        a.ticket != b.ticket,
{
}

/// A batch of submissions, one `execute` after another: `states` are the
/// pool's values along the way, `states[i]` before the `i`-th submission
/// and `states[i + 1]` after it.
pub open spec fn submit_chain(states: Seq<ThreadPool>, jobs: Seq<Job>) -> bool {
    &&& states.len() == jobs.len() + 1
    &&& forall|i: int|
        0 <= i < jobs.len() ==> ThreadPool::execute_rel(
            states[i],
            states[i + 1],
            #[trigger] jobs[i],
        )
}

/// What a batch of submissions amounts to: the jobs join the back of the
/// queue in submission order, each under a fresh ticket, and nothing else
/// about the pool moves.
#[verifier::rlimit(50)]
pub proof fn lemma_submit_chain_effect(states: Seq<ThreadPool>, jobs: Seq<Job>)
    requires
        submit_chain(states, jobs),
    ensures
        states.last().workers@ == states.first().workers@,
        states.last().sender == states.first().sender,
        states.last().log@ == states.first().log@,
        states.last().next_ticket == states.first().next_ticket + jobs.len(),
        states.last().queue@.len() == states.first().queue@.len() + jobs.len(),
        ids_of(states.last().queue@) == ids_of(states.first().queue@) + job_ids(jobs),
        all_sound(states.first().queue@) && all_sound_jobs(jobs) ==> all_sound(
            states.last().queue@,
        ),
    decreases jobs.len(),
{
    if jobs.len() == 0 {
        assert(states.last() == states.first());
        assert(ids_of(states.last().queue@) =~= ids_of(states.first().queue@) + job_ids(jobs));
    } else {
        let head = states.drop_last();
        let done = jobs.drop_last();
        assert(submit_chain(head, done)) by {
            assert forall|i: int| 0 <= i < done.len() implies ThreadPool::execute_rel(
                head[i],
                head[i + 1],
                #[trigger] done[i],
            ) by {
                assert(head[i] == states[i]);
                assert(head[i + 1] == states[i + 1]);
                assert(done[i] == jobs[i]);
            }
        }
        lemma_submit_chain_effect(head, done);
        assert(ThreadPool::execute_rel(
            states[jobs.len() - 1],
            states[jobs.len() as int],
            jobs[jobs.len() - 1],
        ));
        assert(head.last() == states[jobs.len() - 1]);
        assert(head.first() == states.first());
        assert(states.last().queue@ == head.last().queue@.push(
            (QueuedJob { ticket: head.last().next_ticket, job: jobs.last() }),
        ));
        assert(ids_of(states.last().queue@) =~= ids_of(head.last().queue@).push(jobs.last().id));
        assert(job_ids(jobs) =~= job_ids(done).push(jobs.last().id));
        assert(ids_of(states.first().queue@) + job_ids(jobs) =~= (ids_of(states.first().queue@)
            + job_ids(done)).push(jobs.last().id));
        assert(ids_of(states.last().queue@) == ids_of(states.first().queue@) + job_ids(jobs));
        if all_sound(states.first().queue@) && all_sound_jobs(jobs) {
            assert(all_sound_jobs(done));
            assert(all_sound(states.last().queue@));
        }
    }
}

/// Every submitted job runs exactly once. Submit any batch of sound jobs
/// to a pool whose queue is empty and which still has a live worker, then
/// tear the pool down: the completion log after teardown is the log before
/// the batch followed by exactly one entry per submitted job, in order.
pub proof fn lemma_each_job_runs_exactly_once(
    states: Seq<ThreadPool>,
    jobs: Seq<Job>,
    post: ThreadPool,
)
    requires
        submit_chain(states, jobs),
        states.first().queue@.len() == 0,
        states.first().some_live(),
        all_sound_jobs(jobs),
        ThreadPool::shutdown_rel(states.last(), post),
    ensures
        post.log@ == states.first().log@ + job_ids(jobs),
{
    lemma_submit_chain_effect(states, jobs);
    let p0 = states.first();
    let p1 = states.last();
    let k: int = choose|k: int| 0 <= k < p0.n() && (#[trigger] p0.workers@[k]).is_live();
    assert(p1.workers@[k].is_live());
    lemma_live_from_at(p1.workers@, 0, k);
    assert(all_sound(p1.queue@));
    lemma_drain_ids_all_sound(p1.queue@, live_from(p1.workers@, 0));
    assert(ids_of(p1.queue@) =~= job_ids(jobs));
    assert(post.log@ =~= p0.log@ + job_ids(jobs));
}

/// Teardown is terminal: once it has returned, every worker has exited
/// and the sending handle is gone, so no further submission is possible.
pub proof fn lemma_teardown_severs_submission(pre: ThreadPool, post: ThreadPool)
    requires
        ThreadPool::shutdown_rel(pre, post),
    ensures
        post.all_exited(),
        !post.can_submit(),
{
}

/// A pool whose workers have all exited can run nothing: tearing it down
/// leaves the completion log exactly as it was, and whatever was still
/// pending is lost with the queue.
pub proof fn lemma_dead_pool_runs_nothing(pre: ThreadPool, post: ThreadPool)
    requires
        !pre.some_live(),
        ThreadPool::shutdown_rel(pre, post),
    ensures
        post.log@ == pre.log@,
{
    assert(forall|k: int| 0 <= k < pre.n() ==> !(#[trigger] pre.workers@[k]).is_live());
    lemma_live_from_zero(pre.workers@, 0);
    assert(drain_ids(pre.queue@, live_from(pre.workers@, 0)) =~= Seq::<u64>::empty());
    assert(post.log@ =~= pre.log@);
}

/// Submitting nothing and tearing down observes no execution: a fresh pool
/// of any valid size, torn down with nothing submitted, ends with every
/// worker exited, the pool closed, and an empty completion log.
pub proof fn lemma_empty_round_trip(size: int, p0: ThreadPool, p1: ThreadPool)
    requires
        size >= 1,
        p0.fresh(size),
        ThreadPool::shutdown_rel(p0, p1),
    ensures
        p1.all_exited(),
        !p1.has_sender(),
        p1.log@.len() == 0,
        p1.queue@.len() == 0,
{
    assert(drain_ids(p0.queue@, live_from(p0.workers@, 0)) =~= Seq::<u64>::empty());
    assert(p1.log@ =~= p0.log@);
}

} // verus!
