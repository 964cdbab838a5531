use vstd::prelude::*;

verus! {

/// A unit of deferred work, fire-and-forget: it carries a payload `id`
/// (what the work would record when it runs) and a `faulty` flag marking
/// a job whose body fails partway through instead of completing.
#[derive(Clone, Copy, PartialEq, Eq, Structural, Debug)]
pub struct Job {
    pub id: u64,
    pub faulty: bool,
}

/// A job as it travels from submitter to worker: the submitted job plus
/// the ticket the pool stamped on it at submission. Tickets give each
/// submitted job instance its own identity, so that "delivered to at most
/// one worker" is a statement about instances, not payloads.
#[derive(Clone, Copy, PartialEq, Eq, Structural, Debug)]
pub struct QueuedJob {
    pub ticket: u64,
    pub job: Job,
}

/// The payloads of a queue segment, in order.
pub open spec fn ids_of(q: Seq<QueuedJob>) -> Seq<u64> {
    q.map_values(|qj: QueuedJob| qj.job.id)
}

/// No job in the segment faults when run.
pub open spec fn all_sound(q: Seq<QueuedJob>) -> bool {
    forall|i: int| 0 <= i < q.len() ==> !(#[trigger] q[i]).job.faulty
}

/// The payloads of a batch of jobs, in order.
pub open spec fn job_ids(js: Seq<Job>) -> Seq<u64> {
    js.map_values(|j: Job| j.id)
}

/// No job in the batch faults when run.
pub open spec fn all_sound_jobs(js: Seq<Job>) -> bool {
    forall|i: int| 0 <= i < js.len() ==> !(#[trigger] js[i]).faulty
}

} // verus!
