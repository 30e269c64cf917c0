//! The affinity scheduler: a fixed set of workers, each with a FIFO queue,
//! and a frozen assignment of application index to worker.
//!
//! The assignment is computed once at construction — application `i` goes to
//! worker `i` modulo the pool size — and never changes, so every job of one
//! application lands in the same queue and is taken out in the order it was
//! put in.  Applications assigned to different workers carry no relative
//! ordering.

use vstd::prelude::*;
use crate::table::Direction;

verus! {

/// One unit of work: a classified packet, owned by the job, together with
/// the application it belongs to and the direction it travels.
pub struct Job {
    /// Position of the matched application in the routing table.
    pub app_index: usize,
    /// The direction the classifier determined.
    pub direction: Direction,
    /// The raw datagram, exclusively owned by this job.
    pub packet: Vec<u8>,
}

/// The worker pool: per-worker FIFO queues and the frozen assignment table.
pub struct ThreadPool {
    /// Number of workers.
    pub pool_size: usize,
    /// Number of applications the assignment covers.
    pub class_size: usize,
    /// `assignments[i]` is the worker for application `i`; filled at
    /// construction with `i % pool_size` and frozen.
    pub assignments: Vec<usize>,
    /// One pending-job queue per worker, in FIFO order.
    pub queues: Vec<Vec<Job>>,
}

/// The transition `schedule` makes: the job is appended to the queue of the
/// worker its application is assigned to, and nothing else moves.
pub open spec fn spec_schedule(pre: ThreadPool, post: ThreadPool, job: Job) -> bool {
    let w = job.app_index as int % pre.pool_size as int;
    &&& post.pool_size == pre.pool_size
    &&& post.class_size == pre.class_size
    &&& post.assignments == pre.assignments
    &&& post.queues@.len() == pre.queues@.len()
    &&& post.queues@[w]@ == pre.queues@[w]@.push(job)
    &&& forall|v: int| 0 <= v < pre.queues@.len() && v != w ==> post.queues@[v] == pre.queues@[v]
}

impl ThreadPool {
    /// The pool invariant: a worker exists, the assignment covers every
    /// application, and application `i` is assigned to worker
    /// `i % pool_size`.
    pub open spec fn wf(&self) -> bool {
        &&& self.pool_size >= 1
        &&& self.class_size >= 1
        &&& self.assignments@.len() == self.class_size
        &&& self.queues@.len() == self.pool_size
        &&& forall|i: int|
            0 <= i < self.class_size ==> self.assignments@[i] as int == i % (
            self.pool_size as int)
    }

    /// Builds a pool of `pool_size` workers with empty queues and the frozen
    /// round-robin assignment for `class_size` applications.
    pub fn new(pool_size: usize, class_size: usize) -> (p: ThreadPool)
        requires
            pool_size >= 1,
            class_size >= 1,
        ensures
            p.wf(),
            p.pool_size == pool_size,
            p.class_size == class_size,
            forall|w: int| 0 <= w < pool_size ==> p.queues@[w]@.len() == 0,
    {
        let mut queues: Vec<Vec<Job>> = Vec::new();
        let mut w: usize = 0;
        while w < pool_size
            invariant
                w == queues.len(),
                w <= pool_size,
                forall|v: int| 0 <= v < w ==> queues@[v]@.len() == 0,
            decreases pool_size - w,
        {
            queues.push(Vec::new());
            w = w + 1;
        }
        let mut assignments: Vec<usize> = Vec::new();
        let mut i: usize = 0;
        while i < class_size
            invariant
                i == assignments.len(),
                i <= class_size,
                pool_size >= 1,
                forall|k: int|
                    0 <= k < i ==> assignments@[k] as int == k % (pool_size as int),
            decreases class_size - i,
        {
            assignments.push(i % pool_size);
            i = i + 1;
        }
        ThreadPool { pool_size, class_size, assignments, queues }
    }

    /// The worker that application `app_index` is assigned to.
    pub fn worker_of(&self, app_index: usize) -> (w: usize)
        requires
            self.wf(),
            app_index < self.class_size,
        ensures
            w as int == app_index as int % self.pool_size as int,
            w < self.pool_size,
    {
        let w = self.assignments[app_index];
        proof {
            vstd::arithmetic::div_mod::lemma_mod_division_less_than_divisor(
                app_index as int,
                self.pool_size as int,
            );
        }
        w
    }

    /// Appends the job to the queue of the worker its application is
    /// assigned to, and returns that worker's index.  The enqueue returns at
    /// once; the queues are unbounded.
    pub fn schedule(&mut self, job: Job) -> (w: usize)
        requires
            old(self).wf(),
            job.app_index < old(self).class_size,
        ensures
            final(self).wf(),
            w as int == job.app_index as int % old(self).pool_size as int,
            w < old(self).pool_size,
            spec_schedule(*old(self), *final(self), job),
    {
        let w = self.worker_of(job.app_index);
        let mut queue = self.queues.remove(w);
        queue.push(job);
        self.queues.insert(w, queue);
        proof {
            assert forall|v: int|
                0 <= v < old(self).queues@.len() && v != w implies self.queues@[v] == old(
                self,
            ).queues@[v] by {}
        }
        w
    }

    /// Takes the oldest pending job of worker `w`, if any: queues drain in
    /// FIFO order.
    pub fn take_next(&mut self, w: usize) -> (r: Option<Job>)
        requires
            old(self).wf(),
            w < old(self).pool_size,
        ensures
            final(self).wf(),
            final(self).pool_size == old(self).pool_size,
            final(self).class_size == old(self).class_size,
            final(self).assignments == old(self).assignments,
            old(self).queues@[w as int]@.len() == 0 ==> r is None && *final(self) == *old(self),
            old(self).queues@[w as int]@.len() > 0 ==> {
                &&& r == Some(old(self).queues@[w as int]@[0])
                &&& final(self).queues@[w as int]@ == old(self).queues@[w as int]@.skip(1)
                &&& forall|v: int|
                    0 <= v < old(self).queues@.len() && v != w ==> final(self).queues@[v] == old(
                    self,
                    ).queues@[v]
            },
    {
        if self.queues[w].len() == 0 {
            return None;
        }
        let mut queue = self.queues.remove(w);
        let job = queue.remove(0);
        self.queues.insert(w, queue);
        proof {
            assert(self.queues@[w as int]@ =~= old(self).queues@[w as int]@.skip(1));
            assert forall|v: int|
                0 <= v < old(self).queues@.len() && v != w implies self.queues@[v] == old(
                self,
            ).queues@[v] by {}
        }
        Some(job)
    }
}

/// Affinity ordering: application indices in the same congruence class
/// modulo the pool size share a worker, and two jobs scheduled for such
/// indices, one after the other, stand in that worker's queue in submission
/// order, behind whatever was already queued.  Indices in different classes
/// are assigned different workers, so no relative order is imposed on them.
pub proof fn lemma_affinity_fifo(p0: ThreadPool, p1: ThreadPool, p2: ThreadPool, a: Job, b: Job)
    requires
        p0.wf(),
        a.app_index < p0.class_size,
        b.app_index < p0.class_size,
        spec_schedule(p0, p1, a),
        spec_schedule(p1, p2, b),
        a.app_index as int % p0.pool_size as int == b.app_index as int % p0.pool_size as int,
    ensures
        ({
            let w = a.app_index as int % p0.pool_size as int;
            let n = p0.queues@[w]@.len() as int;
            &&& p2.queues@[w]@.len() == n + 2
            &&& p2.queues@[w]@[n] == a
            &&& p2.queues@[w]@[n + 1] == b
            &&& forall|k: int| 0 <= k < n ==> p2.queues@[w]@[k] == p0.queues@[w]@[k]
        }),
{
}

/// Two applications share a worker exactly when their indices are congruent
/// modulo the pool size.
pub proof fn lemma_shared_worker(p: ThreadPool, i: usize, j: usize)
    requires
        p.wf(),
        i < p.class_size,
        j < p.class_size,
    ensures
        (i as int % p.pool_size as int == j as int % p.pool_size as int) <==> p.assignments@[
            i as int] == p.assignments@[j as int],
{
}

} // verus!
