//! The worker pool, as a verified state machine over job ids.
//!
//! The pool owns a fixed set of workers and a FIFO queue of pending jobs.
//! Jobs are identified by the order of their submission: ids `0..submitted`
//! have been submitted, and the pending ones are exactly the contiguous
//! range `next_claim..submitted`, so the front of the queue is always
//! `next_claim`. A caller that runs real threads holds the job bodies
//! itself, keyed by id, locks the pool around each transition, and tests
//! every precondition before calling.
//!
//! The well-formedness invariant ties the pieces together: every claimed
//! job runs on exactly one worker, every completed job was claimed, and no
//! job is ever in two places at once.

use vstd::prelude::*;

verus! {

/// The lifecycle of one worker: blocked on the queue, executing one claimed
/// job, or exited. A worker never moves from `Running` straight to
/// `Terminated`; it finishes its job first.
#[derive(Debug, Clone, Copy, PartialEq, Eq, Structural)]
pub enum WorkerState {
    Idle,
    Running { job: usize },
    Terminated,
}

/// Why the pool refused an operation.
#[derive(Debug, Clone, Copy, PartialEq, Eq, Structural)]
pub enum PoolError {
    /// A pool must own at least one worker.
    ZeroWorkers,
    /// Shutdown has begun: no new jobs are accepted.
    ShuttingDown,
}

/// How many of the workers are running a job.
pub open spec fn count_running(s: Seq<WorkerState>) -> int
    decreases s.len(),
{
    if s.len() == 0 {
        0
    } else {
        count_running(s.drop_last()) + if s.last() is Running {
            1int
        } else {
            0int
        }
    }
}

/// Exactly one of three things holds.
pub open spec fn exactly_one(a: bool, b: bool, c: bool) -> bool {
    (a && !b && !c) || (!a && b && !c) || (!a && !b && c)
}

pub struct WorkerPool {
    /// One state per worker; the length is the pool's size, fixed at construction.
    workers: Vec<WorkerState>,
    /// Ids below this have been submitted; the id `submitted` is assigned next.
    submitted: usize,
    /// Ids below this have been claimed by a worker; pending ids are
    /// `next_claim..submitted`, claimed in increasing (FIFO) order.
    next_claim: usize,
    /// Ids of finished jobs, in completion order.
    completed: Vec<usize>,
    /// Once set, the pool accepts no new jobs and idle workers may retire.
    shutdown: bool,
}

impl WorkerPool {
    /// The state of every worker.
    pub closed spec fn worker_states(self) -> Seq<WorkerState> {
        self.workers@
    }

    /// The number of workers, fixed at construction.
    pub open spec fn size_spec(self) -> int {
        self.worker_states().len() as int
    }

    /// How many jobs have been submitted; ids `0..submitted_spec()` exist.
    pub closed spec fn submitted_spec(self) -> int {
        self.submitted as int
    }

    /// The id at the front of the queue: the next job a worker will claim.
    pub closed spec fn next_claim_spec(self) -> int {
        self.next_claim as int
    }

    /// Ids of finished jobs, in completion order.
    pub closed spec fn completed_spec(self) -> Seq<usize> {
        self.completed@
    }

    /// Whether shutdown has begun.
    pub closed spec fn is_shutdown(self) -> bool {
        self.shutdown
    }

    /// Job `j` is submitted but not yet claimed. The pending ids form a
    /// contiguous range, so submission order is claim order: FIFO.
    pub open spec fn pending(self, j: usize) -> bool {
        self.next_claim_spec() <= j < self.submitted_spec()
    }

    /// Job `j` is being executed by some worker.
    pub open spec fn running(self, j: usize) -> bool {
        exists|w: int|
            0 <= w < self.size_spec() && #[trigger] self.worker_states()[w] == (WorkerState::Running {
                job: j,
            })
    }

    /// Job `j` has finished executing.
    pub open spec fn done(self, j: usize) -> bool {
        self.completed_spec().contains(j)
    }

    /// Job `j` is in exactly one place: pending, on one worker, or finished.
    pub open spec fn accounted(self, j: usize) -> bool {
        exactly_one(self.pending(j), self.running(j), self.done(j))
    }

    /// Every worker has exited.
    pub open spec fn all_terminated(self) -> bool {
        forall|w: int|
            0 <= w < self.size_spec() ==> (#[trigger] self.worker_states()[w]) is Terminated
    }

    /// The pool's invariant, established by `new` and preserved by every
    /// transition.
    pub open spec fn wf(self) -> bool {
        &&& self.size_spec() >= 1
        &&& self.next_claim_spec() <= self.submitted_spec()
        &&& forall|w: int|
            0 <= w < self.size_spec() ==> ((#[trigger] self.worker_states()[w]) matches
            WorkerState::Running { job } ==> job < self.next_claim_spec())
        &&& forall|w1: int, w2: int|
            0 <= w1 < self.size_spec() && 0 <= w2 < self.size_spec()
                && (#[trigger] self.worker_states()[w1]) is Running
                && #[trigger] self.worker_states()[w2] == self.worker_states()[w1] ==> w1 == w2
        &&& forall|i: int|
            0 <= i < self.completed_spec().len() ==> (#[trigger] self.completed_spec()[i])
                < self.next_claim_spec()
        &&& self.completed_spec().no_duplicates()
        &&& forall|j: usize| j < self.next_claim_spec() ==> #[trigger] self.accounted(j)
        &&& count_running(self.worker_states()) + self.completed_spec().len()
            == self.next_claim_spec()
        &&& forall|w: int|
            0 <= w < self.size_spec() && (#[trigger] self.worker_states()[w]) is Terminated
                ==> self.is_shutdown()
        &&& (self.all_terminated() ==> self.next_claim_spec() == self.submitted_spec())
    }

    /// Construct a pool of `size` workers, all idle. A size of zero is a
    /// caller error, refused outright; the pool is never partially built.
    pub fn new(size: usize) -> (r: Result<WorkerPool, PoolError>)
        ensures
            size == 0 <==> r == Err::<WorkerPool, PoolError>(PoolError::ZeroWorkers),
            size >= 1 <==> r is Ok,
            r matches Ok(p) ==> {
                &&& p.wf()
                &&& p.size_spec() == size
                &&& p.submitted_spec() == 0
                &&& p.next_claim_spec() == 0
                &&& p.completed_spec().len() == 0
                &&& !p.is_shutdown()
                &&& forall|w: int| 0 <= w < size ==> (#[trigger] p.worker_states()[w]) is Idle
            },
    {
        if size == 0 {
            return Err(PoolError::ZeroWorkers);
        }
        let mut workers: Vec<WorkerState> = Vec::new();
        let mut i: usize = 0;
        while i < size
            invariant
                i <= size,
                workers@.len() == i,
                forall|w: int| 0 <= w < i ==> (#[trigger] workers@[w]) is Idle,
                count_running(workers@) == 0,
            decreases size - i,
        {
            let ghost prev = workers@;
            workers.push(WorkerState::Idle);
            proof {
                assert(workers@.drop_last() =~= prev);
            }
            i = i + 1;
        }
        let pool = WorkerPool {
            workers,
            submitted: 0,
            next_claim: 0,
            completed: Vec::new(),
            shutdown: false,
        };
        Ok(pool)
    }

    /// Submit a job. The caller keeps the job's body and learns its id here;
    /// enqueueing never blocks and never fails while the pool is alive, and
    /// is refused once shutdown has begun.
    pub fn execute(&mut self) -> (r: Result<usize, PoolError>)
        requires
            old(self).wf(),
            old(self).submitted_spec() < usize::MAX,
        ensures
            final(self).wf(),
            old(self).is_shutdown() ==> {
                &&& r == Err::<usize, PoolError>(PoolError::ShuttingDown)
                &&& *final(self) == *old(self)
            },
            !old(self).is_shutdown() ==> {
                &&& r == Ok::<usize, PoolError>((old(self).submitted_spec()) as usize)
                &&& final(self).submitted_spec() == old(self).submitted_spec() + 1
                &&& final(self).pending((old(self).submitted_spec()) as usize)
            },
            final(self).worker_states() == old(self).worker_states(),
            final(self).next_claim_spec() == old(self).next_claim_spec(),
            final(self).completed_spec() == old(self).completed_spec(),
            final(self).is_shutdown() == old(self).is_shutdown(),
    {
        if self.shutdown {
            return Err(PoolError::ShuttingDown);
        }
        let id = self.submitted;
        self.submitted = self.submitted + 1;
        proof {
            assert forall|w: int|
                0 <= w < self.size_spec() implies !((#[trigger] self.worker_states()[w])
                is Terminated) by {
                if self.worker_states()[w] is Terminated {
                    assert(self.is_shutdown());
                }
            }
            assert(!(self.worker_states()[0] is Terminated));
            assert(!self.all_terminated());
            assert forall|j: usize| j < self.next_claim_spec() implies #[trigger] self.accounted(
                j,
            ) by {
                assert(old(self).accounted(j));
            }
        }
        Ok(id)
    }

    /// Worker `w`, idle, tries to claim a job. It receives the front of the
    /// queue — the oldest pending id — or nothing if the queue is empty.
    /// Only one worker can ever claim a given id: the claim moves it out of
    /// the queue and onto `w` alone.
    pub fn claim(&mut self, w: usize) -> (r: Option<usize>)
        requires
            old(self).wf(),
            w < old(self).size_spec(),
            old(self).worker_states()[w as int] is Idle,
        ensures
            final(self).wf(),
            old(self).next_claim_spec() == old(self).submitted_spec() ==> {
                &&& r is None
                &&& *final(self) == *old(self)
            },
            old(self).next_claim_spec() < old(self).submitted_spec() ==> {
                &&& r == Some((old(self).next_claim_spec()) as usize)
                &&& final(self).next_claim_spec() == old(self).next_claim_spec() + 1
                &&& final(self).worker_states() == old(self).worker_states().update(
                    w as int,
                    WorkerState::Running { job: (old(self).next_claim_spec()) as usize },
                )
                &&& final(self).running((old(self).next_claim_spec()) as usize)
                &&& forall|j: usize|
                    old(self).pending(j) ==> old(self).next_claim_spec() <= j
            },
            final(self).submitted_spec() == old(self).submitted_spec(),
            final(self).completed_spec() == old(self).completed_spec(),
            final(self).is_shutdown() == old(self).is_shutdown(),
            final(self).size_spec() == old(self).size_spec(),
    {
        if self.next_claim == self.submitted {
            return None;
        }
        let job = self.next_claim;
        let ghost prev = *self;
        self.workers[w] = WorkerState::Running { job };
        self.next_claim = self.next_claim + 1;
        proof {
            lemma_count_running_update(
                prev.worker_states(),
                w as int,
                WorkerState::Running { job },
            );
            assert(self.running(job));
            assert forall|j: usize| j < self.next_claim_spec() implies #[trigger] self.accounted(
                j,
            ) by {
                if j < prev.next_claim_spec() {
                    assert(prev.accounted(j));
                    assert(self.done(j) == prev.done(j));
                    if prev.running(j) {
                        let w2 = choose|w2: int|
                            0 <= w2 < prev.size_spec() && #[trigger] prev.worker_states()[w2] == (
                            WorkerState::Running { job: j });
                        assert(self.worker_states()[w2] == prev.worker_states()[w2]);
                        assert(self.running(j));
                    }
                    if self.running(j) {
                        let w2 = choose|w2: int|
                            0 <= w2 < self.size_spec() && #[trigger] self.worker_states()[w2] == (
                            WorkerState::Running { job: j });
                        assert(w2 != w);
                        assert(prev.running(j));
                    }
                } else {
                    assert(j == job);
                    assert(!self.pending(j));
                    assert(!self.done(j));
                }
            }
            assert forall|w1: int, w2: int|
                0 <= w1 < self.size_spec() && 0 <= w2 < self.size_spec()
                    && (#[trigger] self.worker_states()[w1]) is Running
                    && #[trigger] self.worker_states()[w2] == self.worker_states()[w1] implies w1
                == w2 by {
                if w1 != w2 {
                    if w1 != w as int && w2 != w as int {
                        assert(prev.worker_states()[w1] == self.worker_states()[w1]);
                    } else {
                        let other = if w1 == w as int {
                            w2
                        } else {
                            w1
                        };
                        assert(self.worker_states()[other] == (WorkerState::Running { job }));
                        assert(prev.worker_states()[other] == (WorkerState::Running { job }));
                        assert(prev.running(job));
                        assert(prev.accounted(job));
                        assert(prev.pending(job));
                    }
                }
            }
        }
        Some(job)
    }

    /// Worker `w` finishes its claimed job: the job is recorded as complete —
    /// for the first and only time — and the worker returns to idle.
    pub fn complete(&mut self, w: usize)
        requires
            old(self).wf(),
            w < old(self).size_spec(),
            old(self).worker_states()[w as int] is Running,
        ensures
            final(self).wf(),
            final(self).worker_states() == old(self).worker_states().update(
                w as int,
                WorkerState::Idle,
            ),
            final(self).completed_spec() == old(self).completed_spec().push(
                old(self).worker_states()[w as int]->job,
            ),
            final(self).done(old(self).worker_states()[w as int]->job),
            final(self).submitted_spec() == old(self).submitted_spec(),
            final(self).next_claim_spec() == old(self).next_claim_spec(),
            final(self).is_shutdown() == old(self).is_shutdown(),
            final(self).size_spec() == old(self).size_spec(),
    {
        let job = match self.workers[w] {
            WorkerState::Running { job } => job,
            _ => unreached(),
        };
        let ghost prev = *self;
        self.workers[w] = WorkerState::Idle;
        self.completed.push(job);
        proof {
            lemma_count_running_update(prev.worker_states(), w as int, WorkerState::Idle);
            assert(prev.running(job));
            assert(prev.accounted(job));
            assert(self.completed_spec().drop_last() =~= prev.completed_spec());
            assert(self.completed_spec().last() == job);
            assert(self.done(job));
            assert forall|j: usize| j < self.next_claim_spec() implies #[trigger] self.accounted(
                j,
            ) by {
                assert(prev.accounted(j));
                if j == job {
                    assert(!prev.done(j));
                    assert(!self.running(j)) by {
                        if self.running(j) {
                            let w2 = choose|w2: int|
                                0 <= w2 < self.size_spec() && #[trigger] self.worker_states()[w2]
                                    == (WorkerState::Running { job: j });
                            assert(w2 != w);
                            assert(prev.worker_states()[w2] == (WorkerState::Running { job: j }));
                            assert(prev.worker_states()[w as int] == (WorkerState::Running {
                                job: j,
                            }));
                        }
                    }
                } else {
                    assert(self.done(j) <==> prev.done(j)) by {
                        if prev.done(j) {
                            let i = choose|i: int|
                                0 <= i < prev.completed_spec().len()
                                    && #[trigger] prev.completed_spec()[i] == j;
                            assert(self.completed_spec()[i] == j);
                        }
                        if self.done(j) {
                            let i = choose|i: int|
                                0 <= i < self.completed_spec().len()
                                    && #[trigger] self.completed_spec()[i] == j;
                            assert(i < prev.completed_spec().len());
                            assert(prev.completed_spec()[i] == j);
                        }
                    }
                    assert(self.running(j) <==> prev.running(j)) by {
                        if prev.running(j) {
                            let w2 = choose|w2: int|
                                0 <= w2 < prev.size_spec() && #[trigger] prev.worker_states()[w2]
                                    == (WorkerState::Running { job: j });
                            assert(w2 != w);
                            assert(self.worker_states()[w2] == (WorkerState::Running { job: j }));
                        }
                        if self.running(j) {
                            let w2 = choose|w2: int|
                                0 <= w2 < self.size_spec() && #[trigger] self.worker_states()[w2]
                                    == (WorkerState::Running { job: j });
                            assert(w2 != w);
                            assert(prev.worker_states()[w2] == (WorkerState::Running { job: j }));
                        }
                    }
                }
            }
            assert(self.completed_spec().no_duplicates()) by {
                assert forall|i: int, k: int|
                    0 <= i < self.completed_spec().len() && 0 <= k < self.completed_spec().len()
                        && i != k implies self.completed_spec()[i] != self.completed_spec()[k] by {
                    if i < prev.completed_spec().len() && k < prev.completed_spec().len() {
                        assert(prev.completed_spec()[i] == self.completed_spec()[i]);
                        assert(prev.completed_spec()[k] == self.completed_spec()[k]);
                    } else {
                        let old_i = if i < prev.completed_spec().len() {
                            i
                        } else {
                            k
                        };
                        assert(self.completed_spec()[old_i] == prev.completed_spec()[old_i]);
                        if self.completed_spec()[old_i] == job {
                            assert(prev.done(job));
                            assert(false);
                        }
                    }
                }
            }
        }
    }

    /// Begin shutdown: from here on, no new job is accepted, and idle
    /// workers retire once the queue is empty. Nothing already submitted is
    /// dropped.
    pub fn shutdown(&mut self)
        requires
            old(self).wf(),
        ensures
            final(self).wf(),
            final(self).is_shutdown(),
            final(self).worker_states() == old(self).worker_states(),
            final(self).submitted_spec() == old(self).submitted_spec(),
            final(self).next_claim_spec() == old(self).next_claim_spec(),
            final(self).completed_spec() == old(self).completed_spec(),
    {
        self.shutdown = true;
        proof {
            if self.all_terminated() {
                assert forall|w: int|
                    0 <= w < old(self).size_spec() implies (#[trigger] old(
                    self,
                ).worker_states()[w]) is Terminated by {
                    assert(self.worker_states()[w] is Terminated);
                }
                assert(old(self).all_terminated());
            }
            assert forall|j: usize| j < self.next_claim_spec() implies #[trigger] self.accounted(
                j,
            ) by {
                assert(old(self).accounted(j));
            }
        }
    }

    /// Worker `w` exits. A worker only retires idle, after shutdown has
    /// begun, and once the queue is empty, so it never abandons a job.
    pub fn retire(&mut self, w: usize)
        requires
            old(self).wf(),
            w < old(self).size_spec(),
            old(self).worker_states()[w as int] is Idle,
            old(self).is_shutdown(),
            old(self).next_claim_spec() == old(self).submitted_spec(),
        ensures
            final(self).wf(),
            final(self).worker_states() == old(self).worker_states().update(
                w as int,
                WorkerState::Terminated,
            ),
            final(self).submitted_spec() == old(self).submitted_spec(),
            final(self).next_claim_spec() == old(self).next_claim_spec(),
            final(self).completed_spec() == old(self).completed_spec(),
            final(self).is_shutdown(),
    {
        let ghost prev = *self;
        self.workers[w] = WorkerState::Terminated;
        proof {
            lemma_count_running_update(prev.worker_states(), w as int, WorkerState::Terminated);
            assert forall|j: usize| j < self.next_claim_spec() implies #[trigger] self.accounted(
                j,
            ) by {
                assert(prev.accounted(j));
                if prev.running(j) {
                    let w2 = choose|w2: int|
                        0 <= w2 < prev.size_spec() && #[trigger] prev.worker_states()[w2] == (
                        WorkerState::Running { job: j });
                    assert(w2 != w);
                    assert(self.worker_states()[w2] == (WorkerState::Running { job: j }));
                }
                if self.running(j) {
                    let w2 = choose|w2: int|
                        0 <= w2 < self.size_spec() && #[trigger] self.worker_states()[w2] == (
                        WorkerState::Running { job: j });
                    assert(w2 != w);
                    assert(prev.worker_states()[w2] == (WorkerState::Running { job: j }));
                }
            }
        }
    }
}

impl WorkerPool {
    /// The number of workers.
    pub fn size(&self) -> (r: usize)
        ensures
            r == self.size_spec(),
    {
        self.workers.len()
    }

    /// How many jobs have been submitted; ids below this value exist.
    pub fn submitted_jobs(&self) -> (r: usize)
        ensures
            r == self.submitted_spec(),
    {
        self.submitted
    }

    /// How many submitted jobs are still waiting in the queue.
    pub fn pending_jobs(&self) -> (r: usize)
        requires
            self.wf(),
        ensures
            r == self.submitted_spec() - self.next_claim_spec(),
    {
        self.submitted - self.next_claim
    }

    /// The "currently running" gauge: how many workers hold a job right now.
    pub fn running_jobs(&self) -> (r: usize)
        ensures
            r == count_running(self.worker_states()),
    {
        let mut count: usize = 0;
        let mut i: usize = 0;
        while i < self.workers.len()
            invariant
                i <= self.worker_states().len(),
                count <= i,
                count == count_running(self.worker_states().take(i as int)),
            decreases self.worker_states().len() - i,
        {
            let running = match self.workers[i] {
                WorkerState::Running { .. } => true,
                _ => false,
            };
            proof {
                assert(self.worker_states().take(i + 1 as int).drop_last() =~= self.worker_states()
                    .take(i as int));
                assert(self.worker_states().take(i + 1 as int).last() == self.worker_states()[
                i as int]);
            }
            if running {
                count = count + 1;
            }
            i = i + 1;
        }
        proof {
            assert(self.worker_states().take(self.worker_states().len() as int)
                =~= self.worker_states());
        }
        count
    }

    /// Whether shutdown has begun.
    pub fn is_shut_down(&self) -> (r: bool)
        ensures
            r == self.is_shutdown(),
    {
        self.shutdown
    }

    /// The state of worker `w`.
    pub fn worker_state(&self, w: usize) -> (r: WorkerState)
        requires
            w < self.size_spec(),
        ensures
            r == self.worker_states()[w as int],
    {
        self.workers[w]
    }

    /// The ids of the finished jobs, in completion order.
    pub fn completed_ids(&self) -> (r: Vec<usize>)
        ensures
            r@ == self.completed_spec(),
    {
        let mut r: Vec<usize> = Vec::new();
        let mut i: usize = 0;
        while i < self.completed.len()
            invariant
                i <= self.completed_spec().len(),
                r@ =~= self.completed_spec().take(i as int),
            decreases self.completed_spec().len() - i,
        {
            r.push(self.completed[i]);
            i = i + 1;
        }
        proof {
            assert(self.completed_spec().take(self.completed_spec().len() as int)
                =~= self.completed_spec());
        }
        r
    }
}

/// A running worker holds one job, so no sequence of worker states runs
/// more jobs than it has workers.
pub proof fn lemma_count_running_bounds(s: Seq<WorkerState>)
    ensures
        0 <= count_running(s) <= s.len(),
    decreases s.len(),
{
    if s.len() > 0 {
        lemma_count_running_bounds(s.drop_last());
    }
}

/// Replacing one worker's state adjusts the running count by exactly the
/// difference the replacement makes.
proof fn lemma_count_running_update(s: Seq<WorkerState>, i: int, v: WorkerState)
    requires
        0 <= i < s.len(),
    ensures
        count_running(s.update(i, v)) == count_running(s) - (if s[i] is Running {
            1int
        } else {
            0int
        }) + (if v is Running {
            1int
        } else {
            0int
        }),
    decreases s.len(),
{
    let t = s.update(i, v);
    if i == s.len() - 1 {
        assert(t.drop_last() =~= s.drop_last());
    } else {
        assert(t.drop_last() =~= s.drop_last().update(i, v));
        lemma_count_running_update(s.drop_last(), i, v);
        assert(t.last() == s.last());
    }
}

/// If no worker is running, the running count is zero.
proof fn lemma_count_running_none(s: Seq<WorkerState>)
    requires
        forall|i: int| 0 <= i < s.len() ==> !((#[trigger] s[i]) is Running),
    ensures
        count_running(s) == 0,
    decreases s.len(),
{
    if s.len() > 0 {
        assert(forall|i: int|
            0 <= i < s.drop_last().len() ==> (#[trigger] s.drop_last()[i]) == s[i]);
        lemma_count_running_none(s.drop_last());
    }
}

/// Bounded concurrency: a pool of size N never has more than N jobs
/// executing at once.
pub proof fn lemma_bounded_concurrency(p: WorkerPool)
    requires
        p.wf(),
    ensures
        count_running(p.worker_states()) <= p.size_spec(),
{
    lemma_count_running_bounds(p.worker_states());
}

/// In every well-formed pool state, whatever the interleaving of
/// submissions, claims and completions that led to it, each submitted job is
/// in exactly one place: waiting in the queue, running on exactly one
/// worker, or completed.
pub proof fn lemma_accounted(p: WorkerPool, j: usize)
    requires
        p.wf(),
        j < p.submitted_spec(),
    ensures
        p.accounted(j),
{
    if j >= p.next_claim_spec() {
        assert(p.pending(j));
        if p.running(j) {
            let w = choose|w: int|
                0 <= w < p.size_spec() && #[trigger] p.worker_states()[w] == (WorkerState::Running {
                    job: j,
                });
        }
        if p.done(j) {
            let i = choose|i: int|
                0 <= i < p.completed_spec().len() && #[trigger] p.completed_spec()[i] == j;
        }
    }
}

/// Exactly-once execution: once every worker has terminated, every
/// submitted job has been completed, none twice — the completion record
/// lists each submitted id exactly once.
pub proof fn lemma_exactly_once(p: WorkerPool)
    requires
        p.wf(),
        p.all_terminated(),
    ensures
        p.completed_spec().len() == p.submitted_spec(),
        p.completed_spec().no_duplicates(),
        forall|j: usize| j < p.submitted_spec() ==> p.done(j),
        forall|j: usize| p.done(j) ==> j < p.submitted_spec(),
{
    lemma_count_running_none(p.worker_states());
    assert forall|j: usize| j < p.submitted_spec() implies p.done(j) by {
        assert(p.accounted(j));
        assert(!p.pending(j));
        if p.running(j) {
            let w = choose|w: int|
                0 <= w < p.size_spec() && #[trigger] p.worker_states()[w] == (WorkerState::Running {
                    job: j,
                });
            assert(p.worker_states()[w] is Terminated);
        }
    }
    assert forall|j: usize| p.done(j) implies j < p.submitted_spec() by {
        let i = choose|i: int|
            0 <= i < p.completed_spec().len() && #[trigger] p.completed_spec()[i] == j;
    }
}

/// Graceful shutdown: a fully terminated pool has begun shutdown, drained
/// its queue, and completed every job submitted before the workers exited.
pub proof fn lemma_graceful_shutdown(p: WorkerPool)
    requires
        p.wf(),
        p.all_terminated(),
    ensures
        p.is_shutdown(),
        p.next_claim_spec() == p.submitted_spec(),
        forall|j: usize| j < p.submitted_spec() ==> p.done(j),
{
    assert(p.worker_states()[0] is Terminated);
    lemma_exactly_once(p);
}

} // verus!
