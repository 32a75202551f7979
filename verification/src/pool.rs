//! The rules of a worker pool: which worker takes which task, and when.
//!
//! A pool has a fixed number of workers. A task that is submitted goes to an
//! idle worker at once, or waits in line while all are busy. A worker that
//! reports the end of its task takes up the task that has waited longest, or
//! becomes idle. How the task ended makes no difference: a worker whose task
//! failed goes on like any other.
//!
//! Tasks are known here by a number. The pool decides; its caller runs the
//! tasks on its threads and reports back.

use std::collections::VecDeque;
use vstd::prelude::*;

verus! {

/// What a pool holds, as mathematical values.
pub ghost struct PoolView {
    /// For each worker the task it runs, if it runs one.
    pub workers: Seq<Option<u64>>,
    /// The tasks that wait for a worker, the one that waits longest first.
    pub waiting: Seq<u64>,
}

/// The first idle worker at or after `from`, or the number of workers where
/// all of them from there on are busy.
pub open spec fn first_idle(workers: Seq<Option<u64>>, from: int) -> int
    decreases workers.len() - from,
{
    if from < 0 || from >= workers.len() {
        workers.len() as int
    } else if workers[from] is None {
        from
    } else {
        first_idle(workers, from + 1)
    }
}

/// Whether every worker runs a task.
pub open spec fn all_busy(workers: Seq<Option<u64>>) -> bool {
    forall|i: int| 0 <= i < workers.len() ==> (#[trigger] workers[i]) is Some
}

/// How many workers run a task.
pub open spec fn busy(workers: Seq<Option<u64>>) -> nat
    decreases workers.len(),
{
    if workers.len() == 0 {
        0
    } else if workers.last() is Some {
        busy(workers.drop_last()) + 1
    } else {
        busy(workers.drop_last())
    }
}

/// What every pool satisfies: it has a worker, and no task waits while a
/// worker is idle.
pub open spec fn pool_wf(pool: PoolView) -> bool {
    &&& pool.workers.len() > 0
    &&& pool.waiting.len() > 0 ==> all_busy(pool.workers)
}

/// A pool of `size` idle workers with no task in line.
pub open spec fn fresh(size: nat) -> PoolView {
    PoolView { workers: Seq::new(size, |i: int| None::<u64>), waiting: Seq::empty() }
}

/// The worker that starts on a task submitted to `pool`: the first idle
/// one, or none where all are busy.
pub open spec fn assigned(pool: PoolView) -> Option<int> {
    let at = first_idle(pool.workers, 0);
    if at < pool.workers.len() {
        Some(at)
    } else {
        None
    }
}

/// The pool after `task` was submitted: its worker runs it, or it is the
/// last in line.
pub open spec fn submitted(pool: PoolView, task: u64) -> PoolView {
    match assigned(pool) {
        Some(at) => PoolView { workers: pool.workers.update(at, Some(task)), waiting: pool.waiting },
        None => PoolView { workers: pool.workers, waiting: pool.waiting.push(task) },
    }
}

/// The task that `worker` takes up when it reports the end of its task: the
/// first in line, if it ran a task and one waits.
pub open spec fn handed_on(pool: PoolView, worker: int) -> Option<u64> {
    if 0 <= worker < pool.workers.len() && pool.workers[worker] is Some && pool.waiting.len() > 0 {
        Some(pool.waiting[0])
    } else {
        None
    }
}

/// The pool after `worker` reported the end of its task. A report from a
/// worker that ran no task, or from none of the pool, changes nothing.
pub open spec fn finished(pool: PoolView, worker: int) -> PoolView {
    if 0 <= worker < pool.workers.len() && pool.workers[worker] is Some {
        if pool.waiting.len() > 0 {
            PoolView {
                workers: pool.workers.update(worker, Some(pool.waiting[0])),
                waiting: pool.waiting.drop_first(),
            }
        } else {
            PoolView { workers: pool.workers.update(worker, None), waiting: pool.waiting }
        }
    } else {
        pool
    }
}

/// A fixed number of workers and the tasks that wait for one.
pub struct WorkerPool {
    workers: Vec<Option<u64>>,
    waiting: VecDeque<u64>,
}

impl View for WorkerPool {
    type V = PoolView;

    closed spec fn view(&self) -> PoolView {
        PoolView { workers: self.workers@, waiting: self.waiting@ }
    }
}

impl WorkerPool {
    /// What every pool satisfies.
    pub open spec fn wf(self) -> bool {
        pool_wf(self@)
    }

    /// A pool of `size` workers, all idle.
    pub fn new(size: usize) -> (r: WorkerPool)
        requires
            size > 0,
        ensures
            r@ == fresh(size as nat),
            r.wf(),
    {
        let mut workers: Vec<Option<u64>> = Vec::new();
        let mut i: usize = 0;
        while i < size
            invariant
                i <= size,
                workers@.len() == i,
                forall|j: int| 0 <= j < i ==> workers@[j] is None,
            decreases size - i,
        {
            workers.push(None);
            i += 1;
        }
        let r = WorkerPool { workers, waiting: VecDeque::new() };
        assert(r@.workers =~= fresh(size as nat).workers);
        r
    }

    /// The number of workers.
    pub fn size(&self) -> (r: usize)
        ensures
            r == self@.workers.len(),
    {
        self.workers.len()
    }

    /// The number of tasks in line.
    pub fn queued(&self) -> (r: usize)
        ensures
            r == self@.waiting.len(),
    {
        self.waiting.len()
    }

    /// The task that `worker` runs, if it runs one.
    pub fn running(&self, worker: usize) -> (r: Option<u64>)
        ensures
            r == if worker < self@.workers.len() {
                self@.workers[worker as int]
            } else {
                None
            },
    {
        if worker < self.workers.len() {
            self.workers[worker]
        } else {
            None
        }
    }

    /// Hands `task` to the pool and names the worker that starts on it now.
    /// Where all workers are busy the task waits in line, behind those that
    /// came before it, and `None` is returned. No task is dropped.
    pub fn submit(&mut self, task: u64) -> (r: Option<usize>)
        requires
            old(self).wf(),
        ensures
            final(self)@ == submitted(old(self)@, task),
            final(self).wf(),
            match assigned(old(self)@) {
                Some(at) => r == Some(at as usize),
                None => r is None,
            },
    {
        let mut i: usize = 0;
        while i < self.workers.len()
            invariant
                *self == *old(self),
                old(self).wf(),
                i <= self.workers@.len(),
                first_idle(self.workers@, 0) == first_idle(self.workers@, i as int),
            decreases self.workers@.len() - i,
        {
            if self.workers[i].is_none() {
                self.workers.set(i, Some(task));
                proof {
                    lemma_first_idle(old(self)@.workers, i as int);
                    if self@.waiting.len() > 0 {
                        assert(old(self)@.workers[i as int] is Some);
                    }
                }
                return Some(i);
            }
            i += 1;
        }
        self.waiting.push_back(task);
        proof {
            lemma_first_idle(old(self)@.workers, 0);
        }
        None
    }

    /// Takes the report of `worker` that its task has ended, whether it
    /// completed or failed, and names the task that the worker takes up now:
    /// the one that has waited longest. Where none waits the worker becomes
    /// idle and `None` is returned.
    pub fn finish(&mut self, worker: usize) -> (r: Option<u64>)
        requires
            old(self).wf(),
        ensures
            final(self)@ == finished(old(self)@, worker as int),
            final(self).wf(),
            r == handed_on(old(self)@, worker as int),
    {
        if worker >= self.workers.len() || self.workers[worker].is_none() {
            return None;
        }
        let next = self.waiting.pop_front();
        self.workers.set(worker, next);
        proof {
            let before = old(self)@;
            let after = self@;
            if after.waiting.len() > 0 {
                assert(before.waiting.len() > 0);
                assert forall|j: int| 0 <= j < after.workers.len() implies (
                #[trigger] after.workers[j]) is Some by {
                    assert(before.workers[j] is Some);
                }
            }
            assert(after.waiting =~= finished(before, worker as int).waiting);
        }
        next
    }
}

/// What `first_idle` finds: an idle worker with none before it, or that all
/// workers from `from` on are busy.
pub proof fn lemma_first_idle(workers: Seq<Option<u64>>, from: int)
    requires
        0 <= from <= workers.len(),
    ensures
        from <= first_idle(workers, from) <= workers.len(),
        first_idle(workers, from) < workers.len() ==> workers[first_idle(workers, from)] is None,
        forall|i: int| from <= i < first_idle(workers, from) ==> (#[trigger] workers[i]) is Some,
    decreases workers.len() - from,
{
    if from < workers.len() && workers[from] is Some {
        lemma_first_idle(workers, from + 1);
    }
}

/// What a pool can be told.
pub ghost enum PoolEvent {
    /// A submission, with the number of what is submitted.
    Submit(u64),
    /// The report of a worker, by its position, that it has finished.
    Finish(int),
}

/// The pool after the events, one after another.
pub open spec fn pool_after(pool: PoolView, events: Seq<PoolEvent>) -> PoolView
    decreases events.len(),
{
    if events.len() == 0 {
        pool
    } else {
        match events.last() {
            PoolEvent::Submit(task) => submitted(pool_after(pool, events.drop_last()), task),
            PoolEvent::Finish(worker) => finished(pool_after(pool, events.drop_last()), worker),
        }
    }
}

/// The pool after these workers reported the end of their tasks, one after
/// another.
pub open spec fn after_finishes(pool: PoolView, workers: Seq<int>) -> PoolView
    decreases workers.len(),
{
    if workers.len() == 0 {
        pool
    } else {
        after_finishes(finished(pool, workers[0]), workers.drop_first())
    }
}

/// No more workers run a task than there are workers.
pub proof fn lemma_busy_bound(workers: Seq<Option<u64>>)
    ensures
        busy(workers) <= workers.len(),
    decreases workers.len(),
{
    if workers.len() > 0 {
        lemma_busy_bound(workers.drop_last());
    }
}

/// A pool of `size` workers never runs more than `size` tasks at a time,
/// whatever is submitted to it and in whatever order its workers report. Its
/// number of workers stays `size`, and no task waits while a worker is idle.
pub proof fn lemma_pool_bound(size: nat, events: Seq<PoolEvent>)
    requires
        size > 0,
    ensures
        pool_after(fresh(size), events).workers.len() == size,
        busy(pool_after(fresh(size), events).workers) <= size,
        pool_wf(pool_after(fresh(size), events)),
    decreases events.len(),
{
    if events.len() > 0 {
        let before = pool_after(fresh(size), events.drop_last());
        lemma_pool_bound(size, events.drop_last());
        match events.last() {
            PoolEvent::Submit(task) => {
                lemma_submit_keeps_wf(before, task);
            },
            PoolEvent::Finish(worker) => {
                lemma_finish_keeps_wf(before, worker);
            },
        }
    }
    lemma_busy_bound(pool_after(fresh(size), events).workers);
}

/// A submitted task leaves the pool well-formed and is not dropped: its
/// worker runs it, or it is the last in line behind all that waited before.
pub proof fn lemma_submit_keeps_wf(pool: PoolView, task: u64)
    requires
        pool_wf(pool),
    ensures
        pool_wf(submitted(pool, task)),
        submitted(pool, task).workers.len() == pool.workers.len(),
        match assigned(pool) {
            Some(at) => submitted(pool, task).workers[at] == Some(task) && submitted(
                pool,
                task,
            ).waiting == pool.waiting,
            None => submitted(pool, task).waiting == pool.waiting.push(task),
        },
{
    lemma_first_idle(pool.workers, 0);
    let after = submitted(pool, task);
    match assigned(pool) {
        Some(at) => {
            if pool.waiting.len() > 0 {
                assert(pool.workers[at] is Some);
            }
        },
        None => {},
    }
}

/// The report of a worker leaves the pool well-formed.
pub proof fn lemma_finish_keeps_wf(pool: PoolView, worker: int)
    requires
        pool_wf(pool),
    ensures
        pool_wf(finished(pool, worker)),
        finished(pool, worker).workers.len() == pool.workers.len(),
{
    let after = finished(pool, worker);
    if after.waiting.len() > 0 && after != pool {
        assert forall|j: int| 0 <= j < after.workers.len() implies (
        #[trigger] after.workers[j]) is Some by {
            assert(pool.workers[j] is Some);
        }
    }
}

/// A task that waits is served in its turn. Let `ahead` tasks wait before
/// it. While it waits all workers are busy, so take any `ahead + 1` reports
/// of workers of the pool: with the last of them the task is taken up by the
/// worker that reported, and the tasks that waited behind it have moved up.
pub proof fn lemma_served_in_turn(pool: PoolView, reports: Seq<int>, ahead: int)
    requires
        pool_wf(pool),
        0 <= ahead < pool.waiting.len(),
        reports.len() == ahead + 1,
        forall|i: int| 0 <= i < reports.len() ==> 0 <= #[trigger] reports[i] < pool.workers.len(),
    ensures
        after_finishes(pool, reports).workers[reports[ahead]] == Some(pool.waiting[ahead]),
        after_finishes(pool, reports).waiting == pool.waiting.skip(ahead + 1),
    decreases ahead,
{
    let first = reports[0];
    assert(pool.workers[first] is Some);
    let next = finished(pool, first);
    lemma_finish_keeps_wf(pool, first);
    assert(reports.drop_first().len() == ahead);
    if ahead == 0 {
        assert(reports.drop_first() =~= Seq::<int>::empty());
        assert(after_finishes(next, reports.drop_first()) == next);
        assert(pool.waiting.drop_first() =~= pool.waiting.skip(1));
    } else {
        let rest = reports.drop_first();
        assert forall|i: int| 0 <= i < rest.len() implies 0 <= #[trigger] rest[i]
            < next.workers.len() by {
            assert(rest[i] == reports[i + 1]);
        }
        lemma_served_in_turn(next, rest, ahead - 1);
        assert(rest[ahead - 1] == reports[ahead]);
        assert(next.waiting[ahead - 1] == pool.waiting[ahead]);
        assert(next.waiting.skip(ahead) =~= pool.waiting.skip(ahead + 1));
    }
}

/// A worker outlives its task, however the task ended. Take a worker that
/// runs a task while all the others are busy and none waits. When it
/// reports the end of that task, by completion or by failure, it is idle
/// and the next task submitted goes to it; and when it reports the end of
/// that one it is idle again.
pub proof fn lemma_worker_survives(pool: PoolView, worker: int, next: u64)
    requires
        pool_wf(pool),
        0 <= worker < pool.workers.len(),
        all_busy(pool.workers),
        pool.waiting.len() == 0,
    ensures
        finished(pool, worker).workers[worker] is None,
        assigned(finished(pool, worker)) == Some(worker),
        submitted(finished(pool, worker), next).workers[worker] == Some(next),
        finished(submitted(finished(pool, worker), next), worker).workers[worker] is None,
{
    let idle = finished(pool, worker);
    assert(pool.workers[worker] is Some);
    lemma_first_idle(idle.workers, 0);
    let at = first_idle(idle.workers, 0);
    if at < worker {
        assert(pool.workers[at] is Some);
    }
    if at > worker {
        assert(idle.workers[worker] is Some);
    }
}

} // verus!
