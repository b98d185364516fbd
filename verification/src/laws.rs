//! What holds of the scheduling state whatever is done to it.
//!
//! The laws are stated over [`ManagerView`] and its transitions, the terms in
//! which the job manager and the job controller state their contracts. The
//! first part shows that every operation keeps the invariant; the second part
//! holds the laws of admission, completion, cancellation, pausing and shutdown.

use vstd::prelude::*;
use crate::error::JobManagerError;
use crate::job::{JobStatus, JobView, RunState};
use crate::model::{AdmissionView, CancelOutcome, ManagerView, Op, RunningView};

verus! {

/// The place that the `k`-th item of a sequence had before the item at `at`
/// was removed from it.
spec fn unshifted(at: int, k: int) -> int {
    if k < at {
        k
    } else {
        k + 1
    }
}

/// Whether `op` enqueues a job with the id `id`.
pub open spec fn enqueues<E>(op: Op<E>, id: Seq<char>) -> bool {
    match op {
        Op::Enqueue(job) => job.id == id,
        _ => false,
    }
}

/// Whether none of `ops` enqueues a job with the id `id`.
pub open spec fn never_enqueues<E>(ops: Seq<Op<E>>, id: Seq<char>) -> bool {
    forall|k: int| 0 <= k < ops.len() ==> !enqueues(#[trigger] ops[k], id)
}

/// Whether one of `jobs` has the id `id`.
pub open spec fn names<E>(jobs: Seq<JobView<E>>, id: Seq<char>) -> bool {
    exists|k: int| 0 <= k < jobs.len() && (#[trigger] jobs[k]).id == id
}

// ---------------------------------------------------------------------------
// The invariant
// ---------------------------------------------------------------------------

/// Enqueueing keeps the state well formed.
pub proof fn lemma_enqueue_keeps_wf<E>(s: ManagerView<E>, job: JobView<E>)
    requires
        s.wf(),
    ensures
        s.enqueue(job).wf(),
{
}

/// Giving up a slot leaves the queue alone, takes the id out of the running
/// table, and keeps every other entry, so that the ids stay distinct.
proof fn lemma_vacate<E>(s: ManagerView<E>, id: Seq<char>)
    requires
        s.wf(),
    ensures
        s.vacate(id).queue == s.queue,
        s.vacate(id).capacity == s.capacity,
        s.vacate(id).running.len() <= s.capacity,
        !s.vacate(id).is_running(id),
        s.is_running(id) ==> s.vacate(id).running.len() + 1 == s.running.len(),
        forall|k: int|
            0 <= k < s.vacate(id).running.len() ==> s.running.contains(
                #[trigger] s.vacate(id).running[k],
            ),
        forall|i: int, j: int|
            0 <= i < j < s.vacate(id).running.len() ==> (#[trigger] s.vacate(id).running[i]).id != (
            #[trigger] s.vacate(id).running[j]).id,
{
    let t = s.vacate(id);
    if s.is_running(id) {
        let at = s.running_index(id);
        assert forall|k: int| 0 <= k < t.running.len() implies t.running[k]
            == s.running[unshifted(at, k)] by {}
        assert forall|k: int| 0 <= k < t.running.len() implies s.running.contains(
            #[trigger] t.running[k],
        ) by {
            assert(s.running[unshifted(at, k)] == t.running[k]);
        }
        assert forall|i: int, j: int| 0 <= i < j < t.running.len() implies (
        #[trigger] t.running[i]).id != (#[trigger] t.running[j]).id by {
            assert(t.running[i] == s.running[unshifted(at, i)]);
            assert(t.running[j] == s.running[unshifted(at, j)]);
        }
        assert forall|k: int| 0 <= k < t.running.len() implies (#[trigger] t.running[k]).id
            != id by {
            assert(t.running[k] == s.running[unshifted(at, k)]);
            assert(s.running[at].id == id);
        }
    } else {
        assert forall|k: int| 0 <= k < t.running.len() implies s.running.contains(
            #[trigger] t.running[k],
        ) by {
            assert(s.running[k] == t.running[k]);
        }
    }
}

/// Taking a completion report keeps the state well formed.
pub proof fn lemma_complete_keeps_wf<E>(s: ManagerView<E>, id: Seq<char>)
    requires
        s.wf(),
    ensures
        s.complete(id).wf(),
{
    lemma_vacate(s, id);
    let v = s.vacate(id);
    let t = v.fill();
    let n = v.promotable() as int;
    let kept = v.running.len() as int;
    assert forall|i: int, j: int| 0 <= i < j < t.running.len() implies (#[trigger] t.running[i]).id
        != (#[trigger] t.running[j]).id by {
        if j < kept {
        } else if i < kept {
            let m = s.running.index_of(v.running[i]);
            assert(s.queue[j - kept].id != s.running[m].id);
        } else {
            assert(s.queue[i - kept].id != s.queue[j - kept].id);
        }
    }
    assert forall|i: int, j: int|
        0 <= i < t.queue.len() && 0 <= j < t.running.len() implies (#[trigger] t.queue[i]).id != (
    #[trigger] t.running[j]).id by {
        assert(t.queue[i] == s.queue[i + n]);
        if j < kept {
            let m = s.running.index_of(v.running[j]);
            assert(s.queue[i + n].id != s.running[m].id);
        } else {
            assert(s.queue[i + n].id != s.queue[j - kept].id);
        }
    }
    assert forall|i: int, j: int| 0 <= i < j < t.queue.len() implies (#[trigger] t.queue[i]).id != (
    #[trigger] t.queue[j]).id by {
        assert(t.queue[i] == s.queue[i + n]);
        assert(t.queue[j] == s.queue[j + n]);
    }
}

/// Changing the run state of a running job keeps the state well formed, and
/// every id in its place.
proof fn lemma_with_run_state_keeps_wf<E>(s: ManagerView<E>, id: Seq<char>, state: RunState)
    requires
        s.wf(),
        s.is_running(id),
    ensures
        s.with_run_state(id, state).wf(),
        s.with_run_state(id, state).queue == s.queue,
        s.with_run_state(id, state).running.len() == s.running.len(),
        forall|k: int|
            0 <= k < s.running.len() ==> (#[trigger] s.with_run_state(id, state).running[k]).id
                == s.running[k].id,
{
    let t = s.with_run_state(id, state);
    assert forall|k: int| 0 <= k < s.running.len() implies (#[trigger] t.running[k]).id
        == s.running[k].id by {}
    assert forall|i: int, j: int| 0 <= i < j < t.running.len() implies (#[trigger] t.running[i]).id
        != (#[trigger] t.running[j]).id by {
        assert(t.running[i].id == s.running[i].id);
        assert(t.running[j].id == s.running[j].id);
    }
    assert forall|i: int, j: int|
        0 <= i < t.queue.len() && 0 <= j < t.running.len() implies (#[trigger] t.queue[i]).id != (
    #[trigger] t.running[j]).id by {
        assert(t.running[j].id == s.running[j].id);
    }
}

/// Cancelling keeps the state well formed.
pub proof fn lemma_cancel_keeps_wf<E>(s: ManagerView<E>, id: Seq<char>)
    requires
        s.wf(),
    ensures
        s.cancel(id).wf(),
{
    let t = s.cancel(id);
    if s.is_queued(id) {
        let at = s.queue_index(id);
        assert forall|i: int, j: int| 0 <= i < j < t.queue.len() implies (#[trigger] t.queue[i]).id
            != (#[trigger] t.queue[j]).id by {
            assert(t.queue[i] == s.queue[unshifted(at, i)]);
            assert(t.queue[j] == s.queue[unshifted(at, j)]);
        }
        assert forall|i: int, j: int|
            0 <= i < t.queue.len() && 0 <= j < t.running.len() implies (#[trigger] t.queue[i]).id
            != (#[trigger] t.running[j]).id by {
            assert(t.queue[i] == s.queue[unshifted(at, i)]);
        }
    } else if s.is_running(id) {
        lemma_with_run_state_keeps_wf(s, id, RunState::Cancelling);
    }
}

/// Pausing keeps the state well formed.
pub proof fn lemma_pause_keeps_wf<E>(s: ManagerView<E>, id: Seq<char>)
    requires
        s.wf(),
    ensures
        s.pause(id).wf(),
{
    if s.pause_result(id) is Ok {
        lemma_with_run_state_keeps_wf(s, id, RunState::Paused);
    }
}

/// Resuming keeps the state well formed.
pub proof fn lemma_resume_keeps_wf<E>(s: ManagerView<E>, id: Seq<char>)
    requires
        s.wf(),
    ensures
        s.resume(id).wf(),
{
    if s.pause_result(id) is Ok {
        lemma_with_run_state_keeps_wf(s, id, RunState::Active);
    }
}

/// Beginning shutdown keeps the state well formed.
pub proof fn lemma_begin_shutdown_keeps_wf<E>(s: ManagerView<E>)
    requires
        s.wf(),
    ensures
        s.begin_shutdown().wf(),
{
    let t = s.begin_shutdown();
    assert forall|i: int, j: int| 0 <= i < j < t.running.len() implies (#[trigger] t.running[i]).id
        != (#[trigger] t.running[j]).id by {
        assert(t.running[i].id == s.running[i].id);
        assert(t.running[j].id == s.running[j].id);
    }
}

/// Every operation keeps the state well formed.
pub proof fn lemma_step_keeps_wf<E>(s: ManagerView<E>, op: Op<E>)
    requires
        s.wf(),
    ensures
        s.step(op).wf(),
{
    match op {
        Op::Enqueue(job) => lemma_enqueue_keeps_wf(s, job),
        Op::Complete(id) => lemma_complete_keeps_wf(s, id),
        Op::Cancel(id) => lemma_cancel_keeps_wf(s, id),
        Op::Pause(id) => lemma_pause_keeps_wf(s, id),
        Op::Resume(id) => lemma_resume_keeps_wf(s, id),
        Op::BeginShutdown => lemma_begin_shutdown_keeps_wf(s),
        Op::FinishShutdown => {},
    }
}

/// Every sequence of operations keeps the state well formed.
pub proof fn lemma_run_keeps_wf<E>(s: ManagerView<E>, ops: Seq<Op<E>>)
    requires
        s.wf(),
    ensures
        s.run(ops).wf(),
    decreases ops.len(),
{
    if ops.len() > 0 {
        lemma_run_keeps_wf(s, ops.drop_last());
        lemma_step_keeps_wf(s.run(ops.drop_last()), ops.last());
    }
}

/// No operation changes the number of slots.
pub proof fn lemma_run_keeps_capacity<E>(s: ManagerView<E>, ops: Seq<Op<E>>)
    ensures
        s.run(ops).capacity == s.capacity,
    decreases ops.len(),
{
    if ops.len() > 0 {
        lemma_run_keeps_capacity(s, ops.drop_last());
    }
}

// ---------------------------------------------------------------------------
// Admission
// ---------------------------------------------------------------------------

/// The running table never exceeds the capacity: starting with no jobs and
/// `capacity` slots, after any number of operations of any sequence, at most
/// `capacity` jobs run. It holds in particular of every sequence of enqueues,
/// with distinct ids or not.
pub proof fn lemma_running_never_exceeds_capacity<E>(capacity: nat, ops: Seq<Op<E>>, done: int)
    requires
        0 <= done <= ops.len(),
    ensures
        ManagerView::<E>::empty(capacity).run(ops.take(done)).running.len() <= capacity,
        ManagerView::<E>::empty(capacity).run(ops.take(done)).capacity == capacity,
{
    let start = ManagerView::<E>::empty(capacity);
    lemma_run_keeps_wf(start, ops.take(done));
    lemma_run_keeps_capacity(start, ops.take(done));
}

/// The operations that enqueue `jobs`, one after the other.
pub open spec fn enqueue_all<E>(jobs: Seq<JobView<E>>) -> Seq<Op<E>> {
    Seq::new(jobs.len(), |i: int| Op::Enqueue(jobs[i]))
}

/// Whether no two of `jobs` have the same id.
pub open spec fn distinct_ids<E>(jobs: Seq<JobView<E>>) -> bool {
    forall|i: int, j: int|
        0 <= i < j < jobs.len() ==> (#[trigger] jobs[i]).id != (#[trigger] jobs[j]).id
}

/// The number of `jobs` that find a free slot among `capacity`.
pub open spec fn admitted(capacity: nat, jobs: int) -> int {
    if jobs < capacity {
        jobs
    } else {
        capacity as int
    }
}

/// Jobs with distinct ids that are enqueued into a manager without jobs fill
/// the slots in the order of their arrival, and from then on wait in the
/// order of their arrival: the first `capacity` of them run, all active, and
/// the others are queued behind one another.
pub proof fn lemma_enqueues_fill_then_queue<E>(capacity: nat, jobs: Seq<JobView<E>>)
    requires
        distinct_ids(jobs),
    ensures
        ManagerView::<E>::empty(capacity).run(enqueue_all(jobs)).capacity == capacity,
        ManagerView::<E>::empty(capacity).run(enqueue_all(jobs)).running == Seq::new(
            admitted(capacity, jobs.len() as int) as nat,
            |i: int| RunningView { id: jobs[i].id, state: RunState::Active },
        ),
        ManagerView::<E>::empty(capacity).run(enqueue_all(jobs)).queue == jobs.skip(
            admitted(capacity, jobs.len() as int),
        ),
        ManagerView::<E>::empty(capacity).run(enqueue_all(jobs)).running.len() <= capacity,
    decreases jobs.len(),
{
    let start = ManagerView::<E>::empty(capacity);
    let ops = enqueue_all(jobs);
    let n = jobs.len() as int;
    if n == 0 {
        assert(start.running =~= Seq::new(
            0nat,
            |i: int| RunningView { id: jobs[i].id, state: RunState::Active },
        ));
        assert(start.queue =~= jobs.skip(0));
    } else {
        let before = jobs.drop_last();
        let last = jobs.last();
        assert(ops.drop_last() =~= enqueue_all(before));
        assert(ops.last() == Op::Enqueue(last));
        lemma_enqueues_fill_then_queue(capacity, before);
        let s = start.run(enqueue_all(before));
        let t = s.enqueue(last);
        let m = admitted(capacity, n - 1);
        assert forall|k: int| 0 <= k < s.running.len() implies (#[trigger] s.running[k]).id
            != last.id by {
            assert(s.running[k].id == jobs[k].id);
        }
        assert forall|k: int| 0 <= k < s.queue.len() implies (#[trigger] s.queue[k]).id
            != last.id by {
            assert(s.queue[k] == jobs[k + m]);
        }
        assert(!s.contains(last.id));
        assert(t.running =~= Seq::new(
            admitted(capacity, n) as nat,
            |i: int| RunningView { id: jobs[i].id, state: RunState::Active },
        ));
        assert(t.queue =~= jobs.skip(admitted(capacity, n)));
    }
}

/// Enqueueing an id that is already queued or running is refused with
/// `DuplicateId` and changes nothing: the queue, the running table and the
/// state of every job, the existing one included, stay as they were.
pub proof fn lemma_duplicate_enqueue_changes_nothing<E>(s: ManagerView<E>, job: JobView<E>)
    requires
        s.contains(job.id),
    ensures
        s.enqueue_result(job) == Err::<AdmissionView<E>, JobManagerError>(
            JobManagerError::DuplicateId,
        ),
        s.enqueue(job) == s,
        s.started_by(Op::Enqueue(job)) == Seq::<JobView<E>>::empty(),
{
}

/// An accepted job that finds every slot taken goes to the tail of the queue,
/// behind every job that waits already.
pub proof fn lemma_enqueue_appends<E>(s: ManagerView<E>, job: JobView<E>)
    requires
        s.wf(),
        !s.contains(job.id),
        s.running.len() == s.capacity,
    ensures
        s.enqueue(job).queue == s.queue.push(job),
        s.enqueue(job).running == s.running,
        s.enqueue_result(job) == Ok::<AdmissionView<E>, JobManagerError>(AdmissionView::Queued),
{
}

/// An id that the manager does not hold can come in only by being enqueued:
/// any other operation leaves it out, and starts no job of that id.
pub proof fn lemma_absent_stays_absent<E>(s: ManagerView<E>, op: Op<E>, id: Seq<char>)
    requires
        !s.contains(id),
        !enqueues(op, id),
    ensures
        !s.step(op).contains(id),
        !names(s.started_by(op), id),
{
    let t = s.step(op);
    match op {
        Op::Enqueue(job) => {
            assert forall|k: int| 0 <= k < t.queue.len() implies (#[trigger] t.queue[k]).id
                != id by {
                if k < s.queue.len() {
                    assert(t.queue[k] == s.queue[k]);
                }
            }
            assert forall|k: int| 0 <= k < t.running.len() implies (#[trigger] t.running[k]).id
                != id by {
                if k < s.running.len() {
                    assert(t.running[k] == s.running[k]);
                }
            }
        },
        Op::Complete(done) => {
            let v = s.vacate(done);
            let n = v.promotable() as int;
            assert forall|k: int| 0 <= k < v.running.len() implies (#[trigger] v.running[k]).id
                != id by {
                if s.is_running(done) {
                    assert(v.running[k] == s.running[unshifted(s.running_index(done), k)]);
                } else {
                    assert(v.running[k] == s.running[k]);
                }
            }
            assert forall|k: int| 0 <= k < t.queue.len() implies (#[trigger] t.queue[k]).id
                != id by {
                assert(t.queue[k] == s.queue[k + n]);
            }
            assert forall|k: int| 0 <= k < t.running.len() implies (#[trigger] t.running[k]).id
                != id by {
                if k < v.running.len() {
                    assert(t.running[k] == v.running[k]);
                } else {
                    assert(t.running[k].id == s.queue[k - v.running.len()].id);
                }
            }
            assert forall|k: int| 0 <= k < s.started_by(op).len() implies (
            #[trigger] s.started_by(op)[k]).id != id by {
                assert(s.started_by(op)[k] == s.queue[k]);
            }
        },
        Op::Cancel(cancelled) => {
            if s.is_queued(cancelled) {
                let at = s.queue_index(cancelled);
                assert forall|k: int| 0 <= k < t.queue.len() implies (#[trigger] t.queue[k]).id
                    != id by {
                    assert(t.queue[k] == s.queue[unshifted(at, k)]);
                }
            } else if s.is_running(cancelled) {
                lemma_ids_stay_in_place(s, t, id);
            }
        },
        Op::Pause(_) => lemma_ids_stay_in_place(s, t, id),
        Op::Resume(_) => lemma_ids_stay_in_place(s, t, id),
        Op::BeginShutdown => lemma_ids_stay_in_place(s, t, id),
        Op::FinishShutdown => {},
    }
}

/// A running table that holds the same ids in the same places holds `id`
/// no more than the one before it did.
proof fn lemma_ids_stay_in_place<E>(s: ManagerView<E>, t: ManagerView<E>, id: Seq<char>)
    requires
        !s.is_running(id),
        t.running.len() == s.running.len(),
        forall|k: int|
            0 <= k < s.running.len() ==> (#[trigger] t.running[k]).id == s.running[k].id,
    ensures
        !t.is_running(id),
{
    assert forall|k: int| 0 <= k < t.running.len() implies (#[trigger] t.running[k]).id != id by {
        assert(t.running[k].id == s.running[k].id);
    }
}

/// What holds of a whole sequence of operations holds of each of its
/// beginnings.
proof fn lemma_beginning_never_enqueues<E>(ops: Seq<Op<E>>, id: Seq<char>, done: int)
    requires
        never_enqueues(ops, id),
        0 <= done <= ops.len(),
    ensures
        never_enqueues(ops.take(done), id),
{
    assert forall|k: int| 0 <= k < ops.take(done).len() implies !enqueues(
        #[trigger] ops.take(done)[k],
        id,
    ) by {
        assert(ops.take(done)[k] == ops[k]);
    }
}

/// An id that the manager does not hold stays out for as long as it is not
/// enqueued.
pub proof fn lemma_absent_until_enqueued<E>(s: ManagerView<E>, ops: Seq<Op<E>>, id: Seq<char>)
    requires
        !s.contains(id),
        never_enqueues(ops, id),
    ensures
        !s.run(ops).contains(id),
    decreases ops.len(),
{
    if ops.len() > 0 {
        lemma_beginning_never_enqueues(ops, id, ops.len() - 1);
        assert(ops.take(ops.len() - 1) =~= ops.drop_last());
        lemma_absent_until_enqueued(s, ops.drop_last(), id);
        lemma_absent_stays_absent(s.run(ops.drop_last()), ops.last(), id);
    }
}

// ---------------------------------------------------------------------------
// Completion
// ---------------------------------------------------------------------------

/// Fill to capacity, one at a time: when every slot is taken and a job waits,
/// the completion of a running job starts exactly one job, the head of the
/// queue. It takes the freed slot, the rest of the queue keeps its order, and
/// every slot is taken again.
pub proof fn lemma_completion_promotes_exactly_one<E>(s: ManagerView<E>, id: Seq<char>)
    requires
        s.wf(),
        s.running.len() == s.capacity,
        s.queue.len() > 0,
        s.is_running(id),
    ensures
        s.complete_started(id) == seq![s.queue[0]],
        s.complete(id).queue == s.queue.drop_first(),
        s.complete(id).running == s.vacate(id).running.push(
            RunningView { id: s.queue[0].id, state: RunState::Active },
        ),
        s.complete(id).running.len() == s.capacity,
        s.complete(id).status(s.queue[0].id) == Some(JobStatus::Running),
        !s.complete(id).contains(id),
{
    let v = s.vacate(id);
    let t = s.complete(id);
    let head = s.queue[0];
    lemma_vacate(s, id);
    assert(v.promotable() == 1);
    assert(s.complete_started(id) =~= seq![head]);
    assert(t.queue =~= s.queue.drop_first());
    assert(t.running =~= v.running.push(RunningView { id: head.id, state: RunState::Active }));
    lemma_complete_keeps_wf(s, id);
    let last = t.running.len() - 1;
    assert(t.running[last].id == head.id);
    assert(t.is_running(head.id));
    assert(t.running_index(head.id) == last);
    assert forall|k: int| 0 <= k < v.queue.len() implies (#[trigger] v.queue[k]).id != id by {
        assert(s.running[s.running_index(id)].id == id);
    }
    assert(v.vacate(id) == v);
    lemma_absent_stays_absent(v, Op::Complete(id), id);
}

/// A completion report for a job that holds no slot changes nothing and starts
/// nothing: a report that comes twice is harmless.
pub proof fn lemma_unknown_completion_changes_nothing<E>(s: ManagerView<E>, id: Seq<char>)
    requires
        s.wf(),
        !s.is_running(id),
    ensures
        s.complete(id) == s,
        s.complete_started(id) == Seq::<JobView<E>>::empty(),
        s.run_state(id) == None::<RunState>,
{
    assert(s.promotable() == 0);
    assert(s.fill().queue =~= s.queue);
    assert(s.fill().running =~= s.running);
    assert(s.complete_started(id) =~= Seq::<JobView<E>>::empty());
}

/// Whether `first` is served before `second`: for as long as `first` waits,
/// `second` neither holds a slot nor stands before it in the queue.
pub open spec fn in_order<E>(s: ManagerView<E>, first: Seq<char>, second: Seq<char>) -> bool {
    forall|i: int|
        0 <= i < s.queue.len() && (#[trigger] s.queue[i]).id == first ==> {
            &&& !s.is_running(second)
            &&& forall|j: int| 0 <= j < i ==> (#[trigger] s.queue[j]).id != second
        }
}

/// No operation lets a job overtake one that waits before it.
proof fn lemma_step_keeps_order<E>(
    s: ManagerView<E>,
    op: Op<E>,
    first: Seq<char>,
    second: Seq<char>,
)
    requires
        s.wf(),
        in_order(s, first, second),
        !enqueues(op, first),
        !enqueues(op, second),
    ensures
        in_order(s.step(op), first, second),
{
    let t = s.step(op);
    assert forall|i: int| 0 <= i < t.queue.len() && (#[trigger] t.queue[i]).id == first implies {
        &&& !t.is_running(second)
        &&& forall|j: int| 0 <= j < i ==> (#[trigger] t.queue[j]).id != second
    } by {
        match op {
            Op::Enqueue(job) => {
                if i < s.queue.len() {
                    assert(t.queue[i] == s.queue[i]);
                    assert forall|j: int| 0 <= j < i implies (#[trigger] t.queue[j]).id
                        != second by {
                        assert(t.queue[j] == s.queue[j]);
                    }
                }
            },
            Op::Complete(done) => {
                let v = s.vacate(done);
                let n = v.promotable() as int;
                assert(t.queue[i] == s.queue[i + n]);
                assert forall|j: int| 0 <= j < i implies (#[trigger] t.queue[j]).id != second by {
                    assert(t.queue[j] == s.queue[j + n]);
                }
                assert forall|k: int| 0 <= k < v.running.len() implies (#[trigger] v.running[k]).id
                    != second by {
                    if s.is_running(done) {
                        assert(v.running[k] == s.running[unshifted(s.running_index(done), k)]);
                    } else {
                        assert(v.running[k] == s.running[k]);
                    }
                }
                assert forall|k: int| 0 <= k < t.running.len() implies (#[trigger] t.running[k]).id
                    != second by {
                    if k < v.running.len() {
                        assert(t.running[k] == v.running[k]);
                    } else {
                        assert(t.running[k].id == s.queue[k - v.running.len()].id);
                    }
                }
            },
            Op::Cancel(cancelled) => {
                if s.is_queued(cancelled) {
                    let at = s.queue_index(cancelled);
                    assert(t.queue[i] == s.queue[unshifted(at, i)]);
                    assert forall|j: int| 0 <= j < i implies (#[trigger] t.queue[j]).id
                        != second by {
                        assert(t.queue[j] == s.queue[unshifted(at, j)]);
                    }
                } else if s.is_running(cancelled) {
                    assert(t.queue[i] == s.queue[i]);
                    lemma_ids_stay_in_place(s, t, second);
                }
            },
            Op::Pause(_) => {
                assert(t.queue[i] == s.queue[i]);
                lemma_ids_stay_in_place(s, t, second);
            },
            Op::Resume(_) => {
                assert(t.queue[i] == s.queue[i]);
                lemma_ids_stay_in_place(s, t, second);
            },
            Op::BeginShutdown => {},
            Op::FinishShutdown => {},
        }
    }
}

/// First queued, first started. Of two waiting jobs, the one that waits behind
/// never overtakes the one before it: whatever operations follow, as long as
/// none of them enqueues either id anew, the later job neither holds a slot nor
/// stands further in front while the earlier one still waits.
pub proof fn lemma_first_queued_first_started<E>(
    s: ManagerView<E>,
    earlier: int,
    later: int,
    ops: Seq<Op<E>>,
)
    requires
        s.wf(),
        0 <= earlier < later < s.queue.len(),
        never_enqueues(ops, s.queue[earlier].id),
        never_enqueues(ops, s.queue[later].id),
    ensures
        in_order(s.run(ops), s.queue[earlier].id, s.queue[later].id),
        s.run(ops).is_queued(s.queue[earlier].id) ==> !s.run(ops).is_running(s.queue[later].id),
    decreases ops.len(),
{
    let first = s.queue[earlier].id;
    let second = s.queue[later].id;
    if ops.len() == 0 {
        assert forall|i: int| 0 <= i < s.queue.len() && (#[trigger] s.queue[i]).id == first implies {
            &&& !s.is_running(second)
            &&& forall|j: int| 0 <= j < i ==> (#[trigger] s.queue[j]).id != second
        } by {
            assert(i == earlier);
            assert forall|k: int| 0 <= k < s.running.len() implies (#[trigger] s.running[k]).id
                != second by {
                assert(s.queue[later].id != s.running[k].id);
            }
        }
    } else {
        lemma_beginning_never_enqueues(ops, first, ops.len() - 1);
        lemma_beginning_never_enqueues(ops, second, ops.len() - 1);
        assert(ops.take(ops.len() - 1) =~= ops.drop_last());
        lemma_first_queued_first_started(s, earlier, later, ops.drop_last());
        lemma_run_keeps_wf(s, ops.drop_last());
        lemma_step_keeps_order(s.run(ops.drop_last()), ops.last(), first, second);
    }
}

// ---------------------------------------------------------------------------
// Cancellation
// ---------------------------------------------------------------------------

/// Cancelling an id that is neither queued nor running gives `NotFound` and
/// changes nothing.
pub proof fn lemma_cancel_unknown_changes_nothing<E>(s: ManagerView<E>, id: Seq<char>)
    requires
        !s.contains(id),
    ensures
        s.cancel_result(id) == Err::<CancelOutcome, JobManagerError>(JobManagerError::NotFound),
        s.cancel(id) == s,
{
}

/// A job that is cancelled while it waits never runs.
///
/// The cancellation succeeds and takes the job out of the queue. Whatever
/// operations follow, as long as none of them enqueues the id anew: the job
/// holds no slot after any number of them, and none of them hands its executor
/// out to be started.
pub proof fn lemma_cancelled_while_queued_never_starts<E>(
    s: ManagerView<E>,
    id: Seq<char>,
    ops: Seq<Op<E>>,
    done: int,
)
    requires
        s.wf(),
        s.is_queued(id),
        never_enqueues(ops, id),
        0 <= done < ops.len(),
    ensures
        s.cancel_result(id) == Ok::<CancelOutcome, JobManagerError>(CancelOutcome::Dequeued),
        s.cancel(id).queue.len() + 1 == s.queue.len(),
        s.cancel(id).running == s.running,
        !s.cancel(id).contains(id),
        !s.cancel(id).run(ops.take(done)).contains(id),
        !names(s.cancel(id).run(ops.take(done)).started_by(ops[done]), id),
        !s.cancel(id).run(ops.take(done + 1)).contains(id),
{
    let t = s.cancel(id);
    let at = s.queue_index(id);
    assert forall|k: int| 0 <= k < t.queue.len() implies (#[trigger] t.queue[k]).id != id by {
        assert(t.queue[k] == s.queue[unshifted(at, k)]);
        assert(s.queue[at].id == id);
    }
    assert forall|k: int| 0 <= k < t.running.len() implies (#[trigger] t.running[k]).id != id by {
        assert(s.queue[at].id != s.running[k].id);
    }
    lemma_beginning_never_enqueues(ops, id, done);
    lemma_absent_until_enqueued(t, ops.take(done), id);
    lemma_absent_stays_absent(t.run(ops.take(done)), ops[done], id);
    assert(ops.take(done + 1).drop_last() =~= ops.take(done));
    assert(ops.take(done + 1).last() == ops[done]);
}

// ---------------------------------------------------------------------------
// Pause and resume
// ---------------------------------------------------------------------------

/// A pause or resume that is refused changes nothing. An unknown id is
/// refused with `NotFound`, a waiting job with `InvalidState`.
pub proof fn lemma_refused_pause_changes_nothing<E>(s: ManagerView<E>, id: Seq<char>)
    requires
        s.pause_result(id) is Err,
    ensures
        s.pause(id) == s,
        s.resume(id) == s,
        !s.contains(id) ==> s.pause_result(id) == Err::<(), JobManagerError>(
            JobManagerError::NotFound,
        ),
        s.is_queued(id) && !s.is_running(id) ==> s.pause_result(id) == Err::<(), JobManagerError>(
            JobManagerError::InvalidState,
        ),
{
}

/// Changing the run state of one job leaves every other job as it was.
proof fn lemma_with_run_state_leaves_others<E>(
    s: ManagerView<E>,
    id: Seq<char>,
    state: RunState,
    other: Seq<char>,
)
    requires
        s.wf(),
        s.is_running(id),
        other != id,
    ensures
        s.with_run_state(id, state).queue == s.queue,
        s.with_run_state(id, state).run_state(other) == s.run_state(other),
        s.with_run_state(id, state).status(other) == s.status(other),
{
    let t = s.with_run_state(id, state);
    lemma_with_run_state_keeps_wf(s, id, state);
    if s.is_running(other) {
        let k = s.running_index(other);
        assert(t.running[k] == s.running[k]);
        assert(t.is_running(other));
        assert(t.running_index(other) == k) by {
            let m = t.running_index(other);
            assert(t.running[m].id == t.running[k].id);
        }
    } else {
        lemma_ids_stay_in_place(s, t, other);
    }
    assert(t.is_queued(other) == s.is_queued(other));
}

/// Pausing or resuming one job leaves every other job as it was.
pub proof fn lemma_pause_leaves_others<E>(s: ManagerView<E>, id: Seq<char>, other: Seq<char>)
    requires
        s.wf(),
        other != id,
    ensures
        s.pause(id).queue == s.queue,
        s.resume(id).queue == s.queue,
        s.pause(id).run_state(other) == s.run_state(other),
        s.resume(id).run_state(other) == s.run_state(other),
        s.pause(id).status(other) == s.status(other),
        s.resume(id).status(other) == s.status(other),
{
    if s.pause_result(id) is Ok {
        lemma_with_run_state_leaves_others(s, id, RunState::Paused, other);
        lemma_with_run_state_leaves_others(s, id, RunState::Active, other);
    }
}

// ---------------------------------------------------------------------------
// Shutdown
// ---------------------------------------------------------------------------

/// After shutdown nothing waits and nothing runs, whatever the state before.
/// Between its beginning and its end the queue is empty already, and every
/// job that ran is cancelling.
pub proof fn lemma_nothing_left_after_shutdown<E>(s: ManagerView<E>)
    ensures
        s.begin_shutdown().queue.len() == 0,
        s.begin_shutdown().running.len() == s.running.len(),
        forall|k: int|
            0 <= k < s.running.len() ==> (#[trigger] s.begin_shutdown().running[k]) == (
            RunningView { id: s.running[k].id, state: RunState::Cancelling }),
        s.begin_shutdown().finish_shutdown().queue.len() == 0,
        s.begin_shutdown().finish_shutdown().running.len() == 0,
        s.finish_shutdown().queue.len() == 0,
        s.finish_shutdown().running.len() == 0,
{
}

/// The jobs that are discarded when shutdown begins never start, for as long
/// as their ids are not enqueued anew.
pub proof fn lemma_discarded_at_shutdown_never_starts<E>(
    s: ManagerView<E>,
    id: Seq<char>,
    ops: Seq<Op<E>>,
    done: int,
)
    requires
        s.wf(),
        s.is_queued(id),
        never_enqueues(ops, id),
        0 <= done < ops.len(),
    ensures
        !s.begin_shutdown().contains(id),
        !s.begin_shutdown().run(ops.take(done)).contains(id),
        !names(s.begin_shutdown().run(ops.take(done)).started_by(ops[done]), id),
{
    let t = s.begin_shutdown();
    let at = s.queue_index(id);
    assert forall|k: int| 0 <= k < t.running.len() implies (#[trigger] t.running[k]).id != id by {
        assert(t.running[k].id == s.running[k].id);
        assert(s.queue[at].id != s.running[k].id);
    }
    lemma_beginning_never_enqueues(ops, id, done);
    lemma_absent_until_enqueued(t, ops.take(done), id);
    lemma_absent_stays_absent(t.run(ops.take(done)), ops[done], id);
}

} // verus!
