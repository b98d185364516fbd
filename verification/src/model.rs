//! The scheduling state as a mathematical value, and its transitions.
//!
//! Everything the job manager does is defined here as a function from one
//! [`ManagerView`] to the next. The executable manager is proved to follow
//! these functions step by step.

use vstd::prelude::*;
use crate::error::JobManagerError;
use crate::job::{JobStatus, JobView, RunState};

verus! {

/// An entry of the running table: a job that holds a concurrency slot.
pub struct RunningView {
    pub id: Seq<char>,
    pub state: RunState,
}

/// What an accepted enqueue did with the job.
pub enum AdmissionView<E> {
    /// A slot was free: the job holds it now, and its executor is to be started.
    Started(JobView<E>),
    /// Every slot was taken: the job waits at the tail of the queue.
    Queued,
}

/// What an accepted cancellation did.
#[derive(Clone, Copy, Debug, PartialEq, Eq, Structural)]
pub enum CancelOutcome {
    /// The job was waiting: it left the queue and will never start.
    Dequeued,
    /// The job is running: its cancellation signal is to be raised.
    Signalled,
}

/// One operation of the job manager.
pub enum Op<E> {
    Enqueue(JobView<E>),
    Complete(Seq<char>),
    Cancel(Seq<char>),
    Pause(Seq<char>),
    Resume(Seq<char>),
    BeginShutdown,
    FinishShutdown,
}

/// Those of `ids` that are not among `reported`, in the order of `ids`.
pub open spec fn unreported(ids: Seq<Seq<char>>, reported: Seq<Seq<char>>) -> Seq<Seq<char>> {
    ids.filter(|id: Seq<char>| !reported.contains(id))
}

/// The scheduling state: the waiting jobs in arrival order, the jobs that hold
/// a slot, and the number of slots.
pub struct ManagerView<E> {
    pub capacity: nat,
    pub queue: Seq<JobView<E>>,
    pub running: Seq<RunningView>,
}

impl<E> ManagerView<E> {
    /// The state with `capacity` slots and no jobs.
    pub open spec fn empty(capacity: nat) -> Self {
        ManagerView { capacity, queue: Seq::empty(), running: Seq::empty() }
    }

    /// Whether a job with this id waits in the queue.
    pub open spec fn is_queued(self, id: Seq<char>) -> bool {
        exists|i: int| 0 <= i < self.queue.len() && (#[trigger] self.queue[i]).id == id
    }

    /// Whether a job with this id holds a slot.
    pub open spec fn is_running(self, id: Seq<char>) -> bool {
        exists|i: int| 0 <= i < self.running.len() && (#[trigger] self.running[i]).id == id
    }

    /// Whether a job with this id is known at all.
    pub open spec fn contains(self, id: Seq<char>) -> bool {
        self.is_queued(id) || self.is_running(id)
    }

    /// The place of the job in the queue, if `is_queued(id)`.
    pub open spec fn queue_index(self, id: Seq<char>) -> int {
        choose|i: int| 0 <= i < self.queue.len() && (#[trigger] self.queue[i]).id == id
    }

    /// The place of the job in the running table, if `is_running(id)`.
    pub open spec fn running_index(self, id: Seq<char>) -> int {
        choose|i: int| 0 <= i < self.running.len() && (#[trigger] self.running[i]).id == id
    }

    /// The state of the job in the running table, if it is there.
    pub open spec fn run_state(self, id: Seq<char>) -> Option<RunState> {
        if self.is_running(id) {
            Some(self.running[self.running_index(id)].state)
        } else {
            None
        }
    }

    /// The status of the job, if the manager holds it.
    pub open spec fn status(self, id: Seq<char>) -> Option<JobStatus> {
        if self.is_running(id) {
            Some(self.running[self.running_index(id)].state.status_of())
        } else if self.is_queued(id) {
            Some(JobStatus::Queued)
        } else {
            None
        }
    }

    /// The invariant of the scheduling state:
    /// no id occurs twice, be it in the queue, in the running table or across
    /// the two; the running table never exceeds the capacity; and no job waits
    /// while a slot is free.
    pub open spec fn wf(self) -> bool {
        &&& forall|i: int, j: int|
            0 <= i < j < self.queue.len() ==> (#[trigger] self.queue[i]).id != (
            #[trigger] self.queue[j]).id
        &&& forall|i: int, j: int|
            0 <= i < j < self.running.len() ==> (#[trigger] self.running[i]).id != (
            #[trigger] self.running[j]).id
        &&& forall|i: int, j: int|
            0 <= i < self.queue.len() && 0 <= j < self.running.len() ==> (
            #[trigger] self.queue[i]).id != (#[trigger] self.running[j]).id
        &&& self.running.len() <= self.capacity
        &&& self.queue.len() > 0 ==> self.running.len() == self.capacity
    }

    /// The number of slots that are free.
    pub open spec fn vacancies(self) -> nat {
        if self.running.len() < self.capacity {
            (self.capacity - self.running.len()) as nat
        } else {
            0
        }
    }

    /// The number of waiting jobs that the free slots can take.
    pub open spec fn promotable(self) -> nat {
        if self.queue.len() < self.vacancies() {
            self.queue.len()
        } else {
            self.vacancies()
        }
    }

    /// The jobs that filling the free slots starts: the head of the queue, as
    /// far as the free slots reach, in queue order.
    pub open spec fn promoted(self) -> Seq<JobView<E>> {
        self.queue.take(self.promotable() as int)
    }

    /// The state after the free slots were filled from the head of the queue.
    pub open spec fn fill(self) -> Self {
        ManagerView {
            capacity: self.capacity,
            queue: self.queue.skip(self.promotable() as int),
            running: self.running + Seq::new(
                self.promotable(),
                |i: int| RunningView { id: self.queue[i].id, state: RunState::Active },
            ),
        }
    }

    /// The state without the running-table entry of `id`, if there is one.
    pub open spec fn vacate(self, id: Seq<char>) -> Self {
        if self.is_running(id) {
            ManagerView { running: self.running.remove(self.running_index(id)), ..self }
        } else {
            self
        }
    }

    /// The state with the run state of the `i`-th running job set to `state`.
    pub open spec fn with_run_state_at(self, i: int, state: RunState) -> Self {
        ManagerView {
            running: self.running.update(i, RunningView { id: self.running[i].id, state }),
            ..self
        }
    }

    /// The state with the run state of the running job `id` set to `state`.
    pub open spec fn with_run_state(self, id: Seq<char>, state: RunState) -> Self {
        self.with_run_state_at(self.running_index(id), state)
    }

    /// What enqueueing `job` answers: a duplicate id is refused; otherwise the
    /// job starts if a slot is free and waits if none is.
    pub open spec fn enqueue_result(self, job: JobView<E>) -> Result<
        AdmissionView<E>,
        JobManagerError,
    > {
        if self.contains(job.id) {
            Err(JobManagerError::DuplicateId)
        } else if self.running.len() < self.capacity {
            Ok(AdmissionView::Started(job))
        } else {
            Ok(AdmissionView::Queued)
        }
    }

    /// The state after enqueueing `job`. A refused job changes nothing.
    pub open spec fn enqueue(self, job: JobView<E>) -> Self {
        if self.contains(job.id) {
            self
        } else if self.running.len() < self.capacity {
            ManagerView {
                running: self.running.push(RunningView { id: job.id, state: RunState::Active }),
                ..self
            }
        } else {
            ManagerView { queue: self.queue.push(job), ..self }
        }
    }

    /// The state after the job `id` reported completion: its slot is given up,
    /// and the free slots are filled from the head of the queue.
    pub open spec fn complete(self, id: Seq<char>) -> Self {
        self.vacate(id).fill()
    }

    /// The jobs that the completion of `id` starts.
    pub open spec fn complete_started(self, id: Seq<char>) -> Seq<JobView<E>> {
        self.vacate(id).promoted()
    }

    /// What cancelling `id` answers.
    pub open spec fn cancel_result(self, id: Seq<char>) -> Result<CancelOutcome, JobManagerError> {
        if self.is_queued(id) {
            Ok(CancelOutcome::Dequeued)
        } else if self.is_running(id) {
            Ok(CancelOutcome::Signalled)
        } else {
            Err(JobManagerError::NotFound)
        }
    }

    /// The state after cancelling `id`: a waiting job leaves the queue, a
    /// running job is marked as cancelling, an unknown id changes nothing.
    pub open spec fn cancel(self, id: Seq<char>) -> Self {
        if self.is_queued(id) {
            ManagerView { queue: self.queue.remove(self.queue_index(id)), ..self }
        } else if self.is_running(id) {
            self.with_run_state(id, RunState::Cancelling)
        } else {
            self
        }
    }

    /// What pausing or resuming `id` answers: it is valid only for a job whose
    /// status is `Running`.
    pub open spec fn pause_result(self, id: Seq<char>) -> Result<(), JobManagerError> {
        match self.status(id) {
            Some(JobStatus::Running) => Ok(()),
            Some(_) => Err(JobManagerError::InvalidState),
            None => Err(JobManagerError::NotFound),
        }
    }

    /// The state after pausing `id`. A refused request changes nothing.
    pub open spec fn pause(self, id: Seq<char>) -> Self {
        if self.pause_result(id) is Ok {
            self.with_run_state(id, RunState::Paused)
        } else {
            self
        }
    }

    /// The state after resuming `id`. A refused request changes nothing.
    pub open spec fn resume(self, id: Seq<char>) -> Self {
        if self.pause_result(id) is Ok {
            self.with_run_state(id, RunState::Active)
        } else {
            self
        }
    }

    /// The ids of the jobs that wait, in queue order.
    pub open spec fn queue_ids(self) -> Seq<Seq<char>> {
        Seq::new(self.queue.len(), |i: int| self.queue[i].id)
    }

    /// The ids of the jobs that hold a slot, in table order.
    pub open spec fn running_ids(self) -> Seq<Seq<char>> {
        Seq::new(self.running.len(), |i: int| self.running[i].id)
    }

    /// The state after shutdown began: the queue is discarded, and every
    /// running job is marked as cancelling.
    pub open spec fn begin_shutdown(self) -> Self {
        ManagerView {
            capacity: self.capacity,
            queue: Seq::empty(),
            running: Seq::new(
                self.running.len(),
                |i: int| RunningView { id: self.running[i].id, state: RunState::Cancelling },
            ),
        }
    }

    /// The running jobs that are given up when the grace period is over:
    /// those that did not report, in table order.
    pub open spec fn abandoned(self, reported: Seq<Seq<char>>) -> Seq<Seq<char>> {
        unreported(self.running_ids(), reported)
    }

    /// The state after shutdown ended: nothing waits and nothing runs.
    pub open spec fn finish_shutdown(self) -> Self {
        ManagerView::empty(self.capacity)
    }

    /// The state after one operation.
    pub open spec fn step(self, op: Op<E>) -> Self {
        match op {
            Op::Enqueue(job) => self.enqueue(job),
            Op::Complete(id) => self.complete(id),
            Op::Cancel(id) => self.cancel(id),
            Op::Pause(id) => self.pause(id),
            Op::Resume(id) => self.resume(id),
            Op::BeginShutdown => self.begin_shutdown(),
            Op::FinishShutdown => self.finish_shutdown(),
        }
    }

    /// The jobs whose executors one operation hands out to be started.
    pub open spec fn started_by(self, op: Op<E>) -> Seq<JobView<E>> {
        match op {
            Op::Enqueue(job) => match self.enqueue_result(job) {
                Ok(AdmissionView::Started(j)) => seq![j],
                _ => Seq::empty(),
            },
            Op::Complete(id) => self.complete_started(id),
            _ => Seq::empty(),
        }
    }

    /// The state after a sequence of operations, first to last.
    pub open spec fn run(self, ops: Seq<Op<E>>) -> Self
        decreases ops.len(),
    {
        if ops.len() == 0 {
            self
        } else {
            self.run(ops.drop_last()).step(ops.last())
        }
    }
}

} // verus!
