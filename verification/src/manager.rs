//! The job manager: the queue, the running table and the operations on them.

use std::collections::VecDeque;
use vstd::prelude::*;
use crate::error::JobManagerError;
use crate::job::{Job, JobStatus, JobView, RunState};
use crate::model::{unreported, AdmissionView, CancelOutcome, ManagerView, RunningView};

verus! {

/// What an accepted enqueue did with the job.
pub enum Admission<E> {
    /// A slot was free: the job holds it now. The caller starts the executor.
    Started(Job<E>),
    /// Every slot was taken: the job waits at the tail of the queue.
    Queued,
}

impl<E> View for Admission<E> {
    type V = AdmissionView<E>;

    open spec fn view(&self) -> AdmissionView<E> {
        match *self {
            Admission::Started(job) => AdmissionView::Started(job@),
            Admission::Queued => AdmissionView::Queued,
        }
    }
}

/// What a completion report did.
pub struct Completion<E> {
    /// The state in which the job gave up its slot; `None` if it held none.
    pub vacated: Option<RunState>,
    /// The jobs that took the free slots, in queue order. The caller starts
    /// their executors.
    pub started: Vec<Job<E>>,
}

/// The views of a sequence of jobs, in order.
pub open spec fn job_views<E>(jobs: Seq<Job<E>>) -> Seq<JobView<E>> {
    Seq::new(jobs.len(), |i: int| jobs[i]@)
}

/// The views of a sequence of ids, in order.
pub open spec fn id_views(ids: Seq<String>) -> Seq<Seq<char>> {
    Seq::new(ids.len(), |i: int| ids[i]@)
}

struct RunningJob {
    id: String,
    state: RunState,
}

struct ManagerCore<E> {
    queue: VecDeque<Job<E>>,
    running: Vec<RunningJob>,
    capacity: usize,
}

impl<E> ManagerCore<E> {
    spec fn view(&self) -> ManagerView<E> {
        ManagerView {
            capacity: self.capacity as nat,
            queue: Seq::new(self.queue@.len(), |i: int| self.queue@[i]@),
            running: Seq::new(
                self.running@.len(),
                |i: int| RunningView { id: self.running@[i].id@, state: self.running@[i].state },
            ),
        }
    }

    fn vacant(capacity: usize) -> (core: Self)
        ensures
            core@ == ManagerView::<E>::empty(capacity as nat),
            core.capacity == capacity,
    {
        let core = ManagerCore { queue: VecDeque::new(), running: Vec::new(), capacity };
        assert(core@.queue =~= Seq::empty());
        assert(core@.running =~= Seq::empty());
        core
    }

    fn set_run_state(&mut self, i: usize, state: RunState)
        requires
            i < old(self).running@.len(),
        ensures
            final(self)@ == old(self)@.with_run_state_at(i as int, state),
            final(self).running@.len() == old(self).running@.len(),
            final(self).queue@ == old(self).queue@,
            final(self).capacity == old(self).capacity,
    {
        let ghost before = self@;
        self.running[i].state = state;
        proof {
            assert(self@.queue =~= before.queue);
            assert(self@.running =~= before.running.update(
                i as int,
                RunningView { id: before.running[i as int].id, state },
            ));
        }
    }

    fn find_queued(&self, id: &String) -> (found: Option<usize>)
        ensures
            match found {
                Some(i) => i < self.queue@.len() && self@.queue[i as int].id == id@,
                None => !self@.is_queued(id@),
            },
    {
        let mut i: usize = 0;
        while i < self.queue.len()
            invariant
                i <= self.queue@.len(),
                forall|j: int| 0 <= j < i ==> (#[trigger] self@.queue[j]).id != id@,
            decreases self.queue@.len() - i,
        {
            if self.queue[i].id == *id {
                return Some(i);
            }
            i = i + 1;
        }
        None
    }

    fn find_running(&self, id: &String) -> (found: Option<usize>)
        ensures
            match found {
                Some(i) => i < self.running@.len() && self@.running[i as int].id == id@,
                None => !self@.is_running(id@),
            },
    {
        let mut i: usize = 0;
        while i < self.running.len()
            invariant
                i <= self.running@.len(),
                forall|j: int| 0 <= j < i ==> (#[trigger] self@.running[j]).id != id@,
            decreases self.running@.len() - i,
        {
            if self.running[i].id == *id {
                return Some(i);
            }
            i = i + 1;
        }
        None
    }
}

/// Whether `id` is among `ids`.
pub fn holds_id(ids: &Vec<String>, id: &String) -> (found: bool)
    ensures
        found == id_views(ids@).contains(id@),
{
    let mut i: usize = 0;
    while i < ids.len()
        invariant
            i <= ids@.len(),
            forall|j: int| 0 <= j < i ==> id_views(ids@)[j] != id@,
        decreases ids@.len() - i,
    {
        if ids[i] == *id {
            assert(id_views(ids@)[i as int] == id@);
            return true;
        }
        i = i + 1;
    }
    false
}

/// The owner of all scheduling state.
///
/// Whatever sequence of operations is applied, the state obeys
/// [`ManagerView::wf`]: every operation says so of the state it leaves.
pub struct JobManager<E> {
    core: ManagerCore<E>,
}

impl<E> View for JobManager<E> {
    type V = ManagerView<E>;

    closed spec fn view(&self) -> ManagerView<E> {
        self.core@
    }
}

impl<E> JobManager<E> {
    #[verifier::type_invariant]
    spec fn inv(self) -> bool {
        self.core@.wf()
    }

    /// A manager with `max_concurrency` slots and no jobs.
    pub fn new(max_concurrency: usize) -> (manager: Self)
        ensures
            manager@ == ManagerView::<E>::empty(max_concurrency as nat),
            manager@.wf(),
    {
        JobManager { core: ManagerCore::vacant(max_concurrency) }
    }

    /// The number of jobs that may run at the same time.
    pub fn max_concurrency(&self) -> (n: usize)
        ensures
            n == self@.capacity,
    {
        self.core.capacity
    }

    /// The number of jobs that hold a slot. It never exceeds the capacity.
    pub fn running_count(&self) -> (n: usize)
        ensures
            n == self@.running.len(),
            n <= self@.capacity,
            self@.wf(),
    {
        proof {
            use_type_invariant(self);
        }
        self.core.running.len()
    }

    /// The number of jobs that wait.
    pub fn queued_count(&self) -> (n: usize)
        ensures
            n == self@.queue.len(),
            self@.wf(),
    {
        proof {
            use_type_invariant(self);
        }
        self.core.queue.len()
    }

    /// The ids of the jobs that wait, first to start first.
    pub fn queued_ids(&self) -> (ids: Vec<String>)
        ensures
            id_views(ids@) == self@.queue_ids(),
    {
        let mut ids: Vec<String> = Vec::new();
        let mut i: usize = 0;
        while i < self.core.queue.len()
            invariant
                i <= self.core.queue@.len(),
                ids@.len() == i,
                forall|k: int| 0 <= k < i ==> (#[trigger] ids@[k])@ == self@.queue[k].id,
            decreases self.core.queue@.len() - i,
        {
            ids.push(self.core.queue[i].id.clone());
            i = i + 1;
        }
        assert(id_views(ids@) =~= self@.queue_ids());
        ids
    }

    /// The ids of the jobs that hold a slot, in the order in which they took it.
    pub fn running_ids(&self) -> (ids: Vec<String>)
        ensures
            id_views(ids@) == self@.running_ids(),
    {
        let mut ids: Vec<String> = Vec::new();
        let mut i: usize = 0;
        while i < self.core.running.len()
            invariant
                i <= self.core.running@.len(),
                ids@.len() == i,
                forall|k: int| 0 <= k < i ==> (#[trigger] ids@[k])@ == self@.running[k].id,
            decreases self.core.running@.len() - i,
        {
            ids.push(self.core.running[i].id.clone());
            i = i + 1;
        }
        assert(id_views(ids@) =~= self@.running_ids());
        ids
    }

    /// The run state of the job `id`; `None` if it holds no slot.
    pub fn run_state(&self, id: &String) -> (state: Option<RunState>)
        ensures
            state == self@.run_state(id@),
    {
        proof {
            use_type_invariant(self);
        }
        match self.core.find_running(id) {
            Some(i) => {
                assert(self@.running[i as int].id == id@);
                assert(self@.running_index(id@) == i);
                Some(self.core.running[i].state)
            },
            None => None,
        }
    }

    /// The status of the job `id`; `None` if the manager does not hold it.
    pub fn status(&self, id: &String) -> (status: Option<JobStatus>)
        ensures
            status == self@.status(id@),
    {
        proof {
            use_type_invariant(self);
        }
        match self.core.find_running(id) {
            Some(i) => {
                assert(self@.running[i as int].id == id@);
                assert(self@.running_index(id@) == i);
                Some(self.core.running[i].state.status())
            },
            None => match self.core.find_queued(id) {
                Some(j) => {
                    assert(self@.queue[j as int].id == id@);
                    Some(JobStatus::Queued)
                },
                None => None,
            },
        }
    }
}

impl<E> JobManager<E> {
    /// Admits a job.
    ///
    /// A job whose id is already queued or running is refused with
    /// `DuplicateId`, and nothing changes. Otherwise the job takes a free slot
    /// and is handed back to be started, or, if there is none, goes to the tail
    /// of the queue.
    pub fn enqueue(&mut self, job: Job<E>) -> (result: Result<Admission<E>, JobManagerError>)
        ensures
            final(self)@ == old(self)@.enqueue(job@),
            match result {
                Ok(admission) => old(self)@.enqueue_result(job@) == Ok::<
                    AdmissionView<E>,
                    JobManagerError,
                >(admission@),
                Err(error) => old(self)@.enqueue_result(job@) == Err::<
                    AdmissionView<E>,
                    JobManagerError,
                >(error),
            },
            final(self)@.wf(),
    {
        proof {
            use_type_invariant(&*self);
        }
        let mut core = ManagerCore::vacant(self.core.capacity);
        std::mem::swap(&mut core, &mut self.core);
        let ghost before = core@;
        if core.find_queued(&job.id).is_some() || core.find_running(&job.id).is_some() {
            self.core = core;
            return Err(JobManagerError::DuplicateId);
        }
        if core.running.len() < core.capacity {
            core.running.push(RunningJob { id: job.id.clone(), state: RunState::Active });
            proof {
                assert(core@.queue =~= before.queue);
                assert(core@.running =~= before.running.push(
                    RunningView { id: job@.id, state: RunState::Active },
                ));
            }
            self.core = core;
            Ok(Admission::Started(job))
        } else {
            let ghost view = job@;
            core.queue.push_back(job);
            proof {
                assert(core@.queue =~= before.queue.push(view));
                assert(core@.running =~= before.running);
            }
            self.core = core;
            Ok(Admission::Queued)
        }
    }

    /// Takes the completion report of the job `id`.
    ///
    /// The job gives up its slot; a report for a job that holds none is
    /// ignored. Then the head of the queue is promoted, one job after the
    /// other, for as long as a slot is free and a job waits.
    pub fn complete(&mut self, id: &String) -> (completion: Completion<E>)
        ensures
            final(self)@ == old(self)@.complete(id@),
            completion.vacated == old(self)@.run_state(id@),
            job_views(completion.started@) == old(self)@.complete_started(id@),
            completion.started@.len() == old(self)@.vacate(id@).promotable(),
            final(self)@.wf(),
    {
        proof {
            use_type_invariant(&*self);
        }
        let mut core = ManagerCore::vacant(self.core.capacity);
        std::mem::swap(&mut core, &mut self.core);
        let ghost before = core@;
        let vacated = match core.find_running(id) {
            Some(i) => {
                assert(before.running[i as int].id == id@);
                assert(before.running_index(id@) == i);
                let entry = core.running.remove(i);
                Some(entry.state)
            },
            None => None,
        };
        let ghost vacant = core@;
        proof {
            assert(vacant.queue =~= before.vacate(id@).queue);
            assert(vacant.running =~= before.vacate(id@).running);
        }
        let mut started: Vec<Job<E>> = Vec::new();
        while core.running.len() < core.capacity && core.queue.len() > 0
            invariant
                core.capacity == vacant.capacity,
                started@.len() <= vacant.promotable(),
                core.queue@.len() + started@.len() == vacant.queue.len(),
                core.running@.len() == vacant.running.len() + started@.len(),
                job_views(started@) =~= vacant.queue.take(started@.len() as int),
                core@.queue =~= vacant.queue.skip(started@.len() as int),
                core@.running =~= vacant.running + Seq::new(
                    started@.len() as nat,
                    |k: int| RunningView { id: vacant.queue[k].id, state: RunState::Active },
                ),
            decreases core.queue@.len(),
        {
            let ghost n = started@.len() as int;
            let ghost queue = core@.queue;
            let ghost running = core@.running;
            let job = core.queue.pop_front().unwrap();
            assert(job@ == queue[0]);
            core.running.push(RunningJob { id: job.id.clone(), state: RunState::Active });
            started.push(job);
            proof {
                assert forall|k: int| 0 <= k < core@.queue.len() implies core@.queue[k]
                    == vacant.queue.skip(n + 1)[k] by {
                    assert(core@.queue[k] == queue[k + 1]);
                }
                assert forall|k: int| 0 <= k < core@.running.len() implies core@.running[k] == (
                vacant.running + Seq::new(
                    (n + 1) as nat,
                    |k: int| RunningView { id: vacant.queue[k].id, state: RunState::Active },
                ))[k] by {
                    if k < running.len() {
                        assert(core@.running[k] == running[k]);
                    }
                }
            }
        }
        proof {
            assert(started@.len() == vacant.promotable());
            assert(core@.queue =~= vacant.fill().queue);
            assert(core@.running =~= vacant.fill().running);
            assert(core@.wf());
        }
        self.core = core;
        Completion { vacated, started }
    }

    /// Cancels the job `id`.
    ///
    /// A waiting job leaves the queue at once and never starts. For a running
    /// job the answer is `Signalled`: the caller raises its cancellation
    /// signal, and the job keeps its slot, as cancelling, until it reports
    /// completion. An id that is neither queued nor running gives `NotFound`,
    /// and nothing changes.
    pub fn cancel(&mut self, id: &String) -> (result: Result<CancelOutcome, JobManagerError>)
        ensures
            final(self)@ == old(self)@.cancel(id@),
            result == old(self)@.cancel_result(id@),
            final(self)@.wf(),
    {
        proof {
            use_type_invariant(&*self);
        }
        let mut core = ManagerCore::vacant(self.core.capacity);
        std::mem::swap(&mut core, &mut self.core);
        let ghost before = core@;
        let result = match core.find_queued(id) {
            Some(i) => {
                assert(before.queue[i as int].id == id@);
                assert(before.queue_index(id@) == i);
                let _ = core.queue.remove(i);
                proof {
                    assert(core@.queue =~= before.queue.remove(i as int));
                    assert(core@.running =~= before.running);
                }
                Ok(CancelOutcome::Dequeued)
            },
            None => match core.find_running(id) {
                Some(i) => {
                    assert(before.running[i as int].id == id@);
                    assert(before.running_index(id@) == i);
                    core.set_run_state(i, RunState::Cancelling);
                    Ok(CancelOutcome::Signalled)
                },
                None => Err(JobManagerError::NotFound),
            },
        };
        self.core = core;
        result
    }

    /// Pauses the job `id`.
    ///
    /// Only a job whose status is `Running` can be paused; pausing it again
    /// changes nothing. On `Ok` the caller raises the pause signal. A queued or
    /// cancelling job gives `InvalidState`, an unknown id `NotFound`; either
    /// way nothing changes.
    pub fn pause(&mut self, id: &String) -> (result: Result<(), JobManagerError>)
        ensures
            final(self)@ == old(self)@.pause(id@),
            result == old(self)@.pause_result(id@),
            final(self)@.wf(),
    {
        self.set_paused(id, RunState::Paused)
    }

    /// Resumes the job `id`.
    ///
    /// Only a job whose status is `Running` can be resumed; resuming a job
    /// that is not paused changes nothing. On `Ok` the caller clears the pause
    /// signal. A queued or cancelling job gives `InvalidState`, an unknown id
    /// `NotFound`; either way nothing changes.
    pub fn resume(&mut self, id: &String) -> (result: Result<(), JobManagerError>)
        ensures
            final(self)@ == old(self)@.resume(id@),
            result == old(self)@.pause_result(id@),
            final(self)@.wf(),
    {
        self.set_paused(id, RunState::Active)
    }

    fn set_paused(&mut self, id: &String, state: RunState) -> (result: Result<
        (),
        JobManagerError,
    >)
        requires
            state != RunState::Cancelling,
        ensures
            result == old(self)@.pause_result(id@),
            final(self)@ == if result is Ok {
                old(self)@.with_run_state(id@, state)
            } else {
                old(self)@
            },
            final(self)@.wf(),
    {
        proof {
            use_type_invariant(&*self);
        }
        let mut core = ManagerCore::vacant(self.core.capacity);
        std::mem::swap(&mut core, &mut self.core);
        let ghost before = core@;
        let result = match core.find_running(id) {
            Some(i) => {
                assert(before.running[i as int].id == id@);
                assert(before.running_index(id@) == i);
                match core.running[i].state {
                    RunState::Cancelling => Err(JobManagerError::InvalidState),
                    _ => {
                        core.set_run_state(i, state);
                        Ok(())
                    },
                }
            },
            None => match core.find_queued(id) {
                Some(j) => {
                    assert(before.queue[j as int].id == id@);
                    Err(JobManagerError::InvalidState)
                },
                None => Err(JobManagerError::NotFound),
            },
        };
        self.core = core;
        result
    }

    /// Begins shutdown.
    ///
    /// The whole queue is discarded: none of those jobs ever starts. Every
    /// running job is marked as cancelling, and their ids are returned, in
    /// table order: the caller raises the cancellation signal of each and
    /// waits, up to the grace period, for them to report.
    pub fn begin_shutdown(&mut self) -> (signalled: Vec<String>)
        ensures
            final(self)@ == old(self)@.begin_shutdown(),
            id_views(signalled@) == old(self)@.running_ids(),
            final(self)@.wf(),
    {
        proof {
            use_type_invariant(&*self);
        }
        let mut core = ManagerCore::vacant(self.core.capacity);
        std::mem::swap(&mut core, &mut self.core);
        let ghost before = core@;
        core.queue.clear();
        let mut signalled: Vec<String> = Vec::new();
        let mut i: usize = 0;
        while i < core.running.len()
            invariant
                i <= core.running@.len(),
                core.running@.len() == before.running.len(),
                core.capacity == before.capacity,
                core.queue@.len() == 0,
                signalled@.len() == i,
                forall|k: int| 0 <= k < i ==> (#[trigger] signalled@[k])@ == before.running[k].id,
                forall|k: int|
                    0 <= k < core.running@.len() ==> (#[trigger] core@.running[k]).id
                        == before.running[k].id,
                forall|k: int|
                    0 <= k < i ==> (#[trigger] core@.running[k]).state == RunState::Cancelling,
            decreases core.running@.len() - i,
        {
            signalled.push(core.running[i].id.clone());
            core.set_run_state(i, RunState::Cancelling);
            i = i + 1;
        }
        proof {
            assert(core@.queue =~= before.begin_shutdown().queue);
            assert(core@.running =~= before.begin_shutdown().running);
            assert(id_views(signalled@) =~= before.running_ids());
        }
        self.core = core;
        signalled
    }

    /// Ends shutdown, when every running job has reported or the grace
    /// period is over.
    ///
    /// `reported` holds the ids of the jobs that reported in time. The running
    /// jobs that are not among them are given up: their ids are returned, in
    /// table order. Afterwards nothing runs and nothing waits.
    pub fn finish_shutdown(&mut self, reported: &Vec<String>) -> (abandoned: Vec<String>)
        ensures
            final(self)@ == old(self)@.finish_shutdown(),
            id_views(abandoned@) == old(self)@.abandoned(id_views(reported@)),
            final(self)@.wf(),
    {
        proof {
            use_type_invariant(&*self);
        }
        let ghost ids = self@.running_ids();
        let ghost gone = id_views(reported@);
        let mut abandoned: Vec<String> = Vec::new();
        let mut i: usize = 0;
        assert(ids.take(0) =~= Seq::empty());
        while i < self.core.running.len()
            invariant
                i <= self.core.running@.len(),
                self@ == old(self)@,
                ids == self@.running_ids(),
                gone == id_views(reported@),
                id_views(abandoned@) =~= unreported(ids.take(i as int), gone),
            decreases self.core.running@.len() - i,
        {
            let ghost so_far = id_views(abandoned@);
            proof {
                assert(ids.take(i + 1) =~= ids.take(i as int).push(ids[i as int]));
                ids.take(i as int).lemma_filter_push(
                    ids[i as int],
                    |id: Seq<char>| !gone.contains(id),
                );
            }
            if !holds_id(reported, &self.core.running[i].id) {
                abandoned.push(self.core.running[i].id.clone());
                assert(id_views(abandoned@) =~= so_far.push(ids[i as int]));
            }
            i = i + 1;
        }
        assert(ids.take(i as int) =~= ids);
        self.core = ManagerCore::vacant(self.core.capacity);
        abandoned
    }
}

} // verus!
