//! The job controller: the one place where commands meet the job manager.
//!
//! Commands arrive over a single channel and are handled strictly one after
//! the other, each by one call of [`JobController::handle_command`]. The
//! controller owns the manager, so nothing else can touch the scheduling
//! state.

use vstd::prelude::*;
use tokio::sync::mpsc::{UnboundedReceiver, UnboundedSender};
use tokio::sync::oneshot;
use crate::channel::{clone_sender, send_unbounded};
use crate::error::{JobManagerError, JobManagerResult};
use crate::job::{Executor, Job, JobView};
use crate::manager::{id_views, job_views, Admission, Completion, JobManager};
use crate::model::{AdmissionView, CancelOutcome, ManagerView, Op};
use crate::reply::{fulfil, Receipt};

verus! {

/// Input for a command whose completion is acknowledged to the sender.
pub struct AcknowledgeableCommand {
    /// The id of the job that the command is about.
    pub id: String,
    /// The reply slot: the result of the command is delivered through it.
    pub ack: oneshot::Sender<JobManagerResult<()>>,
}

/// The commands that the job controller takes.
pub enum JobControllerCommand<E> {
    /// Add a job: it runs at once if a slot is free and waits if none is.
    EnqueueJob(E),
    /// A job has finished, successfully or not, and gives up its slot.
    CompleteJob(String),
    /// Cancel a job by its id; the result goes to the reply slot.
    CancelJob(AcknowledgeableCommand),
    /// Pause a job by its id.
    PauseJob(String),
    /// Resume a job by its id.
    ResumeJob(String),
    /// Shut down: cancel every running job and discard the queue. The reply
    /// slot is fulfilled when nothing runs and nothing waits any more.
    Shutdown(oneshot::Sender<()>),
}

/// A shutdown that has begun and has not ended yet.
///
/// It holds the reply slot of the shutdown command, which only
/// [`JobController::finish_shutdown`] can fulfil.
pub struct ShutdownTicket {
    signalled: Vec<String>,
    grace_period_ms: u64,
    reply: oneshot::Sender<()>,
}

impl ShutdownTicket {
    /// The ids of the jobs that were running when shutdown began.
    pub closed spec fn signalled_ids(&self) -> Seq<Seq<char>> {
        id_views(self.signalled@)
    }

    /// The grace period in milliseconds.
    pub closed spec fn grace(&self) -> u64 {
        self.grace_period_ms
    }

    /// The reply slot of the shutdown command.
    pub closed spec fn slot(&self) -> oneshot::Sender<()> {
        self.reply
    }

    /// The ids of the jobs whose cancellation signal is to be raised: those
    /// that were running when shutdown began, in table order.
    pub fn signalled(&self) -> (ids: &Vec<String>)
        ensures
            id_views(ids@) == self.signalled_ids(),
    {
        &self.signalled
    }

    /// How long to wait for the signalled jobs to report, in milliseconds.
    pub fn grace_period_ms(&self) -> (ms: u64)
        ensures
            ms == self.grace(),
    {
        self.grace_period_ms
    }
}

/// What handling a command did, and what is left for the caller to do.
pub enum CommandOutcome<E> {
    /// An `EnqueueJob` was handled: the executor gave `id` as its id, and the
    /// job was enqueued under it. On `Ok(Admission::Started(job))` the caller
    /// starts the executor.
    Enqueued { id: String, admission: Result<Admission<E>, JobManagerError> },
    /// A `CompleteJob` for `id` was handled. The caller starts the executors
    /// of the jobs that took the free slots.
    Completed { id: String, completion: Completion<E> },
    /// A `CancelJob` for `id` was handled, and its result was offered to the
    /// reply slot: the receipt shows it. On `Ok(CancelOutcome::Signalled)` the
    /// caller raises the cancellation signal of the job.
    Cancelled {
        id: String,
        result: Result<CancelOutcome, JobManagerError>,
        receipt: Receipt<JobManagerResult<()>>,
    },
    /// A `PauseJob` for `id` was handled. On `Ok` the caller raises the pause
    /// signal of the job.
    Paused { id: String, answer: Result<(), JobManagerError> },
    /// A `ResumeJob` for `id` was handled. On `Ok` the caller clears the
    /// pause signal of the job.
    Resumed { id: String, answer: Result<(), JobManagerError> },
    /// A `Shutdown` has begun. The caller raises the cancellation signals,
    /// waits for the jobs up to the grace period, and then calls
    /// [`JobController::finish_shutdown`].
    ShuttingDown(ShutdownTicket),
}

/// What the end of a shutdown did.
pub struct ShutdownReport {
    /// The ids of the jobs that had not reported when the grace period was
    /// over, in table order. The caller gives up their executions.
    pub abandoned: Vec<String>,
    /// The receipt for the acknowledgement, which was offered to the reply
    /// slot of the command.
    pub receipt: Receipt<()>,
}

/// The operation on the job manager that handling `command` performed. For an
/// `EnqueueJob` it is the enqueue under the id that the executor gave, which
/// the outcome holds.
pub open spec fn performed<E>(command: JobControllerCommand<E>, outcome: CommandOutcome<E>) -> Op<
    E,
> {
    match command {
        JobControllerCommand::EnqueueJob(executor) => Op::Enqueue(
            JobView { id: outcome->Enqueued_id@, executor },
        ),
        JobControllerCommand::CompleteJob(id) => Op::Complete(id@),
        JobControllerCommand::CancelJob(command) => Op::Cancel(command.id@),
        JobControllerCommand::PauseJob(id) => Op::Pause(id@),
        JobControllerCommand::ResumeJob(id) => Op::Resume(id@),
        JobControllerCommand::Shutdown(_) => Op::BeginShutdown,
    }
}

/// Whether `outcome` is what handling `command` in the state `before` gives.
/// Two things are left open: the id that the executor of an `EnqueueJob`
/// gives, and whether a reply reaches its receiver. The receipt of a
/// `CancelJob` shows that its result was offered to the reply slot of that
/// very command.
pub open spec fn answers<E>(
    before: ManagerView<E>,
    grace_period_ms: u64,
    command: JobControllerCommand<E>,
    outcome: CommandOutcome<E>,
) -> bool {
    match command {
        JobControllerCommand::EnqueueJob(executor) => {
            &&& outcome matches CommandOutcome::Enqueued { id, admission }
            &&& match admission {
                Ok(admission) => before.enqueue_result(JobView { id: id@, executor }) == Ok::<
                    AdmissionView<E>,
                    JobManagerError,
                >(admission@),
                Err(error) => before.enqueue_result(JobView { id: id@, executor }) == Err::<
                    AdmissionView<E>,
                    JobManagerError,
                >(error),
            }
        },
        JobControllerCommand::CompleteJob(of) => {
            &&& outcome matches CommandOutcome::Completed { id, completion }
            &&& id == of
            &&& completion.vacated == before.run_state(of@)
            &&& job_views(completion.started@) == before.complete_started(of@)
        },
        JobControllerCommand::CancelJob(command) => {
            &&& outcome matches CommandOutcome::Cancelled { id, result, receipt }
            &&& id == command.id
            &&& result == before.cancel_result(command.id@)
            &&& receipt.slot() == command.ack
            &&& receipt.offered() == acknowledged(result)
        },
        JobControllerCommand::PauseJob(of) => {
            &&& outcome matches CommandOutcome::Paused { id, answer }
            &&& id == of
            &&& answer == before.pause_result(of@)
        },
        JobControllerCommand::ResumeJob(of) => {
            &&& outcome matches CommandOutcome::Resumed { id, answer }
            &&& id == of
            &&& answer == before.pause_result(of@)
        },
        JobControllerCommand::Shutdown(reply) => {
            &&& outcome matches CommandOutcome::ShuttingDown(ticket)
            &&& ticket.signalled_ids() == before.running_ids()
            &&& ticket.grace() == grace_period_ms
            &&& ticket.slot() == reply
        },
    }
}

/// The result that a `CancelJob` command reports to its reply slot: success
/// means that the cancellation was requested, not that the job has stopped.
pub open spec fn acknowledged(result: Result<CancelOutcome, JobManagerError>) -> JobManagerResult<
    (),
> {
    match result {
        Ok(_) => Ok(()),
        Err(error) => Err(error),
    }
}

/// The result that a `CancelJob` command reports to its reply slot.
pub fn acknowledgement(result: &Result<CancelOutcome, JobManagerError>) -> (reply: JobManagerResult<
    (),
>)
    ensures
        reply == acknowledged(*result),
{
    match result {
        Ok(_) => Ok(()),
        Err(error) => Err(*error),
    }
}

/// The controller of the job manager and the channel that feeds it.
#[verifier::reject_recursive_types(E)]
pub struct JobController<E> {
    manager: JobManager<E>,
    commands_tx: UnboundedSender<JobControllerCommand<E>>,
    grace_period_ms: u64,
}

impl<E> View for JobController<E> {
    type V = ManagerView<E>;

    closed spec fn view(&self) -> ManagerView<E> {
        self.manager@
    }
}

impl<E: Executor> JobController<E> {
    /// The grace period of a shutdown, in milliseconds.
    pub closed spec fn grace(&self) -> u64 {
        self.grace_period_ms
    }

    /// The sending half of the command channel that the controller holds. It
    /// stays the same for as long as the controller lives.
    pub closed spec fn commands(&self) -> UnboundedSender<JobControllerCommand<E>> {
        self.commands_tx
    }

    /// Makes a controller with `max_concurrency` slots and no jobs, and the
    /// command channel that feeds it. The receiving half is returned: whoever
    /// holds it takes the commands out, one at a time, and hands each to
    /// [`JobController::handle_command`].
    pub fn new(max_concurrency: usize, grace_period_ms: u64) -> (made: (
        Self,
        UnboundedReceiver<JobControllerCommand<E>>,
    ))
        ensures
            made.0@ == ManagerView::<E>::empty(max_concurrency as nat),
            made.0.grace() == grace_period_ms,
            made.0@.wf(),
    {
        let (commands_tx, commands_rx) = tokio::sync::mpsc::unbounded_channel();
        let controller = JobController {
            manager: JobManager::new(max_concurrency),
            commands_tx,
            grace_period_ms,
        };
        (controller, commands_rx)
    }

    /// The job manager, for queries.
    pub fn manager(&self) -> (manager: &JobManager<E>)
        ensures
            manager@ == self@,
    {
        &self.manager
    }

    /// How long a shutdown waits for the running jobs, in milliseconds.
    pub fn grace_period_ms(&self) -> (ms: u64)
        ensures
            ms == self.grace(),
    {
        self.grace_period_ms
    }

    /// One more sending half of the command channel, for a producer or a
    /// worker: what is sent through it goes where [`JobController::push_command`]
    /// sends.
    pub fn sender(&self) -> (sender: UnboundedSender<JobControllerCommand<E>>)
        ensures
            sender == self.commands(),
    {
        clone_sender(&self.commands_tx)
    }

    /// Pushes a command into the channel. This never waits. If the receiving
    /// half is closed, the command comes back unchanged.
    pub fn push_command(&self, event: JobControllerCommand<E>) -> (pushed: Result<
        (),
        JobControllerCommand<E>,
    >)
        ensures
            pushed matches Err(returned) ==> returned == event,
    {
        send_unbounded(&self.commands_tx, event)
    }

    /// Handles one command.
    ///
    /// The scheduling state moves by the operation that the command stands
    /// for, and the outcome says what was decided. An `EnqueueJob` asks the
    /// executor for its id, once. The result of a `CancelJob` is offered to its
    /// reply slot on every path, found or not. A `Shutdown` only begins here;
    /// its reply slot travels in the ticket.
    pub fn handle_command(&mut self, command: JobControllerCommand<E>) -> (outcome: CommandOutcome<
        E,
    >)
        ensures
            final(self)@ == old(self)@.step(performed(command, outcome)),
            answers(old(self)@, old(self).grace(), command, outcome),
            final(self).grace() == old(self).grace(),
            final(self).commands() == old(self).commands(),
            final(self)@.wf(),
    {
        match command {
            JobControllerCommand::EnqueueJob(executor) => {
                let id = executor.id();
                let admission = self.manager.enqueue(Job { id: id.clone(), executor });
                CommandOutcome::Enqueued { id, admission }
            },
            JobControllerCommand::CompleteJob(id) => {
                let completion = self.manager.complete(&id);
                CommandOutcome::Completed { id, completion }
            },
            JobControllerCommand::CancelJob(AcknowledgeableCommand { id, ack }) => {
                let result = self.manager.cancel(&id);
                let receipt = fulfil(ack, acknowledgement(&result));
                CommandOutcome::Cancelled { id, result, receipt }
            },
            JobControllerCommand::PauseJob(id) => {
                let answer = self.manager.pause(&id);
                CommandOutcome::Paused { id, answer }
            },
            JobControllerCommand::ResumeJob(id) => {
                let answer = self.manager.resume(&id);
                CommandOutcome::Resumed { id, answer }
            },
            JobControllerCommand::Shutdown(reply) => {
                let signalled = self.manager.begin_shutdown();
                CommandOutcome::ShuttingDown(
                    ShutdownTicket { signalled, grace_period_ms: self.grace_period_ms, reply },
                )
            },
        }
    }

    /// Ends a shutdown and acknowledges it.
    ///
    /// `reported` holds the ids of the jobs that reported completion while the
    /// caller waited. Every job that is still running and not among them is
    /// given up. When the acknowledgement is offered to the reply slot of the
    /// shutdown command, as the receipt shows, nothing runs and nothing waits.
    pub fn finish_shutdown(&mut self, ticket: ShutdownTicket, reported: &Vec<String>) -> (report:
        ShutdownReport)
        ensures
            final(self)@ == old(self)@.finish_shutdown(),
            final(self)@.queue.len() == 0,
            final(self)@.running.len() == 0,
            id_views(report.abandoned@) == old(self)@.abandoned(id_views(reported@)),
            report.receipt.slot() == ticket.slot(),
            final(self).grace() == old(self).grace(),
            final(self).commands() == old(self).commands(),
            final(self)@.wf(),
    {
        let abandoned = self.manager.finish_shutdown(reported);
        let receipt = fulfil(ticket.reply, ());
        ShutdownReport { abandoned, receipt }
    }
}

} // verus!
