//! Jobs, their identity and their status.

use vstd::prelude::*;

verus! {

/// The status of a job over its whole life.
///
/// Only `Queued`, `Running` and `Cancelling` are ever held by the manager:
/// a job leaves its tables the moment it reaches a terminal status.
#[derive(Clone, Copy, Debug, PartialEq, Eq, Structural)]
pub enum JobStatus {
    Queued,
    Running,
    Cancelling,
    Completed,
    Failed,
    Cancelled,
}

impl JobStatus {
    /// Whether no further transition can follow this status.
    pub open spec fn terminal(self) -> bool {
        self == JobStatus::Completed || self == JobStatus::Failed || self == JobStatus::Cancelled
    }

    /// Whether no further transition can follow this status.
    pub fn is_terminal(&self) -> (b: bool)
        ensures
            b == self.terminal(),
    {
        match self {
            JobStatus::Completed | JobStatus::Failed | JobStatus::Cancelled => true,
            JobStatus::Queued | JobStatus::Running | JobStatus::Cancelling => false,
        }
    }
}

/// The two signals of a job that holds a slot. Both are advisory: the job
/// observes them at its own checkpoints, and nothing stops a job from outside.
#[derive(Clone, Copy, Debug, PartialEq, Eq, Structural)]
pub struct Signals {
    /// The job is asked to stop.
    pub cancel: bool,
    /// The job is asked to wait.
    pub pause: bool,
}

/// What a job does when it comes to a checkpoint.
#[derive(Clone, Copy, Debug, PartialEq, Eq, Structural)]
pub enum Directive {
    /// No signal is raised: the job goes on.
    Proceed,
    /// The pause signal is raised: the job waits at the checkpoint.
    Wait,
    /// The cancellation signal is raised: the job stops, paused or not.
    Stop,
}

impl Signals {
    /// What a job that observes these signals does.
    pub open spec fn checkpoint_of(self) -> Directive {
        if self.cancel {
            Directive::Stop
        } else if self.pause {
            Directive::Wait
        } else {
            Directive::Proceed
        }
    }

    /// What a job that observes these signals does.
    pub fn checkpoint(&self) -> (directive: Directive)
        ensures
            directive == self.checkpoint_of(),
    {
        if self.cancel {
            Directive::Stop
        } else if self.pause {
            Directive::Wait
        } else {
            Directive::Proceed
        }
    }
}

/// What the manager knows about a job that holds a concurrency slot.
///
/// Pausing is a sub-state of running: both `Active` and `Paused` report the
/// status `Running`.
#[derive(Clone, Copy, Debug, PartialEq, Eq, Structural)]
pub enum RunState {
    /// The job is executing.
    Active,
    /// The pause signal is raised.
    Paused,
    /// The cancellation signal is raised; the job has not reported back yet.
    Cancelling,
}

impl RunState {
    /// The status that a job in this state reports.
    pub open spec fn status_of(self) -> JobStatus {
        match self {
            RunState::Active => JobStatus::Running,
            RunState::Paused => JobStatus::Running,
            RunState::Cancelling => JobStatus::Cancelling,
        }
    }

    /// The status that a job in this state reports.
    pub fn status(&self) -> (s: JobStatus)
        ensures
            s == self.status_of(),
    {
        match self {
            RunState::Active => JobStatus::Running,
            RunState::Paused => JobStatus::Running,
            RunState::Cancelling => JobStatus::Cancelling,
        }
    }

    /// The signals that are raised for a job in this state.
    pub open spec fn signals_of(self) -> Signals {
        match self {
            RunState::Active => Signals { cancel: false, pause: false },
            RunState::Paused => Signals { cancel: false, pause: true },
            RunState::Cancelling => Signals { cancel: true, pause: false },
        }
    }

    /// The signals that are raised for a job in this state. A job that
    /// observes them goes on while it is active, waits while it is paused, and
    /// stops once it is cancelling.
    pub fn signals(&self) -> (signals: Signals)
        ensures
            signals == self.signals_of(),
            signals.checkpoint_of() == (match *self {
                RunState::Active => Directive::Proceed,
                RunState::Paused => Directive::Wait,
                RunState::Cancelling => Directive::Stop,
            }),
    {
        match self {
            RunState::Active => Signals { cancel: false, pause: false },
            RunState::Paused => Signals { cancel: false, pause: true },
            RunState::Cancelling => Signals { cancel: true, pause: false },
        }
    }

    /// The terminal status of a job that reports its termination in this
    /// state. Once cancellation was requested the job ends as `Cancelled`,
    /// whatever its run came to. Otherwise it ends as `Failed` if its run
    /// failed, and as `Completed` if not.
    pub open spec fn terminal_status_of(self, failed: bool) -> JobStatus {
        if self == RunState::Cancelling {
            JobStatus::Cancelled
        } else if failed {
            JobStatus::Failed
        } else {
            JobStatus::Completed
        }
    }

    /// The terminal status of a job that reports its termination in this
    /// state; `failed` says whether its run failed.
    pub fn terminal_status(&self, failed: bool) -> (status: JobStatus)
        ensures
            status == self.terminal_status_of(failed),
            status.terminal(),
    {
        match self {
            RunState::Cancelling => JobStatus::Cancelled,
            _ => if failed {
                JobStatus::Failed
            } else {
                JobStatus::Completed
            },
        }
    }
}

/// A unit of work together with the id it is known by.
pub struct Job<E> {
    pub id: String,
    pub executor: E,
}

/// The mathematical value of a [`Job`]: its id as a sequence of characters,
/// and the executor itself.
pub struct JobView<E> {
    pub id: Seq<char>,
    pub executor: E,
}

impl<E> View for Job<E> {
    type V = JobView<E>;

    open spec fn view(&self) -> JobView<E> {
        JobView { id: self.id@, executor: self.executor }
    }
}

/// The capability through which the controller sees a unit of work.
///
/// Running the work, and polling for cancellation and pause while it runs, is
/// the business of whoever executes the job; the controller only asks which
/// job it is.
pub trait Executor {
    /// The id of the job. The controller asks for it once, when the job is
    /// enqueued, and knows the job by that answer from then on.
    fn id(&self) -> String;
}

} // verus!
