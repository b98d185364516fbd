use job_control::error::JobManagerError;
use job_control::job::{Directive, Job, JobStatus, RunState, Signals};
use job_control::manager::{holds_id, Admission, JobManager};
use job_control::model::CancelOutcome;

fn job(id: &str, payload: u32) -> Job<u32> {
    Job { id: id.to_string(), executor: payload }
}

fn key(id: &str) -> String {
    id.to_string()
}

fn started_ids(started: &Vec<Job<u32>>) -> Vec<String> {
    let mut ids = Vec::new();
    for item in started {
        ids.push(item.id.clone());
    }
    ids
}

#[test]
fn new_manager_is_empty() {
    let manager: JobManager<u32> = JobManager::new(3);
    assert_eq!(manager.max_concurrency(), 3);
    assert_eq!(manager.running_count(), 0);
    assert_eq!(manager.queued_count(), 0);
    assert_eq!(manager.status(&key("a")), None);
}

#[test]
fn enqueue_starts_while_a_slot_is_free() {
    let mut manager: JobManager<u32> = JobManager::new(2);
    match manager.enqueue(job("a", 7)) {
        Ok(Admission::Started(started)) => {
            assert_eq!(started.id, "a");
            assert_eq!(started.executor, 7);
        },
        _ => panic!("the first job must start"),
    }
    assert!(matches!(manager.enqueue(job("b", 8)), Ok(Admission::Started(_))));
    assert!(matches!(manager.enqueue(job("c", 9)), Ok(Admission::Queued)));
    assert_eq!(manager.running_count(), 2);
    assert_eq!(manager.queued_count(), 1);
    assert_eq!(manager.status(&key("a")), Some(JobStatus::Running));
    assert_eq!(manager.status(&key("b")), Some(JobStatus::Running));
    assert_eq!(manager.status(&key("c")), Some(JobStatus::Queued));
}

#[test]
fn running_table_never_exceeds_capacity() {
    let mut manager: JobManager<u32> = JobManager::new(3);
    for n in 0..20u32 {
        let _ = manager.enqueue(job(&format!("job-{}", n), n));
        assert!(manager.running_count() <= 3);
    }
    assert_eq!(manager.running_count(), 3);
    assert_eq!(manager.queued_count(), 17);
    for n in 0..20u32 {
        let _ = manager.complete(&format!("job-{}", n));
        assert!(manager.running_count() <= 3);
    }
    assert_eq!(manager.running_count(), 0);
    assert_eq!(manager.queued_count(), 0);
}

#[test]
fn zero_capacity_queues_everything() {
    let mut manager: JobManager<u32> = JobManager::new(0);
    assert!(matches!(manager.enqueue(job("a", 1)), Ok(Admission::Queued)));
    assert!(matches!(manager.enqueue(job("b", 2)), Ok(Admission::Queued)));
    assert_eq!(manager.running_count(), 0);
    assert_eq!(manager.queued_count(), 2);
    let completion = manager.complete(&key("a"));
    assert_eq!(completion.vacated, None);
    assert!(completion.started.is_empty());
    assert_eq!(manager.status(&key("a")), Some(JobStatus::Queued));
    assert_eq!(manager.pause(&key("a")), Err(JobManagerError::InvalidState));
}

#[test]
fn duplicate_of_a_running_id_is_rejected() {
    let mut manager: JobManager<u32> = JobManager::new(1);
    let _ = manager.enqueue(job("a", 1));
    assert_eq!(manager.pause(&key("a")), Ok(()));
    assert!(matches!(manager.enqueue(job("a", 2)), Err(JobManagerError::DuplicateId)));
    assert_eq!(manager.running_count(), 1);
    assert_eq!(manager.queued_count(), 0);
    assert_eq!(manager.status(&key("a")), Some(JobStatus::Running));
    // the existing job is still paused: resuming and pausing it again both succeed
    assert_eq!(manager.resume(&key("a")), Ok(()));
}

#[test]
fn duplicate_of_a_queued_id_is_rejected() {
    let mut manager: JobManager<u32> = JobManager::new(1);
    let _ = manager.enqueue(job("a", 1));
    let _ = manager.enqueue(job("b", 2));
    assert!(matches!(manager.enqueue(job("b", 3)), Err(JobManagerError::DuplicateId)));
    assert_eq!(manager.queued_count(), 1);
    let completion = manager.complete(&key("a"));
    // the executor that was queued first is the one that starts
    assert_eq!(completion.started.len(), 1);
    assert_eq!(completion.started[0].id, "b");
    assert_eq!(completion.started[0].executor, 2);
}

#[test]
fn id_is_free_again_after_completion() {
    let mut manager: JobManager<u32> = JobManager::new(1);
    let _ = manager.enqueue(job("a", 1));
    let _ = manager.complete(&key("a"));
    assert_eq!(manager.status(&key("a")), None);
    assert!(matches!(manager.enqueue(job("a", 2)), Ok(Admission::Started(_))));
}

#[test]
fn completion_promotes_exactly_one() {
    let mut manager: JobManager<u32> = JobManager::new(2);
    for (n, id) in ["a", "b", "c", "d", "e"].iter().enumerate() {
        let _ = manager.enqueue(job(id, n as u32));
    }
    assert_eq!(manager.running_count(), 2);
    assert_eq!(manager.queued_count(), 3);
    let completion = manager.complete(&key("b"));
    assert_eq!(completion.vacated, Some(RunState::Active));
    assert_eq!(started_ids(&completion.started), vec![key("c")]);
    assert_eq!(completion.started[0].executor, 2);
    assert_eq!(manager.running_count(), 2);
    assert_eq!(manager.queued_count(), 2);
    assert_eq!(manager.status(&key("b")), None);
    assert_eq!(manager.status(&key("c")), Some(JobStatus::Running));
    assert_eq!(manager.status(&key("d")), Some(JobStatus::Queued));
    assert_eq!(manager.status(&key("e")), Some(JobStatus::Queued));
}

#[test]
fn completion_of_unknown_id_is_ignored() {
    let mut manager: JobManager<u32> = JobManager::new(1);
    let _ = manager.enqueue(job("a", 1));
    let _ = manager.enqueue(job("b", 2));
    let completion = manager.complete(&key("zzz"));
    assert_eq!(completion.vacated, None);
    assert!(completion.started.is_empty());
    assert_eq!(manager.running_count(), 1);
    assert_eq!(manager.queued_count(), 1);
}

#[test]
fn completion_reported_twice_is_ignored_the_second_time() {
    let mut manager: JobManager<u32> = JobManager::new(1);
    let _ = manager.enqueue(job("a", 1));
    let _ = manager.enqueue(job("b", 2));
    let _ = manager.enqueue(job("c", 3));
    let first = manager.complete(&key("a"));
    assert_eq!(started_ids(&first.started), vec![key("b")]);
    let second = manager.complete(&key("a"));
    assert_eq!(second.vacated, None);
    assert!(second.started.is_empty());
    assert_eq!(manager.status(&key("b")), Some(JobStatus::Running));
    assert_eq!(manager.status(&key("c")), Some(JobStatus::Queued));
}

#[test]
fn completion_of_a_queued_id_leaves_it_queued() {
    let mut manager: JobManager<u32> = JobManager::new(1);
    let _ = manager.enqueue(job("a", 1));
    let _ = manager.enqueue(job("b", 2));
    let completion = manager.complete(&key("b"));
    assert_eq!(completion.vacated, None);
    assert!(completion.started.is_empty());
    assert_eq!(manager.status(&key("b")), Some(JobStatus::Queued));
}

#[test]
fn cancel_of_a_queued_job_removes_it_before_it_runs() {
    let mut manager: JobManager<u32> = JobManager::new(1);
    let _ = manager.enqueue(job("a", 1));
    let _ = manager.enqueue(job("b", 2));
    let _ = manager.enqueue(job("c", 3));
    assert_eq!(manager.cancel(&key("b")), Ok(CancelOutcome::Dequeued));
    assert_eq!(manager.status(&key("b")), None);
    assert_eq!(manager.queued_count(), 1);
    assert_eq!(manager.running_count(), 1);
    let completion = manager.complete(&key("a"));
    assert_eq!(started_ids(&completion.started), vec![key("c")]);
    let completion = manager.complete(&key("c"));
    assert!(completion.started.is_empty());
    assert_eq!(manager.status(&key("b")), None);
}

#[test]
fn cancel_of_a_running_job_only_requests_it() {
    let mut manager: JobManager<u32> = JobManager::new(1);
    let _ = manager.enqueue(job("a", 1));
    let _ = manager.enqueue(job("b", 2));
    assert_eq!(manager.cancel(&key("a")), Ok(CancelOutcome::Signalled));
    assert_eq!(manager.status(&key("a")), Some(JobStatus::Cancelling));
    assert_eq!(manager.running_count(), 1);
    assert_eq!(manager.status(&key("b")), Some(JobStatus::Queued));
    // asking again is fine and changes nothing
    assert_eq!(manager.cancel(&key("a")), Ok(CancelOutcome::Signalled));
    assert_eq!(manager.status(&key("a")), Some(JobStatus::Cancelling));
    let completion = manager.complete(&key("a"));
    assert_eq!(completion.vacated, Some(RunState::Cancelling));
    assert_eq!(started_ids(&completion.started), vec![key("b")]);
    assert_eq!(manager.status(&key("a")), None);
}

#[test]
fn cancel_of_unknown_id_is_not_found() {
    let mut manager: JobManager<u32> = JobManager::new(1);
    assert_eq!(manager.cancel(&key("x")), Err(JobManagerError::NotFound));
    let _ = manager.enqueue(job("a", 1));
    let _ = manager.enqueue(job("b", 2));
    assert_eq!(manager.cancel(&key("x")), Err(JobManagerError::NotFound));
    assert_eq!(manager.status(&key("a")), Some(JobStatus::Running));
    assert_eq!(manager.status(&key("b")), Some(JobStatus::Queued));
}

#[test]
fn pause_and_resume_of_a_running_job() {
    let mut manager: JobManager<u32> = JobManager::new(2);
    let _ = manager.enqueue(job("a", 1));
    let _ = manager.enqueue(job("b", 2));
    assert_eq!(manager.pause(&key("a")), Ok(()));
    assert_eq!(manager.status(&key("a")), Some(JobStatus::Running));
    assert_eq!(manager.pause(&key("a")), Ok(()));
    assert_eq!(manager.resume(&key("a")), Ok(()));
    assert_eq!(manager.resume(&key("a")), Ok(()));
    assert_eq!(manager.resume(&key("b")), Ok(()));
    let completion = manager.complete(&key("a"));
    assert_eq!(completion.vacated, Some(RunState::Active));
}

#[test]
fn paused_job_completes_as_paused() {
    let mut manager: JobManager<u32> = JobManager::new(1);
    let _ = manager.enqueue(job("a", 1));
    assert_eq!(manager.pause(&key("a")), Ok(()));
    let completion = manager.complete(&key("a"));
    assert_eq!(completion.vacated, Some(RunState::Paused));
}

#[test]
fn pause_of_a_cancelling_job_is_invalid() {
    let mut manager: JobManager<u32> = JobManager::new(1);
    let _ = manager.enqueue(job("a", 1));
    assert_eq!(manager.cancel(&key("a")), Ok(CancelOutcome::Signalled));
    assert_eq!(manager.pause(&key("a")), Err(JobManagerError::InvalidState));
    assert_eq!(manager.resume(&key("a")), Err(JobManagerError::InvalidState));
    assert_eq!(manager.status(&key("a")), Some(JobStatus::Cancelling));
}

#[test]
fn resume_of_queued_and_unknown_ids() {
    let mut manager: JobManager<u32> = JobManager::new(1);
    let _ = manager.enqueue(job("a", 1));
    let _ = manager.enqueue(job("b", 2));
    assert_eq!(manager.resume(&key("b")), Err(JobManagerError::InvalidState));
    assert_eq!(manager.resume(&key("x")), Err(JobManagerError::NotFound));
}

#[test]
fn cancel_of_a_paused_job_makes_it_cancelling() {
    let mut manager: JobManager<u32> = JobManager::new(1);
    let _ = manager.enqueue(job("a", 1));
    assert_eq!(manager.pause(&key("a")), Ok(()));
    assert_eq!(manager.cancel(&key("a")), Ok(CancelOutcome::Signalled));
    assert_eq!(manager.status(&key("a")), Some(JobStatus::Cancelling));
    let completion = manager.complete(&key("a"));
    assert_eq!(completion.vacated, Some(RunState::Cancelling));
}

#[test]
fn begin_shutdown_discards_the_queue_and_signals_the_running() {
    let mut manager: JobManager<u32> = JobManager::new(2);
    for (n, id) in ["a", "b", "c", "d"].iter().enumerate() {
        let _ = manager.enqueue(job(id, n as u32));
    }
    let signalled = manager.begin_shutdown();
    assert_eq!(signalled, vec![key("a"), key("b")]);
    assert_eq!(manager.queued_count(), 0);
    assert_eq!(manager.running_count(), 2);
    assert_eq!(manager.status(&key("a")), Some(JobStatus::Cancelling));
    assert_eq!(manager.status(&key("b")), Some(JobStatus::Cancelling));
    assert_eq!(manager.status(&key("c")), None);
    assert_eq!(manager.status(&key("d")), None);
    // a job that reports while shutdown waits frees its slot, and nothing takes it
    let completion = manager.complete(&key("a"));
    assert_eq!(completion.vacated, Some(RunState::Cancelling));
    assert!(completion.started.is_empty());
}

#[test]
fn finish_shutdown_abandons_what_did_not_report() {
    let mut manager: JobManager<u32> = JobManager::new(3);
    for (n, id) in ["a", "b", "c", "d"].iter().enumerate() {
        let _ = manager.enqueue(job(id, n as u32));
    }
    let signalled = manager.begin_shutdown();
    assert_eq!(signalled, vec![key("a"), key("b"), key("c")]);
    let abandoned = manager.finish_shutdown(&vec![key("b"), key("unrelated")]);
    assert_eq!(abandoned, vec![key("a"), key("c")]);
    assert_eq!(manager.running_count(), 0);
    assert_eq!(manager.queued_count(), 0);
    assert_eq!(manager.max_concurrency(), 3);
}

#[test]
fn finish_shutdown_with_every_job_reported() {
    let mut manager: JobManager<u32> = JobManager::new(2);
    let _ = manager.enqueue(job("a", 1));
    let _ = manager.enqueue(job("b", 2));
    let signalled = manager.begin_shutdown();
    let abandoned = manager.finish_shutdown(&signalled);
    assert!(abandoned.is_empty());
    assert_eq!(manager.running_count(), 0);
}

#[test]
fn shutdown_of_an_empty_manager() {
    let mut manager: JobManager<u32> = JobManager::new(2);
    assert!(manager.begin_shutdown().is_empty());
    assert!(manager.finish_shutdown(&Vec::new()).is_empty());
    assert_eq!(manager.running_count(), 0);
    assert_eq!(manager.queued_count(), 0);
}

#[test]
fn manager_takes_jobs_again_after_shutdown() {
    let mut manager: JobManager<u32> = JobManager::new(1);
    let _ = manager.enqueue(job("a", 1));
    let _ = manager.begin_shutdown();
    let _ = manager.finish_shutdown(&Vec::new());
    assert!(matches!(manager.enqueue(job("a", 5)), Ok(Admission::Started(_))));
    assert_eq!(manager.status(&key("a")), Some(JobStatus::Running));
}

#[test]
fn holds_id_looks_for_the_whole_id() {
    let ids = vec![key("alpha"), key("beta")];
    assert!(holds_id(&ids, &key("alpha")));
    assert!(holds_id(&ids, &key("beta")));
    assert!(!holds_id(&ids, &key("alph")));
    assert!(!holds_id(&ids, &key("")));
    assert!(!holds_id(&Vec::new(), &key("alpha")));
}

#[test]
fn statuses_and_run_states() {
    assert_eq!(RunState::Active.status(), JobStatus::Running);
    assert_eq!(RunState::Paused.status(), JobStatus::Running);
    assert_eq!(RunState::Cancelling.status(), JobStatus::Cancelling);
    assert!(!JobStatus::Queued.is_terminal());
    assert!(!JobStatus::Running.is_terminal());
    assert!(!JobStatus::Cancelling.is_terminal());
    assert!(JobStatus::Completed.is_terminal());
    assert!(JobStatus::Failed.is_terminal());
    assert!(JobStatus::Cancelled.is_terminal());
}

#[test]
fn terminal_status_of_a_finished_job() {
    assert_eq!(RunState::Active.terminal_status(false), JobStatus::Completed);
    assert_eq!(RunState::Active.terminal_status(true), JobStatus::Failed);
    assert_eq!(RunState::Paused.terminal_status(false), JobStatus::Completed);
    assert_eq!(RunState::Paused.terminal_status(true), JobStatus::Failed);
    assert_eq!(RunState::Cancelling.terminal_status(false), JobStatus::Cancelled);
    assert_eq!(RunState::Cancelling.terminal_status(true), JobStatus::Cancelled);
}

#[test]
fn error_messages() {
    assert_eq!(JobManagerError::NotFound.message(), "job not found");
    assert_eq!(
        JobManagerError::InvalidState.message(),
        "job is in an invalid state for this operation"
    );
    assert_eq!(JobManagerError::DuplicateId.message(), "a job with this id already exists");
}

#[test]
fn signals_follow_the_run_state() {
    assert_eq!(RunState::Active.signals(), Signals { cancel: false, pause: false });
    assert_eq!(RunState::Paused.signals(), Signals { cancel: false, pause: true });
    assert_eq!(RunState::Cancelling.signals(), Signals { cancel: true, pause: false });
}

#[test]
fn checkpoint_heeds_cancellation_before_pause() {
    assert_eq!(Signals { cancel: false, pause: false }.checkpoint(), Directive::Proceed);
    assert_eq!(Signals { cancel: false, pause: true }.checkpoint(), Directive::Wait);
    assert_eq!(Signals { cancel: true, pause: false }.checkpoint(), Directive::Stop);
    assert_eq!(Signals { cancel: true, pause: true }.checkpoint(), Directive::Stop);
}

#[test]
fn run_state_of_running_queued_and_unknown_jobs() {
    let mut manager: JobManager<u32> = JobManager::new(2);
    let _ = manager.enqueue(job("a", 1));
    let _ = manager.enqueue(job("b", 2));
    let _ = manager.enqueue(job("c", 3));
    assert_eq!(manager.run_state(&key("a")), Some(RunState::Active));
    assert_eq!(manager.pause(&key("a")), Ok(()));
    assert_eq!(manager.run_state(&key("a")), Some(RunState::Paused));
    assert_eq!(manager.resume(&key("a")), Ok(()));
    assert_eq!(manager.run_state(&key("a")), Some(RunState::Active));
    assert_eq!(manager.cancel(&key("b")), Ok(CancelOutcome::Signalled));
    assert_eq!(manager.run_state(&key("b")), Some(RunState::Cancelling));
    assert_eq!(manager.run_state(&key("c")), None);
    assert_eq!(manager.run_state(&key("x")), None);
}
