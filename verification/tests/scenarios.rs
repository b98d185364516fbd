use job_control::error::JobManagerError;
use job_control::job::{Job, JobStatus};
use job_control::manager::{Admission, JobManager};

fn job(id: &str) -> Job<&'static str> {
    Job { id: id.to_string(), executor: "work" }
}

fn key(id: &str) -> String {
    id.to_string()
}

#[test]
fn three_jobs_through_one_slot() {
    let mut manager: JobManager<&'static str> = JobManager::new(1);
    assert!(matches!(manager.enqueue(job("A")), Ok(Admission::Started(_))));
    assert!(matches!(manager.enqueue(job("B")), Ok(Admission::Queued)));
    assert!(matches!(manager.enqueue(job("C")), Ok(Admission::Queued)));
    assert_eq!(manager.status(&key("A")), Some(JobStatus::Running));
    assert_eq!(manager.status(&key("B")), Some(JobStatus::Queued));
    assert_eq!(manager.status(&key("C")), Some(JobStatus::Queued));
    assert_eq!(manager.running_count(), 1);
    assert_eq!(manager.queued_count(), 2);
    assert_eq!(manager.running_ids(), vec![key("A")]);
    assert_eq!(manager.queued_ids(), vec![key("B"), key("C")]);

    let completion = manager.complete(&key("A"));
    assert_eq!(completion.started.len(), 1);
    assert_eq!(completion.started[0].id, "B");
    assert_eq!(manager.status(&key("A")), None);
    assert_eq!(manager.status(&key("B")), Some(JobStatus::Running));
    assert_eq!(manager.status(&key("C")), Some(JobStatus::Queued));
    assert_eq!(manager.running_ids(), vec![key("B")]);
    assert_eq!(manager.queued_ids(), vec![key("C")]);

    let completion = manager.complete(&key("B"));
    assert_eq!(completion.started.len(), 1);
    assert_eq!(completion.started[0].id, "C");
    assert_eq!(manager.status(&key("C")), Some(JobStatus::Running));
    assert_eq!(manager.queued_count(), 0);

    let completion = manager.complete(&key("C"));
    assert!(completion.started.is_empty());
    assert_eq!(manager.running_count(), 0);
    assert_eq!(manager.queued_count(), 0);
}

#[test]
fn pause_of_an_id_that_was_never_enqueued() {
    let mut manager: JobManager<&'static str> = JobManager::new(1);
    let _ = manager.enqueue(job("a"));
    let _ = manager.enqueue(job("b"));
    assert_eq!(manager.pause(&key("x")), Err(JobManagerError::NotFound));
    assert_eq!(manager.status(&key("a")), Some(JobStatus::Running));
    assert_eq!(manager.status(&key("b")), Some(JobStatus::Queued));
    assert_eq!(manager.running_count(), 1);
    assert_eq!(manager.queued_count(), 1);
    // "a" was not paused by the failed request: it completes as active
    let completion = manager.complete(&key("a"));
    assert_eq!(completion.vacated, Some(job_control::job::RunState::Active));
}

#[test]
fn pause_of_a_queued_job() {
    let mut manager: JobManager<&'static str> = JobManager::new(1);
    let _ = manager.enqueue(job("a"));
    let _ = manager.enqueue(job("b"));
    assert_eq!(manager.pause(&key("b")), Err(JobManagerError::InvalidState));
    assert_eq!(manager.status(&key("b")), Some(JobStatus::Queued));
    assert_eq!(manager.queued_count(), 1);
}
