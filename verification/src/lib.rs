//! A verified job-control core.
//!
//! The crate admits, runs, pauses, resumes and cancels background jobs under a
//! bounded concurrency budget. All scheduling state lives in a [`JobManager`],
//! which is driven one command at a time by a [`JobController`]. Executing a
//! job, raising its signals and waiting for it are left to the caller: every
//! operation returns what has to be done next as plain data.
//!
//! [`JobManager`]: manager::JobManager
//! [`JobController`]: controller::JobController

pub mod channel;
pub mod controller;
pub mod error;
pub mod job;
pub mod laws;
pub mod manager;
pub mod model;
pub mod reply;
