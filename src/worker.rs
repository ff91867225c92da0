//! The archive worker's decisions: it takes the captured batch one
//! repository at a time, in order, reports the start and the outcome of each,
//! and goes on after a failure. Running the archive action, waiting and
//! delivering the events are the caller's part.

use vstd::prelude::*;
use crate::session::{ArchiveEvent, BatchItem};

verus! {

/// Milliseconds that a dry run spends on one repository.
pub const SIMULATED_WORK_MS: u64 = 300;

/// Milliseconds to wait after each repository before the next one.
pub const PAUSE_BETWEEN_MS: u64 = 100;

/// The work for the current repository.
#[derive(Clone, Debug, PartialEq, Eq)]
pub enum Job {
    /// Dry run: wait as if working, change nothing.
    Simulate(usize),
    /// Archive the named repository through the hosting service.
    Archive(usize, String),
}

/// How the archive action ended.
#[derive(Clone, Debug, PartialEq, Eq)]
pub enum JobOutcome {
    Success,
    /// It failed or could not be started, with its diagnostic text.
    Failure(String),
}

/// The worker's place in its batch.
pub struct Worker {
    pub batch: Vec<BatchItem>,
    /// How many repositories of the batch are done.
    pub done: usize,
    pub dry_run: bool,
}

impl Worker {
    pub open spec fn wf(&self) -> bool {
        self.done <= self.batch@.len()
    }

    /// A worker at the start of `batch`.
    pub fn new(batch: Vec<BatchItem>, dry_run: bool) -> (r: Worker)
        ensures
            r.wf(),
            r.batch == batch,
            r.done == 0,
            r.dry_run == dry_run,
    {
        Worker { batch, done: 0, dry_run }
    }

    /// The work for the next repository, or `None` once the batch is through.
    pub fn next_job(&self) -> (r: Option<Job>)
        requires
            self.wf(),
        ensures
            r == if self.done == self.batch@.len() {
                None
            } else if self.dry_run {
                Some(Job::Simulate(self.batch@[self.done as int].index))
            } else {
                Some(
                    Job::Archive(
                        self.batch@[self.done as int].index,
                        self.batch@[self.done as int].name,
                    ),
                )
            },
    {
        if self.done == self.batch.len() {
            None
        } else if self.dry_run {
            Some(Job::Simulate(self.batch[self.done].index))
        } else {
            Some(Job::Archive(self.batch[self.done].index, self.batch[self.done].name.clone()))
        }
    }

    /// The event that announces the next repository's start.
    pub fn start_event(&self) -> (r: ArchiveEvent)
        requires
            self.wf(),
            self.done < self.batch@.len(),
        ensures
            r == ArchiveEvent::Started(self.batch@[self.done as int].index),
    {
        ArchiveEvent::Started(self.batch[self.done].index)
    }

    /// Records how the current repository ended and moves on to the next;
    /// a dry run always succeeds.
    pub fn finish(&mut self, outcome: JobOutcome) -> (r: ArchiveEvent)
        requires
            old(self).wf(),
            old(self).done < old(self).batch@.len(),
        ensures
            final(self).wf(),
            final(self).done == old(self).done + 1,
            final(self).batch == old(self).batch,
            final(self).dry_run == old(self).dry_run,
            r == if old(self).dry_run {
                ArchiveEvent::Completed(old(self).batch@[old(self).done as int].index)
            } else {
                match outcome {
                    JobOutcome::Success => ArchiveEvent::Completed(
                        old(self).batch@[old(self).done as int].index,
                    ),
                    JobOutcome::Failure(msg) => ArchiveEvent::Failed(
                        old(self).batch@[old(self).done as int].index,
                        msg,
                    ),
                }
            },
    {
        let n = self.batch.len();
        let index = self.batch[self.done].index;
        assert(self.done < n);
        self.done = self.done + 1;
        if self.dry_run {
            ArchiveEvent::Completed(index)
        } else {
            match outcome {
                JobOutcome::Success => ArchiveEvent::Completed(index),
                JobOutcome::Failure(msg) => ArchiveEvent::Failed(index, msg),
            }
        }
    }
}

} // verus!
