//! Health reporting for the two long-lived workers.
//!
//! Each worker owns one slot that starts as `Running` and can move to
//! `Failed` exactly once: the first recorded failure is terminal and its
//! reason is never overwritten.

use vstd::prelude::*;

verus! {

/// Health of one worker: `Running` until its first terminal failure.
pub enum ServiceStatus {
    Running,
    Failed { message: String },
}

/// Names the two worker slots of the registry.
#[derive(Clone, Copy, PartialEq, Eq, Structural, Debug)]
pub enum Worker {
    Fetcher,
    Processor,
}

/// The one-way transition a failure report applies to a slot: a slot that
/// already holds a failure keeps it (first failure wins), a running slot
/// records the new reason.
pub open spec fn fail_transition(s: ServiceStatus, message: String) -> ServiceStatus {
    if s is Failed {
        s
    } else {
        ServiceStatus::Failed { message }
    }
}

/// Records terminal failure of the fetcher and the processor for external
/// health reporting. Written by the workers, read by the serving layer.
pub struct StatusRegistry {
    fetcher: ServiceStatus,
    processor: ServiceStatus,
}

impl StatusRegistry {
    /// The status currently recorded for a worker.
    pub closed spec fn slot(self, w: Worker) -> ServiceStatus {
        match w {
            Worker::Fetcher => self.fetcher,
            Worker::Processor => self.processor,
        }
    }

    /// Both workers start out running.
    pub fn new() -> (r: StatusRegistry)
        ensures
            r.slot(Worker::Fetcher) is Running,
            r.slot(Worker::Processor) is Running,
    {
        StatusRegistry { fetcher: ServiceStatus::Running, processor: ServiceStatus::Running }
    }

    /// Records that a worker failed for the given reason. The transition is
    /// one-way: a slot that already holds a failure is left untouched, so a
    /// later report (including the one written on a worker's own exit path)
    /// can neither revert the slot to `Running` nor change the first reason.
    pub fn set_failed(&mut self, w: Worker, message: String)
        ensures
            final(self).slot(w) == fail_transition(old(self).slot(w), message),
            forall|v: Worker| v != w ==> final(self).slot(v) == old(self).slot(v),
    {
        match w {
            Worker::Fetcher => {
                if !matches!(self.fetcher, ServiceStatus::Failed { .. }) {
                    self.fetcher = ServiceStatus::Failed { message };
                }
            },
            Worker::Processor => {
                if !matches!(self.processor, ServiceStatus::Failed { .. }) {
                    self.processor = ServiceStatus::Failed { message };
                }
            },
        }
    }

    /// Read-only accessor for the serving layer.
    pub fn status(&self, w: Worker) -> (r: &ServiceStatus)
        ensures
            *r == self.slot(w),
    {
        match w {
            Worker::Fetcher => &self.fetcher,
            Worker::Processor => &self.processor,
        }
    }
}

/// Law: a recorded failure is terminal. Whatever a slot holds, a failure
/// report never yields `Running`; and once a slot holds a failure, any later
/// report leaves it exactly as it was.
pub proof fn lemma_failure_is_terminal(s: ServiceStatus, message: String)
    ensures
        fail_transition(s, message) is Failed,
        s is Failed ==> fail_transition(s, message) == s,
{
}

} // verus!
