//! Counters and recent issues.
use crate::ids::{FiberId, ScopeId};
use crate::shutdown_coordinator::RuntimeShutdownState;
use std::collections::VecDeque;
use vstd::prelude::*;

verus! {

/// How many recent issues are kept.
pub const RECENT_ISSUES: usize = 64;

/// Condition of a runtime.
#[derive(Clone, Copy, Debug, PartialEq, Eq, Structural)]
pub enum RuntimeHealth {
    Healthy,
    Degraded,
    ShuttingDown,
    Failed,
}

/// What an issue is about.
#[derive(Clone, Copy, Debug, PartialEq, Eq, Structural)]
pub enum HealthIssueKind {
    TaskPanic,
    RuntimeWorkerPanic,
    RuntimeWorkerError,
    QuotaRejected,
}

/// A point in time.
#[derive(Clone, Copy, Debug, PartialEq, Eq, Structural)]
pub struct Moment {
    /// Nanoseconds since the beginning of 1970, UTC; negative before it.
    pub nanos: i128,
}

/// One observed issue.
#[derive(Clone, Copy, Debug, PartialEq, Eq, Structural)]
pub struct HealthIssue {
    /// When it was observed.
    pub at: Moment,
    pub kind: HealthIssueKind,
    pub scope: Option<ScopeId>,
    pub fiber: Option<FiberId>,
    pub invocation: Option<u64>,
}

/// `count` and one more; counters start over after the last number.
pub open spec fn counted(count: u64) -> u64 {
    if count == u64::MAX {
        0
    } else {
        (count + 1) as u64
    }
}

/// Counts one more.
pub fn count_up(count: u64) -> (next: u64)
    ensures
        next == counted(count),
{
    count.wrapping_add(1)
}

/// The recent issues after one more: the oldest goes where the list is full.
pub open spec fn noted(recent: Seq<HealthIssue>, issue: HealthIssue) -> Seq<HealthIssue> {
    if recent.len() >= RECENT_ISSUES {
        recent.drop_first().push(issue)
    } else {
        recent.push(issue)
    }
}

/// What happened so far.
pub struct Diagnostics {
    /// The time that was told last.
    pub now: Moment,
    pub successes: u64,
    pub errors: u64,
    pub timeouts: u64,
    pub cancellations: u64,
    pub panics: u64,
    pub quota_rejections: u64,
    pub recent: VecDeque<HealthIssue>,
}

impl Diagnostics {
    pub open spec fn wf(&self) -> bool {
        self.recent@.len() <= RECENT_ISSUES
    }

    pub fn new() -> (diagnostics: Self)
        ensures
            diagnostics.wf(),
            diagnostics.recent@ == Seq::<HealthIssue>::empty(),
            diagnostics.now == (Moment { nanos: 0 }),
            diagnostics.successes == 0,
            diagnostics.errors == 0,
            diagnostics.timeouts == 0,
            diagnostics.cancellations == 0,
            diagnostics.panics == 0,
            diagnostics.quota_rejections == 0,
    {
        Diagnostics {
            now: Moment { nanos: 0 },
            successes: 0,
            errors: 0,
            timeouts: 0,
            cancellations: 0,
            panics: 0,
            quota_rejections: 0,
            recent: VecDeque::new(),
        }
    }

    /// Tells what time it is. Issues carry the time that was told before they were
    /// observed.
    pub fn tell_time(&mut self, now: Moment)
        ensures
            *final(self) == (Diagnostics { now, ..*old(self) }),
    {
        self.now = now;
    }

    /// Notes an issue.
    pub fn push(&mut self, issue: HealthIssue)
        requires
            old(self).wf(),
        ensures
            final(self).wf(),
            *final(self) == (Diagnostics { recent: final(self).recent, ..*old(self) }),
            final(self).recent@ == noted(old(self).recent@, issue),
    {
        if self.recent.len() >= RECENT_ISSUES {
            self.recent.pop_front();
            assert(self.recent@ =~= old(self).recent@.drop_first());
        }
        self.recent.push_back(issue);
    }

    /// The recent issues, from the oldest to the newest.
    pub fn recent(&self) -> (issues: Vec<HealthIssue>)
        ensures
            issues@ == self.recent@,
    {
        let mut issues: Vec<HealthIssue> = Vec::new();
        let mut i: usize = 0;
        while i < self.recent.len()
            invariant
                i <= self.recent@.len(),
                issues@ == self.recent@.take(i as int),
            decreases self.recent@.len() - i,
        {
            issues.push(self.recent[i]);
            i += 1;
            proof {
                assert(issues@ =~= self.recent@.take(i as int));
            }
        }
        proof {
            assert(issues@ =~= self.recent@);
        }
        issues
    }

    /// Counts a refused request for a resource and notes it.
    pub fn reject_quota(&mut self, scope: Option<ScopeId>, fiber: Option<FiberId>)
        requires
            old(self).wf(),
        ensures
            final(self).wf(),
            *final(self) == (Diagnostics {
                recent: final(self).recent,
                quota_rejections: counted(old(self).quota_rejections),
                ..*old(self)
            }),
            final(self).recent@ == noted(
                old(self).recent@,
                HealthIssue {
                    at: old(self).now,
                    kind: HealthIssueKind::QuotaRejected,
                    scope,
                    fiber,
                    invocation: None,
                },
            ),
    {
        self.quota_rejections = count_up(self.quota_rejections);
        self.push(
            HealthIssue {
                at: self.now,
                kind: HealthIssueKind::QuotaRejected,
                scope,
                fiber,
                invocation: None,
            },
        );
    }
}

/// Payload-free account of a runtime.
#[derive(Debug)]
pub struct HealthReport {
    pub status: RuntimeHealth,
    pub active_scopes: usize,
    pub active_fibers: usize,
    pub waiting_fibers: usize,
    pub disposing_fibers: usize,
    pub terminated_fibers: usize,
    pub terminated_scopes: usize,
    pub active_tasks: usize,
    pub reaped_tasks: u64,
    pub completed_tasks: u64,
    pub cancelled_tasks: u64,
    pub task_panics: u64,
    pub aborted_tasks: u64,
    pub live_runtime_workers: usize,
    pub reaped_runtime_workers: u64,
    pub runtime_worker_panics: u64,
    pub runtime_worker_errors: u64,
    pub cancelled_runtime_workers: u64,
    pub aborted_runtime_workers: u64,
    pub active_invocations: usize,
    pub active_generation_executions: usize,
    pub draining_generations: usize,
    pub provider_inflight: usize,
    pub service_handle_inflight: usize,
    pub active_reloads: usize,
    pub reload_cleanup_pending: usize,
    pub staging_fibers: usize,
    pub staging_scopes: usize,
    pub shutdown_state: RuntimeShutdownState,
    pub invocation_successes: u64,
    pub invocation_errors: u64,
    pub invocation_timeouts: u64,
    pub invocation_cancellations: u64,
    pub invocation_panics: u64,
    pub quota_rejections: u64,
    pub recent_errors: Vec<HealthIssue>,
}

} // verus!
