//! One shutdown at a time, and what came of the last.
use crate::disposal::{clone_issues, CleanupIssue};
use crate::health::count_up;
#[allow(unused_imports)]
use crate::health::counted;
use crate::ids::{FiberId, ScopeId};
use std::sync::Arc;
use vstd::prelude::*;

verus! {

/// Runtime shutdown lifecycle.
#[derive(Clone, Copy, Debug, PartialEq, Eq, Structural)]
pub enum RuntimeShutdownState {
    /// Runtime accepts new work.
    Running,
    /// A shutdown convergence attempt is running.
    ShuttingDown,
    /// The last attempt ended with durable blockers and admission remains closed.
    Incomplete,
    /// Global convergence completed.
    Complete,
}

/// A live ownership or control-plane fact preventing shutdown completion.
#[derive(Clone, Copy, Debug, PartialEq, Eq, Structural)]
#[non_exhaustive]
pub enum ShutdownBlocker {
    /// A Fiber has not converged to permanent disposal.
    Fiber(FiberId),
    /// A hosted execution still owns a live or unreaped child process/session.
    HostedExecution {
        /// Owning Fiber; process identifiers are intentionally not public authority.
        fiber: FiberId,
    },
    /// A non-root Scope remains live.
    Scope(ScopeId),
    /// Runtime-owned control-plane workers remain live.
    RuntimeWorkers(usize),
    /// Fiber-owned tasks remain live.
    Tasks(usize),
    /// A provider generation still has admitted execution or handles.
    GenerationInflight {
        /// Provider Fiber.
        fiber: FiberId,
        /// Provider generation identity.
        generation: u64,
        /// Total admitted generation uses.
        inflight: usize,
        /// Uses specifically retained by `ServiceHandle` values.
        service_handles: usize,
    },
    /// Reload transactions remain active.
    ReloadTransactions(usize),
    /// Hidden staging resources remain.
    Staging {
        /// Staged Fibers.
        fibers: usize,
        /// Staging Scopes.
        scopes: usize,
    },
}

/// Durable result of one shutdown convergence attempt.
#[derive(Debug, PartialEq, Eq)]
pub enum ShutdownOutcome {
    /// The Runtime reached complete global convergence without diagnostics.
    Complete,
    /// Global convergence completed with non-blocking cleanup diagnostics.
    CompleteWithIssues {
        /// Ordered cleanup diagnostics.
        issues: Vec<CleanupIssue>,
    },
    /// The attempt ended while live ownership or control-plane blockers remained.
    Incomplete {
        /// Concrete facts preventing completion.
        blockers: Vec<ShutdownBlocker>,
        /// Ordered non-blocking diagnostics observed by cleanup.
        issues: Vec<CleanupIssue>,
    },
}

/// The current shutdown attempt.
pub struct ShutdownOperation {
    /// Tells attempts apart.
    pub attempt: u64,
    pub outcome: Option<Arc<ShutdownOutcome>>,
    pub supervisor_active: bool,
}

/// Runs shutdown attempts one after the other.
pub struct ShutdownCoordinator {
    pub lifecycle: RuntimeShutdownState,
    pub operation: Option<ShutdownOperation>,
    pub attempts: u64,
}

/// Whether an attempt was started, or an earlier one answers.
#[derive(Clone, Copy, Debug, PartialEq, Eq, Structural)]
pub enum ShutdownStart {
    /// Run this attempt.
    Started(u64),
    /// Wait for, or read, this attempt.
    Observing(u64),
}

/// An attempt that runs, or a completed one, answers; otherwise one is started.
pub open spec fn starts_attempt(
    before: ShutdownCoordinator,
    after: ShutdownCoordinator,
    start: ShutdownStart,
) -> bool {
    match start {
        ShutdownStart::Observing(attempt) => {
            &&& after == before
            &&& before.lifecycle is ShuttingDown || before.lifecycle is Complete
            &&& before.operation matches Some(operation)
            &&& operation.attempt == attempt
        },
        ShutdownStart::Started(attempt) => {
            &&& before.lifecycle is Running || before.lifecycle is Incomplete
            &&& after.lifecycle is ShuttingDown
            &&& attempt == counted(before.attempts)
            &&& after.attempts == attempt
            &&& after.operation == Some(
                ShutdownOperation { attempt, outcome: None, supervisor_active: true },
            )
        },
    }
}

/// The attempt that runs ends.
pub open spec fn finishes(
    before: ShutdownCoordinator,
    after: ShutdownCoordinator,
    outcome: ShutdownOutcome,
) -> bool {
    &&& after.attempts == before.attempts
    &&& after.lifecycle == outcome.lifecycle()
    &&& after.last_outcome() matches Some(published) && *published == outcome
    &&& after.operation matches Some(operation) && !operation.supervisor_active
}

/// Whether the last attempt has ended.
pub open spec fn has_finished(
    coordinator: ShutdownCoordinator,
    finished: bool,
) -> bool {
    finished == (coordinator.operation is Some && !coordinator.operation->0.supervisor_active)
}

/// What can be read of the shutdown.
pub open spec fn shows_shutdown(
    coordinator: ShutdownCoordinator,
    snapshot: (RuntimeShutdownState, Option<Arc<ShutdownOutcome>>, bool),
) -> bool {
    &&& snapshot.0 == coordinator.lifecycle
    &&& snapshot.1 == coordinator.last_outcome()
    &&& snapshot.2 == (coordinator.lifecycle is ShuttingDown)
}

impl ShutdownCoordinator {
    /// The lifecycle follows from the attempts: running before the first, shutting
    /// down during one, and afterwards what the last one came to.
    pub open spec fn wf(&self) -> bool {
        match self.operation {
            None => self.lifecycle is Running && self.attempts == 0,
            Some(operation) => {
                &&& operation.attempt == self.attempts
                &&& self.lifecycle == match operation.outcome {
                    None => RuntimeShutdownState::ShuttingDown,
                    Some(outcome) => outcome.lifecycle(),
                }
                &&& operation.supervisor_active == (operation.outcome is None)
            },
        }
    }

    /// The outcome of the last attempt that ended, if no other began since.
    pub open spec fn last_outcome(&self) -> Option<Arc<ShutdownOutcome>> {
        match self.operation {
            Some(operation) => operation.outcome,
            None => None,
        }
    }

    pub fn new() -> (coordinator: Self)
        ensures
            coordinator.wf(),
            coordinator.lifecycle is Running,
            coordinator.operation is None,
    {
        ShutdownCoordinator {
            lifecycle: RuntimeShutdownState::Running,
            operation: None,
            attempts: 0,
        }
    }

    /// Joins the attempt that runs or that completed; starts one otherwise.
    pub fn start_or_observe(&mut self) -> (start: ShutdownStart)
        requires
            old(self).wf(),
        ensures
            final(self).wf(),
            starts_attempt(*old(self), *final(self), start),
    {
        if let Some(operation) = &self.operation {
            if operation.outcome.is_none() || self.lifecycle == RuntimeShutdownState::Complete {
                return ShutdownStart::Observing(operation.attempt);
            }
        }
        self.lifecycle = RuntimeShutdownState::ShuttingDown;
        self.attempts = count_up(self.attempts);
        self.operation = Some(
            ShutdownOperation { attempt: self.attempts, outcome: None, supervisor_active: true },
        );
        ShutdownStart::Started(self.attempts)
    }

    /// Ends the attempt that runs.
    pub fn finish(&mut self, outcome: ShutdownOutcome)
        requires
            old(self).wf(),
            old(self).lifecycle is ShuttingDown,
        ensures
            final(self).wf(),
            finishes(*old(self), *final(self), outcome),
    {
        self.lifecycle = if outcome.is_incomplete() {
            RuntimeShutdownState::Incomplete
        } else {
            RuntimeShutdownState::Complete
        };
        let attempt = self.attempts;
        self.operation = Some(
            ShutdownOperation {
                attempt,
                outcome: Some(Arc::new(outcome)),
                supervisor_active: false,
            },
        );
    }

    pub fn state(&self) -> (state: RuntimeShutdownState)
        ensures
            state == self.lifecycle,
    {
        self.lifecycle
    }

    /// The lifecycle, the outcome of the last attempt, and whether one runs.
    pub fn snapshot(&self) -> (snapshot: (
        RuntimeShutdownState,
        Option<Arc<ShutdownOutcome>>,
        bool,
    ))
        ensures
            shows_shutdown(*self, snapshot),
    {
        let outcome = match &self.operation {
            Some(operation) => match &operation.outcome {
                Some(outcome) => Some(outcome.clone()),
                None => None,
            },
            None => None,
        };
        (self.lifecycle, outcome, self.lifecycle == RuntimeShutdownState::ShuttingDown)
    }

    /// Whether the last attempt has ended.
    pub fn supervisor_finished(&self) -> (finished: bool)
        ensures
            has_finished(*self, finished),
    {
        match &self.operation {
            Some(operation) => !operation.supervisor_active,
            None => false,
        }
    }
}

impl ShutdownOutcome {
    /// Where an attempt with this outcome leaves the runtime.
    pub open spec fn lifecycle(self) -> RuntimeShutdownState {
        if self is Incomplete {
            RuntimeShutdownState::Incomplete
        } else {
            RuntimeShutdownState::Complete
        }
    }

    pub fn is_incomplete(&self) -> (incomplete: bool)
        ensures
            incomplete == (self is Incomplete),
    {
        matches!(self, ShutdownOutcome::Incomplete { .. })
    }

    /// Whether both say the same.
    pub open spec fn same(self, other: ShutdownOutcome) -> bool {
        match self {
            ShutdownOutcome::Complete => other is Complete,
            ShutdownOutcome::CompleteWithIssues { issues } => other matches
                ShutdownOutcome::CompleteWithIssues { issues: others } && issues@ == others@,
            ShutdownOutcome::Incomplete { blockers, issues } => other matches
                ShutdownOutcome::Incomplete { blockers: more, issues: others } && blockers@ == more@
                && issues@ == others@,
        }
    }
}

impl Clone for ShutdownOutcome {
    fn clone(&self) -> (copy: Self)
        ensures
            copy.same(*self),
    {
        match self {
            ShutdownOutcome::Complete => ShutdownOutcome::Complete,
            ShutdownOutcome::CompleteWithIssues { issues } => ShutdownOutcome::CompleteWithIssues {
                issues: clone_issues(issues),
            },
            ShutdownOutcome::Incomplete { blockers, issues } => ShutdownOutcome::Incomplete {
                blockers: copy_blockers(blockers),
                issues: clone_issues(issues),
            },
        }
    }
}

fn copy_blockers(blockers: &Vec<ShutdownBlocker>) -> (copy: Vec<ShutdownBlocker>)
    ensures
        copy@ == blockers@,
{
    let mut copy: Vec<ShutdownBlocker> = Vec::new();
    let mut i: usize = 0;
    while i < blockers.len()
        invariant
            i <= blockers@.len(),
            copy@ == blockers@.take(i as int),
        decreases blockers@.len() - i,
    {
        copy.push(blockers[i]);
        i += 1;
        proof {
            assert(copy@ =~= blockers@.take(i as int));
        }
    }
    proof {
        assert(copy@ =~= blockers@);
    }
    copy
}

/// A completed shutdown is final: asking again observes it and changes nothing.
/// An incomplete one can be tried again.
pub proof fn law_completion_is_stable(
    before: ShutdownCoordinator,
    after: ShutdownCoordinator,
    start: ShutdownStart,
)
    requires
        before.wf(),
        starts_attempt(before, after, start),
    ensures
        before.lifecycle is Complete ==> start is Observing && after == before,
        before.lifecycle is Incomplete ==> start is Started,
{
}

/// An attempt runs from its start to its end: it has not finished, and has no outcome, while it
/// runs; then it has finished, with the outcome that it was given, and is complete exactly
/// where that is not incomplete.
pub proof fn law_attempts_run_to_their_end(
    before: ShutdownCoordinator,
    running: ShutdownCoordinator,
    after: ShutdownCoordinator,
    attempt: u64,
    outcome: ShutdownOutcome,
    early: bool,
    late: bool,
    shown: (RuntimeShutdownState, Option<Arc<ShutdownOutcome>>, bool),
    settled: (RuntimeShutdownState, Option<Arc<ShutdownOutcome>>, bool),
)
    requires
        starts_attempt(before, running, ShutdownStart::Started(attempt)),
        finishes(running, after, outcome),
        has_finished(running, early),
        has_finished(after, late),
        shows_shutdown(running, shown),
        shows_shutdown(after, settled),
    ensures
        !early,
        late,
        shown.0 is ShuttingDown,
        shown.1 is None,
        shown.2,
        settled.0 == if outcome is Incomplete {
            RuntimeShutdownState::Incomplete
        } else {
            RuntimeShutdownState::Complete
        },
        settled.1 matches Some(told) && *told == outcome,
        !settled.2,
        after.attempts == running.attempts,
{
}

} // verus!
