//! The workers of a runtime.
use super::Runtime;
use crate::error::CordisError;
#[allow(unused_imports)]
use crate::fiber_registry::FiberRecord;
use crate::ids::FiberId;
#[allow(unused_imports)]
use crate::health::Diagnostics;
use crate::task::{worker_outcome, DrainedWorker, JoinOutcome, RuntimeWorkerKind, WorkerEnd};
#[allow(unused_imports)]
use crate::task::{noted_if, outcome_of, worker_issue, RuntimeWorker, RuntimeWorkerSupervisor, TaskOutcome};
#[allow(unused_imports)]
use super::disposal::edits_fiber;
#[allow(unused_imports)]
use super::garbage::enters_worker;
use vstd::prelude::*;

verus! {

/// A hosted execution of the fiber begins: it counts until it is reaped.
pub open spec fn hosts(
    before: Runtime,
    after: Runtime,
    fiber: FiberId,
    result: Result<(), CordisError>,
) -> bool {
    let record = before.fibers@[fiber.raw];
    if !before.fibers@.dom().contains(fiber.raw) {
        after == before && result == Err::<(), CordisError>(CordisError::FiberNotFound)
    } else if record.hosted_live == usize::MAX {
        &&& after == before
        &&& result matches Err(CordisError::Invariant(message))
        &&& message@ == "hosted executions are used up"@
    } else {
        &&& result is Ok
        &&& edits_fiber(
            before,
            after,
            fiber,
            FiberRecord { hosted_live: (record.hosted_live + 1) as usize, ..record },
        )
    }
}

/// A hosted execution of the fiber was reaped.
pub open spec fn reaps_hosted(
    before: Runtime,
    after: Runtime,
    fiber: FiberId,
    result: Result<(), CordisError>,
) -> bool {
    let record = before.fibers@[fiber.raw];
    if !before.fibers@.dom().contains(fiber.raw) {
        after == before && result == Err::<(), CordisError>(CordisError::FiberNotFound)
    } else if record.hosted_live == 0 {
        &&& after == before
        &&& result matches Err(CordisError::Invariant(message))
        &&& message@ == "no hosted execution is live"@
    } else {
        &&& result is Ok
        &&& edits_fiber(
            before,
            after,
            fiber,
            FiberRecord { hosted_live: (record.hosted_live - 1) as usize, ..record },
        )
    }
}

/// The end of a worker is counted, and noted where it ended badly.
pub open spec fn counts_worker(before: Runtime, after: Runtime, outcome: TaskOutcome) -> bool {
    &&& after == (Runtime {
        workers: after.workers,
        diagnostics: after.diagnostics,
        ..before
    })
    &&& after.workers.records(&before.workers, outcome)
    &&& after.diagnostics == (Diagnostics {
        recent: after.diagnostics.recent,
        ..before.diagnostics
    })
    &&& after.diagnostics.recent@ == noted_if(
        before.diagnostics.recent@,
        worker_issue(outcome, before.diagnostics.now),
    )
}

/// A request to install is accepted, or refused.
pub open spec fn accepts_install(
    before: Runtime,
    after: Runtime,
    result: Result<u64, CordisError>,
) -> bool {
    if before.admission.closed {
        after == before && result == Err::<u64, CordisError>(
            CordisError::RuntimeShuttingDown,
        )
    } else {
        &&& result == Ok::<u64, CordisError>(before.workers.next)
        &&& after == (Runtime { workers: after.workers, ..before })
        &&& enters_worker(
            before.workers,
            after.workers,
            RuntimeWorkerKind::Install,
            true,
        )
    }
}

/// The failure of a host is taken up, also while the runtime shuts down.
pub open spec fn submits_host_failure(
    before: Runtime,
    after: Runtime,
    id: u64,
) -> bool {
    &&& id == before.workers.next
    &&& after == (Runtime { workers: after.workers, ..before })
    &&& enters_worker(
        before.workers,
        after.workers,
        RuntimeWorkerKind::HostFailureConvergence,
        true,
    )
}

/// A worker that nobody took over ends.
pub open spec fn ends_worker(
    before: Runtime,
    after: Runtime,
    id: u64,
    end: WorkerEnd,
) -> bool {
    if before.workers.workers@.dom().contains(id) {
        &&& counts_worker(before, after, outcome_of(end))
        &&& after.workers.workers@ == before.workers.workers@.remove(id)
    } else {
        after == before
    }
}

/// All workers are taken over.
pub open spec fn stops_workers(
    before: Runtime,
    after: Runtime,
    drained: Vec<DrainedWorker>,
) -> bool {
    &&& after == (Runtime { workers: after.workers, ..before })
    &&& after.workers == (RuntimeWorkerSupervisor {
        workers: after.workers.workers,
        ..before.workers
    })
    &&& after.workers.workers@ == Map::<u64, RuntimeWorker>::empty()
    &&& drained@.len() == before.workers.workers@.dom().len()
    &&& forall|k: int|
        0 <= k < drained@.len() ==> before.workers.workers@.dom().contains(
            (#[trigger] drained@[k]).id,
        ) && before.workers.workers@[drained@[k].id] == drained@[k].worker
    &&& forall|j: int, k: int|
        0 <= j < k < drained@.len() ==> (#[trigger] drained@[j]).id != (
        #[trigger] drained@[k]).id
}

/// A worker that was taken over is joined.
pub open spec fn joins_worker(
    before: Runtime,
    after: Runtime,
    join: JoinOutcome,
) -> bool {
    &&& counts_worker(before, after, join.counts_as())
    &&& after.workers.workers == before.workers.workers
}

impl Runtime {
    /// Accepts an installation: from here on a worker, whose id is returned, carries
    /// it out, whoever waits for it.
    pub fn accept_install(&mut self) -> (result: Result<u64, CordisError>)
        requires
            old(self).wf(),
        ensures
            final(self).wf(),
            accepts_install(*old(self), *final(self), result),
    {
        if let Err(error) = self.admission.enter() {
            return Err(error);
        }
        Ok(self.workers.spawn(RuntimeWorkerKind::Install, true))
    }

    /// Hands the failure of a host over to a worker, whose id is returned. A runtime
    /// that shuts down takes it too.
    pub fn submit_host_failure(&mut self) -> (id: u64)
        requires
            old(self).wf(),
        ensures
            final(self).wf(),
            submits_host_failure(*old(self), *final(self), id),
    {
        self.workers.spawn(RuntimeWorkerKind::HostFailureConvergence, true)
    }

    /// Notes that a hosted process or session of the fiber lives. Until it is reaped, or the
    /// fiber is reclaimed, it is named among what keeps a shutdown from being complete.
    pub fn hosted_started(&mut self, fiber: FiberId) -> (result: Result<(), CordisError>)
        requires
            old(self).wf(),
        ensures
            final(self).wf(),
            hosts(*old(self), *final(self), fiber, result),
    {
        let ghost before = *self;
        match self.fibers.get(fiber.raw) {
            None => return Err(CordisError::FiberNotFound),
            Some(record) => {
                if record.hosted_live == usize::MAX {
                    return Err(CordisError::Invariant("hosted executions are used up".to_owned()));
                }
            },
        }
        if let Some(record) = self.fibers.get_mut(fiber.raw) {
            record.hosted_live = record.hosted_live + 1;
        }
        proof {
            self.lemma_fiber_edited(before, fiber.raw);
        }
        Ok(())
    }

    /// Notes that a hosted process or session of the fiber ended and was reaped.
    pub fn hosted_reaped(&mut self, fiber: FiberId) -> (result: Result<(), CordisError>)
        requires
            old(self).wf(),
        ensures
            final(self).wf(),
            reaps_hosted(*old(self), *final(self), fiber, result),
    {
        let ghost before = *self;
        match self.fibers.get(fiber.raw) {
            None => return Err(CordisError::FiberNotFound),
            Some(record) => {
                if record.hosted_live == 0 {
                    return Err(CordisError::Invariant("no hosted execution is live".to_owned()));
                }
            },
        }
        if let Some(record) = self.fibers.get_mut(fiber.raw) {
            record.hosted_live = record.hosted_live - 1;
        }
        proof {
            self.lemma_fiber_edited(before, fiber.raw);
        }
        Ok(())
    }

    /// Counts the end of a worker that nobody took over.
    pub fn worker_ended(&mut self, id: u64, end: &WorkerEnd)
        requires
            old(self).wf(),
        ensures
            final(self).wf(),
            ends_worker(*old(self), *final(self), id, *end),
    {
        self.workers.complete_worker(id, worker_outcome(end), &mut self.diagnostics);
    }

    /// Takes every worker over for shutdown.
    pub fn stop_workers(&mut self) -> (drained: Vec<DrainedWorker>)
        requires
            old(self).wf(),
        ensures
            final(self).wf(),
            stops_workers(*old(self), *final(self), drained),
    {
        self.workers.begin_shutdown()
    }

    /// Counts the end of a worker that shutdown took over.
    pub fn worker_joined(&mut self, join: JoinOutcome)
        requires
            old(self).wf(),
        ensures
            final(self).wf(),
            joins_worker(*old(self), *final(self), join),
    {
        self.workers.record_worker_outcome(join.outcome(), &mut self.diagnostics);
    }
}

} // verus!
