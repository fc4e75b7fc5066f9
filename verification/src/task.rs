//! Supervision of owned tasks and of the runtime's own workers.
use crate::arena::Arena;
#[allow(unused_imports)]
use crate::arena::{
    id_index, id_version, issues, law_retired_ids_name_nothing, next_version, retains,
};
use crate::error::CordisError;
use crate::health::{count_up, Diagnostics, HealthIssue, HealthIssueKind};
#[allow(unused_imports)]
use crate::health::Moment;
#[allow(unused_imports)]
use crate::health::{counted, noted};
use crate::ids::{FiberId, ScopeId, TaskId};
use std::collections::HashMap;
use vstd::prelude::*;

verus! {

broadcast use vstd::std_specs::hash::group_hash_axioms;

/// How a task or worker ended.
#[derive(Clone, Copy, Debug, PartialEq, Eq, Structural)]
pub enum TaskOutcome {
    Completed,
    Cancelled,
    Panicked,
    Aborted,
    Errored,
}

/// What joining a task or worker gave.
#[derive(Clone, Copy, Debug, PartialEq, Eq, Structural)]
pub enum JoinOutcome {
    /// It ended and said how.
    Ended(TaskOutcome),
    /// It was torn down by a panic.
    PanickedOutside,
    /// It was torn down without a panic.
    TornDown,
}

impl JoinOutcome {
    /// How the task ended, as it counts.
    pub open spec fn counts_as(self) -> TaskOutcome {
        match self {
            JoinOutcome::Ended(outcome) => outcome,
            JoinOutcome::PanickedOutside => TaskOutcome::Panicked,
            JoinOutcome::TornDown => TaskOutcome::Aborted,
        }
    }

    /// How the task ended, as it counts.
    pub fn outcome(&self) -> (outcome: TaskOutcome)
        ensures
            outcome == self.counts_as(),
    {
        match self {
            JoinOutcome::Ended(outcome) => *outcome,
            JoinOutcome::PanickedOutside => TaskOutcome::Panicked,
            JoinOutcome::TornDown => TaskOutcome::Aborted,
        }
    }
}

/// What running a task to its end gave.
#[derive(Clone, Copy, Debug, PartialEq, Eq, Structural)]
pub enum TaskEnd {
    /// The activation it waited for did not commit.
    NotAdmitted,
    /// It returned.
    Returned,
    /// It was cancelled before it returned.
    CancelledFirst,
    /// It panicked.
    Panicked,
}

impl TaskEnd {
    /// How the task ended, as it counts.
    pub open spec fn counts_as(self) -> TaskOutcome {
        match self {
            TaskEnd::NotAdmitted => TaskOutcome::Cancelled,
            TaskEnd::Returned => TaskOutcome::Completed,
            TaskEnd::CancelledFirst => TaskOutcome::Cancelled,
            TaskEnd::Panicked => TaskOutcome::Panicked,
        }
    }

    /// How the task ended, as it counts.
    pub fn outcome(&self) -> (outcome: TaskOutcome)
        ensures
            outcome == self.counts_as(),
    {
        match self {
            TaskEnd::NotAdmitted => TaskOutcome::Cancelled,
            TaskEnd::Returned => TaskOutcome::Completed,
            TaskEnd::CancelledFirst => TaskOutcome::Cancelled,
            TaskEnd::Panicked => TaskOutcome::Panicked,
        }
    }
}

/// What a worker is for.
#[derive(Clone, Copy, Debug, PartialEq, Eq, Structural)]
pub enum RuntimeWorkerKind {
    Install,
    DependencyReconcile,
    ReloadTransaction,
    GcReconcile,
    HostFailureConvergence,
}

/// What running a worker to its end gave.
#[derive(Debug)]
pub enum WorkerEnd {
    /// It returned.
    Returned(Result<(), CordisError>),
    /// It was cancelled before it returned.
    CancelledFirst,
    /// It panicked.
    Panicked,
}

/// How a worker ended, as it counts.
pub open spec fn outcome_of(end: WorkerEnd) -> TaskOutcome {
    match end {
        WorkerEnd::Returned(Ok(())) => TaskOutcome::Completed,
        WorkerEnd::Returned(Err(error)) => TaskOutcome::Errored,
        WorkerEnd::CancelledFirst => TaskOutcome::Cancelled,
        WorkerEnd::Panicked => TaskOutcome::Panicked,
    }
}

/// How a worker ended, as it counts.
pub fn worker_outcome(end: &WorkerEnd) -> (outcome: TaskOutcome)
    ensures
        outcome == outcome_of(*end),
{
    match end {
        WorkerEnd::Returned(Ok(())) => TaskOutcome::Completed,
        WorkerEnd::Returned(Err(_)) => TaskOutcome::Errored,
        WorkerEnd::CancelledFirst => TaskOutcome::Cancelled,
        WorkerEnd::Panicked => TaskOutcome::Panicked,
    }
}

/// A worker that runs.
#[derive(Clone, Copy, Debug, PartialEq, Eq, Structural)]
pub struct RuntimeWorker {
    pub kind: RuntimeWorkerKind,
    /// Whether the worker must run to its end even during shutdown.
    pub cleanup: bool,
}

/// A worker that shutdown took over.
#[derive(Clone, Copy, Debug, PartialEq, Eq, Structural)]
pub struct DrainedWorker {
    pub id: u64,
    pub worker: RuntimeWorker,
}

/// The runtime's own workers.
pub struct RuntimeWorkerSupervisor {
    pub workers: HashMap<u64, RuntimeWorker>,
    pub next: u64,
    pub reaped: u64,
    pub panicked: u64,
    pub errors: u64,
    pub cancelled: u64,
    pub aborted: u64,
}

/// The issue that a worker's end is worth, if any.
pub open spec fn worker_issue(outcome: TaskOutcome, at: Moment) -> Option<HealthIssue> {
    match outcome {
        TaskOutcome::Panicked => Some(
            HealthIssue {
                at,
                kind: HealthIssueKind::RuntimeWorkerPanic,
                scope: None,
                fiber: None,
                invocation: None,
            },
        ),
        TaskOutcome::Errored => Some(
            HealthIssue {
                at,
                kind: HealthIssueKind::RuntimeWorkerError,
                scope: None,
                fiber: None,
                invocation: None,
            },
        ),
        _ => None,
    }
}

/// The recent issues after one that may or may not be worth a note.
pub open spec fn noted_if(recent: Seq<HealthIssue>, issue: Option<HealthIssue>) -> Seq<
    HealthIssue,
> {
    match issue {
        Some(issue) => noted(recent, issue),
        None => recent,
    }
}

/// `count`, and one more where `now` holds.
pub open spec fn counted_if(count: u64, now: bool) -> u64 {
    if now {
        counted(count)
    } else {
        count
    }
}

impl RuntimeWorkerSupervisor {
    /// How a worker's end is counted.
    pub open spec fn records(&self, before: &Self, outcome: TaskOutcome) -> bool {
        &&& self.reaped == counted(before.reaped)
        &&& self.panicked == counted_if(before.panicked, outcome is Panicked)
        &&& self.errors == counted_if(before.errors, outcome is Errored)
        &&& self.cancelled == counted_if(before.cancelled, outcome is Cancelled)
        &&& self.aborted == counted_if(before.aborted, outcome is Aborted)
        &&& self.next == before.next
    }

    pub fn new() -> (supervisor: Self)
        ensures
            supervisor.workers@ == Map::<u64, RuntimeWorker>::empty(),
            supervisor.next == 1,
            supervisor.reaped == 0,
            supervisor.panicked == 0,
            supervisor.errors == 0,
            supervisor.cancelled == 0,
            supervisor.aborted == 0,
    {
        RuntimeWorkerSupervisor {
            workers: HashMap::new(),
            next: 1,
            reaped: 0,
            panicked: 0,
            errors: 0,
            cancelled: 0,
            aborted: 0,
        }
    }

    /// Enters a worker before it runs.
    pub fn spawn(&mut self, kind: RuntimeWorkerKind, cleanup: bool) -> (id: u64)
        ensures
            id == old(self).next,
            *final(self) == (RuntimeWorkerSupervisor {
                workers: final(self).workers,
                next: counted(old(self).next),
                ..*old(self)
            }),
            final(self).workers@ == old(self).workers@.insert(id, RuntimeWorker { kind, cleanup }),
    {
        let id = self.next;
        self.next = count_up(self.next);
        self.workers.insert(id, RuntimeWorker { kind, cleanup });
        id
    }

    /// Counts the end of a worker that nobody counted yet.
    pub fn complete_worker(&mut self, id: u64, outcome: TaskOutcome, diagnostics: &mut Diagnostics)
        requires
            old(diagnostics).wf(),
        ensures
            final(diagnostics).wf(),
            final(self).workers@ == old(self).workers@.remove(id),
            if old(self).workers@.dom().contains(id) {
                &&& final(self).records(&*old(self), outcome)
                &&& *final(diagnostics) == (Diagnostics {
                    recent: final(diagnostics).recent,
                    ..*old(diagnostics)
                })
                &&& final(diagnostics).recent@ == noted_if(
                    old(diagnostics).recent@,
                    worker_issue(outcome, old(diagnostics).now),
                )
            } else {
                &&& *final(self) == *old(self)
                &&& *final(diagnostics) == *old(diagnostics)
            },
    {
        if !self.workers.contains_key(&id) {
            assert(self.workers@ =~= old(self).workers@.remove(id));
            return;
        }
        self.workers.remove(&id);
        assert(self.workers@ =~= old(self).workers@.remove(id));
        self.record_worker_outcome(outcome, diagnostics);
    }

    /// Counts how a worker ended, and notes it where it ended badly.
    pub fn record_worker_outcome(&mut self, outcome: TaskOutcome, diagnostics: &mut Diagnostics)
        requires
            old(diagnostics).wf(),
        ensures
            final(diagnostics).wf(),
            final(self).workers == old(self).workers,
            final(self).records(&*old(self), outcome),
            *final(diagnostics) == (Diagnostics {
                recent: final(diagnostics).recent,
                ..*old(diagnostics)
            }),
            final(diagnostics).recent@ == noted_if(
                old(diagnostics).recent@,
                worker_issue(outcome, old(diagnostics).now),
            ),
    {
        self.reaped = count_up(self.reaped);
        let kind = match outcome {
            TaskOutcome::Panicked => {
                self.panicked = count_up(self.panicked);
                Some(HealthIssueKind::RuntimeWorkerPanic)
            },
            TaskOutcome::Errored => {
                self.errors = count_up(self.errors);
                Some(HealthIssueKind::RuntimeWorkerError)
            },
            TaskOutcome::Cancelled => {
                self.cancelled = count_up(self.cancelled);
                None
            },
            TaskOutcome::Aborted => {
                self.aborted = count_up(self.aborted);
                None
            },
            TaskOutcome::Completed => None,
        };
        if let Some(kind) = kind {
            diagnostics.push(
                HealthIssue {
                    at: diagnostics.now,
                    kind,
                    scope: None,
                    fiber: None,
                    invocation: None,
                },
            );
        }
    }

    /// Takes over every worker for shutdown. Those that are no cleanup are to be
    /// cancelled; all are to be joined and recorded.
    pub fn begin_shutdown(&mut self) -> (drained: Vec<DrainedWorker>)
        ensures
            *final(self) == (RuntimeWorkerSupervisor {
                workers: final(self).workers,
                ..*old(self)
            }),
            final(self).workers@ == Map::<u64, RuntimeWorker>::empty(),
            drained@.len() == old(self).workers@.dom().len(),
            forall|k: int|
                0 <= k < drained@.len() ==> old(self).workers@.dom().contains(
                    (#[trigger] drained@[k]).id,
                ) && old(self).workers@[drained@[k].id] == drained@[k].worker,
            forall|j: int, k: int|
                0 <= j < k < drained@.len() ==> (#[trigger] drained@[j]).id != (
                #[trigger] drained@[k]).id,
    {
        let mut drained: Vec<DrainedWorker> = Vec::new();
        for id in it: self.workers.keys()
            invariant
                self.workers == old(self).workers,
                it.seq().no_duplicates(),
                it.seq().unref().to_set() == self.workers@.dom(),
                it.seq().len() == self.workers@.dom().len(),
                drained@.len() == it.index(),
                forall|k: int|
                    0 <= k < drained@.len() ==> (#[trigger] drained@[k]).id == *it.seq()[k],
                forall|k: int|
                    0 <= k < drained@.len() ==> self.workers@.dom().contains(
                        (#[trigger] drained@[k]).id,
                    ) && self.workers@[drained@[k].id] == drained@[k].worker,
                forall|j: int, k: int|
                    0 <= j < k < drained@.len() ==> (#[trigger] drained@[j]).id != (
                    #[trigger] drained@[k]).id,
        {
            let id: u64 = *id;
            proof {
                assert(it.seq().unref()[it.index() as int] == id);
                assert(it.seq().unref().contains(id));
            }
            if let Some(worker) = self.workers.get(&id) {
                drained.push(DrainedWorker { id, worker: *worker });
            }
        }
        self.workers.clear();
        drained
    }

    /// Number of workers that run.
    pub fn live(&self) -> (count: usize)
        ensures
            count == self.workers@.dom().len(),
    {
        self.workers.len()
    }
}

/// A task and whom it belongs to.
#[derive(Clone, Copy, Debug, PartialEq, Eq, Structural)]
pub struct OwnedTask {
    pub owner: FiberId,
    pub scope: ScopeId,
}

/// A task that a disposal took over.
#[derive(Clone, Copy, Debug, PartialEq, Eq, Structural)]
pub struct TakenTask {
    pub id: TaskId,
    pub task: OwnedTask,
}

/// The tasks of all fibers.
pub struct TaskSupervisor {
    pub arena: Arena<OwnedTask>,
    pub reaped: u64,
    pub completed: u64,
    pub cancelled: u64,
    pub panicked: u64,
    pub aborted: u64,
}

/// The issue that a task's end is worth, if any.
pub open spec fn task_issue(
    task: OwnedTask,
    outcome: TaskOutcome,
    at: Moment,
) -> Option<HealthIssue> {
    if outcome is Panicked {
        Some(
            HealthIssue {
                at,
                kind: HealthIssueKind::TaskPanic,
                scope: Some(task.scope),
                fiber: Some(task.owner),
                invocation: None,
            },
        )
    } else {
        None
    }
}

/// The tasks among `ids` that `tasks` holds, each once, in order.
pub open spec fn taken(tasks: Map<u64, OwnedTask>, ids: Seq<TaskId>) -> Seq<TakenTask>
    decreases ids.len(),
{
    if ids.len() == 0 {
        Seq::empty()
    } else {
        let id = ids[0];
        let rest = ids.drop_first();
        if tasks.dom().contains(id.raw) {
            seq![TakenTask { id, task: tasks[id.raw] }] + taken(tasks.remove(id.raw), rest)
        } else {
            taken(tasks, rest)
        }
    }
}

/// `tasks` without those named by `ids`.
pub open spec fn untaken(tasks: Map<u64, OwnedTask>, ids: Seq<TaskId>) -> Map<u64, OwnedTask>
    decreases ids.len(),
{
    if ids.len() == 0 {
        tasks
    } else {
        untaken(tasks.remove(ids[0].raw), ids.drop_first())
    }
}

/// Whether the ids of the tasks that `before` holds among `ids` are retired, but where a
/// slot has no version left.
pub open spec fn retires_all(
    before: Arena<OwnedTask>,
    after: Arena<OwnedTask>,
    ids: Seq<TaskId>,
) -> bool {
    forall|k: int|
        0 <= k < ids.len() && before@.dom().contains((#[trigger] ids[k]).raw) && before.removable(
            ids[k].raw,
        ) ==> after.retired(ids[k].raw)
}

/// Whether the slot of `id` went on from the version of `id`.
spec fn is_next(arena: Arena<OwnedTask>, id: u64) -> bool {
    &&& id_index(id) < arena.versions().len()
    &&& id_version(id) <= u32::MAX
    &&& id_version(id) % 2 == 1
    &&& arena.versions()[id_index(id)] == next_version(id_version(id) as u32)
}

impl TaskSupervisor {
    pub open spec fn wf(&self) -> bool {
        self.arena.wf()
    }

    /// How a task's end is counted.
    pub open spec fn records(&self, before: &Self, outcome: TaskOutcome) -> bool {
        &&& self.reaped == counted(before.reaped)
        &&& self.completed == counted_if(before.completed, outcome is Completed)
        &&& self.cancelled == counted_if(before.cancelled, outcome is Cancelled)
        &&& self.panicked == counted_if(before.panicked, outcome is Panicked)
        &&& self.aborted == counted_if(before.aborted, outcome is Aborted)
    }

    /// The counters are the same.
    pub open spec fn same_counts(&self, before: &Self) -> bool {
        &&& self.reaped == before.reaped
        &&& self.completed == before.completed
        &&& self.cancelled == before.cancelled
        &&& self.panicked == before.panicked
        &&& self.aborted == before.aborted
    }

    pub fn new() -> (supervisor: Self)
        ensures
            supervisor.wf(),
            supervisor.arena@ == Map::<u64, OwnedTask>::empty(),
            supervisor.arena.order() == Seq::<u64>::empty(),
            supervisor.arena.versions() == seq![0u32],
            supervisor.reaped == 0,
            supervisor.completed == 0,
            supervisor.cancelled == 0,
            supervisor.panicked == 0,
            supervisor.aborted == 0,
    {
        TaskSupervisor {
            arena: Arena::new(),
            reaped: 0,
            completed: 0,
            cancelled: 0,
            panicked: 0,
            aborted: 0,
        }
    }

    /// Enters a task before it runs.
    pub fn spawn(&mut self, owner: FiberId, scope: ScopeId) -> (id: TaskId)
        requires
            old(self).wf(),
            old(self).arena.has_room(),
        ensures
            final(self).wf(),
            final(self).same_counts(&*old(self)),
            !old(self).arena@.dom().contains(id.raw),
            !old(self).arena.retired(id.raw),
            issues(old(self).arena.versions(), final(self).arena.versions(), id.raw),
            retains(old(self).arena, final(self).arena),
            final(self).arena@ == old(self).arena@.insert(id.raw, OwnedTask { owner, scope }),
    {
        let raw = self.arena.insert(OwnedTask { owner, scope });
        TaskId { raw }
    }

    /// Counts the end of a task that nobody took over, and tells whose it was.
    pub fn complete(
        &mut self,
        id: TaskId,
        outcome: TaskOutcome,
        diagnostics: &mut Diagnostics,
    ) -> (owner: Option<FiberId>)
        requires
            old(self).wf(),
            old(diagnostics).wf(),
        ensures
            final(self).wf(),
            final(diagnostics).wf(),
            match owner {
                Some(owner) => {
                    &&& old(self).arena@.dom().contains(id.raw)
                    &&& owner == old(self).arena@[id.raw].owner
                    &&& final(self).arena@ == old(self).arena@.remove(id.raw)
                    &&& old(self).arena.removable(id.raw) ==> final(self).arena.retired(id.raw)
                    &&& retains(old(self).arena, final(self).arena)
                    &&& final(self).records(&*old(self), outcome)
                    &&& *final(diagnostics) == (Diagnostics {
                        recent: final(diagnostics).recent,
                        ..*old(diagnostics)
                    })
                    &&& final(diagnostics).recent@ == noted_if(
                        old(diagnostics).recent@,
                        task_issue(old(self).arena@[id.raw], outcome, old(diagnostics).now),
                    )
                },
                None => {
                    &&& !old(self).arena@.dom().contains(id.raw)
                    &&& *final(self) == *old(self)
                    &&& *final(diagnostics) == *old(diagnostics)
                },
            },
    {
        let task = match self.arena.remove(id.raw) {
            Some(task) => task,
            None => return None,
        };
        self.record_task_outcome(&task, outcome, diagnostics);
        Some(task.owner)
    }

    /// Counts how a task ended, and notes a panic.
    pub fn record_task_outcome(
        &mut self,
        task: &OwnedTask,
        outcome: TaskOutcome,
        diagnostics: &mut Diagnostics,
    )
        requires
            old(diagnostics).wf(),
        ensures
            final(diagnostics).wf(),
            final(self).arena == old(self).arena,
            final(self).records(&*old(self), outcome),
            *final(diagnostics) == (Diagnostics {
                recent: final(diagnostics).recent,
                ..*old(diagnostics)
            }),
            final(diagnostics).recent@ == noted_if(
                old(diagnostics).recent@,
                task_issue(*task, outcome, old(diagnostics).now),
            ),
    {
        self.reaped = count_up(self.reaped);
        match outcome {
            TaskOutcome::Completed => {
                self.completed = count_up(self.completed);
            },
            TaskOutcome::Cancelled => {
                self.cancelled = count_up(self.cancelled);
            },
            TaskOutcome::Panicked => {
                self.panicked = count_up(self.panicked);
                diagnostics.push(
                    HealthIssue {
                        at: diagnostics.now,
                        kind: HealthIssueKind::TaskPanic,
                        scope: Some(task.scope),
                        fiber: Some(task.owner),
                        invocation: None,
                    },
                );
            },
            TaskOutcome::Aborted => {
                self.aborted = count_up(self.aborted);
            },
            TaskOutcome::Errored => {},
        }
    }

    /// Takes the tasks `ids` over, as far as they still run. Each is to be
    /// cancelled, joined and recorded.
    pub fn take(&mut self, ids: &Vec<TaskId>) -> (tasks: Vec<TakenTask>)
        requires
            old(self).wf(),
        ensures
            final(self).wf(),
            final(self).same_counts(&*old(self)),
            tasks@ == taken(old(self).arena@, ids@),
            final(self).arena@ == untaken(old(self).arena@, ids@),
            retires_all(old(self).arena, final(self).arena, ids@),
            retains(old(self).arena, final(self).arena),
    {
        let mut tasks: Vec<TakenTask> = Vec::new();
        let ghost start = self.arena@;
        let mut i: usize = 0;
        proof {
            assert(ids@.skip(0) =~= ids@);
        }
        while i < ids.len()
            invariant
                self.wf(),
                self.same_counts(&*old(self)),
                i <= ids@.len(),
                self.arena.versions().len() == old(self).arena.versions().len(),
                forall|at: int|
                    #![trigger self.arena.versions()[at]]
                    0 <= at < self.arena.versions().len() ==> self.arena.versions()[at]
                        == old(self).arena.versions()[at] || (old(self).arena.versions()[at] % 2
                        == 1 && self.arena.versions()[at] == next_version(
                        old(self).arena.versions()[at],
                    )),
                forall|id: u64| #[trigger]
                    old(self).arena@.dom().contains(id) ==> self.arena@.dom().contains(id)
                        || is_next(self.arena, id),
                forall|k: int|
                    0 <= k < i ==> !self.arena@.dom().contains((#[trigger] ids@[k]).raw),
                tasks@ + taken(self.arena@, ids@.skip(i as int)) == taken(start, ids@),
                untaken(self.arena@, ids@.skip(i as int)) == untaken(start, ids@),
            decreases ids@.len() - i,
        {
            let ghost before = tasks@;
            let ghost held = self.arena@;
            let ghost arena = self.arena;
            let ghost rest = ids@.skip(i as int);
            proof {
                assert(rest[0] == ids@[i as int]);
                assert(rest.drop_first() =~= ids@.skip(i + 1));
            }
            let id = ids[i];
            match self.arena.remove(id.raw) {
                Some(task) => {
                    tasks.push(TakenTask { id, task });
                    proof {
                        assert(before + (seq![TakenTask { id, task }] + taken(
                            self.arena@,
                            ids@.skip(i + 1),
                        )) =~= tasks@ + taken(self.arena@, ids@.skip(i + 1)));
                    }
                },
                None => {
                    assert(held.remove(id.raw) =~= held);
                },
            }
            proof {
                assert forall|other: u64| #[trigger]
                    old(self).arena@.dom().contains(other) implies self.arena@.dom().contains(other)
                    || is_next(self.arena, other) by {
                    assert(arena@.dom().contains(other) || is_next(arena, other));
                }
            }
            i += 1;
        }
        proof {
            assert(ids@.skip(i as int) =~= Seq::empty());
            assert(tasks@ + Seq::empty() =~= tasks@);
            assert forall|k: int|
                0 <= k < ids@.len() && old(self).arena@.dom().contains((#[trigger] ids@[k]).raw)
                    && old(self).arena.removable(ids@[k].raw) implies self.arena.retired(
                ids@[k].raw,
            ) by {
                assert(is_next(self.arena, ids@[k].raw));
            }
            assert forall|id: u64| #[trigger] old(self).arena.retired(id) implies
                self.arena.retired(id) || (old(self).arena.versions()[id_index(id)] == u32::MAX
                && self.arena.versions()[id_index(id)] == 0) by {
                assert(self.arena.versions()[id_index(id)] == self.arena.versions()[id_index(id)]);
            }
        }
        tasks
    }

    /// Number of tasks that run.
    pub fn live_fiber_tasks(&self) -> (count: usize)
        requires
            self.wf(),
        ensures
            count == self.arena@.dom().len(),
    {
        self.arena.len()
    }
}

/// Joining of the tasks that a disposal took over.
pub struct TaskDrain {
    /// Whether one of the tasks panicked.
    pub panicked: bool,
}

/// What the joining of tasks came to.
pub open spec fn is_drained(
    drain: TaskDrain,
    result: Result<(), CordisError>,
) -> bool {
    match result {
        Ok(()) => !drain.panicked,
        Err(error) => {
            &&& drain.panicked
            &&& error matches CordisError::TaskPanicked(message)
            &&& message@ == "owned task panicked"@
        },
    }
}

impl TaskDrain {
    pub fn new() -> (drain: Self)
        ensures
            !drain.panicked,
    {
        TaskDrain { panicked: false }
    }

    /// Records one joined task.
    pub fn joined(
        &mut self,
        task: &TakenTask,
        join: JoinOutcome,
        tasks: &mut TaskSupervisor,
        diagnostics: &mut Diagnostics,
    )
        requires
            old(diagnostics).wf(),
        ensures
            final(diagnostics).wf(),
            final(self).panicked == (old(self).panicked || join.counts_as() is Panicked),
            final(tasks).arena == old(tasks).arena,
            final(tasks).records(&*old(tasks), join.counts_as()),
            *final(diagnostics) == (Diagnostics {
                recent: final(diagnostics).recent,
                ..*old(diagnostics)
            }),
            final(diagnostics).recent@ == noted_if(
                old(diagnostics).recent@,
                task_issue(task.task, join.counts_as(), old(diagnostics).now),
            ),
    {
        let outcome = join.outcome();
        self.panicked = self.panicked || outcome == TaskOutcome::Panicked;
        tasks.record_task_outcome(&task.task, outcome, diagnostics);
    }

    /// What the joining came to.
    pub fn finish(&self) -> (result: Result<(), CordisError>)
        ensures
            is_drained(*self, result),
    {
        if self.panicked {
            Err(CordisError::TaskPanicked("owned task panicked".to_owned()))
        } else {
            Ok(())
        }
    }
}

/// A task that was taken over is not there any more.
pub proof fn law_tasks_are_reaped_once(tasks: Map<u64, OwnedTask>, ids: Seq<TaskId>, k: int)
    requires
        0 <= k < ids.len(),
    ensures
        !untaken(tasks, ids).dom().contains(ids[k].raw),
    decreases ids.len(),
{
    if k == 0 {
        lemma_untaken_shrinks(tasks.remove(ids[0].raw), ids.drop_first(), ids[0].raw);
    } else {
        law_tasks_are_reaped_once(tasks.remove(ids[0].raw), ids.drop_first(), k - 1);
    }
}

/// A task is counted once: the id of a task that was taken over or completed is retired, and
/// stays so whether tasks are entered, completed or taken over, unless its slot has no
/// version left; so it names no task that could complete.
pub proof fn law_ended_tasks_stay_ended(
    before: TaskSupervisor,
    after: TaskSupervisor,
    id: TaskId,
)
    requires
        after.wf(),
        before.arena.retired(id.raw),
        before.arena.versions()[id_index(id.raw)] < u32::MAX,
        retains(before.arena, after.arena),
    ensures
        after.arena.retired(id.raw),
        !after.arena@.dom().contains(id.raw),
{
    law_retired_ids_name_nothing(after.arena, id.raw);
}

/// What taking tasks over leaves.
pub proof fn lemma_untaken(tasks: Map<u64, OwnedTask>, ids: Seq<TaskId>, id: u64)
    ensures
        untaken(tasks, ids).dom().contains(id) <==> tasks.dom().contains(id) && !ids.contains(
            TaskId { raw: id },
        ),
        untaken(tasks, ids).dom().contains(id) ==> untaken(tasks, ids)[id] == tasks[id],
    decreases ids.len(),
{
    if ids.len() > 0 {
        let rest = ids.drop_first();
        lemma_untaken(tasks.remove(ids[0].raw), rest, id);
        assert(ids.contains(TaskId { raw: id }) <==> ids[0].raw == id || rest.contains(
            TaskId { raw: id },
        )) by {
            if ids.contains(TaskId { raw: id }) && ids[0].raw != id {
                let k = choose|k: int| 0 <= k < ids.len() && ids[k] == TaskId { raw: id };
                assert(rest[k - 1] == TaskId { raw: id });
            }
            if rest.contains(TaskId { raw: id }) {
                let k = choose|k: int| 0 <= k < rest.len() && rest[k] == TaskId { raw: id };
                assert(ids[k + 1] == TaskId { raw: id });
            }
            if ids[0].raw == id {
                assert(ids[0] == TaskId { raw: id });
            }
        }
    }
}

proof fn lemma_untaken_shrinks(tasks: Map<u64, OwnedTask>, ids: Seq<TaskId>, id: u64)
    requires
        !tasks.dom().contains(id),
    ensures
        !untaken(tasks, ids).dom().contains(id),
    decreases ids.len(),
{
    if ids.len() > 0 {
        lemma_untaken_shrinks(tasks.remove(ids[0].raw), ids.drop_first(), id);
    }
}

/// A task counts as completed exactly where it returned, as panicked exactly where it panicked,
/// and as cancelled otherwise. A worker counts as completed only where it returned without a
/// failure, and one that was joined counts as it said, if it could say so.
pub proof fn law_ends_count_as_what_they_are(task: TaskEnd, worker: WorkerEnd, join: JoinOutcome)
    ensures
        task.counts_as() is Completed <==> task is Returned,
        task.counts_as() is Panicked <==> task is Panicked,
        task.counts_as() is Cancelled <==> task is NotAdmitted || task is CancelledFirst,
        outcome_of(worker) is Completed <==> (worker matches WorkerEnd::Returned(Ok(()))),
        outcome_of(worker) is Errored <==> (worker matches WorkerEnd::Returned(Err(error))),
        outcome_of(worker) is Panicked <==> worker is Panicked,
        outcome_of(worker) is Cancelled <==> worker is CancelledFirst,
        join matches JoinOutcome::Ended(outcome) ==> join.counts_as() == outcome,
        join is PanickedOutside ==> join.counts_as() is Panicked,
        join is TornDown ==> join.counts_as() is Aborted,
{
}

/// The joining of tasks failed exactly where one of them panicked.
pub proof fn law_panics_fail_the_joining(drain: TaskDrain, result: Result<(), CordisError>)
    requires
        is_drained(drain, result),
    ensures
        result is Err <==> drain.panicked,
        result is Err ==> result->Err_0 is TaskPanicked,
{
}

} // verus!
