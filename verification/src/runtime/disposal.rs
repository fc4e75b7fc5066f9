//! Disposal of fibers.
#[allow(unused_imports)]
use super::dependency::{forget_declarations, forgets_fiber, leaves_scope, symbols_of};
#[allow(unused_imports)]
use super::garbage::requests_gc;
#[allow(unused_imports)]
use super::invariants::lemma_coherence_empty;
use super::scope::{DisposalStart, WorkerExit};
use super::Runtime;
#[allow(unused_imports)]
use super::{all_interned, fiber_fits, lists_no_more};
use crate::disposal::{
    clone_issues, report, CleanupIssue, DisposalObservation, DisposalTerminal, DisposeOutcome,
    FiberDisposal,
};
#[allow(unused_imports)]
use crate::disposal::issues_text;
use crate::error::{clone_result, panic_message, CordisError, PanicPayload};
#[allow(unused_imports)]
use crate::fiber_registry::FiberRecord;
#[allow(unused_imports)]
use crate::gate::closed_in;
use crate::ids::{
    EffectId, FiberId, HandlerId, InvocationHandlerId, InvocationMiddlewareId, ScopeId,
    ServiceSymbol, TaskId,
};
use crate::key::ServiceKey;
#[allow(unused_imports)]
use crate::service_registry::{owned_in, slot_of, Entries, ServiceRegistry};
use crate::state::{CleanupPhase, DisposalPhase, FiberState};
use crate::text::{concat, decimal_text};
#[allow(unused_imports)]
use crate::text::decimal;
#[allow(unused_imports)]
use crate::health::Diagnostics;
use crate::task::{JoinOutcome, TakenTask, TaskDrain};
#[allow(unused_imports)]
use crate::task::{lemma_untaken, noted_if, retires_all, taken, task_issue, untaken};
#[allow(unused_imports)]
use crate::arena::retains;
use std::sync::Arc;
use vstd::prelude::*;

verus! {

/// The record of a fiber whose disposal is asked for.
pub open spec fn asked_to_go(
    record: FiberRecord,
    wait_for_dependencies: bool,
    persistent_drain: bool,
    allow_reload_owned: bool,
) -> FiberRecord {
    FiberRecord {
        reload_owned: record.reload_owned && !allow_reload_owned,
        disposal: FiberDisposal {
            wait_for_dependencies: record.disposal.wait_for_dependencies && wait_for_dependencies,
            persistent_drain: record.disposal.persistent_drain || persistent_drain,
            ..record.disposal
        },
        ..record
    }
}

/// Whether a permanent disposal of the fiber has to follow the one that left it waiting
/// for its dependencies.
pub open spec fn goes_again(record: FiberRecord, wait_for_dependencies: bool) -> bool {
    &&& !wait_for_dependencies
    &&& record.state is WaitingDependencies
    &&& record.disposal.phase is Complete
}

/// The record of a fiber that a permanent disposal finds waiting for its dependencies:
/// what the earlier disposal left is forgotten.
pub open spec fn going_again(
    before: FiberRecord,
    after: FiberRecord,
    persistent_drain: bool,
    allow_reload_owned: bool,
) -> bool {
    &&& after == going(
        FiberRecord {
            reload_owned: before.reload_owned && !allow_reload_owned,
            disposal: after.disposal,
            ..before
        },
    )
    &&& after.disposal.phase is Tasks
    &&& !after.disposal.wait_for_dependencies
    &&& after.disposal.persistent_drain == persistent_drain
    &&& after.disposal.errors@ == Seq::<CleanupIssue>::empty()
    &&& after.disposal.result is None
    &&& after.disposal.observation is None
}

/// The record of a fiber whose disposal begins.
pub open spec fn going(record: FiberRecord) -> FiberRecord {
    FiberRecord {
        state: FiberState::Disposing,
        cancelled: true,
        activation: false,
        activation_sealed: false,
        disposal: FiberDisposal { phase: DisposalPhase::Tasks, ..record.disposal },
        ..record
    }
}

/// Whether the disposal of a fiber in this state can begin.
pub open spec fn can_go(record: FiberRecord) -> bool {
    record.state is Disposing || record.state.allows(FiberState::Disposing)
}

/// The fibers of `after` are those of `before` but for the record of `fiber`.
pub open spec fn edits_fiber(
    before: Runtime,
    after: Runtime,
    fiber: FiberId,
    record: FiberRecord,
) -> bool {
    &&& after == (Runtime { fibers: after.fibers, ..before })
    &&& after.fibers@ == before.fibers@.insert(fiber.raw, record)
    &&& after.fibers.order() == before.fibers.order()
    &&& after.fibers.versions() == before.fibers.versions()
}

/// What a request to dispose of a fiber comes to.
pub open spec fn asks_to_go(
    before: Runtime,
    after: Runtime,
    fiber: FiberId,
    wait_for_dependencies: bool,
    persistent_drain: bool,
    allow_reload_owned: bool,
    start: Result<DisposalStart, CordisError>,
) -> bool {
    let record = before.fibers@[fiber.raw];
    let asked = asked_to_go(
        record,
        wait_for_dependencies,
        persistent_drain,
        allow_reload_owned,
    );
    if !before.fibers@.dom().contains(fiber.raw) {
        &&& start == Err::<DisposalStart, CordisError>(CordisError::FiberNotFound)
        &&& after == before
    } else if record.reload_owned && !allow_reload_owned {
        &&& start == Err::<DisposalStart, CordisError>(
            CordisError::FiberLifecycleOwned(fiber),
        )
        &&& after == before
    } else if goes_again(record, wait_for_dependencies) {
        let next = after.fibers@[fiber.raw];
        &&& start == Ok::<DisposalStart, CordisError>(DisposalStart::Started)
        &&& after == (Runtime {
            fibers: after.fibers,
            gates: after.gates,
            ..before
        })
        &&& after.fibers@ == before.fibers@.insert(fiber.raw, next)
        &&& after.fibers.order() == before.fibers.order()
        &&& after.fibers.versions() == before.fibers.versions()
        &&& going_again(record, next, persistent_drain, allow_reload_owned)
        &&& after.gates@ == closed_in(before.gates@, record.generation)
    } else if !(record.disposal.phase is Idle) {
        &&& start == Ok::<DisposalStart, CordisError>(DisposalStart::Joined)
        &&& edits_fiber(before, after, fiber, asked)
    } else if !can_go(record) {
        &&& start == Err::<DisposalStart, CordisError>(
            CordisError::InvalidFiberState {
                fiber,
                from: record.state,
                to: FiberState::Disposing,
            },
        )
        &&& edits_fiber(before, after, fiber, asked)
    } else {
        &&& start == Ok::<DisposalStart, CordisError>(DisposalStart::Started)
        &&& after == (Runtime {
            fibers: after.fibers,
            gates: after.gates,
            ..before
        })
        &&& after.fibers@ == before.fibers@.insert(fiber.raw, going(asked))
        &&& after.fibers.order() == before.fibers.order()
        &&& after.fibers.versions() == before.fibers.versions()
        &&& after.gates@ == closed_in(before.gates@, record.generation)
    }
}

/// `after` is `before` with the failure `result` noted, if it is one.
pub open spec fn notes_failure(
    before: FiberRecord,
    after: FiberRecord,
    phase: CleanupPhase,
    result: Result<(), CordisError>,
) -> bool {
    &&& after == (FiberRecord {
        disposal: FiberDisposal { errors: after.disposal.errors, ..before.disposal },
        ..before
    })
    &&& match result {
        Ok(()) => after.disposal.errors@ == before.disposal.errors@,
        Err(error) => {
            &&& after.disposal.errors@.len() == before.disposal.errors@.len() + 1
            &&& after.disposal.errors@.drop_last() == before.disposal.errors@
            &&& after.disposal.errors@.last().records(phase, error)
        },
    }
}

/// `record` in another phase of its disposal.
pub open spec fn in_phase(record: FiberRecord, phase: DisposalPhase) -> FiberRecord {
    FiberRecord { disposal: FiberDisposal { phase, ..record.disposal }, ..record }
}

/// What a fiber registered with others, each from the last to the first.
#[derive(Debug)]
pub struct Registrations {
    pub handlers: Vec<HandlerId>,
    pub invocation_handlers: Vec<InvocationHandlerId>,
    pub invocation_middleware: Vec<InvocationMiddlewareId>,
}

/// What is left of `entries` after the services `keys` of `fiber` in `scope` are
/// withdrawn, from the last to the first, and the symbols of those that were.
pub open spec fn withdrawn(
    services: ServiceRegistry,
    entries: Entries,
    scope: ScopeId,
    fiber: FiberId,
    keys: Seq<ServiceKey>,
) -> (Entries, Seq<ServiceSymbol>)
    decreases keys.len(),
{
    if keys.len() == 0 {
        (entries, Seq::empty())
    } else {
        let symbol = services.symbol_of(keys.last()@)->0;
        if owned_in(entries, scope, symbol, fiber) {
            let rest = withdrawn(
                services,
                entries.remove(slot_of(scope, symbol)),
                scope,
                fiber,
                keys.drop_last(),
            );
            (rest.0, seq![symbol] + rest.1)
        } else {
            withdrawn(services, entries, scope, fiber, keys.drop_last())
        }
    }
}

/// How the disposal of an effect ended.
#[derive(Debug)]
pub enum EffectEnd {
    Disposed,
    Failed(CordisError),
    Panicked(PanicPayload),
}

/// The failure that the end of an effect is.
pub open spec fn effect_failure(end: EffectEnd, result: Result<(), CordisError>) -> bool {
    match end {
        EffectEnd::Disposed => result is Ok,
        EffectEnd::Failed(error) => result == Err::<(), CordisError>(error),
        EffectEnd::Panicked(payload) => {
            &&& result matches Err(CordisError::PluginDisposeFailed(message))
            &&& message@ == payload.message_or("non-string dispose panic"@)
        },
    }
}

/// The result that the issues of a fiber disposal stand for: none, the cause of
/// the only one, or a report of all.
pub open spec fn disposal_result_is(
    result: Result<(), CordisError>,
    issues: Seq<CleanupIssue>,
) -> bool {
    if issues.len() == 0 {
        result is Ok
    } else if issues.len() == 1 {
        result matches Err(error) && issues[0].is_error(error, issues[0].message@)
    } else {
        &&& result matches Err(CordisError::PluginDisposeFailed(message))
        &&& message@ == issues_text(issues)
    }
}

/// How a fiber disposal ends.
#[derive(Debug)]
pub struct DisposalEnd {
    pub result: Result<(), CordisError>,
    pub target: Option<FiberState>,
    pub terminated: bool,
}

impl DisposalEnd {
    /// A disposal that ended early.
    pub open spec fn is_early(self, error: CordisError) -> bool {
        &&& self.result == Err::<(), CordisError>(error)
        &&& self.target is None
        &&& self.terminated
    }

    fn early(error: CordisError) -> (end: DisposalEnd)
        ensures
            end.is_early(error),
    {
        DisposalEnd { result: Err(error), target: None, terminated: true }
    }
}

impl Runtime {
    /// Begins the disposal of a fiber, or joins the one that began before.
    ///
    /// A permanent disposal dominates one that waits for dependencies, also one that
    /// ended: the fiber that it left waiting is disposed again, for good. The fiber of
    /// a reload in progress is refused unless the reload itself asks.
    #[verifier::rlimit(40)]
    pub fn begin_fiber_disposal(
        &mut self,
        fiber: FiberId,
        wait_for_dependencies: bool,
        persistent_drain: bool,
        allow_reload_owned: bool,
    ) -> (start: Result<DisposalStart, CordisError>)
        requires
            old(self).wf(),
        ensures
            final(self).wf(),
            asks_to_go(
                *old(self),
                *final(self),
                fiber,
                wait_for_dependencies,
                persistent_drain,
                allow_reload_owned,
                start,
            ),
    {
        match self.fibers.get(fiber.raw) {
            None => return Err(CordisError::FiberNotFound),
            Some(record) => {
                if record.reload_owned && !allow_reload_owned {
                    return Err(CordisError::FiberLifecycleOwned(fiber));
                }
            },
        }
        let ghost before = *self;
        let generation = match self.fibers.get_mut(fiber.raw) {
            None => return Err(CordisError::FiberNotFound),
            Some(record) => {
                if allow_reload_owned {
                    record.reload_owned = false;
                }
                if !wait_for_dependencies && record.state == FiberState::WaitingDependencies
                    && record.disposal.phase == DisposalPhase::Complete {
                    record.disposal = FiberDisposal::idle();
                }
                record.disposal.wait_for_dependencies = record.disposal.wait_for_dependencies
                    && wait_for_dependencies;
                record.disposal.persistent_drain = record.disposal.persistent_drain
                    || persistent_drain;
                if record.disposal.phase != DisposalPhase::Idle {
                    proof {
                        lemma_asked(before, fiber.raw, *record);
                    }
                    return Ok(DisposalStart::Joined);
                }
                if record.state != FiberState::Disposing {
                    if !record.state.can_transition_to(FiberState::Disposing) {
                        proof {
                            lemma_asked(before, fiber.raw, *record);
                        }
                        return Err(
                            CordisError::InvalidFiberState {
                                fiber,
                                from: record.state,
                                to: FiberState::Disposing,
                            },
                        );
                    }
                    record.state = FiberState::Disposing;
                }
                record.cancelled = true;
                record.activation = false;
                record.activation_sealed = false;
                record.disposal.phase = DisposalPhase::Tasks;
                record.generation
            },
        };
        proof {
            self.lemma_fiber_edited(before, fiber.raw);
        }
        let ghost marked = *self;
        self.gates.close(generation);
        proof {
            self.lemma_gates_turned(marked);
        }
        Ok(DisposalStart::Started)
    }
}

/// Asking a fiber to go disturbs nothing.
proof fn lemma_asked(before: Runtime, fiber: u64, record: FiberRecord)
    requires
        before.wf(),
        before.fibers@.dom().contains(fiber),
        record.scope == before.fibers@[fiber].scope,
        record.descriptor == before.fibers@[fiber].descriptor,
        record.provided == before.fibers@[fiber].provided,
        record.generation == before.fibers@[fiber].generation,
        lists_no_more(before.fibers@[fiber], record),
    ensures
        forall|after: Runtime|
            #![trigger after.wf()]
            after == (Runtime { fibers: after.fibers, ..before }) && after.fibers.wf()
                && after.fibers@ == before.fibers@.insert(fiber, record) ==> after.wf(),
{
    assert forall|after: Runtime|
        #![trigger after.wf()]
        after == (Runtime { fibers: after.fibers, ..before }) && after.fibers.wf()
            && after.fibers@ == before.fibers@.insert(fiber, record) implies after.wf() by {
        after.lemma_fiber_edited(before, fiber);
    }
}

/// `items` from the last to the first.
fn backwards<T: Copy>(items: &Vec<T>) -> (reversed: Vec<T>)
    ensures
        reversed@ == items@.reverse(),
{
    let mut reversed: Vec<T> = Vec::new();
    let mut left: usize = items.len();
    while left > 0
        invariant
            left <= items@.len(),
            reversed@.len() == items@.len() - left,
            forall|k: int|
                0 <= k < reversed@.len() ==> #[trigger] reversed@[k] == items@[items@.len() - 1
                    - k],
        decreases left,
    {
        left -= 1;
        reversed.push(items[left]);
    }
    proof {
        assert(reversed@ =~= items@.reverse());
    }
    reversed
}

/// Accepts every scope but `scope`.
pub open spec fn other_than(scope: ScopeId) -> spec_fn(ScopeId) -> bool {
    |other: ScopeId| other != scope
}

/// `scopes` without `scope`.
fn without_scope(scopes: &Vec<ScopeId>, scope: ScopeId) -> (kept: Vec<ScopeId>)
    ensures
        kept@ == scopes@.filter(other_than(scope)),
{
    let mut kept: Vec<ScopeId> = Vec::new();
    let mut i: usize = 0;
    proof {
        reveal(Seq::filter);
    }
    while i < scopes.len()
        invariant
            i <= scopes@.len(),
            kept@ == scopes@.take(i as int).filter(other_than(scope)),
        decreases scopes@.len() - i,
    {
        proof {
            reveal(Seq::filter);
            assert(scopes@.take(i + 1).drop_last() =~= scopes@.take(i as int));
        }
        if scopes[i] != scope {
            kept.push(scopes[i]);
        }
        i += 1;
    }
    proof {
        assert(scopes@.take(i as int) =~= scopes@);
    }
    kept
}

/// Whether waiting for the uses of a generation was successful.
#[derive(Clone, Copy, Debug, PartialEq, Eq, Structural)]
pub enum DrainOutcome {
    Drained,
    TimedOut { remaining: usize },
}

/// What to do next for a fiber disposal.
#[derive(Debug)]
pub enum DisposalAction {
    /// Wait for the uses of the generation to end.
    Drain,
    /// Dispose the child scope.
    DisposeChild(ScopeId),
    /// Take the registrations back.
    Unregister(Registrations),
    /// Dispose the effect.
    DisposeEffect(EffectId),
    /// Let the fibers that depend on the symbols act.
    Reconcile(Vec<ServiceSymbol>),
    /// Publish the end.
    Finish(DisposalEnd),
}

/// The disposal of a fiber, in order: its tasks, the uses of its generation, its
/// child scopes, its registrations, its services, its effects, and the fibers
/// that depended on it. What was cleaned up is taken out of the record step by
/// step.
pub struct FiberDisposalJob {
    pub fiber: FiberId,
    pub removed: Vec<ServiceSymbol>,
    pub target: FiberState,
}

/// How the disposal of a fiber ended, by how its worker did.
pub open spec fn ends_fiber_worker(exit: WorkerExit<DisposalEnd>, end: DisposalEnd) -> bool {
    match exit {
        WorkerExit::Returned(returned) => end == returned,
        WorkerExit::Cancelled => end.is_early(CordisError::DisposalWorkerCancelled),
        WorkerExit::Panicked(payload) => {
            &&& end.result matches Err(CordisError::DisposalWorkerPanicked(message))
            &&& message@ == payload.message_or("non-string panic payload"@)
            &&& end.target is None
            &&& end.terminated
        },
    }
}

/// What the disposal of a fiber came to in detail.
pub open spec fn is_fiber_outcome(
    observed: Result<Arc<DisposalObservation>, CordisError>,
    outcome: DisposeOutcome,
) -> bool {
    match observed {
        Err(error) => outcome matches DisposeOutcome::Incomplete { primary, issues }
            && primary == error && issues@ == Seq::<CleanupIssue>::empty(),
        Ok(observation) => match observation.terminal {
            DisposalTerminal::Incomplete(error) => outcome matches
                DisposeOutcome::Incomplete { primary, issues } && primary == error
                && issues@ == observation.issues@,
            DisposalTerminal::Committed => if observation.issues@.len() == 0 {
                outcome is Disposed
            } else {
                outcome matches DisposeOutcome::CommittedWithCleanupIssues { issues }
                    && issues@ == observation.issues@
            },
        },
    }
}

/// A task that a disposal took over is joined.
pub open spec fn joins_task(
    before: Runtime,
    after: Runtime,
    drain: TaskDrain,
    later: TaskDrain,
    task: TakenTask,
    join: JoinOutcome,
) -> bool {
    &&& after == (Runtime {
        tasks: after.tasks,
        diagnostics: after.diagnostics,
        ..before
    })
    &&& later.panicked == (drain.panicked || join.counts_as() is Panicked)
    &&& after.tasks.arena == before.tasks.arena
    &&& after.tasks.records(&before.tasks, join.counts_as())
    &&& after.diagnostics == (Diagnostics {
        recent: after.diagnostics.recent,
        ..before.diagnostics
    })
    &&& after.diagnostics.recent@ == noted_if(
        before.diagnostics.recent@,
        task_issue(task.task, join.counts_as(), before.diagnostics.now),
    )
}

/// What can be read of the disposal of a fiber.
pub open spec fn observes_disposal(
    runtime: Runtime,
    fiber: FiberId,
    observation: Option<Arc<DisposalObservation>>,
) -> bool {
    observation == if runtime.fibers@.dom().contains(fiber.raw) {
        runtime.fibers@[fiber.raw].disposal.observation
    } else {
        None
    }
}

/// The beginning of the work on a disposal: the tasks of the fiber are taken over.
pub open spec fn begins_job(
    before: Runtime,
    after: Runtime,
    fiber: FiberId,
    begun: Result<(FiberDisposalJob, Vec<TakenTask>), DisposalEnd>,
) -> bool {
    match begun {
        Ok((job, tasks)) => {
            let record = before.fibers@[fiber.raw];
            let next = after.fibers@[fiber.raw];
            &&& before.fibers@.dom().contains(fiber.raw)
            &&& job.fiber == fiber
            &&& job.removed@.len() == 0
            &&& tasks@ == taken(before.tasks.arena@, record.tasks@)
            &&& after.tasks.arena@ == untaken(before.tasks.arena@, record.tasks@)
            &&& retires_all(before.tasks.arena, after.tasks.arena, record.tasks@)
            &&& retains(before.tasks.arena, after.tasks.arena)
            &&& after.tasks.same_counts(&before.tasks)
            &&& edits_fiber(before, (Runtime { tasks: before.tasks, ..after }), fiber, next)
            &&& next == (FiberRecord { tasks: next.tasks, cancelled: true, ..record })
            &&& next.tasks@.len() == 0
        },
        Err(end) => {
            &&& !before.fibers@.dom().contains(fiber.raw)
            &&& after == before
            &&& end.result matches Err(CordisError::DisposalWorkerTerminated(message))
            &&& message@ == "fiber disappeared before lifecycle serialization"@
            &&& end.target is None
            &&& end.terminated
        },
    }
}

/// The tasks of a fiber were joined.
pub open spec fn hears_of_tasks(
    before: Runtime,
    after: Runtime,
    fiber: FiberId,
    result: Result<(), CordisError>,
    action: DisposalAction,
) -> bool {
    &&& action is Drain
    &&& if before.fibers@.dom().contains(fiber.raw) {
        let next = after.fibers@[fiber.raw];
        &&& edits_fiber(before, after, fiber, next)
        &&& exists|noted: FiberRecord|
            {
                &&& #[trigger] notes_failure(
                    before.fibers@[fiber.raw],
                    noted,
                    CleanupPhase::TaskDrain,
                    result,
                )
                &&& next == in_phase(noted, DisposalPhase::Draining)
            }
    } else {
        after == before
    }
}

/// The wait for the uses of the generation of a fiber is over.
pub open spec fn hears_of_drain(
    before: Runtime,
    after: Runtime,
    fiber: FiberId,
    outcome: DrainOutcome,
    action: DisposalAction,
) -> bool {
    let exists_now = before.fibers@.dom().contains(fiber.raw);
    let record = before.fibers@[fiber.raw];
    match outcome {
        DrainOutcome::TimedOut { remaining } => {
            &&& after == before
            &&& if exists_now && record.disposal.persistent_drain {
                action is Drain
            } else {
                &&& action matches DisposalAction::Finish(end)
                &&& end.result matches Err(CordisError::CleanupFailed(message))
                &&& message@ == "generation drain timed out with "@ + decimal(remaining as nat)
                    + " provider executions"@
                &&& end.target is None
                &&& end.terminated
            }
        },
        DrainOutcome::Drained => if exists_now {
            let next = after.fibers@[fiber.raw];
            &&& edits_fiber(before, after, fiber, next)
            &&& next_after_children(in_phase(record, DisposalPhase::ChildScopes), next, action)
        } else {
            after == before && nothing_registered(action)
        },
    }
}

/// A child scope of a fiber is disposed, or was tried to.
pub open spec fn hears_of_child_scope(
    before: Runtime,
    after: Runtime,
    fiber: FiberId,
    child: ScopeId,
    result: Result<(), CordisError>,
    action: DisposalAction,
) -> bool {
    if before.fibers@.dom().contains(fiber.raw) {
        let next = after.fibers@[fiber.raw];
        &&& edits_fiber(before, after, fiber, next)
        &&& exists|noted: FiberRecord, left: FiberRecord|
            {
                &&& #[trigger] notes_failure(
                    before.fibers@[fiber.raw],
                    noted,
                    CleanupPhase::ChildScopeCleanup,
                    result,
                )
                &&& left == (FiberRecord { child_scopes: left.child_scopes, ..noted })
                &&& left.child_scopes@ == noted.child_scopes@.filter(other_than(child))
                &&& #[trigger] next_after_children(left, next, action)
            }
    } else {
        after == before && nothing_registered(action)
    }
}

/// The registrations of a fiber are taken back.
pub open spec fn hears_of_handlers(
    before: Runtime,
    after: Runtime,
    job: FiberDisposalJob,
    later: FiberDisposalJob,
    action: DisposalAction,
) -> bool {
    &&& later.fiber == job.fiber
    &&& if before.fibers@.dom().contains(job.fiber.raw) {
        stops_serving(before, after, job.fiber, later.removed@, later.target, action)
    } else {
        &&& after == before
        &&& later == job
        &&& action matches DisposalAction::Finish(end)
        &&& end.result matches Err(CordisError::DisposalWorkerTerminated(message))
        &&& message@ == CordisError::FiberNotFound.text()
        &&& end.target is None
        &&& end.terminated
    }
}

/// An effect of a fiber is disposed, or was tried to.
pub open spec fn hears_of_effect(
    before: Runtime,
    after: Runtime,
    job: FiberDisposalJob,
    later: FiberDisposalJob,
    end: EffectEnd,
    action: DisposalAction,
) -> bool {
    let fiber = job.fiber;
    &&& later.fiber == job.fiber
    &&& later.removed == job.removed
    &&& if before.fibers@.dom().contains(fiber.raw) {
        let next = after.fibers@[fiber.raw];
        &&& edits_fiber(before, after, fiber, next)
        &&& exists|result: Result<(), CordisError>, noted: FiberRecord|
            {
                &&& effect_failure(end, result)
                &&& #[trigger] notes_failure(
                    before.fibers@[fiber.raw],
                    noted,
                    CleanupPhase::EffectCleanup,
                    result,
                )
                &&& next_after_services(
                    noted,
                    next,
                    job.removed@,
                    before.admission.closed,
                    later.target,
                    action,
                )
            }
    } else {
        &&& after == before
        &&& next_without_fiber(job.removed@, before.admission.closed, later.target, action)
    }
}

/// The fibers that depended on a fiber have acted.
pub open spec fn hears_of_dependents(
    before: Runtime,
    after: Runtime,
    job: FiberDisposalJob,
    result: Result<(), CordisError>,
    end: DisposalEnd,
) -> bool {
    let fiber = job.fiber;
    if before.fibers@.dom().contains(fiber.raw) {
        let next = after.fibers@[fiber.raw];
        &&& edits_fiber(before, after, fiber, next)
        &&& notes_failure(
            before.fibers@[fiber.raw],
            next,
            CleanupPhase::DependencyCleanup,
            result,
        )
        &&& concludes(end, next, job.target)
    } else {
        &&& after == before
        &&& concludes_without_fiber(end, job.target)
    }
}

/// The end of a disposal is recorded and published, and a collection of garbage is
/// asked for.
pub open spec fn finalizes_fiber(
    before: Runtime,
    after: Runtime,
    fiber: FiberId,
    end: DisposalEnd,
    ended: (Result<(), CordisError>, Option<u64>),
) -> bool {
    if !before.fibers@.dom().contains(fiber.raw) {
        &&& after == before
        &&& ended.0 matches Err(CordisError::DisposalWorkerTerminated(message))
        &&& message@ == "fiber disappeared before finalization"@
        &&& ended.1 is None
    } else {
        let record = before.fibers@[fiber.raw];
        let target = settled_target(record, end.target);
        exists|settled: Runtime, published: Result<(), CordisError>|
            {
                &&& #[trigger] published_fiber_result(record, end.result, target, published)
                &&& #[trigger] disposal_settles(
                    before,
                    settled,
                    fiber,
                    published,
                    target,
                    end.terminated,
                )
                &&& if record.disposal.observation is Some {
                    &&& after == settled
                    &&& ended.0 matches Err(CordisError::Invariant(message))
                    &&& message@ == "disposal outcome is already published"@
                    &&& ended.1 is None
                } else {
                    &&& ended.0 == published
                    &&& requests_gc(settled, after, ended.1)
                }
            }
    }
}

/// The record without registrations.
pub open spec fn unregistered(before: FiberRecord, after: FiberRecord) -> bool {
    &&& after == (FiberRecord {
        handlers: after.handlers,
        invocation_handlers: after.invocation_handlers,
        invocation_middleware: after.invocation_middleware,
        ..before
    })
    &&& after.handlers@.len() == 0
    &&& after.invocation_handlers@.len() == 0
    &&& after.invocation_middleware@.len() == 0
}

impl Registrations {
    /// What `record` registered, each list from the last to the first.
    pub open spec fn undo(self, record: FiberRecord) -> bool {
        &&& self.handlers@ == record.handlers@.reverse()
        &&& self.invocation_handlers@ == record.invocation_handlers@.reverse()
        &&& self.invocation_middleware@ == record.invocation_middleware@.reverse()
    }
}

/// After the uses and the child scopes: the last child scope is next, or the
/// registrations where there is none.
pub open spec fn next_after_children(
    before: FiberRecord,
    after: FiberRecord,
    action: DisposalAction,
) -> bool {
    if before.child_scopes@.len() > 0 {
        &&& action == DisposalAction::DisposeChild(before.child_scopes@.last())
        &&& after == before
    } else {
        &&& action matches DisposalAction::Unregister(registrations)
        &&& registrations.undo(before)
        &&& unregistered(in_phase(before, DisposalPhase::Handlers), after)
    }
}

/// After the services: the last effect is next, or the end.
pub open spec fn next_after_services(
    before: FiberRecord,
    after: FiberRecord,
    removed: Seq<ServiceSymbol>,
    closed: bool,
    target: FiberState,
    action: DisposalAction,
) -> bool {
    if before.effects@.len() > 0 {
        &&& action == DisposalAction::DisposeEffect(before.effects@.last())
        &&& after == (FiberRecord { effects: after.effects, ..before })
        &&& after.effects@ == before.effects@.drop_last()
    } else {
        &&& after == in_phase(before, DisposalPhase::Reconciling)
        &&& target == target_of(before)
        &&& if removed.len() > 0 && !closed {
            action matches DisposalAction::Reconcile(symbols) && symbols@ == removed
        } else {
            &&& action matches DisposalAction::Finish(end)
            &&& concludes(end, before, target)
        }
    }
}

/// Where the disposal of the fiber leads.
pub open spec fn target_of(record: FiberRecord) -> FiberState {
    if record.disposal.wait_for_dependencies {
        FiberState::WaitingDependencies
    } else {
        FiberState::Disposed
    }
}

/// The end of a disposal that went through all steps.
pub open spec fn concludes(end: DisposalEnd, record: FiberRecord, target: FiberState) -> bool {
    &&& disposal_result_is(end.result, record.disposal.errors@)
    &&& end.target == Some(target)
    &&& !end.terminated
}

/// The end of a disposal whose fiber was gone at the end.
pub open spec fn concludes_without_fiber(end: DisposalEnd, target: FiberState) -> bool {
    &&& end.result matches Err(CordisError::DisposalWorkerTerminated(message))
    &&& message@ == "fiber disappeared after cleanup"@
    &&& end.target == Some(target)
    &&& !end.terminated
}

impl Runtime {
    /// Notes a failure of the disposal of a fiber.
    pub fn push_disposal_error(
        &mut self,
        fiber: FiberId,
        phase: CleanupPhase,
        result: Result<(), CordisError>,
    )
        requires
            old(self).wf(),
        ensures
            final(self).wf(),
            if old(self).fibers@.dom().contains(fiber.raw) {
                &&& edits_fiber(*old(self), *final(self), fiber, final(self).fibers@[fiber.raw])
                &&& notes_failure(
                    old(self).fibers@[fiber.raw],
                    final(self).fibers@[fiber.raw],
                    phase,
                    result,
                )
            } else {
                *final(self) == *old(self)
            },
    {
        let ghost before = *self;
        match result {
            Ok(_) => {
                proof {
                    if before.fibers@.dom().contains(fiber.raw) {
                        assert(before.fibers@ =~= before.fibers@.insert(
                            fiber.raw,
                            before.fibers@[fiber.raw],
                        ));
                    }
                }
            },
            Err(error) => {
                if let Some(record) = self.fibers.get_mut(fiber.raw) {
                    let ghost errors = record.disposal.errors@;
                    record.disposal.errors.push(CleanupIssue::of(phase, error));
                    assert(record.disposal.errors@.drop_last() =~= errors);
                }
                proof {
                    if before.fibers@.dom().contains(fiber.raw) {
                        self.lemma_fiber_edited(before, fiber.raw);
                    }
                }
            },
        }
    }

    /// Notes how far the disposal of a fiber has come.
    pub fn set_disposal_phase(&mut self, fiber: FiberId, phase: DisposalPhase)
        requires
            old(self).wf(),
        ensures
            final(self).wf(),
            if old(self).fibers@.dom().contains(fiber.raw) {
                edits_fiber(
                    *old(self),
                    *final(self),
                    fiber,
                    in_phase(old(self).fibers@[fiber.raw], phase),
                )
            } else {
                *final(self) == *old(self)
            },
    {
        let ghost before = *self;
        if let Some(record) = self.fibers.get_mut(fiber.raw) {
            record.disposal.phase = phase;
        }
        proof {
            if before.fibers@.dom().contains(fiber.raw) {
                self.lemma_fiber_edited(before, fiber.raw);
            }
        }
    }

    /// The scope of a fiber.
    pub fn fiber_scope(&self, fiber: FiberId) -> (scope: Result<ScopeId, CordisError>)
        requires
            self.wf(),
        ensures
            scope == if self.fibers@.dom().contains(fiber.raw) {
                Ok::<ScopeId, CordisError>(self.fibers@[fiber.raw].scope)
            } else {
                Err(CordisError::FiberNotFound)
            },
    {
        match self.fibers.get(fiber.raw) {
            Some(record) => Ok(record.scope),
            None => Err(CordisError::FiberNotFound),
        }
    }

    /// The observation of a fiber's disposal, once there is one.
    pub fn fiber_observation(&self, fiber: FiberId) -> (observation: Option<
        Arc<DisposalObservation>,
    >)
        requires
            self.wf(),
        ensures
            observes_disposal(*self, fiber, observation),
    {
        match self.fibers.get(fiber.raw) {
            Some(record) => match &record.disposal.observation {
                Some(observation) => Some(observation.clone()),
                None => None,
            },
            None => None,
        }
    }

    /// The result that the issues of a disposal stand for.
    fn disposal_result(issues: &Vec<CleanupIssue>) -> (result: Result<(), CordisError>)
        ensures
            disposal_result_is(result, issues@),
    {
        if issues.len() == 0 {
            Ok(())
        } else if issues.len() == 1 {
            match &issues[0].cause {
                Some(cause) => Err(cause.clone()),
                None => Err(CordisError::PluginDisposeFailed(issues[0].message.clone())),
            }
        } else {
            Err(CordisError::PluginDisposeFailed(report(issues)))
        }
    }
}

impl Runtime {
    /// Taking over the tasks of one fiber leaves those of the others alone.
    proof fn lemma_tasks_taken(&self, before: Runtime, listed: Runtime, fiber: u64, ids: Seq<TaskId>)
        requires
            before.wf(),
            listed.wf(),
            *self == (Runtime { tasks: self.tasks, ..listed }),
            self.tasks.wf(),
            self.tasks.arena@ == untaken(listed.tasks.arena@, ids),
            before.tasks == listed.tasks,
            before.fibers@.dom().contains(fiber),
            ids == before.fibers@[fiber].tasks@,
            listed.fibers@[fiber].tasks@.len() == 0,
        ensures
            self.wf(),
    {
        assert forall|other: u64, task: TaskId|
            self.fibers@.dom().contains(other) && #[trigger] self.fibers@[other].tasks@.contains(
                task,
            ) implies self.tasks.arena@.dom().contains(task.raw)
            && self.tasks.arena@[task.raw].owner.raw == other by {
            lemma_untaken(listed.tasks.arena@, ids, task.raw);
            assert(listed.fibers@[other].tasks@.contains(task));
            if ids.contains(TaskId { raw: task.raw }) {
                assert(before.fibers@[fiber].tasks@.contains(task));
            }
        }
    }

    /// Records a task that was taken over and joined.
    pub fn task_joined(&mut self, drain: &mut TaskDrain, task: &TakenTask, join: JoinOutcome)
        requires
            old(self).wf(),
        ensures
            final(self).wf(),
            joins_task(*old(self), *final(self), *old(drain), *final(drain), *task, join),
    {
        drain.joined(task, join, &mut self.tasks, &mut self.diagnostics);
    }
}

impl FiberDisposalJob {
    /// Begins: the tasks of the fiber are taken over, to be cancelled and joined.
    pub fn begin(runtime: &mut Runtime, fiber: FiberId) -> (begun: Result<
        (FiberDisposalJob, Vec<TakenTask>),
        DisposalEnd,
    >)
        requires
            old(runtime).wf(),
        ensures
            final(runtime).wf(),
            begins_job(*old(runtime), *final(runtime), fiber, begun),
    {
        let ghost before = *runtime;
        if !runtime.fibers.contains(fiber.raw) {
            return Err(
                DisposalEnd::early(
                    CordisError::DisposalWorkerTerminated(
                        "fiber disappeared before lifecycle serialization".to_owned(),
                    ),
                ),
            );
        }
        let mut ids: Vec<TaskId> = Vec::new();
        if let Some(record) = runtime.fibers.get_mut(fiber.raw) {
            std::mem::swap(&mut ids, &mut record.tasks);
            record.cancelled = true;
        }
        proof {
            runtime.lemma_fiber_edited(before, fiber.raw);
        }
        let ghost listed = *runtime;
        let tasks = runtime.tasks.take(&ids);
        proof {
            runtime.lemma_tasks_taken(before, listed, fiber.raw, ids@);
        }
        Ok(
            (
                FiberDisposalJob { fiber, removed: Vec::new(), target: FiberState::Disposed },
                tasks,
            ),
        )
    }

    /// The tasks are joined; the uses of the generation are next.
    pub fn tasks_joined(&self, runtime: &mut Runtime, result: Result<(), CordisError>) -> (action:
        DisposalAction)
        requires
            old(runtime).wf(),
        ensures
            final(runtime).wf(),
            hears_of_tasks(*old(runtime), *final(runtime), self.fiber, result, action),
    {
        runtime.push_disposal_error(self.fiber, CleanupPhase::TaskDrain, result);
        let ghost noted = runtime.fibers@[self.fiber.raw];
        runtime.set_disposal_phase(self.fiber, DisposalPhase::Draining);
        proof {
            assert(runtime.fibers@ =~= old(runtime).fibers@.insert(
                self.fiber.raw,
                runtime.fibers@[self.fiber.raw],
            ) || !old(runtime).fibers@.dom().contains(self.fiber.raw));
        }
        DisposalAction::Drain
    }

    /// The wait for the uses of the generation is over. One that timed out goes
    /// on where the disposal is persistent, and ends the disposal otherwise.
    pub fn drained(&self, runtime: &mut Runtime, outcome: DrainOutcome) -> (action: DisposalAction)
        requires
            old(runtime).wf(),
        ensures
            final(runtime).wf(),
            hears_of_drain(*old(runtime), *final(runtime), self.fiber, outcome, action),
    {
        if let DrainOutcome::TimedOut { remaining } = outcome {
            let persistent: bool = match runtime.fibers.get(self.fiber.raw) {
                Some(record) => record.disposal.persistent_drain,
                None => false,
            };
            if persistent {
                return DisposalAction::Drain;
            }
            let mut message = concat(
                "generation drain timed out with ",
                decimal_text(remaining as u64).as_str(),
            );
            message.append(" provider executions");
            return DisposalAction::Finish(
                DisposalEnd::early(CordisError::CleanupFailed(message)),
            );
        }
        runtime.set_disposal_phase(self.fiber, DisposalPhase::ChildScopes);
        let ghost mid = *runtime;
        let action = self.next_child(runtime);
        proof {
            if old(runtime).fibers@.dom().contains(self.fiber.raw) {
                assert(runtime.fibers@ =~= old(runtime).fibers@.insert(
                    self.fiber.raw,
                    runtime.fibers@[self.fiber.raw],
                ));
            }
        }
        action
    }

    /// The last child scope, or the registrations where there is none.
    fn next_child(&self, runtime: &mut Runtime) -> (action: DisposalAction)
        requires
            old(runtime).wf(),
        ensures
            final(runtime).wf(),
            if old(runtime).fibers@.dom().contains(self.fiber.raw) {
                let after = final(runtime).fibers@[self.fiber.raw];
                &&& edits_fiber(*old(runtime), *final(runtime), self.fiber, after)
                &&& next_after_children(old(runtime).fibers@[self.fiber.raw], after, action)
            } else {
                *final(runtime) == *old(runtime) && nothing_registered(action)
            },
    {
        let ghost before = *runtime;
        let child: Option<ScopeId> = match runtime.fibers.get(self.fiber.raw) {
            Some(record) => if record.child_scopes.len() > 0 {
                Some(record.child_scopes[record.child_scopes.len() - 1])
            } else {
                None
            },
            None => None,
        };
        if let Some(child) = child {
            proof {
                assert(before.fibers@ =~= before.fibers@.insert(
                    self.fiber.raw,
                    before.fibers@[self.fiber.raw],
                ));
            }
            return DisposalAction::DisposeChild(child);
        }
        match runtime.fibers.get_mut(self.fiber.raw) {
            Some(record) => {
                let registrations = Registrations {
                    handlers: backwards(&record.handlers),
                    invocation_handlers: backwards(&record.invocation_handlers),
                    invocation_middleware: backwards(&record.invocation_middleware),
                };
                record.handlers = Vec::new();
                record.invocation_handlers = Vec::new();
                record.invocation_middleware = Vec::new();
                record.disposal.phase = DisposalPhase::Handlers;
                proof {
                    lemma_asked(before, self.fiber.raw, *record);
                }
                DisposalAction::Unregister(registrations)
            },
            None => DisposalAction::Unregister(
                Registrations {
                    handlers: Vec::new(),
                    invocation_handlers: Vec::new(),
                    invocation_middleware: Vec::new(),
                },
            ),
        }
    }

    /// A child scope is disposed, or was tried to; the next one is next.
    pub fn child_disposed(
        &self,
        runtime: &mut Runtime,
        child: ScopeId,
        result: Result<(), CordisError>,
    ) -> (action: DisposalAction)
        requires
            old(runtime).wf(),
        ensures
            final(runtime).wf(),
            hears_of_child_scope(
                *old(runtime),
                *final(runtime),
                self.fiber,
                child,
                result,
                action,
            ),
    {
        runtime.push_disposal_error(self.fiber, CleanupPhase::ChildScopeCleanup, result);
        let ghost noted_runtime = *runtime;
        let ghost noted = runtime.fibers@[self.fiber.raw];
        if let Some(record) = runtime.fibers.get_mut(self.fiber.raw) {
            let kept = without_scope(&record.child_scopes, child);
            record.child_scopes = kept;
        }
        let ghost left = runtime.fibers@[self.fiber.raw];
        proof {
            if noted_runtime.fibers@.dom().contains(self.fiber.raw) {
                runtime.lemma_fiber_edited(noted_runtime, self.fiber.raw);
            }
        }
        let action = self.next_child(runtime);
        proof {
            if old(runtime).fibers@.dom().contains(self.fiber.raw) {
                assert(runtime.fibers@ =~= old(runtime).fibers@.insert(
                    self.fiber.raw,
                    runtime.fibers@[self.fiber.raw],
                ));
                assert(next_after_children(left, runtime.fibers@[self.fiber.raw], action));
            }
        }
        action
    }
}

/// An action that takes nothing back.
pub open spec fn nothing_registered(action: DisposalAction) -> bool {
    &&& action matches DisposalAction::Unregister(registrations)
    &&& registrations.handlers@.len() == 0
    &&& registrations.invocation_handlers@.len() == 0
    &&& registrations.invocation_middleware@.len() == 0
}

/// The services of `after` are those of `before` without what the fiber provided,
/// and nothing is remembered.
pub open spec fn withdraws(
    before: Runtime,
    after: Runtime,
    fiber: FiberId,
    removed: Seq<ServiceSymbol>,
) -> bool {
    let record = before.fibers@[fiber.raw];
    let left = withdrawn(before.services, before.services@, record.scope, fiber, record.provided@);
    &&& after.services@ == left.0
    &&& removed == left.1
    &&& after.services.keys == before.services.keys
    &&& after.services.cache@.dom() == Set::<u128>::empty()
    &&& after.services.max_symbols == before.services.max_symbols
    &&& after.services.max_cache_entries == before.services.max_cache_entries
}

impl Runtime {
    /// Withdraws the services of a fiber, from the last to the first.
    fn withdraw_services(&mut self, fiber: FiberId) -> (removed: Vec<ServiceSymbol>)
        requires
            old(self).wf(),
            old(self).fibers@.dom().contains(fiber.raw),
        ensures
            final(self).wf(),
            *final(self) == (Runtime {
                fibers: final(self).fibers,
                services: final(self).services,
                ..*old(self)
            }),
            withdraws(*old(self), *final(self), fiber, removed@),
            ({
                let record = old(self).fibers@[fiber.raw];
                let after = final(self).fibers@[fiber.raw];
                &&& final(self).fibers@ == old(self).fibers@.insert(fiber.raw, after)
                &&& final(self).fibers.order() == old(self).fibers.order()
                &&& final(self).fibers.versions() == old(self).fibers.versions()
                &&& after == (FiberRecord { provided: after.provided, ..record })
                &&& after.provided@.len() == 0
            }),
    {
        let ghost before = *self;
        let ghost record = before.fibers@[fiber.raw];
        let mut removed: Vec<ServiceSymbol> = Vec::new();
        let mut keys: Vec<ServiceKey> = Vec::new();
        let mut scope: ScopeId = self.scopes.root;
        if let Some(record) = self.fibers.get_mut(fiber.raw) {
            std::mem::swap(&mut keys, &mut record.provided);
            scope = record.scope;
        }
        proof {
            assert(fiber_fits(
                before.scopes,
                before.services,
                before.plugins.next_generation,
                record,
            ));
            self.lemma_fiber_edited(before, fiber.raw);
        }
        let ghost emptied = self.fibers;
        let ghost all = keys@;
        let ghost start = self.services@;
        let ghost whole = withdrawn(before.services, start, scope, fiber, all);
        assert(Seq::<ServiceSymbol>::empty() + whole.1 =~= whole.1);
        while keys.len() > 0
            invariant
                self.wf(),
                *self == (Runtime { services: self.services, fibers: emptied, ..before }),
                self.services.keys == before.services.keys,
                self.services.max_symbols == before.services.max_symbols,
                self.services.max_cache_entries == before.services.max_cache_entries,
                all_interned(before.services, keys@),
                ({
                    let rest = withdrawn(before.services, self.services@, scope, fiber, keys@);
                    &&& rest.0 == whole.0
                    &&& removed@ + rest.1 == whole.1
                }),
            decreases keys@.len(),
        {
            let ghost held = self.services@;
            let ghost listed = removed@;
            let ghost queue = keys@;
            proof {
                assert(before.services.symbol_of(queue[queue.len() - 1]@) is Some);
                assert(self.services.symbol_of(queue.last()@) == before.services.symbol_of(
                    queue.last()@,
                ));
            }
            if let Some(key) = keys.pop() {
                proof {
                    assert(keys@ =~= queue.drop_last());
                }
                let symbol = self.services.intern(&key);
                let owned: bool = match self.services.get(scope, symbol) {
                    Some(entry) => entry.owner == fiber,
                    None => false,
                };
                if owned {
                    let ghost mid = *self;
                    self.services.remove(scope, symbol);
                    removed.push(symbol);
                    proof {
                        self.lemma_services_reset(mid);
                        let rest = withdrawn(before.services, self.services@, scope, fiber, keys@);
                        assert(listed + (seq![symbol] + rest.1) =~= removed@ + rest.1);
                    }
                }
            }
        }
        proof {
            assert(removed@ + Seq::<ServiceSymbol>::empty() =~= removed@);
        }
        let ghost mid = *self;
        self.services.bump_epoch();
        proof {
            self.lemma_services_reset(mid);
            assert(self.services.cache@.dom() =~= Set::<u128>::empty());
        }
        removed
    }

    /// Changing registrations disturbs nothing once nothing is remembered.
    pub(crate) proof fn lemma_services_reset(&self, before: Runtime)
        requires
            before.wf(),
            *self == (Runtime { services: self.services, ..before }),
            self.services.wf(),
            self.services.bumped_from(&before.services),
        ensures
            self.wf(),
    {
        lemma_coherence_empty(self.services, self.scopes, self.gates);
        assert forall|fiber: u64| #[trigger] self.fibers@.dom().contains(fiber) implies fiber_fits(
            self.scopes,
            self.services,
            self.plugins.next_generation,
            self.fibers@[fiber],
        ) by {
            let record = before.fibers@[fiber];
            assert(fiber_fits(
                before.scopes,
                before.services,
                before.plugins.next_generation,
                record,
            ));
            assert(super::service::interns_more(before.services, self.services));
            super::service::lemma_still_interned(
                before.services,
                self.services,
                record.descriptor.dependencies@,
            );
            super::service::lemma_still_interned(
                before.services,
                self.services,
                record.descriptor.provisions@,
            );
            super::service::lemma_still_interned(
                before.services,
                self.services,
                record.provided@,
            );
        }
    }
}

/// A fiber withdraws its services, and goes on to its effects.
pub open spec fn stops_serving(
    before: Runtime,
    after: Runtime,
    fiber: FiberId,
    removed: Seq<ServiceSymbol>,
    target: FiberState,
    action: DisposalAction,
) -> bool {
    let next = after.fibers@[fiber.raw];
    &&& after == (Runtime { fibers: after.fibers, services: after.services, ..before })
    &&& after.fibers@ == before.fibers@.insert(fiber.raw, next)
    &&& after.fibers.order() == before.fibers.order()
    &&& after.fibers.versions() == before.fibers.versions()
    &&& withdraws(before, after, fiber, removed)
    &&& exists|bare: FiberRecord|
        {
            &&& bare == (FiberRecord {
                provided: bare.provided,
                ..in_phase(before.fibers@[fiber.raw], DisposalPhase::Effects)
            })
            &&& bare.provided@.len() == 0
            &&& #[trigger] next_after_services(
                bare,
                next,
                removed,
                before.admission.closed,
                target,
                action,
            )
        }
}

impl FiberDisposalJob {
    /// The registrations are taken back; the services are withdrawn, and the
    /// effects are next.
    pub fn handlers_removed(&mut self, runtime: &mut Runtime) -> (action: DisposalAction)
        requires
            old(runtime).wf(),
            old(self).removed@.len() == 0,
        ensures
            final(runtime).wf(),
            hears_of_handlers(*old(runtime), *final(runtime), *old(self), *final(self), action),
    {
        if let Err(error) = runtime.fiber_scope(self.fiber) {
            return DisposalAction::Finish(
                DisposalEnd::early(CordisError::DisposalWorkerTerminated(error.to_string())),
            );
        }
        runtime.set_disposal_phase(self.fiber, DisposalPhase::Services);
        let ghost serving = *runtime;
        proof {
            assert(serving.fibers@[self.fiber.raw].provided == old(runtime).fibers@[
                self.fiber.raw
            ].provided);
        }
        self.removed = runtime.withdraw_services(self.fiber);
        runtime.set_disposal_phase(self.fiber, DisposalPhase::Effects);
        let ghost bare = runtime.fibers@[self.fiber.raw];
        let ghost bared = *runtime;
        let action = self.next_effect(runtime);
        proof {
            assert(next_after_services(
                bare,
                runtime.fibers@[self.fiber.raw],
                self.removed@,
                old(runtime).admission.closed,
                self.target,
                action,
            ));
            assert(runtime.fibers@ =~= old(runtime).fibers@.insert(
                self.fiber.raw,
                runtime.fibers@[self.fiber.raw],
            ));
        }
        action
    }

    /// The last effect, or the end where there is none.
    fn next_effect(&mut self, runtime: &mut Runtime) -> (action: DisposalAction)
        requires
            old(runtime).wf(),
        ensures
            final(runtime).wf(),
            final(self).fiber == old(self).fiber,
            final(self).removed == old(self).removed,
            ({
                let fiber = old(self).fiber;
                if old(runtime).fibers@.dom().contains(fiber.raw) {
                    let after = final(runtime).fibers@[fiber.raw];
                    &&& edits_fiber(*old(runtime), *final(runtime), fiber, after)
                    &&& next_after_services(
                        old(runtime).fibers@[fiber.raw],
                        after,
                        old(self).removed@,
                        old(runtime).admission.closed,
                        final(self).target,
                        action,
                    )
                } else {
                    &&& *final(runtime) == *old(runtime)
                    &&& next_without_fiber(
                        old(self).removed@,
                        old(runtime).admission.closed,
                        final(self).target,
                        action,
                    )
                }
            }),
    {
        let ghost before = *runtime;
        if let Some(record) = runtime.fibers.get_mut(self.fiber.raw) {
            let ghost effects = record.effects@;
            if record.effects.len() > 0 {
                let effect = record.effects[record.effects.len() - 1];
                record.effects.pop();
                proof {
                    assert(record.effects@ =~= effects.drop_last());
                    lemma_asked(before, self.fiber.raw, *record);
                }
                return DisposalAction::DisposeEffect(effect);
            }
            record.disposal.phase = DisposalPhase::Reconciling;
            self.target = if record.disposal.wait_for_dependencies {
                FiberState::WaitingDependencies
            } else {
                FiberState::Disposed
            };
            proof {
                lemma_asked(before, self.fiber.raw, *record);
            }
        } else {
            self.target = FiberState::Disposed;
        }
        if self.removed.len() > 0 && runtime.admission.enter().is_ok() {
            return DisposalAction::Reconcile(copy_symbols(&self.removed));
        }
        DisposalAction::Finish(self.conclude(runtime))
    }

    /// The end, with all that was noted.
    fn conclude(&self, runtime: &Runtime) -> (end: DisposalEnd)
        requires
            runtime.wf(),
        ensures
            if runtime.fibers@.dom().contains(self.fiber.raw) {
                concludes(end, runtime.fibers@[self.fiber.raw], self.target)
            } else {
                concludes_without_fiber(end, self.target)
            },
    {
        let result = match runtime.fibers.get(self.fiber.raw) {
            Some(record) => Runtime::disposal_result(&record.disposal.errors),
            None => Err(
                CordisError::DisposalWorkerTerminated("fiber disappeared after cleanup".to_owned()),
            ),
        };
        DisposalEnd { result, target: Some(self.target), terminated: false }
    }

    /// An effect is disposed, or was tried to; the next one is next.
    pub fn effect_disposed(&mut self, runtime: &mut Runtime, end: EffectEnd) -> (action:
        DisposalAction)
        requires
            old(runtime).wf(),
        ensures
            final(runtime).wf(),
            hears_of_effect(*old(runtime), *final(runtime), *old(self), *final(self), end, action),
    {
        let ghost given = end;
        let result = match end {
            EffectEnd::Disposed => Ok(()),
            EffectEnd::Failed(error) => Err(error),
            EffectEnd::Panicked(PanicPayload::Text(message)) => Err(
                CordisError::PluginDisposeFailed(message),
            ),
            EffectEnd::Panicked(PanicPayload::Opaque) => Err(
                CordisError::PluginDisposeFailed("non-string dispose panic".to_owned()),
            ),
        };
        let ghost failure = result;
        assert(effect_failure(given, failure));
        runtime.push_disposal_error(self.fiber, CleanupPhase::EffectCleanup, result);
        let ghost noted = runtime.fibers@[self.fiber.raw];
        let action = self.next_effect(runtime);
        proof {
            if old(runtime).fibers@.dom().contains(self.fiber.raw) {
                assert(notes_failure(
                    old(runtime).fibers@[self.fiber.raw],
                    noted,
                    CleanupPhase::EffectCleanup,
                    failure,
                ));
                assert(runtime.fibers@ =~= old(runtime).fibers@.insert(
                    self.fiber.raw,
                    runtime.fibers@[self.fiber.raw],
                ));
            }
        }
        action
    }

    /// The fibers that depended on this one have acted; the disposal ends.
    pub fn reconciled(&self, runtime: &mut Runtime, result: Result<(), CordisError>) -> (end:
        DisposalEnd)
        requires
            old(runtime).wf(),
        ensures
            final(runtime).wf(),
            hears_of_dependents(*old(runtime), *final(runtime), *self, result, end),
    {
        runtime.push_disposal_error(self.fiber, CleanupPhase::DependencyCleanup, result);
        self.conclude(runtime)
    }
}

/// What is next where the fiber is gone.
pub open spec fn next_without_fiber(
    removed: Seq<ServiceSymbol>,
    closed: bool,
    target: FiberState,
    action: DisposalAction,
) -> bool {
    &&& target is Disposed
    &&& if removed.len() > 0 && !closed {
        action matches DisposalAction::Reconcile(symbols) && symbols@ == removed
    } else {
        action matches DisposalAction::Finish(end) && concludes_without_fiber(end, target)
    }
}

fn copy_symbols(symbols: &Vec<ServiceSymbol>) -> (copy: Vec<ServiceSymbol>)
    ensures
        copy@ == symbols@,
{
    let mut copy: Vec<ServiceSymbol> = Vec::new();
    let mut i: usize = 0;
    while i < symbols.len()
        invariant
            i <= symbols@.len(),
            copy@ == symbols@.take(i as int),
        decreases symbols@.len() - i,
    {
        copy.push(symbols[i]);
        i += 1;
        proof {
            assert(copy@ =~= symbols@.take(i as int));
        }
    }
    proof {
        assert(copy@ =~= symbols@);
    }
    copy
}

/// Whether the result says that the disposal worker ended early.
pub open spec fn is_worker_terminal(result: Result<(), CordisError>) -> bool {
    match result {
        Ok(()) => false,
        Err(error) => error is DisposalWorkerPanicked || error is DisposalWorkerCancelled
            || error is DisposalWorkerTerminated,
    }
}

/// The result of a fiber disposal as it is published: a state that the lifecycle
/// does not allow is an error of its own.
pub open spec fn published_fiber_result(
    record: FiberRecord,
    result: Result<(), CordisError>,
    target: Option<FiberState>,
    published: Result<(), CordisError>,
) -> bool {
    if target is Some && !record.state.allows(target->0) {
        &&& published matches Err(CordisError::DisposalWorkerTerminated(message))
        &&& message@ == "invalid final state transition: "@ + record.state.text() + " -> "@
            + target->0.text()
    } else {
        published == result
    }
}

/// The observation of a fiber disposal with this result.
pub open spec fn observes_fiber(
    observation: DisposalObservation,
    result: Result<(), CordisError>,
    terminated: bool,
    issues: Seq<CleanupIssue>,
) -> bool {
    &&& observation.legacy_result == result
    &&& observation.issues@ == issues
    &&& if terminated {
        &&& observation.terminal matches DisposalTerminal::Incomplete(error)
        &&& match result {
            Err(reason) => error == reason,
            Ok(()) => error matches CordisError::DisposalWorkerTerminated(message) && message@
                == "disposal terminated"@,
        }
    } else {
        observation.terminal is Committed
    }
}

/// Where a disposal leads in the end: one that was meant to wait for dependencies leads
/// on where a permanent one was asked for meanwhile.
pub open spec fn settled_target(record: FiberRecord, target: Option<FiberState>) -> Option<
    FiberState,
> {
    if target == Some(FiberState::WaitingDependencies) && !record.disposal.wait_for_dependencies {
        Some(FiberState::Disposed)
    } else {
        target
    }
}

/// The record of a fiber whose disposal ended.
pub open spec fn fiber_settles(
    before: FiberRecord,
    after: FiberRecord,
    result: Result<(), CordisError>,
    target: Option<FiberState>,
    terminated: bool,
) -> bool {
    &&& after == (FiberRecord {
        state: if target is Some && !terminated {
            target->0
        } else {
            before.state
        },
        disposal: FiberDisposal {
            result: Some(result),
            phase: if terminated {
                DisposalPhase::Terminated
            } else {
                DisposalPhase::Complete
            },
            observation: after.disposal.observation,
            ..before.disposal
        },
        ..before
    })
    &&& match before.disposal.observation {
        Some(earlier) => after.disposal.observation == Some(earlier),
        None => after.disposal.observation matches Some(observation) && observes_fiber(
            *observation,
            result,
            terminated,
            before.disposal.errors@,
        ),
    }
}

/// A finished fiber disposal: a fiber that is disposed for good leaves its scope
/// and the dependency graph first, and then the record says how it ended.
pub open spec fn disposal_settles(
    before: Runtime,
    after: Runtime,
    fiber: FiberId,
    result: Result<(), CordisError>,
    target: Option<FiberState>,
    terminated: bool,
) -> bool {
    let record = before.fibers@[fiber.raw];
    let settled = after.fibers@[fiber.raw];
    &&& after == (Runtime {
        fibers: after.fibers,
        dependencies: after.dependencies,
        scopes: after.scopes,
        ..before
    })
    &&& after.fibers@ == before.fibers@.insert(fiber.raw, settled)
    &&& after.fibers.order() == before.fibers.order()
    &&& after.fibers.versions() == before.fibers.versions()
    &&& fiber_settles(record, settled, result, target, terminated)
    &&& if target == Some(FiberState::Disposed) && !terminated && !is_worker_terminal(result) {
        &&& forgets_fiber(
            before.dependencies,
            after.dependencies,
            fiber,
            record.scope,
            symbols_of(before.services, record.descriptor.dependencies@),
            symbols_of(before.services, record.descriptor.provisions@),
        )
        &&& leaves_scope(before.scopes, after.scopes, record.scope, fiber)
    } else {
        after.dependencies == before.dependencies && after.scopes == before.scopes
    }
}

/// The result as it is published.
fn publishable(
    state: FiberState,
    result: Result<(), CordisError>,
    target: Option<FiberState>,
) -> (published: Result<(), CordisError>)
    ensures
        if target is Some && !state.allows(target->0) {
            &&& published matches Err(CordisError::DisposalWorkerTerminated(message))
            &&& message@ == "invalid final state transition: "@ + state.text() + " -> "@
                + target->0.text()
        } else {
            published == result
        },
{
    match target {
        Some(target) => if state.can_transition_to(target) {
            result
        } else {
            let mut message = concat("invalid final state transition: ", state.debug_text());
            message.append(" -> ");
            message.append(target.debug_text());
            Err(CordisError::DisposalWorkerTerminated(message))
        },
        None => result,
    }
}

fn fiber_terminal(result: &Result<(), CordisError>, terminated: bool) -> (terminal:
    DisposalTerminal)
    ensures
        if terminated {
            &&& terminal matches DisposalTerminal::Incomplete(error)
            &&& match result {
                Err(reason) => error == *reason,
                Ok(()) => error matches CordisError::DisposalWorkerTerminated(message) && message@
                    == "disposal terminated"@,
            }
        } else {
            terminal is Committed
        },
{
    if !terminated {
        return DisposalTerminal::Committed;
    }
    match result {
        Err(error) => DisposalTerminal::Incomplete(error.clone()),
        Ok(()) => DisposalTerminal::Incomplete(
            CordisError::DisposalWorkerTerminated("disposal terminated".to_owned()),
        ),
    }
}

impl Runtime {
    /// What a fiber disposal worker came to, however it ended.
    pub fn fiber_worker_result(exit: WorkerExit<DisposalEnd>) -> (end: DisposalEnd)
        ensures
            ends_fiber_worker(exit, end),
    {
        match exit {
            WorkerExit::Returned(end) => end,
            WorkerExit::Cancelled => DisposalEnd::early(CordisError::DisposalWorkerCancelled),
            WorkerExit::Panicked(payload) => DisposalEnd::early(
                CordisError::DisposalWorkerPanicked(panic_message(&payload)),
            ),
        }
    }

    /// Ends a fiber disposal: the indexes are cleaned up, the record says how it
    /// ended, the observation is published, and a collection of garbage is asked
    /// for. The worker of the collection comes back where one is to be run.
    pub fn finalize_fiber_disposal(&mut self, fiber: FiberId, end: DisposalEnd) -> (ended: (
        Result<(), CordisError>,
        Option<u64>,
    ))
        requires
            old(self).wf(),
        ensures
            final(self).wf(),
            finalizes_fiber(*old(self), *final(self), fiber, end, ended),
    {
        let (state, waits) = match self.fibers.get(fiber.raw) {
            Some(record) => (record.state, record.disposal.wait_for_dependencies),
            None => {
                return (
                    Err(
                        CordisError::DisposalWorkerTerminated(
                            "fiber disappeared before finalization".to_owned(),
                        ),
                    ),
                    None,
                );
            },
        };
        let ghost before = *self;
        let ghost given = end.result;
        let target = match end.target {
            Some(target) => if target == FiberState::WaitingDependencies && !waits {
                Some(FiberState::Disposed)
            } else {
                Some(target)
            },
            None => None,
        };
        let terminated: bool = end.terminated;
        let result = publishable(state, end.result, target);
        assert(published_fiber_result(before.fibers@[fiber.raw], given, target, result));
        let early: bool = terminated || matches!(
            &result,
            Err(CordisError::DisposalWorkerPanicked(_)) | Err(CordisError::DisposalWorkerCancelled)
                | Err(CordisError::DisposalWorkerTerminated(_))
        );
        let for_good: bool = match target {
            Some(target) => target == FiberState::Disposed,
            None => false,
        };
        if for_good && !early {
            self.clean_indexes(fiber);
        }
        let ghost cleaned = *self;
        let fresh = self.mark_settled(fiber, &result, target, terminated);
        let ghost settled = *self;
        assert(disposal_settles(before, settled, fiber, result, target, terminated));
        if !fresh {
            return (
                Err(CordisError::Invariant("disposal outcome is already published".to_owned())),
                None,
            );
        }
        let worker = self.request_gc();
        (result, worker)
    }

    /// Takes a fiber out of its scope and the dependency graph.
    fn clean_indexes(&mut self, fiber: FiberId)
        requires
            old(self).wf(),
            old(self).fibers@.dom().contains(fiber.raw),
        ensures
            final(self).wf(),
            *final(self) == (Runtime {
                dependencies: final(self).dependencies,
                scopes: final(self).scopes,
                ..*old(self)
            }),
            ({
                let record = old(self).fibers@[fiber.raw];
                &&& forgets_fiber(
                    old(self).dependencies,
                    final(self).dependencies,
                    fiber,
                    record.scope,
                    symbols_of(old(self).services, record.descriptor.dependencies@),
                    symbols_of(old(self).services, record.descriptor.provisions@),
                )
                &&& leaves_scope(old(self).scopes, final(self).scopes, record.scope, fiber)
            }),
    {
        proof {
            assert(fiber_fits(
                self.scopes,
                self.services,
                self.plugins.next_generation,
                self.fibers@[fiber.raw],
            ));
        }
        if let Some(record) = self.fibers.get(fiber.raw) {
            let scope = record.scope;
            forget_declarations(
                &mut self.dependencies,
                &self.services,
                fiber,
                scope,
                &record.descriptor.dependencies,
                &record.descriptor.provisions,
            );
            self.leave_scope(scope, fiber);
        }
    }

    /// Records how the disposal of a fiber ended, and publishes the observation
    /// where there is none yet.
    fn mark_settled(
        &mut self,
        fiber: FiberId,
        result: &Result<(), CordisError>,
        target: Option<FiberState>,
        terminated: bool,
    ) -> (fresh: bool)
        requires
            old(self).wf(),
            old(self).fibers@.dom().contains(fiber.raw),
        ensures
            final(self).wf(),
            edits_fiber(*old(self), *final(self), fiber, final(self).fibers@[fiber.raw]),
            fiber_settles(
                old(self).fibers@[fiber.raw],
                final(self).fibers@[fiber.raw],
                *result,
                target,
                terminated,
            ),
            fresh == (old(self).fibers@[fiber.raw].disposal.observation is None),
    {
        let ghost before = *self;
        let mut fresh: bool = false;
        if let Some(record) = self.fibers.get_mut(fiber.raw) {
            if let Some(target) = target {
                if !terminated {
                    record.state = target;
                }
            }
            record.disposal.result = Some(clone_result(result));
            record.disposal.phase = if terminated {
                DisposalPhase::Terminated
            } else {
                DisposalPhase::Complete
            };
            fresh = record.disposal.observation.is_none();
            if fresh {
                let observation = DisposalObservation {
                    legacy_result: clone_result(result),
                    terminal: fiber_terminal(result, terminated),
                    issues: clone_issues(&record.disposal.errors),
                };
                record.disposal.observation = Some(Arc::new(observation));
            }
        }
        proof {
            self.lemma_fiber_edited(before, fiber.raw);
        }
        fresh
    }

    /// The detailed outcome of a fiber disposal that was asked for.
    pub fn dispose_fiber_detailed(
        observed: &Result<Arc<DisposalObservation>, CordisError>,
    ) -> (outcome: DisposeOutcome)
        ensures
            is_fiber_outcome(*observed, outcome),
    {
        match observed {
            Ok(observation) => observation.fiber_outcome(),
            Err(error) => DisposeOutcome::Incomplete {
                primary: error.clone(),
                issues: Vec::new(),
            },
        }
    }
}

/// Whoever observes that a fiber is disposed for good finds it out of its scope:
/// the index is cleaned up before the observation is published.
pub proof fn law_observed_disposal_left_the_scope(
    before: Runtime,
    after: Runtime,
    fiber: FiberId,
    result: Result<(), CordisError>,
    scope: ScopeId,
)
    requires
        before.wf(),
        before.fibers@.dom().contains(fiber.raw),
        before.fibers@[fiber.raw].disposal.observation is None,
        before.fibers@[fiber.raw].scope == scope,
        before.scopes@.dom().contains(scope.raw),
        !is_worker_terminal(result),
        disposal_settles(before, after, fiber, result, Some(FiberState::Disposed), false),
    ensures
        after.fibers@[fiber.raw].disposal.observation is Some,
        after.fibers@[fiber.raw].state is Disposed,
        !after.scopes@[scope.raw].fibers@.contains(fiber.raw),
{
    crate::id_list::lemma_except_contains(
        before.scopes@[scope.raw].fibers@,
        seq![fiber.raw],
        fiber.raw,
    );
    assert(seq![fiber.raw][0] == fiber.raw);
}

/// The observation of a disposal is published once and does not change.
pub proof fn law_observations_are_final(
    before: FiberRecord,
    after: FiberRecord,
    result: Result<(), CordisError>,
    target: Option<FiberState>,
    terminated: bool,
)
    requires
        before.disposal.observation is Some,
        fiber_settles(before, after, result, target, terminated),
    ensures
        after.disposal.observation == before.disposal.observation,
{
}

} // verus!
