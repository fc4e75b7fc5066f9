//! Reading a runtime: snapshots and health.
use super::Runtime;
use crate::error::CordisError;
#[allow(unused_imports)]
use crate::fiber_registry::{FiberRecord, Fibers};
use crate::gate::GenerationExecutionState;
#[allow(unused_imports)]
use crate::gate::GateTable;
use crate::health::{HealthReport, RuntimeHealth};
use crate::ids::{FiberId, HandlerId, PluginId, ScopeId, ServiceSymbol, TaskId};
use crate::key::{clone_keys, ServiceKey};
use crate::scope_registry::ScopeRecord;
#[allow(unused_imports)]
use crate::scope_registry::Scopes;
#[allow(unused_imports)]
use crate::service_registry::{lists_entries, owned_in, slot_of, visible_at, Entries};
use crate::shutdown_coordinator::{RuntimeShutdownState, ShutdownOutcome};
use crate::state::{DisposalPhase, FiberState, ScopeState};
use crate::text::{concat, decimal_text};
#[allow(unused_imports)]
use crate::text::decimal;
use std::sync::Arc;
use vstd::prelude::*;

verus! {

/// Read-only runtime state.
#[derive(Clone, Debug)]
#[non_exhaustive]
pub struct RuntimeSnapshot {
    /// All allocated scopes.
    pub scopes: Vec<ScopeSnapshot>,
    /// All allocated fibers.
    pub fibers: Vec<FiberSnapshot>,
    /// Number of visible service registrations.
    pub service_count: usize,
    /// All visible service registrations and owners.
    pub services: Vec<ServiceSnapshot>,
    /// Number of handlers.
    pub handler_count: usize,
    pub live_fiber_tasks: usize,
    pub reaped_tasks: u64,
    pub completed_tasks: u64,
    pub cancelled_tasks: u64,
    pub task_panics: u64,
    pub aborted_tasks: u64,
    pub live_runtime_workers: usize,
    pub reaped_runtime_workers: u64,
    pub runtime_worker_panics: u64,
    pub runtime_worker_errors: u64,
    pub cancelled_runtime_workers: u64,
    pub aborted_runtime_workers: u64,
    /// Generations that accept provider executions.
    pub active_generation_executions: usize,
    /// Generations that wait for executions to leave.
    pub draining_generations: usize,
    /// Provider executions in flight.
    pub provider_inflight: usize,
    /// Live service handles.
    pub service_handle_inflight: usize,
    pub active_reloads: usize,
    /// Committed reloads whose old generation is still cleaned up.
    pub reload_cleanup_pending: usize,
    /// Fibers that a reload prepares.
    pub staging_fibers: usize,
    /// Hidden scopes of reloads.
    pub staging_scopes: usize,
    /// Whether shutdown began.
    pub shutting_down: bool,
    pub shutdown_state: RuntimeShutdownState,
    /// What the last shutdown attempt left to say.
    pub shutdown_error: Option<String>,
    pub shutdown_in_progress: bool,
    pub terminated_scope_count: usize,
    pub terminated_fiber_count: usize,
}

/// Read-only service ownership state.
#[derive(Clone, Copy, Debug, PartialEq, Eq, Structural)]
#[non_exhaustive]
pub struct ServiceSnapshot {
    /// Providing scope.
    pub scope: ScopeId,
    /// Interned service identity.
    pub symbol: ServiceSymbol,
    /// Owning fiber.
    pub owner: FiberId,
}

/// Read-only scope state.
#[derive(Clone, Debug)]
#[non_exhaustive]
pub struct ScopeSnapshot {
    pub id: ScopeId,
    /// Diagnostic name.
    pub name: Arc<String>,
    /// Parent, absent only for the root.
    pub parent: Option<ScopeId>,
    /// Whether the scope is no longer active.
    pub disposed: bool,
    pub state: ScopeState,
    /// How the last disposal failed.
    pub disposal_error: Option<String>,
    /// Whether a disposal runs or ended early.
    pub unfinished_cleanup: bool,
    pub child_count: usize,
    pub fiber_count: usize,
    /// Whether a reload prepares its fibers here.
    pub hidden: bool,
}

/// Read-only fiber state.
#[derive(Clone, Debug)]
#[non_exhaustive]
pub struct FiberSnapshot {
    pub id: FiberId,
    /// Logical plugin handle.
    pub plugin_id: PluginId,
    /// Plugin name.
    pub plugin: Arc<String>,
    /// Owning scope.
    pub scope: ScopeId,
    pub state: FiberState,
    /// Required services.
    pub dependencies: Arc<Vec<ServiceKey>>,
    /// Services that an activation provides.
    pub declared_services: Arc<Vec<ServiceKey>>,
    /// Services that are provided.
    pub provided_services: Vec<ServiceKey>,
    pub task_ids: Vec<TaskId>,
    pub handler_ids: Vec<HandlerId>,
    pub task_count: usize,
    pub effect_count: usize,
    pub disposal_phase: DisposalPhase,
    /// How the last disposal failed.
    pub disposal_error: Option<String>,
    /// Whether a disposal runs or ended early.
    pub unfinished_cleanup: bool,
}

/// What a finished disposal has to say of its failure.
pub open spec fn failure_text(result: Option<Result<(), CordisError>>) -> Option<Seq<char>> {
    match result {
        Some(Err(error)) => Some(error.text()),
        _ => None,
    }
}

/// What the last shutdown attempt has to say.
pub open spec fn shutdown_text(outcome: Option<Arc<ShutdownOutcome>>) -> Option<Seq<char>> {
    match outcome {
        None => None,
        Some(outcome) => match *outcome {
            ShutdownOutcome::Complete => None,
            ShutdownOutcome::CompleteWithIssues { issues } => Some(
                "shutdown completed with "@ + decimal(issues@.len()) + " cleanup issue(s)"@,
            ),
            ShutdownOutcome::Incomplete { blockers, issues } => Some(
                "shutdown incomplete with "@ + decimal(blockers@.len()) + " blocker(s)"@,
            ),
        },
    }
}

/// Whether both hold the same text or none.
pub open spec fn reads(text: Option<String>, expected: Option<Seq<char>>) -> bool {
    match text {
        Some(text) => expected == Some(text@),
        None => expected is None,
    }
}

impl ScopeSnapshot {
    /// Whether this is what a snapshot shows of a scope.
    pub open spec fn shows(self, id: u64, record: ScopeRecord) -> bool {
        &&& self.id.raw == id
        &&& self.name == record.name
        &&& self.parent == record.parent
        &&& self.disposed == !(record.state is Active)
        &&& self.state == record.state
        &&& reads(self.disposal_error, failure_text(record.disposal.result))
        &&& self.unfinished_cleanup == (record.state is Disposing || record.state is Terminated)
        &&& self.child_count == record.children@.len()
        &&& self.fiber_count == record.fibers@.len()
        &&& self.hidden == record.hidden
    }
}

impl FiberSnapshot {
    /// Whether this is what a snapshot shows of a fiber.
    pub open spec fn shows(self, id: u64, record: FiberRecord) -> bool {
        &&& self.id.raw == id
        &&& self.plugin_id == record.plugin_id
        &&& self.plugin == record.descriptor.name
        &&& self.scope == record.scope
        &&& self.state == record.state
        &&& self.dependencies == record.descriptor.dependencies
        &&& self.declared_services == record.descriptor.provisions
        &&& self.provided_services@ == record.provided@
        &&& self.task_ids@ == record.tasks@
        &&& self.handler_ids@ == record.handlers@
        &&& self.task_count == record.tasks@.len()
        &&& self.effect_count == record.effects@.len()
        &&& self.disposal_phase == record.disposal.phase
        &&& reads(self.disposal_error, failure_text(record.disposal.result))
        &&& self.unfinished_cleanup == !(record.disposal.phase is Idle
            || record.disposal.phase is Complete)
    }
}

/// Whether the list shows each scope once, in the order of the arena.
pub open spec fn shows_scopes(list: Seq<ScopeSnapshot>, ids: Seq<u64>, scopes: Scopes) -> bool {
    &&& list.len() == ids.len()
    &&& forall|k: int| 0 <= k < list.len() ==> (#[trigger] list[k]).shows(ids[k], scopes[ids[k]])
}

/// Whether the list shows each fiber once, in the order of the arena.
pub open spec fn shows_fibers(list: Seq<FiberSnapshot>, ids: Seq<u64>, fibers: Fibers) -> bool {
    &&& list.len() == ids.len()
    &&& forall|k: int| 0 <= k < list.len() ==> (#[trigger] list[k]).shows(ids[k], fibers[ids[k]])
}

/// The registrations that are visible.
pub open spec fn visible_slots(entries: Entries, gates: GateTable) -> Set<u128> {
    entries.dom().filter(|slot: u128| gates.visible(entries[slot].gate))
}

/// The registrations in a list.
pub open spec fn shown_slots(list: Seq<ServiceSnapshot>) -> Seq<u128> {
    Seq::new(list.len(), |k: int| slot_of(list[k].scope, list[k].symbol))
}

/// Whether the list shows each visible service once, with its owner, and no other.
pub open spec fn shows_services(
    list: Seq<ServiceSnapshot>,
    entries: Entries,
    gates: GateTable,
) -> bool {
    &&& shown_slots(list).no_duplicates()
    &&& shown_slots(list).to_set() == visible_slots(entries, gates)
    &&& forall|k: int|
        0 <= k < list.len() ==> owned_in(
            entries,
            (#[trigger] list[k]).scope,
            list[k].symbol,
            list[k].owner,
        ) && visible_at(entries, gates, list[k].scope, list[k].symbol)
}

/// As many distinct registrations as there are, are all of them.
proof fn lemma_all_slots(slots: Seq<u128>, dom: Set<u128>)
    requires
        dom.finite(),
        slots.no_duplicates(),
        slots.len() == dom.len(),
        forall|k: int| 0 <= k < slots.len() ==> dom.contains(#[trigger] slots[k]),
    ensures
        slots.to_set() == dom,
{
    slots.unique_seq_to_set();
    assert(slots.to_set().subset_of(dom));
    vstd::set_lib::lemma_subset_equality(slots.to_set(), dom);
}

/// Picks the fibers in `state`.
pub open spec fn fibers_in(fibers: Fibers, state: FiberState) -> spec_fn(u64) -> bool {
    |id: u64| fibers[id].state == state
}

/// Picks the fibers whose disposal ended early.
pub open spec fn terminated_fibers(fibers: Fibers) -> spec_fn(u64) -> bool {
    |id: u64| fibers[id].disposal.phase is Terminated
}

/// Picks the fibers that reloads prepare.
pub open spec fn staging_fibers(fibers: Fibers) -> spec_fn(u64) -> bool {
    |id: u64| fibers[id].staged && !(fibers[id].state is Disposed)
}

/// Picks the fibers whose generation is in `state`.
pub open spec fn executing(
    fibers: Fibers,
    gates: GateTable,
    state: GenerationExecutionState,
) -> spec_fn(u64) -> bool {
    |id: u64| gates.at(fibers[id].generation).execution() == state
}

/// Picks the scopes in `state`.
pub open spec fn scopes_in(scopes: Scopes, state: ScopeState) -> spec_fn(u64) -> bool {
    |id: u64| scopes[id].state == state
}

/// Picks the hidden scopes that are not disposed.
pub open spec fn staging_scopes(scopes: Scopes) -> spec_fn(u64) -> bool {
    |id: u64| scopes[id].hidden && !(scopes[id].state is Disposed)
}

/// How many of `ids` are picked.
pub open spec fn how_many(ids: Seq<u64>, pick: spec_fn(u64) -> bool) -> nat {
    ids.filter(pick).len()
}

/// Sums what each of `ids` counts for.
pub open spec fn total(ids: Seq<u64>, weight: spec_fn(u64) -> nat) -> nat
    decreases ids.len(),
{
    if ids.len() == 0 {
        0
    } else {
        total(ids.drop_last(), weight) + weight(ids.last())
    }
}

/// The uses of each fiber's generation that did not end yet.
pub open spec fn uses(fibers: Fibers, gates: GateTable) -> spec_fn(u64) -> nat {
    |id: u64| gates.at(fibers[id].generation).inflight as nat
}

/// The service handles of each fiber's generation.
pub open spec fn handles(fibers: Fibers, gates: GateTable) -> spec_fn(u64) -> nat {
    |id: u64| gates.at(fibers[id].generation).service_handles as nat
}

/// The handlers of each fiber.
pub open spec fn handlers(fibers: Fibers) -> spec_fn(u64) -> nat {
    |id: u64| fibers[id].handlers@.len()
}

/// The condition of a runtime: it fails where cleanup ended early, and is degraded
/// where fibers wait.
pub open spec fn condition(runtime: Runtime) -> RuntimeHealth {
    let ids = runtime.fibers.order();
    let scopes = runtime.scopes.scopes.order();
    let terminated = how_many(scopes, scopes_in(runtime.scopes@, ScopeState::Terminated)) != 0
        || how_many(ids, terminated_fibers(runtime.fibers@)) != 0;
    let waiting = how_many(ids, fibers_in(runtime.fibers@, FiberState::WaitingDependencies)) != 0;
    match runtime.shutdown.lifecycle {
        RuntimeShutdownState::ShuttingDown => RuntimeHealth::ShuttingDown,
        RuntimeShutdownState::Incomplete => RuntimeHealth::Failed,
        RuntimeShutdownState::Running => if terminated {
            RuntimeHealth::Failed
        } else if waiting {
            RuntimeHealth::Degraded
        } else {
            RuntimeHealth::Healthy
        },
        RuntimeShutdownState::Complete => if terminated {
            RuntimeHealth::Failed
        } else {
            RuntimeHealth::Healthy
        },
    }
}

impl RuntimeSnapshot {
    /// Whether this is a snapshot of `runtime`.
    pub open spec fn shows(self, runtime: Runtime) -> bool {
        let ids = runtime.fibers.order();
        let scopes = runtime.scopes.scopes.order();
        let fibers = runtime.fibers@;
        &&& shows_scopes(self.scopes@, scopes, runtime.scopes@)
        &&& shows_fibers(self.fibers@, ids, fibers)
        &&& self.service_count == visible_slots(runtime.services@, runtime.gates).len()
        &&& shows_services(self.services@, runtime.services@, runtime.gates)
        &&& self.handler_count == total(ids, handlers(fibers))
        &&& self.live_fiber_tasks == runtime.tasks.arena@.dom().len()
        &&& self.reaped_tasks == runtime.tasks.reaped
        &&& self.completed_tasks == runtime.tasks.completed
        &&& self.cancelled_tasks == runtime.tasks.cancelled
        &&& self.task_panics == runtime.tasks.panicked
        &&& self.aborted_tasks == runtime.tasks.aborted
        &&& self.live_runtime_workers == runtime.workers.workers@.dom().len()
        &&& self.reaped_runtime_workers == runtime.workers.reaped
        &&& self.runtime_worker_panics == runtime.workers.panicked
        &&& self.runtime_worker_errors == runtime.workers.errors
        &&& self.cancelled_runtime_workers == runtime.workers.cancelled
        &&& self.aborted_runtime_workers == runtime.workers.aborted
        &&& self.active_generation_executions == how_many(
            ids,
            executing(fibers, runtime.gates, GenerationExecutionState::Accepting),
        )
        &&& self.draining_generations == how_many(
            ids,
            executing(fibers, runtime.gates, GenerationExecutionState::Draining),
        )
        &&& self.provider_inflight == total(ids, uses(fibers, runtime.gates))
        &&& self.service_handle_inflight == total(ids, handles(fibers, runtime.gates))
        &&& self.active_reloads == runtime.active_reloads
        &&& self.reload_cleanup_pending == runtime.reload_cleanup_pending
        &&& self.staging_fibers == how_many(ids, staging_fibers(fibers))
        &&& self.staging_scopes == how_many(scopes, staging_scopes(runtime.scopes@))
        &&& self.shutting_down == !(runtime.shutdown.lifecycle is Running)
        &&& self.shutdown_state == runtime.shutdown.lifecycle
        &&& reads(self.shutdown_error, shutdown_text(runtime.shutdown.last_outcome()))
        &&& self.shutdown_in_progress == (runtime.shutdown.lifecycle is ShuttingDown)
        &&& self.terminated_scope_count == how_many(
            scopes,
            scopes_in(runtime.scopes@, ScopeState::Terminated),
        )
        &&& self.terminated_fiber_count == how_many(ids, terminated_fibers(fibers))
    }
}

/// Whether `report` tells the health of `runtime`.
pub open spec fn reports(
    report: HealthReport,
    runtime: Runtime,
    available_invocations: usize,
) -> bool {
    let ids = runtime.fibers.order();
    let scopes = runtime.scopes.scopes.order();
    let fibers = runtime.fibers@;
    &&& report.status == condition(runtime)
    &&& report.active_scopes == how_many(scopes, scopes_in(runtime.scopes@, ScopeState::Active))
    &&& report.active_fibers == how_many(ids, fibers_in(fibers, FiberState::Active))
    &&& report.waiting_fibers == how_many(ids, fibers_in(fibers, FiberState::WaitingDependencies))
    &&& report.disposing_fibers == how_many(ids, fibers_in(fibers, FiberState::Disposing))
    &&& report.terminated_fibers == how_many(ids, terminated_fibers(fibers))
    &&& report.terminated_scopes == how_many(
        scopes,
        scopes_in(runtime.scopes@, ScopeState::Terminated),
    )
    &&& report.active_tasks == runtime.tasks.arena@.dom().len()
    &&& report.reaped_tasks == runtime.tasks.reaped
    &&& report.completed_tasks == runtime.tasks.completed
    &&& report.cancelled_tasks == runtime.tasks.cancelled
    &&& report.task_panics == runtime.tasks.panicked
    &&& report.aborted_tasks == runtime.tasks.aborted
    &&& report.live_runtime_workers == runtime.workers.workers@.dom().len()
    &&& report.reaped_runtime_workers == runtime.workers.reaped
    &&& report.runtime_worker_panics == runtime.workers.panicked
    &&& report.runtime_worker_errors == runtime.workers.errors
    &&& report.cancelled_runtime_workers == runtime.workers.cancelled
    &&& report.aborted_runtime_workers == runtime.workers.aborted
    &&& report.active_invocations == runtime.config.max_concurrent_invocations
        - available_invocations
    &&& report.active_generation_executions == how_many(
        ids,
        executing(fibers, runtime.gates, GenerationExecutionState::Accepting),
    )
    &&& report.draining_generations == how_many(
        ids,
        executing(fibers, runtime.gates, GenerationExecutionState::Draining),
    )
    &&& report.provider_inflight == total(ids, uses(fibers, runtime.gates))
    &&& report.service_handle_inflight == total(ids, handles(fibers, runtime.gates))
    &&& report.active_reloads == runtime.active_reloads
    &&& report.reload_cleanup_pending == runtime.reload_cleanup_pending
    &&& report.staging_fibers == how_many(ids, staging_fibers(fibers))
    &&& report.staging_scopes == how_many(scopes, staging_scopes(runtime.scopes@))
    &&& report.shutdown_state == runtime.shutdown.lifecycle
    &&& report.invocation_successes == runtime.diagnostics.successes
    &&& report.invocation_errors == runtime.diagnostics.errors
    &&& report.invocation_timeouts == runtime.diagnostics.timeouts
    &&& report.invocation_cancellations == runtime.diagnostics.cancellations
    &&& report.invocation_panics == runtime.diagnostics.panics
    &&& report.quota_rejections == runtime.diagnostics.quota_rejections
    &&& report.recent_errors@ == runtime.diagnostics.recent@
}

proof fn lemma_next_count(ids: Seq<u64>, i: int, pick: spec_fn(u64) -> bool)
    requires
        0 <= i < ids.len(),
    ensures
        how_many(ids.take(i + 1), pick) == how_many(ids.take(i), pick) + (if pick(ids[i]) {
            1nat
        } else {
            0nat
        }),
{
    reveal(Seq::filter);
    assert(ids.take(i + 1).drop_last() =~= ids.take(i));
}

proof fn lemma_next_total(ids: Seq<u64>, i: int, weight: spec_fn(u64) -> nat)
    requires
        0 <= i < ids.len(),
    ensures
        total(ids.take(i + 1), weight) == total(ids.take(i), weight) + weight(ids[i]),
{
    assert(ids.take(i + 1).drop_last() =~= ids.take(i));
}

proof fn lemma_total_grows(ids: Seq<u64>, i: int, weight: spec_fn(u64) -> nat)
    requires
        0 <= i <= ids.len(),
    ensures
        total(ids.take(i), weight) <= total(ids, weight),
    decreases ids.len() - i,
{
    if i < ids.len() {
        lemma_next_total(ids, i, weight);
        lemma_total_grows(ids, i + 1, weight);
    } else {
        assert(ids.take(i) =~= ids);
    }
}

fn failure(result: &Option<Result<(), CordisError>>) -> (text: Option<String>)
    ensures
        reads(text, failure_text(*result)),
{
    match result {
        Some(Err(error)) => Some(error.to_string()),
        _ => None,
    }
}

fn shutdown_error(outcome: &Option<Arc<ShutdownOutcome>>) -> (text: Option<String>)
    ensures
        reads(text, shutdown_text(*outcome)),
{
    match outcome {
        None => None,
        Some(outcome) => match &**outcome {
            ShutdownOutcome::Complete => None,
            ShutdownOutcome::CompleteWithIssues { issues } => {
                let count = decimal_text(issues.len() as u64);
                Some(concat(&concat("shutdown completed with ", &count), " cleanup issue(s)"))
            },
            ShutdownOutcome::Incomplete { blockers, issues: _ } => {
                let count = decimal_text(blockers.len() as u64);
                Some(concat(&concat("shutdown incomplete with ", &count), " blocker(s)"))
            },
        },
    }
}

fn show_scope(id: u64, record: &ScopeRecord) -> (shown: ScopeSnapshot)
    ensures
        shown.shows(id, *record),
{
    ScopeSnapshot {
        id: ScopeId { raw: id },
        name: record.name.clone(),
        parent: record.parent,
        disposed: record.state != ScopeState::Active,
        state: record.state,
        disposal_error: failure(&record.disposal.result),
        unfinished_cleanup: record.state == ScopeState::Disposing || record.state
            == ScopeState::Terminated,
        child_count: record.children.len(),
        fiber_count: record.fibers.len(),
        hidden: record.hidden,
    }
}

fn show_fiber(id: u64, record: &FiberRecord) -> (shown: FiberSnapshot)
    ensures
        shown.shows(id, *record),
{
    let task_ids = record.tasks.clone();
    let handler_ids = record.handlers.clone();
    proof {
        assert(task_ids@ =~= record.tasks@);
        assert(handler_ids@ =~= record.handlers@);
    }
    FiberSnapshot {
        id: FiberId { raw: id },
        plugin_id: record.plugin_id,
        plugin: record.descriptor.name.clone(),
        scope: record.scope,
        state: record.state,
        dependencies: record.descriptor.dependencies.clone(),
        declared_services: record.descriptor.provisions.clone(),
        provided_services: clone_keys(&record.provided),
        task_ids,
        handler_ids,
        task_count: record.tasks.len(),
        effect_count: record.effects.len(),
        disposal_phase: record.disposal.phase,
        disposal_error: failure(&record.disposal.result),
        unfinished_cleanup: !(record.disposal.phase == DisposalPhase::Idle || record.disposal.phase
            == DisposalPhase::Complete),
    }
}

impl Runtime {
    /// Whether the sums over the fibers can be told.
    pub open spec fn sums_fit(&self) -> bool {
        let ids = self.fibers.order();
        &&& total(ids, uses(self.fibers@, self.gates)) <= usize::MAX
        &&& total(ids, handles(self.fibers@, self.gates)) <= usize::MAX
        &&& total(ids, handlers(self.fibers@)) <= usize::MAX
    }

    /// Whether the sums over the fibers can be told.
    pub fn can_sum(&self) -> (fits: bool)
        requires
            self.wf(),
        ensures
            fits == self.sums_fit(),
    {
        let ids = self.fibers.ids();
        let ghost all = (
            uses(self.fibers@, self.gates),
            handles(self.fibers@, self.gates),
            handlers(self.fibers@),
        );
        let mut inflight: usize = 0;
        let mut handle_count: usize = 0;
        let mut handler_count: usize = 0;
        let mut i: usize = 0;
        while i < ids.len()
            invariant
                self.wf(),
                ids@ == self.fibers.order(),
                forall|id: u64| #[trigger] self.fibers@.dom().contains(id) <==> ids@.contains(id),
                all.0 == uses(self.fibers@, self.gates),
                all.1 == handles(self.fibers@, self.gates),
                all.2 == handlers(self.fibers@),
                i <= ids@.len(),
                inflight == total(ids@.take(i as int), all.0),
                handle_count == total(ids@.take(i as int), all.1),
                handler_count == total(ids@.take(i as int), all.2),
            decreases ids@.len() - i,
        {
            let id = ids[i];
            proof {
                assert(ids@.contains(id));
                lemma_next_total(ids@, i as int, all.0);
                lemma_next_total(ids@, i as int, all.1);
                lemma_next_total(ids@, i as int, all.2);
                lemma_total_grows(ids@, i + 1, all.0);
                lemma_total_grows(ids@, i + 1, all.1);
                lemma_total_grows(ids@, i + 1, all.2);
            }
            if let Some(record) = self.fibers.get(id) {
                let gate = self.gates.get(record.generation);
                let handlers_here = record.handlers.len();
                match (
                    inflight.checked_add(gate.inflight),
                    handle_count.checked_add(gate.service_handles),
                    handler_count.checked_add(handlers_here),
                ) {
                    (Some(a), Some(b), Some(c)) => {
                        inflight = a;
                        handle_count = b;
                        handler_count = c;
                    },
                    _ => return false,
                }
            }
            i += 1;
        }
        proof {
            assert(ids@.take(i as int) =~= ids@);
        }
        true
    }

    /// How many fibers are in `state`.
    pub(crate) fn count_fibers_in(&self, state: FiberState) -> (count: usize)
        requires
            self.wf(),
        ensures
            count == how_many(self.fibers.order(), fibers_in(self.fibers@, state)),
    {
        let ids = self.fibers.ids();
        let ghost pick = fibers_in(self.fibers@, state);
        let mut count: usize = 0;
        let mut i: usize = 0;
        while i < ids.len()
            invariant
                self.wf(),
                ids@ == self.fibers.order(),
                forall|id: u64| #[trigger] self.fibers@.dom().contains(id) <==> ids@.contains(id),
                pick == fibers_in(self.fibers@, state),
                i <= ids@.len(),
                count <= i,
                count == how_many(ids@.take(i as int), pick),
            decreases ids@.len() - i,
        {
            let id = ids[i];
            proof {
                assert(ids@.contains(id));
                lemma_next_count(ids@, i as int, pick);
            }
            if let Some(record) = self.fibers.get(id) {
                if record.state == state {
                    count += 1;
                }
            }
            i += 1;
        }
        proof {
            assert(ids@.take(i as int) =~= ids@);
        }
        count
    }

    /// How many fibers were not cleaned up to the end.
    pub(crate) fn count_terminated_fibers(&self) -> (count: usize)
        requires
            self.wf(),
        ensures
            count == how_many(self.fibers.order(), terminated_fibers(self.fibers@)),
    {
        let ids = self.fibers.ids();
        let ghost pick = terminated_fibers(self.fibers@);
        let mut count: usize = 0;
        let mut i: usize = 0;
        while i < ids.len()
            invariant
                self.wf(),
                ids@ == self.fibers.order(),
                forall|id: u64| #[trigger] self.fibers@.dom().contains(id) <==> ids@.contains(id),
                pick == terminated_fibers(self.fibers@),
                i <= ids@.len(),
                count <= i,
                count == how_many(ids@.take(i as int), pick),
            decreases ids@.len() - i,
        {
            let id = ids[i];
            proof {
                assert(ids@.contains(id));
                lemma_next_count(ids@, i as int, pick);
            }
            if let Some(record) = self.fibers.get(id) {
                if record.disposal.phase == DisposalPhase::Terminated {
                    count += 1;
                }
            }
            i += 1;
        }
        proof {
            assert(ids@.take(i as int) =~= ids@);
        }
        count
    }

    /// How many fibers reloads prepare.
    pub(crate) fn count_staging_fibers(&self) -> (count: usize)
        requires
            self.wf(),
        ensures
            count == how_many(self.fibers.order(), staging_fibers(self.fibers@)),
    {
        let ids = self.fibers.ids();
        let ghost pick = staging_fibers(self.fibers@);
        let mut count: usize = 0;
        let mut i: usize = 0;
        while i < ids.len()
            invariant
                self.wf(),
                ids@ == self.fibers.order(),
                forall|id: u64| #[trigger] self.fibers@.dom().contains(id) <==> ids@.contains(id),
                pick == staging_fibers(self.fibers@),
                i <= ids@.len(),
                count <= i,
                count == how_many(ids@.take(i as int), pick),
            decreases ids@.len() - i,
        {
            let id = ids[i];
            proof {
                assert(ids@.contains(id));
                lemma_next_count(ids@, i as int, pick);
            }
            if let Some(record) = self.fibers.get(id) {
                if record.staged && record.state != FiberState::Disposed {
                    count += 1;
                }
            }
            i += 1;
        }
        proof {
            assert(ids@.take(i as int) =~= ids@);
        }
        count
    }

    /// How many fibers have a generation in `state`.
    pub(crate) fn count_executing(&self, state: GenerationExecutionState) -> (count: usize)
        requires
            self.wf(),
        ensures
            count == how_many(self.fibers.order(), executing(self.fibers@, self.gates, state)),
    {
        let ids = self.fibers.ids();
        let ghost pick = executing(self.fibers@, self.gates, state);
        let mut count: usize = 0;
        let mut i: usize = 0;
        while i < ids.len()
            invariant
                self.wf(),
                ids@ == self.fibers.order(),
                forall|id: u64| #[trigger] self.fibers@.dom().contains(id) <==> ids@.contains(id),
                pick == executing(self.fibers@, self.gates, state),
                i <= ids@.len(),
                count <= i,
                count == how_many(ids@.take(i as int), pick),
            decreases ids@.len() - i,
        {
            let id = ids[i];
            proof {
                assert(ids@.contains(id));
                lemma_next_count(ids@, i as int, pick);
            }
            if let Some(record) = self.fibers.get(id) {
                if self.gates.get(record.generation).execution_snapshot().0 == state {
                    count += 1;
                }
            }
            i += 1;
        }
        proof {
            assert(ids@.take(i as int) =~= ids@);
        }
        count
    }

    /// How many scopes are in `state`.
    pub(crate) fn count_scopes_in(&self, state: ScopeState) -> (count: usize)
        requires
            self.wf(),
        ensures
            count == how_many(self.scopes.scopes.order(), scopes_in(self.scopes@, state)),
    {
        let ids = self.scopes.ids();
        let ghost pick = scopes_in(self.scopes@, state);
        let mut count: usize = 0;
        let mut i: usize = 0;
        while i < ids.len()
            invariant
                self.wf(),
                ids@ == self.scopes.scopes.order(),
                forall|id: u64| #[trigger] self.scopes@.dom().contains(id) <==> ids@.contains(id),
                pick == scopes_in(self.scopes@, state),
                i <= ids@.len(),
                count <= i,
                count == how_many(ids@.take(i as int), pick),
            decreases ids@.len() - i,
        {
            let id = ids[i];
            proof {
                assert(ids@.contains(id));
                lemma_next_count(ids@, i as int, pick);
            }
            if let Some(record) = self.scopes.get(ScopeId { raw: id }) {
                if record.state == state {
                    count += 1;
                }
            }
            i += 1;
        }
        proof {
            assert(ids@.take(i as int) =~= ids@);
        }
        count
    }

    /// How many hidden scopes are not disposed.
    pub(crate) fn count_staging_scopes(&self) -> (count: usize)
        requires
            self.wf(),
        ensures
            count == how_many(self.scopes.scopes.order(), staging_scopes(self.scopes@)),
    {
        let ids = self.scopes.ids();
        let ghost pick = staging_scopes(self.scopes@);
        let mut count: usize = 0;
        let mut i: usize = 0;
        while i < ids.len()
            invariant
                self.wf(),
                ids@ == self.scopes.scopes.order(),
                forall|id: u64| #[trigger] self.scopes@.dom().contains(id) <==> ids@.contains(id),
                pick == staging_scopes(self.scopes@),
                i <= ids@.len(),
                count <= i,
                count == how_many(ids@.take(i as int), pick),
            decreases ids@.len() - i,
        {
            let id = ids[i];
            proof {
                assert(ids@.contains(id));
                lemma_next_count(ids@, i as int, pick);
            }
            if let Some(record) = self.scopes.get(ScopeId { raw: id }) {
                if record.hidden && record.state != ScopeState::Disposed {
                    count += 1;
                }
            }
            i += 1;
        }
        proof {
            assert(ids@.take(i as int) =~= ids@);
        }
        count
    }

    /// How many uses of generations did not end yet.
    fn sum_uses(&self) -> (sum: usize)
        requires
            self.wf(),
            total(self.fibers.order(), uses(self.fibers@, self.gates)) <= usize::MAX,
        ensures
            sum == total(self.fibers.order(), uses(self.fibers@, self.gates)),
    {
        let ids = self.fibers.ids();
        let ghost weight = uses(self.fibers@, self.gates);
        let mut sum: usize = 0;
        let mut i: usize = 0;
        while i < ids.len()
            invariant
                self.wf(),
                ids@ == self.fibers.order(),
                forall|id: u64| #[trigger] self.fibers@.dom().contains(id) <==> ids@.contains(id),
                weight == uses(self.fibers@, self.gates),
                total(ids@, weight) <= usize::MAX,
                i <= ids@.len(),
                sum == total(ids@.take(i as int), weight),
            decreases ids@.len() - i,
        {
            let id = ids[i];
            proof {
                assert(ids@.contains(id));
                lemma_next_total(ids@, i as int, weight);
                lemma_total_grows(ids@, i + 1, weight);
            }
            if let Some(record) = self.fibers.get(id) {
                sum += self.gates.get(record.generation).inflight;
            }
            i += 1;
        }
        proof {
            assert(ids@.take(i as int) =~= ids@);
        }
        sum
    }

    /// How many service handles live.
    fn sum_handles(&self) -> (sum: usize)
        requires
            self.wf(),
            total(self.fibers.order(), handles(self.fibers@, self.gates)) <= usize::MAX,
        ensures
            sum == total(self.fibers.order(), handles(self.fibers@, self.gates)),
    {
        let ids = self.fibers.ids();
        let ghost weight = handles(self.fibers@, self.gates);
        let mut sum: usize = 0;
        let mut i: usize = 0;
        while i < ids.len()
            invariant
                self.wf(),
                ids@ == self.fibers.order(),
                forall|id: u64| #[trigger] self.fibers@.dom().contains(id) <==> ids@.contains(id),
                weight == handles(self.fibers@, self.gates),
                total(ids@, weight) <= usize::MAX,
                i <= ids@.len(),
                sum == total(ids@.take(i as int), weight),
            decreases ids@.len() - i,
        {
            let id = ids[i];
            proof {
                assert(ids@.contains(id));
                lemma_next_total(ids@, i as int, weight);
                lemma_total_grows(ids@, i + 1, weight);
            }
            if let Some(record) = self.fibers.get(id) {
                sum += self.gates.get(record.generation).service_handles;
            }
            i += 1;
        }
        proof {
            assert(ids@.take(i as int) =~= ids@);
        }
        sum
    }

    /// How many handlers there are.
    fn sum_handlers(&self) -> (sum: usize)
        requires
            self.wf(),
            total(self.fibers.order(), handlers(self.fibers@)) <= usize::MAX,
        ensures
            sum == total(self.fibers.order(), handlers(self.fibers@)),
    {
        let ids = self.fibers.ids();
        let ghost weight = handlers(self.fibers@);
        let mut sum: usize = 0;
        let mut i: usize = 0;
        while i < ids.len()
            invariant
                self.wf(),
                ids@ == self.fibers.order(),
                forall|id: u64| #[trigger] self.fibers@.dom().contains(id) <==> ids@.contains(id),
                weight == handlers(self.fibers@),
                total(ids@, weight) <= usize::MAX,
                i <= ids@.len(),
                sum == total(ids@.take(i as int), weight),
            decreases ids@.len() - i,
        {
            let id = ids[i];
            proof {
                assert(ids@.contains(id));
                lemma_next_total(ids@, i as int, weight);
                lemma_total_grows(ids@, i + 1, weight);
            }
            if let Some(record) = self.fibers.get(id) {
                sum += record.handlers.len();
            }
            i += 1;
        }
        proof {
            assert(ids@.take(i as int) =~= ids@);
        }
        sum
    }

    fn show_scopes(&self) -> (list: Vec<ScopeSnapshot>)
        requires
            self.wf(),
        ensures
            shows_scopes(list@, self.scopes.scopes.order(), self.scopes@),
    {
        let ids = self.scopes.ids();
        let mut list: Vec<ScopeSnapshot> = Vec::new();
        let mut i: usize = 0;
        while i < ids.len()
            invariant
                self.wf(),
                forall|id: u64| #[trigger] self.scopes@.dom().contains(id) <==> ids@.contains(id),
                i <= ids@.len(),
                list@.len() == i,
                forall|k: int|
                    0 <= k < i ==> (#[trigger] list@[k]).shows(ids@[k], self.scopes@[ids@[k]]),
            decreases ids@.len() - i,
        {
            let id = ids[i];
            proof {
                assert(ids@.contains(id));
            }
            if let Some(record) = self.scopes.get(ScopeId { raw: id }) {
                list.push(show_scope(id, record));
            }
            i += 1;
        }
        list
    }

    fn show_fibers(&self) -> (list: Vec<FiberSnapshot>)
        requires
            self.wf(),
        ensures
            shows_fibers(list@, self.fibers.order(), self.fibers@),
    {
        let ids = self.fibers.ids();
        let mut list: Vec<FiberSnapshot> = Vec::new();
        let mut i: usize = 0;
        while i < ids.len()
            invariant
                self.wf(),
                forall|id: u64| #[trigger] self.fibers@.dom().contains(id) <==> ids@.contains(id),
                i <= ids@.len(),
                list@.len() == i,
                forall|k: int|
                    0 <= k < i ==> (#[trigger] list@[k]).shows(ids@[k], self.fibers@[ids@[k]]),
            decreases ids@.len() - i,
        {
            let id = ids[i];
            proof {
                assert(ids@.contains(id));
            }
            if let Some(record) = self.fibers.get(id) {
                list.push(show_fiber(id, record));
            }
            i += 1;
        }
        list
    }

    fn show_services(&self) -> (list: Vec<ServiceSnapshot>)
        requires
            self.wf(),
        ensures
            shows_services(list@, self.services@, self.gates),
            list@.len() == visible_slots(self.services@, self.gates).len(),
    {
        let entries = self.services.snapshots();
        let ghost slots = Seq::new(entries@.len(), |k: int| slot_of(entries@[k].0, entries@[k].1));
        let ghost dom = self.services@.dom();
        let ghost visible = visible_slots(self.services@, self.gates);
        proof {
            lemma_all_slots(slots, dom);
            assert(slots.take(0).to_set().intersect(visible) =~= Set::<u128>::empty());
        }
        let mut list: Vec<ServiceSnapshot> = Vec::new();
        let mut i: usize = 0;
        while i < entries.len()
            invariant
                self.wf(),
                i <= entries@.len(),
                lists_entries(entries@, self.services@),
                slots == Seq::new(
                    entries@.len(),
                    |k: int| slot_of(entries@[k].0, entries@[k].1),
                ),
                slots.no_duplicates(),
                visible == visible_slots(self.services@, self.gates),
                visible.finite(),
                shown_slots(list@).no_duplicates(),
                shown_slots(list@).to_set() == slots.take(i as int).to_set().intersect(visible),
                forall|k: int|
                    0 <= k < list@.len() ==> owned_in(
                        self.services@,
                        (#[trigger] list@[k]).scope,
                        list@[k].symbol,
                        list@[k].owner,
                    ),
            decreases entries@.len() - i,
        {
            let (scope, symbol, owner) = entries[i];
            let ghost slot = slot_of(scope, symbol);
            let ghost before = shown_slots(list@);
            proof {
                assert(owned_in(
                    self.services@,
                    entries@[i as int].0,
                    entries@[i as int].1,
                    entries@[i as int].2,
                ));
                assert(slots[i as int] == slot);
                assert(slots.take(i + 1) =~= slots.take(i as int).push(slot));
                assert(slots.take(i + 1).to_set() =~= slots.take(i as int).to_set().insert(slot)) by {
                    assert forall|other: u128|
                        slots.take(i + 1).to_set().contains(other) == slots.take(
                            i as int,
                        ).to_set().insert(slot).contains(other) by {
                        vstd::seq_lib::lemma_seq_contains_after_push(
                            slots.take(i as int),
                            slot,
                            other,
                        );
                    }
                }
                assert(!slots.take(i as int).contains(slot));
                if before.contains(slot) {
                    assert(before.to_set().contains(slot));
                }
            }
            let shown: bool = match self.services.get(scope, symbol) {
                Some(entry) => self.gates.is_visible(entry.gate),
                None => false,
            };
            if shown {
                list.push(ServiceSnapshot { scope, symbol, owner });
                proof {
                    assert(shown_slots(list@) =~= before.push(slot));
                    assert forall|other: u128|
                        shown_slots(list@).to_set().contains(other) == slots.take(
                            i + 1,
                        ).to_set().intersect(visible).contains(other) by {
                        vstd::seq_lib::lemma_seq_contains_after_push(before, slot, other);
                        assert(before.to_set().contains(other) == before.contains(other));
                    }
                    assert(shown_slots(list@).to_set() =~= slots.take(i + 1).to_set().intersect(
                        visible,
                    ));
                }
            } else {
                proof {
                    assert(shown_slots(list@).to_set() =~= slots.take(i + 1).to_set().intersect(
                        visible,
                    ));
                }
            }
            i += 1;
        }
        proof {
            assert(slots.take(i as int) =~= slots);
            assert(slots.to_set().intersect(visible) =~= visible);
            shown_slots(list@).unique_seq_to_set();
            assert forall|k: int| 0 <= k < list@.len() implies visible.contains(
                slot_of((#[trigger] list@[k]).scope, list@[k].symbol),
            ) by {
                assert(shown_slots(list@)[k] == slot_of(list@[k].scope, list@[k].symbol));
                assert(shown_slots(list@).to_set().contains(shown_slots(list@)[k]));
            }
        }
        list
    }

    /// Returns an introspection snapshot.
    pub fn snapshot(&self) -> (shown: RuntimeSnapshot)
        requires
            self.wf(),
            self.sums_fit(),
        ensures
            shown.shows(*self),
    {
        let (shutdown_state, outcome, shutdown_in_progress) = self.shutdown.snapshot();
        let services = self.show_services();
        RuntimeSnapshot {
            scopes: self.show_scopes(),
            fibers: self.show_fibers(),
            service_count: services.len(),
            services,
            handler_count: self.sum_handlers(),
            live_fiber_tasks: self.tasks.live_fiber_tasks(),
            reaped_tasks: self.tasks.reaped,
            completed_tasks: self.tasks.completed,
            cancelled_tasks: self.tasks.cancelled,
            task_panics: self.tasks.panicked,
            aborted_tasks: self.tasks.aborted,
            live_runtime_workers: self.workers.live(),
            reaped_runtime_workers: self.workers.reaped,
            runtime_worker_panics: self.workers.panicked,
            runtime_worker_errors: self.workers.errors,
            cancelled_runtime_workers: self.workers.cancelled,
            aborted_runtime_workers: self.workers.aborted,
            active_generation_executions: self.count_executing(GenerationExecutionState::Accepting),
            draining_generations: self.count_executing(GenerationExecutionState::Draining),
            provider_inflight: self.sum_uses(),
            service_handle_inflight: self.sum_handles(),
            active_reloads: self.active_reloads,
            reload_cleanup_pending: self.reload_cleanup_pending,
            staging_fibers: self.count_staging_fibers(),
            staging_scopes: self.count_staging_scopes(),
            shutting_down: shutdown_state != RuntimeShutdownState::Running,
            shutdown_state,
            shutdown_error: shutdown_error(&outcome),
            shutdown_in_progress,
            terminated_scope_count: self.count_scopes_in(ScopeState::Terminated),
            terminated_fiber_count: self.count_terminated_fibers(),
        }
    }

    /// Returns a payload-free health report. `available_invocations` tells how
    /// many more invocations may run now.
    pub fn health(&self, available_invocations: usize) -> (report: HealthReport)
        requires
            self.wf(),
            self.sums_fit(),
            available_invocations <= self.config.max_concurrent_invocations,
        ensures
            reports(report, *self, available_invocations),
    {
        let shutdown_state = self.shutdown.state();
        let terminated_scopes = self.count_scopes_in(ScopeState::Terminated);
        let terminated_fibers = self.count_terminated_fibers();
        let waiting_fibers = self.count_fibers_in(FiberState::WaitingDependencies);
        let status = match shutdown_state {
            RuntimeShutdownState::ShuttingDown => RuntimeHealth::ShuttingDown,
            RuntimeShutdownState::Incomplete => RuntimeHealth::Failed,
            RuntimeShutdownState::Running => {
                if terminated_scopes != 0 || terminated_fibers != 0 {
                    RuntimeHealth::Failed
                } else if waiting_fibers != 0 {
                    RuntimeHealth::Degraded
                } else {
                    RuntimeHealth::Healthy
                }
            },
            RuntimeShutdownState::Complete => {
                if terminated_scopes != 0 || terminated_fibers != 0 {
                    RuntimeHealth::Failed
                } else {
                    RuntimeHealth::Healthy
                }
            },
        };
        HealthReport {
            status,
            active_scopes: self.count_scopes_in(ScopeState::Active),
            active_fibers: self.count_fibers_in(FiberState::Active),
            waiting_fibers,
            disposing_fibers: self.count_fibers_in(FiberState::Disposing),
            terminated_fibers,
            terminated_scopes,
            active_tasks: self.tasks.live_fiber_tasks(),
            reaped_tasks: self.tasks.reaped,
            completed_tasks: self.tasks.completed,
            cancelled_tasks: self.tasks.cancelled,
            task_panics: self.tasks.panicked,
            aborted_tasks: self.tasks.aborted,
            live_runtime_workers: self.workers.live(),
            reaped_runtime_workers: self.workers.reaped,
            runtime_worker_panics: self.workers.panicked,
            runtime_worker_errors: self.workers.errors,
            cancelled_runtime_workers: self.workers.cancelled,
            aborted_runtime_workers: self.workers.aborted,
            active_invocations: self.config.max_concurrent_invocations - available_invocations,
            active_generation_executions: self.count_executing(GenerationExecutionState::Accepting),
            draining_generations: self.count_executing(GenerationExecutionState::Draining),
            provider_inflight: self.sum_uses(),
            service_handle_inflight: self.sum_handles(),
            active_reloads: self.active_reloads,
            reload_cleanup_pending: self.reload_cleanup_pending,
            staging_fibers: self.count_staging_fibers(),
            staging_scopes: self.count_staging_scopes(),
            shutdown_state,
            invocation_successes: self.diagnostics.successes,
            invocation_errors: self.diagnostics.errors,
            invocation_timeouts: self.diagnostics.timeouts,
            invocation_cancellations: self.diagnostics.cancellations,
            invocation_panics: self.diagnostics.panics,
            quota_rejections: self.diagnostics.quota_rejections,
            recent_errors: self.diagnostics.recent(),
        }
    }
}

/// How many entries of a list are picked, by the ids that they stand for.
proof fn lemma_count_shown<T>(
    list: Seq<T>,
    ids: Seq<u64>,
    shown: spec_fn(T) -> bool,
    pick: spec_fn(u64) -> bool,
)
    requires
        list.len() == ids.len(),
        forall|k: int| 0 <= k < list.len() ==> shown(#[trigger] list[k]) == pick(ids[k]),
    ensures
        list.filter(shown).len() == how_many(ids, pick),
    decreases list.len(),
{
    reveal(Seq::filter);
    if list.len() > 0 {
        assert(list[list.len() - 1] == list.last());
        assert forall|k: int| 0 <= k < list.drop_last().len() implies shown(
            #[trigger] list.drop_last()[k],
        ) == pick(ids.drop_last()[k]) by {
            assert(list.drop_last()[k] == list[k]);
        }
        lemma_count_shown(list.drop_last(), ids.drop_last(), shown, pick);
    }
}

/// Picks the scopes that a snapshot shows as terminated.
pub open spec fn shown_terminated_scope() -> spec_fn(ScopeSnapshot) -> bool {
    |scope: ScopeSnapshot| scope.state is Terminated
}

/// Picks the fibers that a snapshot shows as terminated.
pub open spec fn shown_terminated_fiber() -> spec_fn(FiberSnapshot) -> bool {
    |fiber: FiberSnapshot| fiber.disposal_phase is Terminated
}

/// The fields of a snapshot agree with one another: counts with lists, flags with states, and
/// only the root has no parent.
pub proof fn law_snapshots_agree(runtime: Runtime, snapshot: RuntimeSnapshot)
    requires
        runtime.wf(),
        snapshot.shows(runtime),
    ensures
        snapshot.service_count == snapshot.services@.len(),
        snapshot.shutting_down == !(snapshot.shutdown_state is Running),
        snapshot.shutdown_in_progress == (snapshot.shutdown_state is ShuttingDown),
        forall|k: int|
            0 <= k < snapshot.scopes@.len() ==> {
                let scope = #[trigger] snapshot.scopes@[k];
                &&& scope.disposed == !(scope.state is Active)
                &&& scope.unfinished_cleanup == (scope.state is Disposing
                    || scope.state is Terminated)
                &&& scope.parent is None <==> scope.id == runtime.scopes.root
            },
        forall|k: int|
            0 <= k < snapshot.fibers@.len() ==> {
                let fiber = #[trigger] snapshot.fibers@[k];
                &&& fiber.task_count == fiber.task_ids@.len()
                &&& fiber.unfinished_cleanup == !(fiber.disposal_phase is Idle
                    || fiber.disposal_phase is Complete)
            },
        snapshot.terminated_scope_count == snapshot.scopes@.filter(
            shown_terminated_scope(),
        ).len(),
        snapshot.terminated_fiber_count == snapshot.fibers@.filter(
            shown_terminated_fiber(),
        ).len(),
{
    shown_slots(snapshot.services@).unique_seq_to_set();
    runtime.scopes.scopes.lemma_order();
    let order = runtime.scopes.scopes.order();
    assert forall|k: int| 0 <= k < snapshot.scopes@.len() implies {
        let scope = #[trigger] snapshot.scopes@[k];
        &&& scope.disposed == !(scope.state is Active)
        &&& scope.unfinished_cleanup == (scope.state is Disposing || scope.state is Terminated)
        &&& scope.parent is None <==> scope.id == runtime.scopes.root
    } by {
        assert(order.contains(order[k]));
        assert(runtime.scopes@.dom().contains(order[k]));
    }
    lemma_count_shown(
        snapshot.scopes@,
        order,
        shown_terminated_scope(),
        scopes_in(runtime.scopes@, ScopeState::Terminated),
    );
    lemma_count_shown(
        snapshot.fibers@,
        runtime.fibers.order(),
        shown_terminated_fiber(),
        terminated_fibers(runtime.fibers@),
    );
}

} // verus!
