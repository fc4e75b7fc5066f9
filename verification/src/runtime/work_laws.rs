//! What is promised of tasks, workers, hosted processes, scheduled activations and collections
//! of garbage.
#[allow(unused_imports)]
use super::context::ends_task;
#[allow(unused_imports)]
use super::disposal::{asks_to_go, joins_task};
#[allow(unused_imports)]
use super::garbage::{
    collects, detached_all, requests_gc, retired_all, runs_gc_round, GarbageReport,
};
#[allow(unused_imports)]
use super::laws::is_sound;
#[allow(unused_imports)]
use super::lifecycle::{
    is_new, marks_host_failure, schedules, settles_activation, settles_host_failure,
};
#[allow(unused_imports)]
use super::scope::DisposalStart;
#[allow(unused_imports)]
use super::work::{
    accepts_install, ends_worker, hosts, joins_worker, reaps_hosted, stops_workers,
    submits_host_failure,
};
#[allow(unused_imports)]
use super::Runtime;
#[allow(unused_imports)]
use crate::arena::id_version;
#[allow(unused_imports)]
use crate::config::RuntimeConfig;
#[allow(unused_imports)]
use crate::dependency_graph::Edge;
#[allow(unused_imports)]
use crate::error::CordisError;
#[allow(unused_imports)]
use crate::fiber_registry::{FiberRecord, Fibers};
#[allow(unused_imports)]
use crate::gate::CapabilityGate;
#[allow(unused_imports)]
use crate::health::{noted, HealthIssue};
#[allow(unused_imports)]
use crate::ids::{FiberId, GenerationId, PluginId, TaskId};
#[allow(unused_imports)]
use crate::state::FiberState;
#[allow(unused_imports)]
use crate::task::{DrainedWorker, JoinOutcome, TakenTask, TaskDrain, TaskOutcome, WorkerEnd};
use vstd::prelude::*;

verus! {

/// The notes keep what is new: the last one is the one that was made last, the order stays,
/// and only the oldest makes room where there are as many as are kept.
pub proof fn law_notes_keep_the_newest(recent: Seq<HealthIssue>, issue: HealthIssue)
    ensures
        noted(recent, issue).len() > 0,
        noted(recent, issue)[noted(recent, issue).len() - 1] == issue,
        recent.len() < 64 ==> noted(recent, issue).len() == recent.len() + 1 && forall|k: int|
            0 <= k < recent.len() ==> #[trigger] noted(recent, issue)[k] == recent[k],
        recent.len() == 64 ==> noted(recent, issue).len() == 64 && forall|k: int|
            0 <= k < 63 ==> #[trigger] noted(recent, issue)[k] == recent[k + 1],
{
}

/// Every task that ends is counted once as reaped and once by how it ended, and a panic is
/// noted with the fiber and the scope of the task; no other end is noted.
pub proof fn law_ended_tasks_are_counted(
    before: Runtime,
    after: Runtime,
    id: TaskId,
    outcome: TaskOutcome,
)
    requires
        before.tasks.arena@.dom().contains(id.raw),
        ends_task(before, after, id, outcome),
        before.tasks.reaped < u64::MAX,
        before.tasks.completed < u64::MAX,
        before.tasks.cancelled < u64::MAX,
        before.tasks.panicked < u64::MAX,
        before.tasks.aborted < u64::MAX,
    ensures
        !after.tasks.arena@.dom().contains(id.raw),
        forall|other: u64| #[trigger]
            before.tasks.arena@.dom().contains(other) && other != id.raw
                ==> after.tasks.arena@.dom().contains(other) && after.tasks.arena@[other]
                == before.tasks.arena@[other],
        after.tasks.reaped == before.tasks.reaped + 1,
        after.tasks.completed - before.tasks.completed == if outcome is Completed {
            1int
        } else {
            0int
        },
        after.tasks.cancelled - before.tasks.cancelled == if outcome is Cancelled {
            1int
        } else {
            0int
        },
        after.tasks.panicked - before.tasks.panicked == if outcome is Panicked {
            1int
        } else {
            0int
        },
        after.tasks.aborted - before.tasks.aborted == if outcome is Aborted {
            1int
        } else {
            0int
        },
        !(outcome is Panicked) ==> after.diagnostics.recent@ == before.diagnostics.recent@,
        outcome is Panicked ==> ({
            let task = before.tasks.arena@[id.raw];
            let last = after.diagnostics.recent@.last();
            &&& after.diagnostics.recent@.len() > 0
            &&& last.kind is TaskPanic
            &&& last.fiber == Some(task.owner)
            &&& last.scope == Some(task.scope)
            &&& last.at == before.diagnostics.now
        }),
{
}

/// Every task that a disposal took over is counted when it is joined, as it ended; one that was
/// torn down counts as aborted, or as panicked where a panic did it. The disposal learns of a
/// panic of any of them, and does not forget it.
pub proof fn law_joined_tasks_are_counted(
    before: Runtime,
    after: Runtime,
    drain: TaskDrain,
    later: TaskDrain,
    task: TakenTask,
    join: JoinOutcome,
)
    requires
        joins_task(before, after, drain, later, task, join),
        before.tasks.reaped < u64::MAX,
        before.tasks.completed < u64::MAX,
        before.tasks.cancelled < u64::MAX,
        before.tasks.panicked < u64::MAX,
        before.tasks.aborted < u64::MAX,
    ensures
        ({
            let panicked = join is PanickedOutside || (join matches JoinOutcome::Ended(outcome)
                && outcome is Panicked);
            let aborted = join is TornDown || (join matches JoinOutcome::Ended(outcome) && outcome
                is Aborted);
            &&& later.panicked <==> drain.panicked || panicked
            &&& after.tasks.reaped == before.tasks.reaped + 1
            &&& after.tasks.panicked == before.tasks.panicked + (if panicked {
                1int
            } else {
                0int
            })
            &&& after.tasks.aborted == before.tasks.aborted + (if aborted {
                1int
            } else {
                0int
            })
            &&& after.tasks.completed == before.tasks.completed + (if join
                == JoinOutcome::Ended(TaskOutcome::Completed) {
                1int
            } else {
                0int
            })
            &&& after.tasks.cancelled == before.tasks.cancelled + (if join
                == JoinOutcome::Ended(TaskOutcome::Cancelled) {
                1int
            } else {
                0int
            })
            &&& panicked ==> after.diagnostics.recent@.len() > 0
                && after.diagnostics.recent@.last().kind is TaskPanic
                && after.diagnostics.recent@.last().fiber == Some(task.task.owner)
            &&& !panicked ==> after.diagnostics.recent@ == before.diagnostics.recent@
        }),
        after.tasks.arena == before.tasks.arena,
        after.fibers == before.fibers,
{
}

/// A worker that ends is gone and counted once, by how it ended: a failure and a panic are
/// counted and noted, a cancellation is counted, and one that returned well is only reaped. A
/// worker that somebody took over is not counted again.
pub proof fn law_ended_workers_are_counted(
    before: Runtime,
    after: Runtime,
    id: u64,
    end: WorkerEnd,
)
    requires
        ends_worker(before, after, id, end),
        before.workers.reaped < u64::MAX,
        before.workers.panicked < u64::MAX,
        before.workers.errors < u64::MAX,
        before.workers.cancelled < u64::MAX,
    ensures
        !before.workers.workers@.dom().contains(id) ==> after == before,
        before.workers.workers@.dom().contains(id) ==> {
            let failed = end matches WorkerEnd::Returned(Err(error));
            &&& !after.workers.workers@.dom().contains(id)
            &&& forall|other: u64| #[trigger]
                before.workers.workers@.dom().contains(other) && other != id
                    ==> after.workers.workers@.dom().contains(other)
            &&& after.workers.reaped == before.workers.reaped + 1
            &&& after.workers.errors == before.workers.errors + (if failed {
                1int
            } else {
                0int
            })
            &&& after.workers.panicked == before.workers.panicked + (if end is Panicked {
                1int
            } else {
                0int
            })
            &&& after.workers.cancelled == before.workers.cancelled + (if end is CancelledFirst {
                1int
            } else {
                0int
            })
            &&& after.workers.aborted == before.workers.aborted
            &&& failed ==> after.diagnostics.recent@.len() > 0
                && after.diagnostics.recent@.last().kind is RuntimeWorkerError
            &&& end is Panicked ==> after.diagnostics.recent@.len() > 0
                && after.diagnostics.recent@.last().kind is RuntimeWorkerPanic
            &&& !failed && !(end is Panicked) ==> after.diagnostics.recent@
                == before.diagnostics.recent@
        },
        after.fibers == before.fibers,
        after.workers.next == before.workers.next,
{
}

/// A shutdown takes over every worker, once: as many as there were, each as it was, and none is
/// left. Each is counted when it is joined.
pub proof fn law_stopped_workers_are_all_taken_over(
    before: Runtime,
    after: Runtime,
    drained: Vec<DrainedWorker>,
    joined: Runtime,
    join: JoinOutcome,
)
    requires
        stops_workers(before, after, drained),
        joins_worker(after, joined, join),
        before.workers.reaped < u64::MAX,
        before.workers.aborted < u64::MAX,
    ensures
        drained@.len() == before.workers.workers@.dom().len(),
        forall|id: u64| !(#[trigger] after.workers.workers@.dom().contains(id)),
        forall|k: int|
            0 <= k < drained@.len() ==> before.workers.workers@.dom().contains(
                (#[trigger] drained@[k]).id,
            ) && drained@[k].worker == before.workers.workers@[drained@[k].id],
        forall|j: int, k: int|
            0 <= j < k < drained@.len() ==> (#[trigger] drained@[j]).id != (
            #[trigger] drained@[k]).id,
        joined.workers.reaped == before.workers.reaped + 1,
        join is TornDown ==> joined.workers.aborted == before.workers.aborted + 1,
        join is PanickedOutside ==> joined.diagnostics.recent@.len() > 0
            && joined.diagnostics.recent@.last().kind is RuntimeWorkerPanic,
        after.fibers == before.fibers,
{
}

/// While the runtime takes new work, an installation gets a worker of its own that runs to its
/// end; afterwards it gets none. The failure of a host is taken up in any case.
pub proof fn law_installs_and_host_failures_get_workers(
    before: Runtime,
    after: Runtime,
    result: Result<u64, CordisError>,
    failed: Runtime,
    id: u64,
)
    requires
        accepts_install(before, after, result),
        submits_host_failure(before, failed, id),
    ensures
        result is Ok <==> !before.admission.closed,
        result is Err ==> after == before,
        result matches Ok(worker) ==> {
            &&& after.workers.workers@.dom().contains(worker)
            &&& after.workers.workers@[worker].kind is Install
            &&& after.workers.workers@[worker].cleanup
            &&& after.workers.next != worker
        },
        failed.workers.workers@.dom().contains(id),
        failed.workers.workers@[id].kind is HostFailureConvergence,
        failed.workers.workers@[id].cleanup,
        failed.fibers == before.fibers,
        after.fibers == before.fibers,
{
}

/// A hosted process counts for its fiber until it is reaped, and then everything is as before.
pub proof fn law_reaped_processes_leave_no_trace(
    before: Runtime,
    middle: Runtime,
    after: Runtime,
    fiber: FiberId,
    started: Result<(), CordisError>,
    reaped: Result<(), CordisError>,
)
    requires
        hosts(before, middle, fiber, started),
        reaps_hosted(middle, after, fiber, reaped),
    ensures
        started is Ok ==> middle.fibers@[fiber.raw].hosted_live
            == before.fibers@[fiber.raw].hosted_live + 1,
        started is Ok ==> reaped is Ok && after.fibers@ == before.fibers@,
        started is Err ==> middle == before,
        started is Err <==> !before.fibers@.dom().contains(fiber.raw)
            || before.fibers@[fiber.raw].hosted_live == usize::MAX,
        reaped is Err ==> after == middle,
        reaped is Ok ==> middle.fibers@[fiber.raw].hosted_live > 0,
{
    if started is Ok {
        assert(after.fibers@ =~= before.fibers@);
    }
}

/// No request for a collection is lost while the runtime takes new work: one that comes while a
/// collection runs makes it run again, and one that comes while none runs starts one.
pub proof fn law_requests_for_collections_are_met(
    before: Runtime,
    middle: Runtime,
    after: Runtime,
    worker: Option<u64>,
    again: bool,
)
    requires
        requests_gc(before, middle, worker),
        runs_gc_round(middle, after, again),
        !before.admission.closed,
    ensures
        worker is Some <==> before.gc_state is Idle,
        before.gc_state is Idle ==> middle.gc_state is Scheduled && !again && after.gc_state is Idle,
        !(before.gc_state is Idle) ==> middle.gc_state is Rescheduled && again && after.gc_state
            is Scheduled,
        worker matches Some(id) ==> middle.workers.workers@.dom().contains(id)
            && middle.workers.workers@[id].kind is GcReconcile
            && middle.workers.workers@[id].cleanup,
        middle.fibers == before.fibers,
        middle.scopes == before.scopes,
{
}

/// A collection removes what is dead, with every trace: a disposed fiber whose id can be given
/// up is gone, nobody depends on it or expects it to provide anything, and no scope lists it.
pub proof fn law_garbage_is_gone(
    before: Runtime,
    after: Runtime,
    report: GarbageReport,
    id: u64,
    edge: Edge,
    scope: u64,
)
    requires
        before.wf(),
        collects(before, after, report),
        before.fibers@.dom().contains(id),
        before.fibers@[id].state is Disposed,
        id_version(id) < u32::MAX,
        edge.fiber.raw == id,
    ensures
        !after.fibers@.dom().contains(id),
        after.fibers.retired(id),
        !after.dependencies.providers@.contains(edge),
        !after.dependencies.dependents@.contains(edge),
        after.scopes@.dom().contains(scope) ==> !after.scopes@[scope].fibers@.contains(id),
        report.fibers > 0,
        after.services == before.services,
        after.tasks == before.tasks,
        after.workers == before.workers,
{
    let dead = super::garbage::dead(before.fibers@);
    let order = before.fibers.order();
    let gone = order.filter(dead);
    before.fibers.lemma_order();
    assert(order.contains(id));
    order.lemma_filter_contains(dead, order.index_of(id));
    assert(gone.contains(id));
    if after.scopes@.dom().contains(scope) {
        let emptied = choose|emptied: crate::scope_registry::Scopes|
            {
                &&& #[trigger] crate::scope_registry::without_fibers(
                    before.scopes@,
                    emptied,
                    gone,
                )
                &&& report.scopes == before.scopes.scopes.order().filter(
                    crate::scope_registry::spent(emptied, before.scopes.root),
                ).len()
                &&& super::garbage::collects_scopes(
                    emptied,
                    after.scopes@,
                    before.scopes.root,
                )
            };
        assert(emptied.dom().contains(scope));
        crate::id_list::lemma_except_contains(before.scopes@[scope].fibers@, gone, id);
    }
}

/// No request to activate a fiber is lost while the runtime takes new work: one that comes
/// while an activation of it is scheduled makes it run again, and one that comes while none is
/// scheduled schedules one. Once it has settled and nobody asked again, none is scheduled.
pub proof fn law_requests_for_activations_are_met(
    before: Runtime,
    middle: Runtime,
    after: Runtime,
    fiber: FiberId,
    worker: Option<u64>,
    again: bool,
    other: u64,
)
    requires
        schedules(before, middle, fiber, worker),
        settles_activation(middle, after, fiber, again),
    ensures
        before.admission.closed ==> worker is None && middle == before,
        !before.admission.closed ==> {
            &&& middle.pending_activations@.dom().contains(fiber.raw)
            &&& worker is Some <==> !before.pending_activations@.dom().contains(fiber.raw)
            &&& again <==> before.pending_activations@.dom().contains(fiber.raw)
            &&& again <==> after.pending_activations@.dom().contains(fiber.raw)
            &&& again ==> !after.pending_activations@[fiber.raw]
            &&& worker matches Some(id) ==> middle.workers.workers@.dom().contains(id)
                && middle.workers.workers@[id].kind is DependencyReconcile
                && !middle.workers.workers@[id].cleanup
        },
        other != fiber.raw ==> (after.pending_activations@.dom().contains(other)
            <==> before.pending_activations@.dom().contains(other)) && (
        before.pending_activations@.dom().contains(other) ==> after.pending_activations@[other]
            == before.pending_activations@[other]),
        after.fibers == before.fibers,
{
}

/// The failure of a host concerns a fiber exactly where it is at work, committed, with the
/// generation that failed: then it has failed and can be disposed, whoever asks. The failure of
/// an earlier generation, or of a fiber that is not at work, changes nothing.
pub proof fn law_host_failures_stop_the_fiber(
    before: Runtime,
    after: Runtime,
    fiber: FiberId,
    generation: GenerationId,
    dispose: bool,
    asked: (Runtime, bool, bool, bool, Result<DisposalStart, CordisError>),
)
    requires
        is_sound(before),
        marks_host_failure(before, after, fiber, generation, dispose),
        asks_to_go(after, asked.0, fiber, asked.1, asked.2, asked.3, asked.4),
    ensures
        dispose <==> {
            &&& before.fibers@.dom().contains(fiber.raw)
            &&& before.fibers@[fiber.raw].generation == generation
            &&& !before.fibers@[fiber.raw].staged
            &&& before.fibers@[fiber.raw].state is Active || before.fibers@[fiber.raw].state
                is Reloading
        },
        !dispose ==> after == before,
        dispose ==> after.fibers@[fiber.raw] == (FiberRecord {
            state: FiberState::Failed,
            ..before.fibers@[fiber.raw]
        }),
        dispose ==> asked.4 == Ok::<DisposalStart, CordisError>(DisposalStart::Started),
        forall|other: u64| #[trigger]
            before.fibers@.dom().contains(other) && other != fiber.raw
                ==> after.fibers@.dom().contains(other) && after.fibers@[other]
                == before.fibers@[other],
{
}

/// After the failure of a host it is no failure that the fiber is gone, or that a reload
/// disposes of it; every other failure stays one, and success stays success.
pub proof fn law_host_failures_settle(
    result: Result<(), CordisError>,
    settled: Result<(), CordisError>,
)
    requires
        settles_host_failure(result, settled),
    ensures
        result is Ok ==> settled is Ok,
        result matches Err(error) ==> (settled is Ok <==> error is FiberNotFound || error
            is FiberLifecycleOwned),
        settled is Err ==> settled == result,
{
}

/// How many of `gone` were fibers of the plugin.
pub open spec fn fibers_of_plugin(fibers: Fibers, gone: Seq<u64>, plugin: PluginId) -> nat {
    gone.filter(|id: u64| fibers[id].plugin_id == plugin).len()
}

/// A plugin loses as many fibers as go, and goes with its last.
proof fn lemma_detached(
    plugins: Map<u64, usize>,
    fibers: Fibers,
    gone: Seq<u64>,
    plugin: PluginId,
)
    ensures
        ({
            let left = detached_all(plugins, fibers, gone);
            let lost = fibers_of_plugin(fibers, gone, plugin);
            &&& !plugins.dom().contains(plugin.raw) ==> !left.dom().contains(plugin.raw)
            &&& plugins.dom().contains(plugin.raw) && lost == 0 ==> left.dom().contains(plugin.raw)
                && left[plugin.raw] == plugins[plugin.raw]
            &&& plugins.dom().contains(plugin.raw) && 0 < lost < plugins[plugin.raw]
                ==> left.dom().contains(plugin.raw) && left[plugin.raw] == plugins[plugin.raw]
                - lost
            &&& plugins.dom().contains(plugin.raw) && 0 < lost && lost >= plugins[plugin.raw]
                ==> !left.dom().contains(plugin.raw)
        }),
    decreases gone.len(),
{
    reveal(Seq::filter);
    if gone.len() > 0 {
        lemma_detached(plugins, fibers, gone.drop_last(), plugin);
        let other = fibers[gone.last()].plugin_id;
        assert(other.raw == plugin.raw <==> other == plugin);
    }
}

/// The generation of a fiber that goes is forgotten where nobody uses it, and no other is.
proof fn lemma_retired(
    gates: Map<u64, CapabilityGate>,
    fibers: Fibers,
    gone: Seq<u64>,
    generation: u64,
)
    ensures
        ({
            let left = retired_all(gates, fibers, gone);
            &&& left.dom().contains(generation) ==> gates.dom().contains(generation)
                && left[generation] == gates[generation]
            &&& gates.dom().contains(generation) && !left.dom().contains(generation)
                ==> gates[generation].inflight == 0 && exists|k: int|
                0 <= k < gone.len() && fibers[#[trigger] gone[k]].generation.raw == generation
            &&& forall|k: int|
                0 <= k < gone.len() && fibers[#[trigger] gone[k]].generation.raw == generation
                    && gates.dom().contains(generation) && gates[generation].inflight == 0
                    ==> !left.dom().contains(generation)
        }),
    decreases gone.len(),
{
    if gone.len() > 0 {
        let rest = gone.drop_last();
        lemma_retired(gates, fibers, rest, generation);
        let left = retired_all(gates, fibers, gone);
        let before = retired_all(gates, fibers, rest);
        if gates.dom().contains(generation) && !left.dom().contains(generation) {
            if before.dom().contains(generation) {
                assert(fibers[gone[gone.len() - 1]].generation.raw == generation);
            } else {
                let k = choose|k: int|
                    0 <= k < rest.len() && fibers[#[trigger] rest[k]].generation.raw == generation;
                assert(gone[k] == rest[k]);
            }
        }
        assert forall|k: int|
            0 <= k < gone.len() && fibers[#[trigger] gone[k]].generation.raw == generation
                && gates.dom().contains(generation) && gates[generation].inflight
                == 0 implies !left.dom().contains(generation) by {
            if k < rest.len() {
                assert(rest[k] == gone[k]);
            }
        }
    }
}

/// A collection keeps the books: each plugin has as many fibers less as it lost, and is
/// forgotten with its last one; and it keeps every generation that is in use, or that belongs
/// to a fiber that stays and to none that goes, while that of a fiber that goes is forgotten
/// where nobody uses it.
pub proof fn law_collections_keep_the_books(
    before: Runtime,
    after: Runtime,
    report: GarbageReport,
    plugin: PluginId,
    generation: GenerationId,
)
    requires
        collects(before, after, report),
    ensures
        ({
            let gone = before.fibers.order().filter(
                |id: u64| before.fibers@[id].state is Disposed && id_version(id) < u32::MAX,
            );
            let lost = gone.filter(|id: u64| before.fibers@[id].plugin_id == plugin).len();
            let known = before.plugins@.dom().contains(plugin.raw);
            &&& report.fibers == gone.len()
            &&& !known ==> !after.plugins@.dom().contains(plugin.raw)
            &&& known && lost == 0 ==> after.plugins@.dom().contains(plugin.raw)
                && after.plugins@[plugin.raw] == before.plugins@[plugin.raw]
            &&& known && 0 < lost < before.plugins@[plugin.raw] ==> after.plugins@.dom().contains(
                plugin.raw,
            ) && after.plugins@[plugin.raw] == before.plugins@[plugin.raw] - lost
            &&& known && 0 < lost && lost >= before.plugins@[plugin.raw]
                ==> !after.plugins@.dom().contains(plugin.raw)
            &&& before.gates.at(generation).inflight > 0 ==> after.gates.at(generation)
                == before.gates.at(generation)
            &&& (forall|k: int|
                0 <= k < gone.len() ==> before.fibers@[#[trigger] gone[k]].generation
                    != generation) ==> after.gates.at(generation) == before.gates.at(generation)
            &&& (exists|k: int|
                0 <= k < gone.len() && before.fibers@[#[trigger] gone[k]].generation == generation)
                && before.gates.at(generation).inflight == 0 ==> !after.gates@.dom().contains(
                generation.raw,
            )
        }),
{
    let pick = |id: u64| before.fibers@[id].state is Disposed && id_version(id) < u32::MAX;
    let gone = before.fibers.order().filter(pick);
    assert(pick =~= super::garbage::dead(before.fibers@));
    lemma_detached(before.plugins@, before.fibers@, gone, plugin);
    lemma_retired(before.gates@, before.fibers@, gone, generation.raw);
    assert forall|k: int| 0 <= k < gone.len() implies (before.fibers@[
        #[trigger] gone[k]
    ].generation.raw == generation.raw <==> before.fibers@[gone[k]].generation == generation) by {}
}

/// A collection removes the scopes that are spent: disposed, not the root, and empty.
pub proof fn law_spent_scopes_are_gone(
    before: Runtime,
    after: Runtime,
    report: GarbageReport,
    id: u64,
)
    requires
        collects(before, after, report),
        before.scopes@.dom().contains(id),
        id != before.scopes.root.raw,
        before.scopes@[id].state is Disposed,
        before.scopes@[id].children@.len() == 0,
        before.scopes@[id].fibers@.len() == 0,
        id_version(id) < u32::MAX,
    ensures
        !after.scopes@.dom().contains(id),
        after.scopes.scopes.retired(id),
        before.scopes.scopes.wf() ==> report.scopes > 0,
{
    let gone = before.fibers.order().filter(super::garbage::dead(before.fibers@));
    let emptied = choose|emptied: crate::scope_registry::Scopes|
        {
            &&& #[trigger] crate::scope_registry::without_fibers(before.scopes@, emptied, gone)
            &&& report.scopes == before.scopes.scopes.order().filter(
                crate::scope_registry::spent(emptied, before.scopes.root),
            ).len()
            &&& super::garbage::collects_scopes(emptied, after.scopes@, before.scopes.root)
        };
    assert(emptied.dom().contains(id));
    assert(emptied[id].fibers@.len() == 0) by {
        if emptied[id].fibers@.len() > 0 {
            let kept = emptied[id].fibers@[0];
            assert(emptied[id].fibers@.contains(kept));
            crate::id_list::lemma_except_contains(before.scopes@[id].fibers@, gone, kept);
        }
    }
    if before.scopes.scopes.wf() {
        let order = before.scopes.scopes.order();
        before.scopes.scopes.lemma_order();
        assert(order.contains(id));
        order.lemma_filter_contains(
            crate::scope_registry::spent(emptied, before.scopes.root),
            order.index_of(id),
        );
    }
}

/// A runtime begins empty and open: it has its root scope, active and without members, and
/// neither fibers nor services, tasks, workers, plugins, reloads or notes.
pub proof fn law_new_runtimes_are_empty(runtime: Runtime, config: RuntimeConfig, id: u64)
    requires
        is_new(runtime, config),
    ensures
        runtime.config == config,
        !runtime.admission.closed,
        runtime.shutdown.lifecycle is Running,
        !runtime.fibers@.dom().contains(id),
        runtime.scopes@.dom().contains(id) <==> id == runtime.scopes.root.raw,
        runtime.scopes@[runtime.scopes.root.raw].state is Active,
        runtime.scopes@[runtime.scopes.root.raw].parent is None,
        !runtime.scopes@[runtime.scopes.root.raw].hidden,
        runtime.scopes@[runtime.scopes.root.raw].children@.len() == 0,
        runtime.scopes@[runtime.scopes.root.raw].fibers@.len() == 0,
        !runtime.tasks.arena@.dom().contains(id),
        !runtime.workers.workers@.dom().contains(id),
        !runtime.plugins@.dom().contains(id),
        !runtime.gates@.dom().contains(id),
        !runtime.pending_activations@.dom().contains(id),
        runtime.services.keys@.len() == 0,
        runtime.diagnostics.recent@.len() == 0,
        runtime.diagnostics.quota_rejections == 0,
        runtime.active_reloads == 0,
        runtime.reload_cleanup_pending == 0,
        runtime.gc_state is Idle,
{
}

} // verus!
