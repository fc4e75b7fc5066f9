//! What a snapshot and a health report tell.
#[allow(unused_imports)]
use super::snapshot::{
    executing, fibers_in, handlers, handles, reports, scopes_in, shown_slots, staging_fibers,
    staging_scopes, terminated_fibers, total, uses, visible_slots, FiberSnapshot, RuntimeSnapshot,
    ScopeSnapshot,
};
#[allow(unused_imports)]
use super::Runtime;
#[allow(unused_imports)]
use crate::gate::GenerationExecutionState;
#[allow(unused_imports)]
use crate::health::HealthReport;
#[allow(unused_imports)]
use crate::service_registry::{nearest, slot_of};
#[allow(unused_imports)]
use crate::shutdown_coordinator::ShutdownOutcome;
#[allow(unused_imports)]
use crate::state::{FiberState, ScopeState};
#[allow(unused_imports)]
use crate::text::decimal;
use vstd::prelude::*;

verus! {

/// The status of a report is what the rest of the report says: a shutdown that runs is told as
/// such, one that was not through is a failure, and otherwise so is every fiber and scope
/// whose disposal was cut off. A runtime is healthy only where there is nothing of this, and
/// while it runs no fiber waits for its dependencies; it is degraded where one does.
pub proof fn law_health_is_what_the_report_says(
    report: HealthReport,
    runtime: Runtime,
    available_invocations: usize,
)
    requires
        reports(report, runtime, available_invocations),
    ensures
        report.status is Healthy ==> report.terminated_fibers == 0 && report.terminated_scopes == 0
            && (report.shutdown_state is Running || report.shutdown_state is Complete),
        report.status is Healthy && report.shutdown_state is Running ==> report.waiting_fibers == 0,
        report.status is ShuttingDown <==> report.shutdown_state is ShuttingDown,
        report.shutdown_state is Incomplete ==> report.status is Failed,
        (report.terminated_fibers > 0 || report.terminated_scopes > 0) && !(report.shutdown_state
            is ShuttingDown) ==> report.status is Failed,
        report.status is Failed ==> report.shutdown_state is Incomplete || report.terminated_fibers
            > 0 || report.terminated_scopes > 0,
        report.status is Degraded <==> report.shutdown_state is Running && report.terminated_fibers
            == 0 && report.terminated_scopes == 0 && report.waiting_fibers > 0,
{
}

/// Two ways to pick the same ids pick the same.
proof fn lemma_same_picks(ids: Seq<u64>, one: spec_fn(u64) -> bool, other: spec_fn(u64) -> bool)
    requires
        forall|id: u64| #[trigger] one(id) == other(id),
    ensures
        ids.filter(one) == ids.filter(other),
    decreases ids.len(),
{
    reveal(Seq::filter);
    if ids.len() > 0 {
        lemma_same_picks(ids.drop_last(), one, other);
        assert(one(ids.last()) == other(ids.last()));
    }
}

/// What is picked among the ids is picked among what is shown of them.
proof fn lemma_picks_shown<S>(
    list: Seq<S>,
    ids: Seq<u64>,
    one: spec_fn(u64) -> bool,
    other: spec_fn(S) -> bool,
)
    requires
        list.len() == ids.len(),
        forall|k: int| 0 <= k < ids.len() ==> one(ids[k]) == #[trigger] other(list[k]),
    ensures
        ids.filter(one).len() == list.filter(other).len(),
    decreases ids.len(),
{
    reveal(Seq::filter);
    if ids.len() > 0 {
        assert forall|k: int| 0 <= k < ids.drop_last().len() implies one(ids.drop_last()[k])
            == #[trigger] other(list.drop_last()[k]) by {
            assert(one(ids[k]) == other(list[k]));
        }
        lemma_picks_shown(list.drop_last(), ids.drop_last(), one, other);
        assert(one(ids[ids.len() - 1]) == other(list[list.len() - 1]));
    }
}

/// A report counts what a snapshot of the same runtime lists: so many fibers are active, wait,
/// are being disposed or were cut off, and so many scopes are active or were cut off.
pub proof fn law_reports_count_what_snapshots_list(
    report: HealthReport,
    snapshot: RuntimeSnapshot,
    runtime: Runtime,
    available_invocations: usize,
)
    requires
        reports(report, runtime, available_invocations),
        snapshot.shows(runtime),
    ensures
        report.active_fibers == snapshot.fibers@.filter(
            |fiber: FiberSnapshot| fiber.state is Active,
        ).len(),
        report.waiting_fibers == snapshot.fibers@.filter(
            |fiber: FiberSnapshot| fiber.state is WaitingDependencies,
        ).len(),
        report.disposing_fibers == snapshot.fibers@.filter(
            |fiber: FiberSnapshot| fiber.state is Disposing,
        ).len(),
        report.terminated_fibers == snapshot.fibers@.filter(
            |fiber: FiberSnapshot| fiber.disposal_phase is Terminated,
        ).len(),
        report.active_scopes == snapshot.scopes@.filter(
            |scope: ScopeSnapshot| scope.state is Active,
        ).len(),
        report.terminated_scopes == snapshot.scopes@.filter(
            |scope: ScopeSnapshot| scope.state is Terminated,
        ).len(),
        snapshot.staging_scopes == snapshot.scopes@.filter(
            |scope: ScopeSnapshot| scope.hidden && !(scope.state is Disposed),
        ).len(),
        report.terminated_fibers == snapshot.terminated_fiber_count,
        report.terminated_scopes == snapshot.terminated_scope_count,
        report.active_tasks == snapshot.live_fiber_tasks,
        report.reaped_tasks == snapshot.reaped_tasks,
        report.completed_tasks == snapshot.completed_tasks,
        report.cancelled_tasks == snapshot.cancelled_tasks,
        report.task_panics == snapshot.task_panics,
        report.aborted_tasks == snapshot.aborted_tasks,
        report.live_runtime_workers == snapshot.live_runtime_workers,
        report.reaped_runtime_workers == snapshot.reaped_runtime_workers,
        report.runtime_worker_panics == snapshot.runtime_worker_panics,
        report.runtime_worker_errors == snapshot.runtime_worker_errors,
        report.cancelled_runtime_workers == snapshot.cancelled_runtime_workers,
        report.aborted_runtime_workers == snapshot.aborted_runtime_workers,
        report.active_generation_executions == snapshot.active_generation_executions,
        report.draining_generations == snapshot.draining_generations,
        report.provider_inflight == snapshot.provider_inflight,
        report.service_handle_inflight == snapshot.service_handle_inflight,
        report.active_reloads == snapshot.active_reloads,
        report.reload_cleanup_pending == snapshot.reload_cleanup_pending,
        report.staging_fibers == snapshot.staging_fibers,
        report.staging_scopes == snapshot.staging_scopes,
        report.shutdown_state == snapshot.shutdown_state,
{
    let ids = runtime.fibers.order();
    let fibers = runtime.fibers@;
    let scopes = runtime.scopes.scopes.order();
    let list = snapshot.fibers@;
    let shown = snapshot.scopes@;
    lemma_picks_shown(
        list,
        ids,
        fibers_in(fibers, FiberState::Active),
        |fiber: FiberSnapshot| fiber.state is Active,
    );
    lemma_picks_shown(
        list,
        ids,
        fibers_in(fibers, FiberState::WaitingDependencies),
        |fiber: FiberSnapshot| fiber.state is WaitingDependencies,
    );
    lemma_picks_shown(
        list,
        ids,
        fibers_in(fibers, FiberState::Disposing),
        |fiber: FiberSnapshot| fiber.state is Disposing,
    );
    lemma_picks_shown(
        list,
        ids,
        terminated_fibers(fibers),
        |fiber: FiberSnapshot| fiber.disposal_phase is Terminated,
    );
    lemma_picks_shown(
        shown,
        scopes,
        scopes_in(runtime.scopes@, ScopeState::Active),
        |scope: ScopeSnapshot| scope.state is Active,
    );
    lemma_picks_shown(
        shown,
        scopes,
        scopes_in(runtime.scopes@, ScopeState::Terminated),
        |scope: ScopeSnapshot| scope.state is Terminated,
    );
    lemma_picks_shown(
        shown,
        scopes,
        staging_scopes(runtime.scopes@),
        |scope: ScopeSnapshot| scope.hidden && !(scope.state is Disposed),
    );
}

/// A report tells the counters of the runtime, each under its own name, how many invocations
/// are under way, and all recent issues in order.
pub proof fn law_reports_tell_the_counters(
    report: HealthReport,
    runtime: Runtime,
    available_invocations: usize,
)
    requires
        reports(report, runtime, available_invocations),
        available_invocations <= runtime.config.max_concurrent_invocations,
    ensures
        report.active_tasks == runtime.tasks.arena@.dom().len(),
        report.reaped_tasks == runtime.tasks.reaped,
        report.completed_tasks == runtime.tasks.completed,
        report.cancelled_tasks == runtime.tasks.cancelled,
        report.task_panics == runtime.tasks.panicked,
        report.aborted_tasks == runtime.tasks.aborted,
        report.live_runtime_workers == runtime.workers.workers@.dom().len(),
        report.reaped_runtime_workers == runtime.workers.reaped,
        report.runtime_worker_panics == runtime.workers.panicked,
        report.runtime_worker_errors == runtime.workers.errors,
        report.cancelled_runtime_workers == runtime.workers.cancelled,
        report.aborted_runtime_workers == runtime.workers.aborted,
        report.active_invocations + available_invocations
            == runtime.config.max_concurrent_invocations,
        report.active_reloads == runtime.active_reloads,
        report.reload_cleanup_pending == runtime.reload_cleanup_pending,
        report.shutdown_state == runtime.shutdown.lifecycle,
        report.invocation_successes == runtime.diagnostics.successes,
        report.invocation_errors == runtime.diagnostics.errors,
        report.invocation_timeouts == runtime.diagnostics.timeouts,
        report.invocation_cancellations == runtime.diagnostics.cancellations,
        report.invocation_panics == runtime.diagnostics.panics,
        report.quota_rejections == runtime.diagnostics.quota_rejections,
        report.recent_errors@ == runtime.diagnostics.recent@,
{
}

/// What is counted of generations: as many accept work as are not closed, as many drain as are
/// closed and still in use, and together with those that are drained these are all.
pub proof fn law_generations_accept_drain_or_are_drained(
    report: HealthReport,
    runtime: Runtime,
    available_invocations: usize,
)
    requires
        reports(report, runtime, available_invocations),
    ensures
        report.active_generation_executions == runtime.fibers.order().filter(
            |id: u64| !(runtime.gates.at(runtime.fibers@[id].generation).state is Closed),
        ).len(),
        report.draining_generations == runtime.fibers.order().filter(
            |id: u64|
                runtime.gates.at(runtime.fibers@[id].generation).state is Closed
                    && runtime.gates.at(runtime.fibers@[id].generation).inflight > 0,
        ).len(),
        report.staging_fibers == runtime.fibers.order().filter(
            |id: u64| runtime.fibers@[id].staged && !(runtime.fibers@[id].state is Disposed),
        ).len(),
        report.active_generation_executions + report.draining_generations
            <= runtime.fibers.order().len(),
{
    let ids = runtime.fibers.order();
    let accepting = |id: u64| !(runtime.gates.at(runtime.fibers@[id].generation).state is Closed);
    let draining = |id: u64|
        runtime.gates.at(runtime.fibers@[id].generation).state is Closed && runtime.gates.at(
            runtime.fibers@[id].generation,
        ).inflight > 0;
    lemma_same_picks(
        ids,
        executing(runtime.fibers@, runtime.gates, GenerationExecutionState::Accepting),
        accepting,
    );
    lemma_same_picks(
        ids,
        executing(runtime.fibers@, runtime.gates, GenerationExecutionState::Draining),
        draining,
    );
    lemma_same_picks(
        ids,
        staging_fibers(runtime.fibers@),
        |id: u64| runtime.fibers@[id].staged && !(runtime.fibers@[id].state is Disposed),
    );
    lemma_apart(ids, accepting, draining);
}

/// Of ids, as many are picked by one of two that pick apart as there are at most.
proof fn lemma_apart(ids: Seq<u64>, one: spec_fn(u64) -> bool, other: spec_fn(u64) -> bool)
    requires
        forall|id: u64| !(#[trigger] one(id) && other(id)),
    ensures
        ids.filter(one).len() + ids.filter(other).len() <= ids.len(),
    decreases ids.len(),
{
    reveal(Seq::filter);
    if ids.len() > 0 {
        lemma_apart(ids.drop_last(), one, other);
        assert(!(one(ids.last()) && other(ids.last())));
    }
}

/// The sum of `numbers`.
pub open spec fn sum_of(numbers: Seq<nat>) -> nat
    decreases numbers.len(),
{
    if numbers.len() == 0 {
        0
    } else {
        sum_of(numbers.drop_last()) + numbers.last()
    }
}

/// A total is the sum of its parts.
proof fn lemma_total(ids: Seq<u64>, weight: spec_fn(u64) -> nat, numbers: Seq<nat>)
    requires
        numbers.len() == ids.len(),
        forall|k: int| 0 <= k < ids.len() ==> weight(ids[k]) == #[trigger] numbers[k],
    ensures
        total(ids, weight) == sum_of(numbers),
    decreases ids.len(),
{
    if ids.len() > 0 {
        assert forall|k: int| 0 <= k < ids.drop_last().len() implies weight(ids.drop_last()[k])
            == #[trigger] numbers.drop_last()[k] by {
            assert(weight(ids[k]) == numbers[k]);
        }
        lemma_total(ids.drop_last(), weight, numbers.drop_last());
        assert(weight(ids[ids.len() - 1]) == numbers[numbers.len() - 1]);
    }
}

/// What is summed up: the handlers of all fibers that a snapshot lists, and the uses and the
/// service handles of the generations of all fibers.
pub proof fn law_snapshots_sum_up(snapshot: RuntimeSnapshot, runtime: Runtime)
    requires
        snapshot.shows(runtime),
    ensures
        snapshot.handler_count == sum_of(
            Seq::new(snapshot.fibers@.len(), |k: int| snapshot.fibers@[k].handler_ids@.len()),
        ),
        snapshot.provider_inflight == sum_of(
            Seq::new(
                snapshot.fibers@.len(),
                |k: int|
                    runtime.gates.at(
                        runtime.fibers@[snapshot.fibers@[k].id.raw].generation,
                    ).inflight as nat,
            ),
        ),
        snapshot.service_handle_inflight == sum_of(
            Seq::new(
                snapshot.fibers@.len(),
                |k: int|
                    runtime.gates.at(
                        runtime.fibers@[snapshot.fibers@[k].id.raw].generation,
                    ).service_handles as nat,
            ),
        ),
{
    let ids = runtime.fibers.order();
    let list = snapshot.fibers@;
    lemma_total(
        ids,
        handlers(runtime.fibers@),
        Seq::new(list.len(), |k: int| list[k].handler_ids@.len()),
    );
    lemma_total(
        ids,
        uses(runtime.fibers@, runtime.gates),
        Seq::new(
            list.len(),
            |k: int| runtime.gates.at(runtime.fibers@[list[k].id.raw].generation).inflight as nat,
        ),
    );
    lemma_total(
        ids,
        handles(runtime.fibers@, runtime.gates),
        Seq::new(
            list.len(),
            |k: int|
                runtime.gates.at(
                    runtime.fibers@[list[k].id.raw].generation,
                ).service_handles as nat,
        ),
    );
}

/// A snapshot lists every fiber and every scope once and shows each as it is.
pub proof fn law_snapshots_list_everybody(snapshot: RuntimeSnapshot, runtime: Runtime, id: u64)
    requires
        runtime.wf(),
        snapshot.shows(runtime),
    ensures
        runtime.fibers@.dom().contains(id) <==> exists|k: int|
            0 <= k < snapshot.fibers@.len() && (#[trigger] snapshot.fibers@[k]).id.raw == id,
        runtime.scopes@.dom().contains(id) <==> exists|k: int|
            0 <= k < snapshot.scopes@.len() && (#[trigger] snapshot.scopes@[k]).id.raw == id,
        forall|j: int, k: int|
            0 <= j < k < snapshot.fibers@.len() ==> (#[trigger] snapshot.fibers@[j]).id != (
            #[trigger] snapshot.fibers@[k]).id,
        forall|j: int, k: int|
            0 <= j < k < snapshot.scopes@.len() ==> (#[trigger] snapshot.scopes@[j]).id != (
            #[trigger] snapshot.scopes@[k]).id,
        forall|k: int|
            0 <= k < snapshot.fibers@.len() ==> {
                let shown = #[trigger] snapshot.fibers@[k];
                let record = runtime.fibers@[shown.id.raw];
                &&& shown.plugin_id == record.plugin_id
                &&& shown.plugin == record.descriptor.name
                &&& shown.scope == record.scope
                &&& shown.state == record.state
                &&& shown.dependencies == record.descriptor.dependencies
                &&& shown.declared_services == record.descriptor.provisions
                &&& shown.provided_services@ == record.provided@
                &&& shown.task_ids@ == record.tasks@
                &&& shown.handler_ids@ == record.handlers@
                &&& shown.task_count == record.tasks@.len()
                &&& shown.effect_count == record.effects@.len()
                &&& shown.disposal_phase == record.disposal.phase
                &&& shown.disposal_error is Some <==> (record.disposal.result matches Some(Err(
                    error,
                )))
                &&& shown.disposal_error matches Some(words) ==> (
                record.disposal.result matches Some(Err(error)) && words@ == error.text())
            },
        forall|k: int|
            0 <= k < snapshot.scopes@.len() ==> {
                let shown = #[trigger] snapshot.scopes@[k];
                let record = runtime.scopes@[shown.id.raw];
                &&& shown.name == record.name
                &&& shown.parent == record.parent
                &&& shown.state == record.state
                &&& shown.hidden == record.hidden
                &&& shown.child_count == record.children@.len()
                &&& shown.fiber_count == record.fibers@.len()
                &&& shown.disposal_error is Some <==> (record.disposal.result matches Some(Err(
                    error,
                )))
                &&& shown.disposal_error matches Some(words) ==> (
                record.disposal.result matches Some(Err(error)) && words@ == error.text())
            },
{
    let ids = runtime.fibers.order();
    let scopes = runtime.scopes.scopes.order();
    runtime.fibers.lemma_order();
    runtime.scopes.scopes.lemma_order();
    if runtime.fibers@.dom().contains(id) {
        let k = ids.index_of(id);
        assert(snapshot.fibers@[k].id.raw == id);
    }
    if runtime.scopes@.dom().contains(id) {
        let k = scopes.index_of(id);
        assert(snapshot.scopes@[k].id.raw == id);
    }
    assert forall|k: int| 0 <= k < ids.len() implies ids.contains(#[trigger] ids[k]) by {}
    assert forall|k: int| 0 <= k < scopes.len() implies scopes.contains(#[trigger] scopes[k]) by {}
    if exists|k: int|
        0 <= k < snapshot.fibers@.len() && (#[trigger] snapshot.fibers@[k]).id.raw == id {
        let k = choose|k: int|
            0 <= k < snapshot.fibers@.len() && (#[trigger] snapshot.fibers@[k]).id.raw == id;
        assert(ids[k] == id);
    }
    if exists|k: int|
        0 <= k < snapshot.scopes@.len() && (#[trigger] snapshot.scopes@[k]).id.raw == id {
        let k = choose|k: int|
            0 <= k < snapshot.scopes@.len() && (#[trigger] snapshot.scopes@[k]).id.raw == id;
        assert(scopes[k] == id);
    }
}

/// A snapshot lists just the services that somebody can find: each that it lists is found in
/// its scope, with its owner, and each that is visible is listed.
pub proof fn law_snapshots_list_visible_services(
    snapshot: RuntimeSnapshot,
    runtime: Runtime,
    slot: u128,
)
    requires
        snapshot.shows(runtime),
    ensures
        forall|k: int|
            0 <= k < snapshot.services@.len() ==> {
                let shown = #[trigger] snapshot.services@[k];
                let found = nearest(
                    runtime.services@,
                    runtime.gates,
                    seq![shown.scope],
                    shown.symbol,
                );
                found matches Some(entry) && entry.owner == shown.owner
            },
        runtime.services@.dom().contains(slot) && runtime.gates.visible(
            runtime.services@[slot].gate,
        ) ==> exists|k: int|
            0 <= k < snapshot.services@.len() && slot == slot_of(
                (#[trigger] snapshot.services@[k]).scope,
                snapshot.services@[k].symbol,
            ),
        snapshot.service_count == visible_slots(runtime.services@, runtime.gates).len(),
{
    let list = snapshot.services@;
    assert forall|k: int| 0 <= k < list.len() implies {
        let shown = #[trigger] list[k];
        let found = nearest(runtime.services@, runtime.gates, seq![shown.scope], shown.symbol);
        found matches Some(entry) && entry.owner == shown.owner
    } by {
        assert(seq![list[k].scope][0] == list[k].scope);
    }
    if runtime.services@.dom().contains(slot) && runtime.gates.visible(
        runtime.services@[slot].gate,
    ) {
        assert(visible_slots(runtime.services@, runtime.gates).contains(slot));
        assert(shown_slots(list).to_set().contains(slot));
        let k = shown_slots(list).index_of(slot);
        assert(slot == slot_of(list[k].scope, list[k].symbol));
    }
}

/// What a snapshot tells of the shutdown: that it began, that it runs, and what it left to say
/// exactly where it ended otherwise than clean.
pub proof fn law_snapshots_tell_the_shutdown(snapshot: RuntimeSnapshot, runtime: Runtime)
    requires
        snapshot.shows(runtime),
    ensures
        snapshot.shutting_down <==> !(runtime.shutdown.lifecycle is Running),
        snapshot.shutdown_in_progress <==> runtime.shutdown.lifecycle is ShuttingDown,
        snapshot.shutdown_state == runtime.shutdown.lifecycle,
        snapshot.shutdown_error is Some <==> (runtime.shutdown.last_outcome() matches Some(outcome)
            && !(*outcome is Complete)),
        snapshot.shutdown_error matches Some(words) ==> (
        runtime.shutdown.last_outcome() matches Some(outcome) && match *outcome {
            ShutdownOutcome::Complete => false,
            ShutdownOutcome::CompleteWithIssues { issues } => words@ == "shutdown completed with "@
                + decimal(issues@.len()) + " cleanup issue(s)"@,
            ShutdownOutcome::Incomplete { blockers, issues } => words@
                == "shutdown incomplete with "@ + decimal(blockers@.len()) + " blocker(s)"@,
        }),
        snapshot.reaped_tasks == runtime.tasks.reaped,
        snapshot.completed_tasks == runtime.tasks.completed,
        snapshot.cancelled_tasks == runtime.tasks.cancelled,
        snapshot.task_panics == runtime.tasks.panicked,
        snapshot.aborted_tasks == runtime.tasks.aborted,
        snapshot.reaped_runtime_workers == runtime.workers.reaped,
        snapshot.runtime_worker_panics == runtime.workers.panicked,
        snapshot.runtime_worker_errors == runtime.workers.errors,
        snapshot.cancelled_runtime_workers == runtime.workers.cancelled,
        snapshot.aborted_runtime_workers == runtime.workers.aborted,
        snapshot.live_fiber_tasks == runtime.tasks.arena@.dom().len(),
        snapshot.live_runtime_workers == runtime.workers.workers@.dom().len(),
        snapshot.active_reloads == runtime.active_reloads,
        snapshot.reload_cleanup_pending == runtime.reload_cleanup_pending,
{
}

} // verus!
