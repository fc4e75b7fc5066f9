//! What the disposal of a fiber keeps, hands over and reports.
#[allow(unused_imports)]
use super::context::{may_add, standing, Context};
#[allow(unused_imports)]
use super::disposal::{
    asks_to_go, begins_job, finalizes_fiber, hears_of_child_scope, hears_of_dependents,
    hears_of_drain, hears_of_effect, hears_of_handlers, hears_of_tasks, next_after_children,
    observes_disposal, other_than, withdrawn, DisposalAction, DisposalEnd, DrainOutcome, EffectEnd,
    FiberDisposalJob,
};
#[allow(unused_imports)]
use super::dependency::symbols_of;
#[allow(unused_imports)]
use super::scope::{is_legacy_disposal, DisposalStart};
#[allow(unused_imports)]
use super::Runtime;
#[allow(unused_imports)]
use crate::dependency_graph::Edge;
#[allow(unused_imports)]
use crate::disposal::{DisposalObservation, DisposalTerminal};
#[allow(unused_imports)]
use crate::error::CordisError;
#[allow(unused_imports)]
use crate::fiber_registry::FiberRecord;
#[allow(unused_imports)]
use crate::id_list::lemma_except_contains;
#[allow(unused_imports)]
use crate::ids::{
    FiberId, HandlerId, InvocationHandlerId, InvocationMiddlewareId, ScopeId, ServiceSymbol, TaskId,
};
#[allow(unused_imports)]
use crate::key::ServiceKey;
#[allow(unused_imports)]
use crate::service_registry::{owned_in, slot_of, Entries, ServiceRegistry};
#[allow(unused_imports)]
use crate::state::FiberState;
#[allow(unused_imports)]
use crate::text::decimal;
#[allow(unused_imports)]
use crate::task::{lemma_untaken, taken, OwnedTask, TakenTask};
use std::sync::Arc;
use vstd::prelude::*;

verus! {

/// What a sequence holds does not depend on the direction.
proof fn lemma_reversed<T>(items: Seq<T>)
    ensures
        items.reverse().len() == items.len(),
        forall|item: T| #[trigger] items.reverse().contains(item) <==> items.contains(item),
{
    assert forall|item: T| #[trigger] items.reverse().contains(item) <==> items.contains(item) by {
        if items.contains(item) {
            let k = items.index_of(item);
            assert(items.reverse()[items.len() - 1 - k] == item);
        }
        if items.reverse().contains(item) {
            let k = items.reverse().index_of(item);
            assert(items[items.len() - 1 - k] == item);
        }
    }
}

/// No registration of a fiber is lost: what it had registered before a step and no longer
/// has after it, is handed out to be taken back, and nothing else is, the last one first.
pub proof fn law_registrations_are_handed_out(
    before: FiberRecord,
    after: FiberRecord,
    action: DisposalAction,
)
    requires
        next_after_children(before, after, action),
    ensures
        forall|id: HandlerId| #[trigger]
            before.handlers@.contains(id) && !after.handlers@.contains(id) ==> (
            action matches DisposalAction::Unregister(out) && out.handlers@.contains(id)),
        forall|id: InvocationHandlerId| #[trigger]
            before.invocation_handlers@.contains(id) && !after.invocation_handlers@.contains(id)
                ==> (action matches DisposalAction::Unregister(out)
                && out.invocation_handlers@.contains(id)),
        forall|id: InvocationMiddlewareId| #[trigger]
            before.invocation_middleware@.contains(id) && !after.invocation_middleware@.contains(id)
                ==> (action matches DisposalAction::Unregister(out)
                && out.invocation_middleware@.contains(id)),
        action matches DisposalAction::Unregister(out) ==> {
            &&& after.handlers@.len() == 0
            &&& after.invocation_handlers@.len() == 0
            &&& after.invocation_middleware@.len() == 0
            &&& out.handlers@.len() == before.handlers@.len()
            &&& out.invocation_handlers@.len() == before.invocation_handlers@.len()
            &&& out.invocation_middleware@.len() == before.invocation_middleware@.len()
            &&& forall|k: int|
                0 <= k < out.handlers@.len() ==> #[trigger] out.handlers@[k]
                    == before.handlers@[before.handlers@.len() - 1 - k]
            &&& forall|k: int|
                0 <= k < out.invocation_handlers@.len() ==> #[trigger] out.invocation_handlers@[k]
                    == before.invocation_handlers@[before.invocation_handlers@.len() - 1 - k]
            &&& forall|k: int|
                0 <= k < out.invocation_middleware@.len()
                    ==> #[trigger] out.invocation_middleware@[k]
                    == before.invocation_middleware@[before.invocation_middleware@.len() - 1 - k]
        },
{
    lemma_reversed(before.handlers@);
    lemma_reversed(before.invocation_handlers@);
    lemma_reversed(before.invocation_middleware@);
}

/// Where the wait for the uses of a fiber ended well: every handler, invocation handler and
/// middleware that the fiber had registered, it either has still, or it is handed out to be
/// taken back, and it is handed out only once no child scope of the fiber is left.
pub proof fn law_drained_fibers_lose_no_registration(
    before: Runtime,
    after: Runtime,
    fiber: FiberId,
    action: DisposalAction,
)
    requires
        before.fibers@.dom().contains(fiber.raw),
        hears_of_drain(before, after, fiber, DrainOutcome::Drained, action),
    ensures
        ({
            let was = before.fibers@[fiber.raw];
            let now = after.fibers@[fiber.raw];
            &&& forall|id: HandlerId| #[trigger]
                was.handlers@.contains(id) ==> now.handlers@.contains(id) || (
                action matches DisposalAction::Unregister(out) && out.handlers@.contains(id))
            &&& forall|id: InvocationHandlerId| #[trigger]
                was.invocation_handlers@.contains(id) ==> now.invocation_handlers@.contains(id) || (
                action matches DisposalAction::Unregister(out)
                    && out.invocation_handlers@.contains(id))
            &&& forall|id: InvocationMiddlewareId| #[trigger]
                was.invocation_middleware@.contains(id) ==> now.invocation_middleware@.contains(id)
                    || (action matches DisposalAction::Unregister(out)
                    && out.invocation_middleware@.contains(id))
            &&& match action {
                DisposalAction::DisposeChild(child) => {
                    &&& was.child_scopes@.len() > 0
                    &&& child == was.child_scopes@[was.child_scopes@.len() - 1]
                },
                DisposalAction::Unregister(out) => was.child_scopes@.len() == 0,
                _ => false,
            }
            &&& now.child_scopes@ == was.child_scopes@
            &&& now.effects@ == was.effects@
            &&& now.provided@ == was.provided@
            &&& now.disposal.errors@ == was.disposal.errors@
        }),
{
    let was = before.fibers@[fiber.raw];
    lemma_reversed(was.handlers@);
    lemma_reversed(was.invocation_handlers@);
    lemma_reversed(was.invocation_middleware@);
}

/// The same after a child scope: the fiber lists it no longer and keeps the other child
/// scopes, and no registration is lost.
pub proof fn law_fibers_lose_no_registration_with_a_child(
    before: Runtime,
    after: Runtime,
    fiber: FiberId,
    child: ScopeId,
    result: Result<(), CordisError>,
    action: DisposalAction,
)
    requires
        before.fibers@.dom().contains(fiber.raw),
        hears_of_child_scope(before, after, fiber, child, result, action),
    ensures
        ({
            let was = before.fibers@[fiber.raw];
            let now = after.fibers@[fiber.raw];
            &&& forall|id: HandlerId| #[trigger]
                was.handlers@.contains(id) ==> now.handlers@.contains(id) || (
                action matches DisposalAction::Unregister(out) && out.handlers@.contains(id))
            &&& forall|id: InvocationHandlerId| #[trigger]
                was.invocation_handlers@.contains(id) ==> now.invocation_handlers@.contains(id) || (
                action matches DisposalAction::Unregister(out)
                    && out.invocation_handlers@.contains(id))
            &&& forall|id: InvocationMiddlewareId| #[trigger]
                was.invocation_middleware@.contains(id) ==> now.invocation_middleware@.contains(id)
                    || (action matches DisposalAction::Unregister(out)
                    && out.invocation_middleware@.contains(id))
            &&& !now.child_scopes@.contains(child)
            &&& forall|other: ScopeId| #[trigger]
                was.child_scopes@.contains(other) && other != child
                    ==> now.child_scopes@.contains(other)
            &&& match action {
                DisposalAction::DisposeChild(next) => {
                    &&& now.child_scopes@.len() > 0
                    &&& next == now.child_scopes@[now.child_scopes@.len() - 1]
                },
                DisposalAction::Unregister(out) => now.child_scopes@.len() == 0,
                _ => false,
            }
            &&& now.effects@ == was.effects@
            &&& now.provided@ == was.provided@
        }),
{
    let was = before.fibers@[fiber.raw];
    lemma_reversed(was.handlers@);
    lemma_reversed(was.invocation_handlers@);
    lemma_reversed(was.invocation_middleware@);
    let others = other_than(child);
    let kept = was.child_scopes@.filter(others);
    assert forall|other: ScopeId| #[trigger] was.child_scopes@.contains(other) && other
        != child implies kept.contains(other) by {
        was.child_scopes@.lemma_filter_contains(others, was.child_scopes@.index_of(other));
    }
    assert(!kept.contains(child)) by {
        if kept.contains(child) {
            was.child_scopes@.lemma_filter_pred(others, kept.index_of(child));
        }
    }
}

/// Effects are disposed one by one, the last one first, and none is left out: a step that
/// hands one out has taken just this one out of the record, and no disposal goes on to the
/// fibers that depend on it, or ends, while it still has an effect.
pub proof fn law_effects_go_one_by_one(
    before: Runtime,
    after: Runtime,
    job: FiberDisposalJob,
    later: FiberDisposalJob,
    end: EffectEnd,
    action: DisposalAction,
)
    requires
        before.fibers@.dom().contains(job.fiber.raw),
        hears_of_handlers(before, after, job, later, action) || hears_of_effect(
            before,
            after,
            job,
            later,
            end,
            action,
        ),
    ensures
        ({
            let was = before.fibers@[job.fiber.raw];
            let now = after.fibers@[job.fiber.raw];
            match action {
                DisposalAction::DisposeEffect(effect) => was.effects@ == now.effects@.push(effect),
                DisposalAction::Reconcile(symbols) => was.effects@.len() == 0 && now.effects@.len()
                    == 0,
                DisposalAction::Finish(end) => was.effects@.len() == 0 && now.effects@.len() == 0,
                _ => false,
            }
        }),
{
    let was = before.fibers@[job.fiber.raw];
    if was.effects@.len() > 0 {
        assert(was.effects@ =~= was.effects@.drop_last().push(was.effects@.last()));
    }
}

/// What is withdrawn of the services of one fiber, and what is left.
proof fn lemma_withdrawn(
    services: ServiceRegistry,
    entries: Entries,
    scope: ScopeId,
    fiber: FiberId,
    keys: Seq<ServiceKey>,
)
    ensures
        ({
            let (left, removed) = withdrawn(services, entries, scope, fiber, keys);
            &&& forall|slot: u128| #[trigger]
                left.dom().contains(slot) ==> entries.dom().contains(slot) && left[slot]
                    == entries[slot]
            &&& forall|slot: u128| #[trigger]
                entries.dom().contains(slot) && !left.dom().contains(slot)
                    ==> entries[slot].owner == fiber && exists|k: int|
                    0 <= k < removed.len() && slot == slot_of(scope, #[trigger] removed[k])
            &&& forall|k: int|
                0 <= k < removed.len() ==> entries.dom().contains(
                    slot_of(scope, #[trigger] removed[k]),
                ) && entries[slot_of(scope, removed[k])].owner == fiber && !left.dom().contains(
                    slot_of(scope, removed[k]),
                )
        }),
    decreases keys.len(),
{
    if keys.len() > 0 {
        let symbol = services.symbol_of(keys.last()@)->0;
        let slot = slot_of(scope, symbol);
        let (left, removed) = withdrawn(services, entries, scope, fiber, keys);
        if owned_in(entries, scope, symbol, fiber) {
            let fewer = entries.remove(slot);
            let rest = withdrawn(services, fewer, scope, fiber, keys.drop_last());
            lemma_withdrawn(services, fewer, scope, fiber, keys.drop_last());
            assert(left == rest.0);
            assert(removed == seq![symbol] + rest.1);
            assert(removed[0] == symbol);
            assert forall|other: u128| #[trigger]
                entries.dom().contains(other) && !left.dom().contains(
                    other,
                ) implies entries[other].owner == fiber && exists|k: int|
                0 <= k < removed.len() && other == slot_of(scope, #[trigger] removed[k]) by {
                if other != slot {
                    assert(fewer.dom().contains(other));
                    let k = choose|k: int|
                        0 <= k < rest.1.len() && other == slot_of(scope, #[trigger] rest.1[k]);
                    assert(removed[k + 1] == rest.1[k]);
                }
            }
            assert forall|k: int| 0 <= k < removed.len() implies entries.dom().contains(
                slot_of(scope, #[trigger] removed[k]),
            ) && entries[slot_of(scope, removed[k])].owner == fiber && !left.dom().contains(
                slot_of(scope, removed[k]),
            ) by {
                if k > 0 {
                    assert(removed[k] == rest.1[k - 1]);
                }
            }
        } else {
            assert((left, removed) == withdrawn(services, entries, scope, fiber, keys.drop_last()));
            lemma_withdrawn(services, entries, scope, fiber, keys.drop_last());
        }
    }
}

/// A fiber that stops serving withdraws just its own services, and the symbol of each of
/// them is remembered for the fibers that depend on it: a service that is gone was its own
/// and is remembered, and what is remembered was a service of its own and is gone.
pub proof fn law_withdrawn_services_are_remembered(
    before: Runtime,
    after: Runtime,
    job: FiberDisposalJob,
    later: FiberDisposalJob,
    action: DisposalAction,
)
    requires
        before.fibers@.dom().contains(job.fiber.raw),
        hears_of_handlers(before, after, job, later, action),
    ensures
        forall|slot: u128| #[trigger]
            after.services@.dom().contains(slot) ==> before.services@.dom().contains(slot)
                && after.services@[slot] == before.services@[slot],
        forall|slot: u128| #[trigger]
            before.services@.dom().contains(slot) && !after.services@.dom().contains(slot)
                ==> before.services@[slot].owner == job.fiber && exists|k: int|
                0 <= k < later.removed@.len() && slot == slot_of(
                    before.fibers@[job.fiber.raw].scope,
                    #[trigger] later.removed@[k],
                ),
        forall|k: int|
            #![trigger later.removed@[k]]
            0 <= k < later.removed@.len() ==> ({
                let slot = slot_of(before.fibers@[job.fiber.raw].scope, later.removed@[k]);
                &&& before.services@.dom().contains(slot)
                &&& before.services@[slot].owner == job.fiber
                &&& !after.services@.dom().contains(slot)
            }),
        after.fibers@[job.fiber.raw].provided@.len() == 0,
{
    let record = before.fibers@[job.fiber.raw];
    lemma_withdrawn(
        before.services,
        before.services@,
        record.scope,
        job.fiber,
        record.provided@,
    );
}

/// While the runtime takes new work, a disposal that withdrew services does not end before
/// the fibers that depend on them act: they are handed out with the symbol of every service
/// that was withdrawn, and every fiber that depends on one of them is asked.
pub proof fn law_dependents_of_withdrawn_services_are_asked(
    before: Runtime,
    after: Runtime,
    job: FiberDisposalJob,
    later: FiberDisposalJob,
    end: EffectEnd,
    action: DisposalAction,
    symbol: ServiceSymbol,
    dependent: u64,
)
    requires
        before.fibers@.dom().contains(job.fiber.raw),
        hears_of_handlers(before, after, job, later, action) || hears_of_effect(
            before,
            after,
            job,
            later,
            end,
            action,
        ),
        !before.admission.closed,
        later.removed@.contains(symbol),
        before.dependencies.depends(symbol, FiberId { raw: dependent }),
    ensures
        !(action is Finish),
        action matches DisposalAction::Reconcile(symbols) ==> symbols@.contains(symbol)
            && after.depends_on_any(symbols@, dependent),
{
}

/// What is taken over of the tasks `ids`.
proof fn lemma_taken(tasks: Map<u64, OwnedTask>, ids: Seq<TaskId>)
    ensures
        forall|id: TaskId| #[trigger]
            ids.contains(id) && tasks.dom().contains(id.raw) ==> taken(tasks, ids).contains(
                TakenTask { id, task: tasks[id.raw] },
            ),
        forall|one: TakenTask| #[trigger]
            taken(tasks, ids).contains(one) ==> ids.contains(one.id) && tasks.dom().contains(
                one.id.raw,
            ) && one.task == tasks[one.id.raw],
    decreases ids.len(),
{
    if ids.len() > 0 {
        let first = ids[0];
        let rest = ids.drop_first();
        let fewer = tasks.remove(first.raw);
        let all = taken(tasks, ids);
        assert forall|id: TaskId| #[trigger] ids.contains(id) <==> id == first || rest.contains(
            id,
        ) by {
            if ids.contains(id) && id != first {
                let k = ids.index_of(id);
                assert(rest[k - 1] == id);
            }
            if rest.contains(id) {
                let k = rest.index_of(id);
                assert(ids[k + 1] == id);
            }
            assert(ids[0] == first);
        }
        lemma_taken(fewer, rest);
        if tasks.dom().contains(first.raw) {
            let one = TakenTask { id: first, task: tasks[first.raw] };
            let others = taken(fewer, rest);
            assert(all == seq![one] + others);
            assert forall|other: TakenTask| #[trigger] all.contains(other) <==> other == one
                || others.contains(other) by {
                if others.contains(other) {
                    let k = others.index_of(other);
                    assert(all[k + 1] == other);
                }
                if all.contains(other) && other != one {
                    let k = all.index_of(other);
                    assert(others[k - 1] == other);
                }
                assert(all[0] == one);
            }
            assert forall|id: TaskId| #[trigger] ids.contains(id) && tasks.dom().contains(
                id.raw,
            ) implies all.contains(TakenTask { id, task: tasks[id.raw] }) by {
                if id != first {
                    assert(rest.contains(id));
                }
            }
        } else {
            assert(fewer =~= tasks);
        }
        assert forall|one: TakenTask| #[trigger] all.contains(one) implies ids.contains(one.id)
            && tasks.dom().contains(one.id.raw) && one.task == tasks[one.id.raw] by {
            if taken(fewer, rest).contains(one) {
                assert(rest.contains(one.id));
                assert(ids.contains(one.id));
            } else {
                assert(one.id == first);
                assert(ids.contains(first));
            }
        }
    }
}

/// A disposal takes over every task that the fiber lists, as it is, and no other: the fiber
/// lists none afterwards, no task of it is left among the running ones, and the tasks of the
/// others are left as they were.
pub proof fn law_disposals_take_over_all_tasks(
    before: Runtime,
    after: Runtime,
    fiber: FiberId,
    job: FiberDisposalJob,
    tasks: Vec<TakenTask>,
)
    requires
        before.wf(),
        begins_job(before, after, fiber, Ok((job, tasks))),
    ensures
        ({
            let was = before.fibers@[fiber.raw];
            let now = after.fibers@[fiber.raw];
            &&& forall|id: TaskId| #[trigger]
                was.tasks@.contains(id) ==> tasks@.contains(
                    TakenTask { id, task: before.tasks.arena@[id.raw] },
                ) && !after.tasks.arena@.dom().contains(id.raw)
            &&& forall|k: int|
                0 <= k < tasks@.len() ==> was.tasks@.contains((#[trigger] tasks@[k]).id)
                    && tasks@[k].task.owner == fiber
            &&& forall|raw: u64| #[trigger]
                before.tasks.arena@.dom().contains(raw) && !was.tasks@.contains(TaskId { raw })
                    ==> after.tasks.arena@.dom().contains(raw) && after.tasks.arena@[raw]
                    == before.tasks.arena@[raw]
            &&& now.tasks@.len() == 0
            &&& now.cancelled
            &&& job.fiber == fiber
            &&& job.removed@.len() == 0
        }),
{
    let was = before.fibers@[fiber.raw];
    lemma_taken(before.tasks.arena@, was.tasks@);
    assert forall|k: int| 0 <= k < tasks@.len() implies was.tasks@.contains(
        (#[trigger] tasks@[k]).id,
    ) && tasks@[k].task.owner == fiber by {
        assert(tasks@.contains(tasks@[k]));
        assert(was.tasks@.contains(tasks@[k].id));
    }
    assert forall|id: TaskId| #[trigger] was.tasks@.contains(id) implies tasks@.contains(
        TakenTask { id, task: before.tasks.arena@[id.raw] },
    ) && !after.tasks.arena@.dom().contains(id.raw) by {
        assert(before.fibers@[fiber.raw].tasks@.contains(id));
        lemma_untaken(before.tasks.arena@, was.tasks@, id.raw);
        assert(TaskId { raw: id.raw } == id);
    }
    assert forall|raw: u64| #[trigger] before.tasks.arena@.dom().contains(raw)
        && !was.tasks@.contains(TaskId { raw }) implies after.tasks.arena@.dom().contains(raw)
        && after.tasks.arena@[raw] == before.tasks.arena@[raw] by {
        lemma_untaken(before.tasks.arena@, was.tasks@, raw);
    }
}

/// No failure of a disposal is lost: a step that failed leaves an issue with that failure
/// as its cause behind those that were noted before, and a step that went well adds none.
pub proof fn law_disposals_note_failures(
    before: Runtime,
    after: Runtime,
    job: FiberDisposalJob,
    later: FiberDisposalJob,
    child: ScopeId,
    result: Result<(), CordisError>,
    effect: EffectEnd,
    action: DisposalAction,
    end: DisposalEnd,
)
    requires
        before.fibers@.dom().contains(job.fiber.raw),
        ({
            ||| hears_of_tasks(before, after, job.fiber, result, action)
            ||| hears_of_child_scope(before, after, job.fiber, child, result, action)
            ||| hears_of_dependents(before, after, job, result, end)
            ||| {
                &&& hears_of_effect(before, after, job, later, effect, action)
                &&& effect is Disposed ==> result is Ok
                &&& effect matches EffectEnd::Failed(error) ==> result == Err::<(), CordisError>(
                    error,
                )
                &&& !(effect is Panicked)
            }
        }),
    ensures
        ({
            let was = before.fibers@[job.fiber.raw].disposal.errors@;
            let now = after.fibers@[job.fiber.raw].disposal.errors@;
            match result {
                Ok(()) => now == was,
                Err(error) => {
                    &&& now.len() == was.len() + 1
                    &&& forall|k: int| 0 <= k < was.len() ==> #[trigger] now[k] == was[k]
                    &&& now[was.len() as int].cause == Some(error)
                    &&& now[was.len() as int].message@ == error.text()
                },
            }
        }),
        result is Err ==> ({
            let was = before.fibers@[job.fiber.raw].disposal.errors@;
            let phase = after.fibers@[job.fiber.raw].disposal.errors@[was.len() as int].phase;
            ||| phase is TaskDrain && hears_of_tasks(before, after, job.fiber, result, action)
            ||| phase is ChildScopeCleanup && hears_of_child_scope(
                before,
                after,
                job.fiber,
                child,
                result,
                action,
            )
            ||| phase is DependencyCleanup && hears_of_dependents(before, after, job, result, end)
            ||| phase is EffectCleanup && hears_of_effect(
                before,
                after,
                job,
                later,
                effect,
                action,
            )
        }),
{
    let was = before.fibers@[job.fiber.raw].disposal.errors@;
    let now = after.fibers@[job.fiber.raw].disposal.errors@;
    if result is Err {
        assert(now.drop_last() == was);
        assert forall|k: int| 0 <= k < was.len() implies #[trigger] now[k] == was[k] by {
            assert(now.drop_last()[k] == now[k]);
        }
    }
}

/// An effect whose disposal panicked leaves an issue behind those that were noted before.
pub proof fn law_panicked_effects_are_noted(
    before: Runtime,
    after: Runtime,
    job: FiberDisposalJob,
    later: FiberDisposalJob,
    effect: EffectEnd,
    action: DisposalAction,
)
    requires
        before.fibers@.dom().contains(job.fiber.raw),
        hears_of_effect(before, after, job, later, effect, action),
        effect is Panicked,
    ensures
        ({
            let was = before.fibers@[job.fiber.raw].disposal.errors@;
            let now = after.fibers@[job.fiber.raw].disposal.errors@;
            &&& now.len() == was.len() + 1
            &&& forall|k: int| 0 <= k < was.len() ==> #[trigger] now[k] == was[k]
            &&& now[was.len() as int].phase is EffectCleanup
            &&& now[was.len() as int].cause matches Some(CordisError::PluginDisposeFailed(message))
        }),
{
    let was = before.fibers@[job.fiber.raw].disposal.errors@;
    let now = after.fibers@[job.fiber.raw].disposal.errors@;
    assert(now.drop_last() == was);
    assert forall|k: int| 0 <= k < was.len() implies #[trigger] now[k] == was[k] by {
        assert(now.drop_last()[k] == now[k]);
    }
}

/// A disposal that went through all steps succeeded exactly where nothing was noted, and
/// leaves the fiber waiting exactly where everybody who asked for it wanted it to wait.
pub proof fn law_ends_say_what_was_noted(
    before: Runtime,
    after: Runtime,
    job: FiberDisposalJob,
    later: FiberDisposalJob,
    effect: EffectEnd,
    end: DisposalEnd,
)
    requires
        before.fibers@.dom().contains(job.fiber.raw),
        hears_of_handlers(before, after, job, later, DisposalAction::Finish(end))
            || hears_of_effect(before, after, job, later, effect, DisposalAction::Finish(end)),
    ensures
        ({
            let record = after.fibers@[job.fiber.raw];
            &&& end.result is Ok <==> record.disposal.errors@.len() == 0
            &&& record.disposal.errors@.len() == 1 ==> (end.result matches Err(error) && (
            record.disposal.errors@[0].cause matches Some(cause) ==> error == cause))
            &&& record.disposal.errors@.len() > 1 ==> (
            end.result matches Err(CordisError::PluginDisposeFailed(words)))
            &&& !end.terminated
            &&& end.target == Some(
                if record.disposal.wait_for_dependencies {
                    FiberState::WaitingDependencies
                } else {
                    FiberState::Disposed
                },
            )
        }),
{
}

/// The same where the fibers that depend on it acted first; where it leads was settled
/// before they did.
pub proof fn law_ends_after_dependents_say_what_was_noted(
    before: Runtime,
    after: Runtime,
    job: FiberDisposalJob,
    result: Result<(), CordisError>,
    end: DisposalEnd,
)
    requires
        before.fibers@.dom().contains(job.fiber.raw),
        hears_of_dependents(before, after, job, result, end),
    ensures
        end.result is Ok <==> before.fibers@[job.fiber.raw].disposal.errors@.len() == 0 && result
            is Ok,
        !end.terminated,
        end.target == Some(job.target),
{
}

/// A disposal whose uses did not end in time waits on where it must not give up, and ends
/// early with a failure otherwise; either way nothing was cleaned up meanwhile.
pub proof fn law_late_drains_wait_or_give_up(
    before: Runtime,
    after: Runtime,
    fiber: FiberId,
    remaining: usize,
    action: DisposalAction,
)
    requires
        before.fibers@.dom().contains(fiber.raw),
        hears_of_drain(before, after, fiber, DrainOutcome::TimedOut { remaining }, action),
    ensures
        after == before,
        before.fibers@[fiber.raw].disposal.persistent_drain ==> action is Drain,
        !before.fibers@[fiber.raw].disposal.persistent_drain ==> (
        action matches DisposalAction::Finish(end) && end.target is None && end.terminated && (
        end.result matches Err(CordisError::CleanupFailed(words)) && words@
            == "generation drain timed out with "@ + decimal(remaining as nat)
            + " provider executions"@)),
{
}

/// What is published of a disposal is what was noted: the observation holds every issue that
/// the record does, in order, says that the disposal committed exactly where it did not end
/// early, and tells the result that is answered.
pub proof fn law_published_disposals_tell_everything(
    before: Runtime,
    after: Runtime,
    fiber: FiberId,
    end: DisposalEnd,
    ended: (Result<(), CordisError>, Option<u64>),
)
    requires
        before.fibers@.dom().contains(fiber.raw),
        before.fibers@[fiber.raw].disposal.observation is None,
        finalizes_fiber(before, after, fiber, end, ended),
    ensures
        ({
            let was = before.fibers@[fiber.raw];
            let now = after.fibers@[fiber.raw];
            &&& now.disposal.observation matches Some(observation)
            &&& observation.issues@ == was.disposal.errors@
            &&& observation.legacy_result == ended.0
            &&& end.result is Err ==> ended.0 is Err
            &&& end.result is Ok && was.state is Disposing && !end.terminated && (end.target
                == Some(FiberState::Disposed) || end.target == Some(
                FiberState::WaitingDependencies,
            )) ==> ended.0 is Ok
            &&& observation.terminal is Committed <==> !end.terminated
            &&& end.terminated <==> now.disposal.phase is Terminated
            &&& !end.terminated <==> now.disposal.phase is Complete
            &&& end.terminated ==> now.state == was.state
            &&& !end.terminated && end.target == Some(FiberState::Disposed)
                ==> now.state is Disposed
            &&& !end.terminated && end.target == Some(FiberState::WaitingDependencies)
                ==> now.state == (if was.disposal.wait_for_dependencies {
                FiberState::WaitingDependencies
            } else {
                FiberState::Disposed
            })
            &&& now.disposal.result == Some(ended.0)
            &&& end.terminated && ended.0 is Err ==> observation.terminal
                == DisposalTerminal::Incomplete(ended.0->Err_0)
        }),
{
}

/// A disposal that was published can be read by everybody, and tells who only asks whether it
/// succeeded the result that was published. What cannot be observed failed for that reason.
pub proof fn law_published_disposals_can_be_read(
    before: Runtime,
    after: Runtime,
    fiber: FiberId,
    end: DisposalEnd,
    ended: (Result<(), CordisError>, Option<u64>),
    observation: Option<Arc<DisposalObservation>>,
    result: Result<(), CordisError>,
    reason: CordisError,
    failed: Result<(), CordisError>,
)
    requires
        before.fibers@.dom().contains(fiber.raw),
        before.fibers@[fiber.raw].disposal.observation is None,
        finalizes_fiber(before, after, fiber, end, ended),
        observes_disposal(after, fiber, observation),
        observation is Some ==> is_legacy_disposal(Ok(observation->0), result),
        is_legacy_disposal(Err(reason), failed),
    ensures
        observation is Some,
        result == ended.0,
        observation->0.issues@ == before.fibers@[fiber.raw].disposal.errors@,
        failed == Err::<(), CordisError>(reason),
{
}

/// A fiber that is disposed for good is forgotten by those who go by what fibers depend on and
/// provide: nobody finds it for its dependencies or its provisions any more. What others depend
/// on and provide stays, and a fiber that waits for its dependencies is still found for them.
pub proof fn law_disposed_fibers_are_forgotten(
    before: Runtime,
    after: Runtime,
    fiber: FiberId,
    end: DisposalEnd,
    ended: (Result<(), CordisError>, Option<u64>),
    k: int,
    edge: Edge,
    other: u64,
)
    requires
        before.fibers@.dom().contains(fiber.raw),
        before.fibers@[fiber.raw].state is Disposing,
        finalizes_fiber(before, after, fiber, end, ended),
    ensures
        ({
            let was = before.fibers@[fiber.raw];
            let now = after.fibers@[fiber.raw];
            let gone = now.state is Disposed && !(end.result matches Err(error)
                && error.is_terminal());
            &&& gone && 0 <= k < was.descriptor.dependencies@.len() ==> !after.dependencies.depends(
                before.services.symbol_of(was.descriptor.dependencies@[k]@)->0,
                fiber,
            )
            &&& gone && 0 <= k < was.descriptor.provisions@.len() ==> !after.dependencies.provides(
                was.scope,
                before.services.symbol_of(was.descriptor.provisions@[k]@)->0,
                fiber,
            )
            &&& now.state is WaitingDependencies || end.terminated ==> after.dependencies
                == before.dependencies
            &&& edge.fiber != fiber ==> (after.dependencies.dependents@.contains(edge)
                <==> before.dependencies.dependents@.contains(edge))
            &&& edge.fiber != fiber ==> (after.dependencies.providers@.contains(edge)
                <==> before.dependencies.providers@.contains(edge))
            &&& before.scopes@.dom().contains(was.scope.raw) && gone
                ==> !after.scopes@[was.scope.raw].fibers@.contains(fiber.raw)
            &&& before.scopes@.dom().contains(was.scope.raw) && other != fiber.raw ==> (
            after.scopes@[was.scope.raw].fibers@.contains(other)
                <==> before.scopes@[was.scope.raw].fibers@.contains(other))
            &&& before.scopes@.dom().contains(other) && other != was.scope.raw
                ==> after.scopes@[other] == before.scopes@[other]
        }),
        after.services == before.services,
        after.gates == before.gates,
{
    let listed = before.scopes@[before.fibers@[fiber.raw].scope.raw].fibers@;
    assert(seq![fiber.raw][0] == fiber.raw);
    lemma_except_contains(listed, seq![fiber.raw], fiber.raw);
    lemma_except_contains(listed, seq![fiber.raw], other);
    let was = before.fibers@[fiber.raw];
    let needed = symbols_of(before.services, was.descriptor.dependencies@);
    let given = symbols_of(before.services, was.descriptor.provisions@);
    if 0 <= k < needed.len() {
        assert(needed.contains(needed[k]));
    }
    if 0 <= k < given.len() {
        assert(given.contains(given[k]));
    }
}

/// A disposal that begins stops the fiber: it is being disposed, its work is told to stop,
/// its generation takes nothing and shows nothing any more, and no context of it may add
/// anything. A fiber that a reload owns is left alone unless the reload itself asks, a fiber
/// that is gone is refused, and nothing else is touched.
pub proof fn law_begun_disposals_stop_the_fiber(
    before: Runtime,
    after: Runtime,
    fiber: FiberId,
    wait_for_dependencies: bool,
    persistent_drain: bool,
    allow_reload_owned: bool,
    start: Result<DisposalStart, CordisError>,
    context: Context,
)
    requires
        asks_to_go(
            before,
            after,
            fiber,
            wait_for_dependencies,
            persistent_drain,
            allow_reload_owned,
            start,
        ),
        context.fiber == fiber,
    ensures
        start is Err && start->Err_0 is FiberNotFound <==> !before.fibers@.dom().contains(
            fiber.raw,
        ),
        start is Err && start->Err_0 is FiberLifecycleOwned <==> before.fibers@.dom().contains(
            fiber.raw,
        ) && before.fibers@[fiber.raw].reload_owned && !allow_reload_owned,
        start is Err && (start->Err_0 is FiberNotFound || start->Err_0 is FiberLifecycleOwned)
            ==> after == before,
        start == Ok::<DisposalStart, CordisError>(DisposalStart::Started) ==> ({
            let was = before.fibers@[fiber.raw];
            let now = after.fibers@[fiber.raw];
            &&& now.state is Disposing
            &&& now.cancelled
            &&& !now.activation
            &&& now.disposal.phase is Tasks
            &&& now.generation == was.generation
            &&& now.tasks == was.tasks
            &&& now.effects == was.effects
            &&& now.handlers == was.handlers
            &&& now.invocation_handlers == was.invocation_handlers
            &&& now.invocation_middleware == was.invocation_middleware
            &&& now.provided == was.provided
            &&& now.child_scopes == was.child_scopes
            &&& after.gates.at(was.generation).state is Closed
            &&& after.gates.at(was.generation).inflight == before.gates.at(was.generation).inflight
            &&& !after.gates.visible(was.generation)
            &&& standing(after, context) is Err
            &&& may_add(after, context) is Err
            &&& was.disposal.phase is Complete ==> now.disposal.errors@.len() == 0
                && now.disposal.observation is None && now.disposal.result is None
            &&& was.disposal.phase is Idle ==> now.disposal.errors == was.disposal.errors
                && now.disposal.wait_for_dependencies == (was.disposal.wait_for_dependencies
                && wait_for_dependencies) && now.disposal.persistent_drain == (
            was.disposal.persistent_drain || persistent_drain)
            &&& !wait_for_dependencies ==> !now.disposal.wait_for_dependencies
            &&& persistent_drain ==> now.disposal.persistent_drain
            &&& allow_reload_owned ==> !now.reload_owned
        }),
        before.fibers@.dom().contains(fiber.raw) && before.fibers@[fiber.raw].disposal.phase is Idle
            && !(before.fibers@[fiber.raw].reload_owned && !allow_reload_owned) ==> (start
            == Ok::<DisposalStart, CordisError>(DisposalStart::Started)
            <==> !(before.fibers@[fiber.raw].state is Disposed)),
        start is Err && !(start->Err_0 is FiberNotFound) && !(start->Err_0 is FiberLifecycleOwned)
            ==> before.fibers@[fiber.raw].state is Disposed && start->Err_0 is InvalidFiberState,
        start matches Err(CordisError::InvalidFiberState { fiber: told, from, to }) ==> told == fiber
            && from is Disposed && to is Disposing,
        start matches Err(CordisError::FiberLifecycleOwned(told)) ==> told == fiber,
        forall|other: u64| #[trigger]
            before.fibers@.dom().contains(other) && other != fiber.raw
                ==> after.fibers@.dom().contains(other) && after.fibers@[other]
                == before.fibers@[other],
        after.services == before.services,
        after.scopes == before.scopes,
        after.tasks == before.tasks,
{
}

/// Whoever asks while a disposal is under way joins it, and can only make it stricter: it
/// waits for dependencies only where all who asked want that, and does not give up where
/// one of them wants that.
pub proof fn law_later_requests_join(
    before: Runtime,
    middle: Runtime,
    after: Runtime,
    fiber: FiberId,
    waits: (bool, bool),
    persists: (bool, bool),
    allows: (bool, bool),
    start: Result<DisposalStart, CordisError>,
)
    requires
        asks_to_go(
            before,
            middle,
            fiber,
            waits.0,
            persists.0,
            allows.0,
            Ok(DisposalStart::Started),
        ),
        asks_to_go(middle, after, fiber, waits.1, persists.1, allows.1, start),
    ensures
        start == Ok::<DisposalStart, CordisError>(DisposalStart::Joined),
        after.fibers@[fiber.raw].disposal.wait_for_dependencies
            == (middle.fibers@[fiber.raw].disposal.wait_for_dependencies && waits.1),
        after.fibers@[fiber.raw].disposal.persistent_drain
            == (middle.fibers@[fiber.raw].disposal.persistent_drain || persists.1),
        after.fibers@[fiber.raw].state is Disposing,
        allows.1 ==> !after.fibers@[fiber.raw].reload_owned,
        after.fibers@[fiber.raw].disposal.errors == middle.fibers@[fiber.raw].disposal.errors,
        after.fibers@[fiber.raw].disposal.phase == middle.fibers@[fiber.raw].disposal.phase,
        after.fibers@[fiber.raw].tasks == middle.fibers@[fiber.raw].tasks,
        after.fibers@[fiber.raw].provided == middle.fibers@[fiber.raw].provided,
        after.gates == middle.gates,
{
}

/// The end of a disposal asks for a collection of garbage, as long as the runtime takes new
/// work; afterwards it does not, as the shutdown collects by itself.
pub proof fn law_ended_disposals_ask_for_a_collection(
    before: Runtime,
    after: Runtime,
    fiber: FiberId,
    end: DisposalEnd,
    ended: (Result<(), CordisError>, Option<u64>),
)
    requires
        before.fibers@.dom().contains(fiber.raw),
        before.fibers@[fiber.raw].disposal.observation is None,
        finalizes_fiber(before, after, fiber, end, ended),
    ensures
        !before.admission.closed ==> !(after.gc_state is Idle),
        !before.admission.closed && !(before.gc_state is Idle) ==> after.gc_state is Rescheduled,
        !before.admission.closed && before.gc_state is Idle ==> ended.1 is Some
            && after.workers.workers@.dom().contains(ended.1->0),
        before.admission.closed ==> ended.1 is None && after.gc_state == before.gc_state,
{
}

/// How far a disposal is said to be follows the work: the uses are waited for once the tasks are
/// joined, then come the child scopes, the registrations once none of them is left, then the
/// effects, and the fibers that depend on it, or the end, once no effect is left.
pub proof fn law_phases_follow_the_work(
    before: Runtime,
    after: Runtime,
    job: FiberDisposalJob,
    later: FiberDisposalJob,
    result: Result<(), CordisError>,
    end: EffectEnd,
    child: ScopeId,
    action: DisposalAction,
)
    requires
        before.fibers@.dom().contains(job.fiber.raw),
    ensures
        hears_of_tasks(before, after, job.fiber, result, action) ==> action is Drain
            && after.fibers@[job.fiber.raw].disposal.phase is Draining,
        hears_of_drain(before, after, job.fiber, DrainOutcome::Drained, action) ==> (action
            is DisposeChild ==> after.fibers@[job.fiber.raw].disposal.phase is ChildScopes) && (
        action is Unregister ==> after.fibers@[job.fiber.raw].disposal.phase is Handlers),
        hears_of_child_scope(before, after, job.fiber, child, result, action) && action
            is Unregister ==> after.fibers@[job.fiber.raw].disposal.phase is Handlers,
        hears_of_handlers(before, after, job, later, action) ==> (action is DisposeEffect
            ==> after.fibers@[job.fiber.raw].disposal.phase is Effects) && (!(action
            is DisposeEffect) ==> after.fibers@[job.fiber.raw].disposal.phase is Reconciling),
        hears_of_effect(before, after, job, later, end, action) && !(action is DisposeEffect)
            ==> after.fibers@[job.fiber.raw].disposal.phase is Reconciling,
{
}

} // verus!
