//! What a plugin does through its context: tasks, effects, services, handlers and
//! scopes that its fiber owns.
#[allow(unused_imports)]
use super::disposal::edits_fiber;
#[allow(unused_imports)]
use super::scope::creates_scope;
use super::activation::ActivationTicket;
use super::Runtime;
#[allow(unused_imports)]
use super::{all_interned, fiber_fits, quota_rejected};
use crate::error::CordisError;
use crate::fiber_registry::FiberRecord;
use crate::gate::GateState;
#[allow(unused_imports)]
use crate::health::Diagnostics;
use crate::ids::{
    EffectId, FiberId, GenerationId, HandlerId, InvocationHandlerId, InvocationMiddlewareId,
    ScopeId, ServiceSymbol, TaskId,
};
#[allow(unused_imports)]
use crate::key::key_views;
use crate::key::{names, ServiceKey};
use crate::service_registry::ServiceEntry;
#[allow(unused_imports)]
use crate::service_registry::slot_of;
use crate::state::ResourceKind;
use crate::task::TaskOutcome;
#[allow(unused_imports)]
use crate::arena::retains;
#[allow(unused_imports)]
use crate::task::{noted_if, task_issue, OwnedTask};
use std::sync::Arc;
use vstd::prelude::*;

verus! {

/// Stands for one activation of a fiber.
#[derive(Clone, Copy, Debug, PartialEq, Eq, Structural)]
pub struct Context {
    /// The scope of the fiber when it was activated.
    pub scope: ScopeId,
    pub fiber: FiberId,
    pub generation: GenerationId,
}

/// A task that was entered.
#[derive(Clone, Copy, Debug, PartialEq, Eq, Structural)]
pub struct TaskTicket {
    pub id: TaskId,
    /// Whether the task waits until the activation commits.
    pub waits: bool,
}

/// A handler that a fiber answers for.
#[derive(Clone, Copy, Debug, PartialEq, Eq, Structural)]
pub enum Registration {
    Handler(HandlerId),
    InvocationHandler(InvocationHandlerId),
    InvocationMiddleware(InvocationMiddlewareId),
}

/// Whether a context still stands for its fiber: the fiber is there, is in the same
/// generation, and that generation takes work.
pub open spec fn standing(runtime: Runtime, context: Context) -> Result<(), CordisError> {
    let record = runtime.fibers@[context.fiber.raw];
    if !runtime.fibers@.dom().contains(context.fiber.raw) {
        Err(CordisError::FiberNotFound)
    } else if record.generation != context.generation || runtime.gates.at(
        context.generation,
    ).state is Closed {
        Err(
            CordisError::StaleContextGeneration {
                fiber: context.fiber,
                expected: context.generation,
                actual: record.generation,
            },
        )
    } else {
        Ok(())
    }
}

/// Whether a context may add to what its fiber owns: the runtime takes work, the
/// context stands for its fiber, and the activation is not sealed.
pub open spec fn may_add(runtime: Runtime, context: Context) -> Result<(), CordisError> {
    if runtime.admission.closed {
        Err(CordisError::RuntimeShuttingDown)
    } else if standing(runtime, context) is Err {
        standing(runtime, context)
    } else if runtime.fibers@[context.fiber.raw].activation_sealed {
        Err(CordisError::ActivationSealed(context.fiber))
    } else {
        Ok(())
    }
}

/// Where a context works.
pub open spec fn places(
    runtime: Runtime,
    context: Context,
    result: Result<ScopeId, CordisError>,
) -> bool {
    result == match standing(runtime, context) {
        Err(error) => Err::<ScopeId, CordisError>(error),
        Ok(()) => Ok(runtime.fibers@[context.fiber.raw].scope),
    }
}

/// A task is entered for the fiber of a context.
pub open spec fn enters_task(
    before: Runtime,
    after: Runtime,
    context: Context,
    result: Result<TaskTicket, CordisError>,
) -> bool {
    let record = before.fibers@[context.fiber.raw];
    let next = after.fibers@[context.fiber.raw];
    match may_add(before, context) {
        Err(error) => after == before && result == Err::<TaskTicket, CordisError>(error),
        Ok(()) => if record.tasks@.len() >= before.config.max_tasks_per_fiber
            || !before.tasks.arena.has_room() {
            &&& result == Err::<TaskTicket, CordisError>(
                CordisError::ResourceLimitExceeded {
                    resource: ResourceKind::TasksPerFiber,
                    limit: before.config.max_tasks_per_fiber,
                },
            )
            &&& quota_rejected(before, after, Some(record.scope), Some(context.fiber))
        } else {
            &&& result matches Ok(ticket)
            &&& ticket.waits == record.activation
            &&& !before.tasks.arena@.dom().contains(ticket.id.raw)
            &&& !before.tasks.arena.retired(ticket.id.raw)
            &&& retains(before.tasks.arena, after.tasks.arena)
            &&& after == (Runtime { fibers: after.fibers, tasks: after.tasks, ..before })
            &&& after.tasks.same_counts(&before.tasks)
            &&& after.tasks.arena@ == before.tasks.arena@.insert(
                ticket.id.raw,
                OwnedTask { owner: context.fiber, scope: record.scope },
            )
            &&& after.fibers@ == before.fibers@.insert(context.fiber.raw, next)
            &&& after.fibers.order() == before.fibers.order()
            &&& after.fibers.versions() == before.fibers.versions()
            &&& next == (FiberRecord { tasks: next.tasks, ..record })
            &&& next.tasks@ == record.tasks@.push(ticket.id)
        },
    }
}

/// A service is provided by the fiber of a context.
pub open spec fn enters_service(
    before: Runtime,
    after: Runtime,
    context: Context,
    key: ServiceKey,
    value: u64,
    result: Result<ServiceSymbol, CordisError>,
) -> bool {
    let record = before.fibers@[context.fiber.raw];
    let next = after.fibers@[context.fiber.raw];
    let symbol = before.services.symbol_of(key@)->0;
    match may_add(before, context) {
        Err(error) => after == before && result == Err::<ServiceSymbol, CordisError>(error),
        Ok(()) => if !key_views(record.descriptor.provisions@).contains(key@) {
            &&& after == before
            &&& result matches Err(CordisError::RevisionValidationFailed(message))
            &&& message@ == "provided service is not declared"@
        } else if key_views(record.provided@).contains(key@)
            || before.services@.dom().contains(slot_of(record.scope, symbol)) {
            &&& after == before
            &&& result == Err::<ServiceSymbol, CordisError>(CordisError::DuplicateService(key))
        } else {
            &&& result == Ok::<ServiceSymbol, CordisError>(symbol)
            &&& after == (Runtime { fibers: after.fibers, services: after.services, ..before })
            &&& after.services.bumped_from(&before.services)
            &&& after.services@ == before.services@.insert(
                slot_of(record.scope, symbol),
                ServiceEntry {
                    owner: context.fiber,
                    scope: record.scope,
                    value,
                    gate: context.generation,
                },
            )
            &&& after.fibers@ == before.fibers@.insert(context.fiber.raw, next)
            &&& after.fibers.order() == before.fibers.order()
            &&& after.fibers.versions() == before.fibers.versions()
            &&& next == (FiberRecord { provided: next.provided, ..record })
            &&& next.provided@ == record.provided@.push(key)
        },
    }
}

/// The record of a fiber with one more handler.
pub open spec fn registered(
    before: FiberRecord,
    after: FiberRecord,
    registration: Registration,
) -> bool {
    match registration {
        Registration::Handler(id) => {
            &&& after == (FiberRecord { handlers: after.handlers, ..before })
            &&& after.handlers@ == before.handlers@.push(id)
        },
        Registration::InvocationHandler(id) => {
            &&& after == (FiberRecord { invocation_handlers: after.invocation_handlers, ..before })
            &&& after.invocation_handlers@ == before.invocation_handlers@.push(id)
        },
        Registration::InvocationMiddleware(id) => {
            &&& after == (FiberRecord {
                invocation_middleware: after.invocation_middleware,
                ..before
            })
            &&& after.invocation_middleware@ == before.invocation_middleware@.push(id)
        },
    }
}

/// A handler is noted for the fiber of a context.
pub open spec fn enters_handler(
    before: Runtime,
    after: Runtime,
    context: Context,
    registration: Registration,
    result: Result<(), CordisError>,
) -> bool {
    let next = after.fibers@[context.fiber.raw];
    &&& result == may_add(before, context)
    &&& match result {
        Err(error) => after == before,
        Ok(()) => {
            &&& edits_fiber(before, after, context.fiber, next)
            &&& registered(before.fibers@[context.fiber.raw], next, registration)
        },
    }
}

/// The end of a task that nobody took over: it is counted once and leaves the list
/// of its fiber.
pub open spec fn ends_task(before: Runtime, after: Runtime, id: TaskId, outcome: TaskOutcome) -> bool {
    let task = before.tasks.arena@[id.raw];
    let owner = task.owner.raw;
    if !before.tasks.arena@.dom().contains(id.raw) {
        after == before
    } else {
        &&& after == (Runtime {
            fibers: after.fibers,
            tasks: after.tasks,
            diagnostics: after.diagnostics,
            ..before
        })
        &&& after.tasks.arena@ == before.tasks.arena@.remove(id.raw)
        &&& before.tasks.arena.removable(id.raw) ==> after.tasks.arena.retired(id.raw)
        &&& retains(before.tasks.arena, after.tasks.arena)
        &&& after.tasks.records(&before.tasks, outcome)
        &&& after.diagnostics == (Diagnostics {
            recent: after.diagnostics.recent,
            ..before.diagnostics
        })
        &&& after.diagnostics.recent@ == noted_if(
            before.diagnostics.recent@,
            task_issue(task, outcome, before.diagnostics.now),
        )
        &&& if before.fibers@.dom().contains(owner) {
            let next = after.fibers@[owner];
            &&& after.fibers@ == before.fibers@.insert(owner, next)
            &&& after.fibers.order() == before.fibers.order()
            &&& after.fibers.versions() == before.fibers.versions()
            &&& next == (FiberRecord { tasks: next.tasks, ..before.fibers@[owner] })
            &&& next.tasks@ == before.fibers@[owner].tasks@.filter(other_task(id))
        } else {
            after.fibers == before.fibers
        }
    }
}

/// Picks every task but one.
pub open spec fn other_task(id: TaskId) -> spec_fn(TaskId) -> bool {
    |task: TaskId| task != id
}

/// Removes a task from a list.
fn drop_task(tasks: &mut Vec<TaskId>, id: TaskId)
    ensures
        final(tasks)@ == old(tasks)@.filter(other_task(id)),
{
    let ghost all = tasks@;
    let mut kept: Vec<TaskId> = Vec::new();
    let mut i: usize = 0;
    proof {
        reveal(Seq::filter);
    }
    while i < tasks.len()
        invariant
            tasks@ == all,
            i <= all.len(),
            kept@ == all.take(i as int).filter(other_task(id)),
        decreases all.len() - i,
    {
        proof {
            assert(all.take(i + 1).drop_last() =~= all.take(i as int));
            reveal(Seq::filter);
        }
        let task = tasks[i];
        if task != id {
            kept.push(task);
        }
        i += 1;
    }
    proof {
        assert(all.take(i as int) =~= all);
    }
    *tasks = kept;
}

impl ActivationTicket {
    /// The context that the plugin is started with.
    pub fn context(&self) -> (context: Context)
        ensures
            context == (Context {
                scope: self.scope,
                fiber: self.fiber,
                generation: self.generation,
            }),
    {
        Context { scope: self.scope, fiber: self.fiber, generation: self.generation }
    }
}

impl Runtime {
    /// Refuses a context that does not stand for its fiber any more.
    pub fn check_context(&self, context: Context) -> (result: Result<(), CordisError>)
        requires
            self.wf(),
        ensures
            result == standing(*self, context),
    {
        match self.fibers.get(context.fiber.raw) {
            None => Err(CordisError::FiberNotFound),
            Some(record) => {
                if record.generation != context.generation || self.gates.get(
                    context.generation,
                ).state == GateState::Closed {
                    Err(
                        CordisError::StaleContextGeneration {
                            fiber: context.fiber,
                            expected: context.generation,
                            actual: record.generation,
                        },
                    )
                } else {
                    Ok(())
                }
            },
        }
    }

    /// The scope in which the fiber of a context is now.
    pub fn context_scope(&self, context: Context) -> (result: Result<ScopeId, CordisError>)
        requires
            self.wf(),
        ensures
            places(*self, context, result),
    {
        if let Err(error) = self.check_context(context) {
            return Err(error);
        }
        match self.fibers.get(context.fiber.raw) {
            None => Err(CordisError::FiberNotFound),
            Some(record) => Ok(record.scope),
        }
    }

    /// Refuses a context that may not add to what its fiber owns.
    pub fn check_addition(&self, context: Context) -> (result: Result<(), CordisError>)
        requires
            self.wf(),
        ensures
            result == may_add(*self, context),
    {
        if let Err(error) = self.admission.enter() {
            return Err(error);
        }
        if let Err(error) = self.check_context(context) {
            return Err(error);
        }
        match self.fibers.get(context.fiber.raw) {
            None => Err(CordisError::FiberNotFound),
            Some(record) => {
                if record.activation_sealed {
                    Err(CordisError::ActivationSealed(context.fiber))
                } else {
                    Ok(())
                }
            },
        }
    }

    /// Enters a task that the fiber of a context owns.
    pub fn spawn_task(&mut self, context: Context) -> (result: Result<TaskTicket, CordisError>)
        requires
            old(self).wf(),
        ensures
            final(self).wf(),
            enters_task(*old(self), *final(self), context, result),
    {
        if let Err(error) = self.check_addition(context) {
            return Err(error);
        }
        let (scope, waits, count) = match self.fibers.get(context.fiber.raw) {
            None => return Err(CordisError::FiberNotFound),
            Some(record) => (record.scope, record.activation, record.tasks.len()),
        };
        let limit = self.config.max_tasks_per_fiber;
        if count >= limit || self.tasks.live_fiber_tasks() as u64 >= 0xFFFF_FFFE {
            return Err(
                self.quota_error(
                    ResourceKind::TasksPerFiber,
                    limit,
                    Some(scope),
                    Some(context.fiber),
                ),
            );
        }
        let ghost before = *self;
        let id = self.tasks.spawn(context.fiber, scope);
        let ghost entered = *self;
        if let Some(record) = self.fibers.get_mut(context.fiber.raw) {
            record.tasks.push(id);
        }
        proof {
            self.lemma_task_entered(before, context.fiber.raw, id);
        }
        Ok(TaskTicket { id, waits })
    }

    /// A new task belongs to the fiber it was entered for.
    proof fn lemma_task_entered(&self, before: Runtime, fiber: u64, id: TaskId)
        requires
            before.wf(),
            before.fibers@.dom().contains(fiber),
            *self == (Runtime { fibers: self.fibers, tasks: self.tasks, ..before }),
            self.fibers.wf(),
            self.tasks.wf(),
            !before.tasks.arena@.dom().contains(id.raw),
            self.tasks.arena@.dom() == before.tasks.arena@.dom().insert(id.raw),
            self.tasks.arena@[id.raw].owner.raw == fiber,
            forall|task: u64| #[trigger]
                before.tasks.arena@.dom().contains(task) ==> self.tasks.arena@[task]
                    == before.tasks.arena@[task],
            self.fibers@ == before.fibers@.insert(fiber, self.fibers@[fiber]),
            self.fibers@[fiber] == (FiberRecord {
                tasks: self.fibers@[fiber].tasks,
                ..before.fibers@[fiber]
            }),
            self.fibers@[fiber].tasks@ == before.fibers@[fiber].tasks@.push(id),
        ensures
            self.wf(),
    {
        let listed = before.fibers@[fiber].tasks@;
        assert(self.fibers@.dom() =~= before.fibers@.dom());
        assert(!listed.contains(id)) by {
            if listed.contains(id) {
                assert(before.fibers@[fiber].tasks@.contains(id));
            }
        }
        assert forall|other: u64, task: TaskId|
            self.fibers@.dom().contains(other) && #[trigger] self.fibers@[other].tasks@.contains(
                task,
            ) implies self.tasks.arena@.dom().contains(task.raw)
            && self.tasks.arena@[task.raw].owner.raw == other by {
            if other == fiber {
                vstd::seq_lib::lemma_seq_contains_after_push(listed, id, task);
            }
            if task != id || other != fiber {
                assert(before.fibers@[other].tasks@.contains(task));
            }
        }
        assert forall|other: u64, effect: EffectId|
            self.fibers@.dom().contains(other) && #[trigger] self.fibers@[other].effects@.contains(
                effect,
            ) implies effect.raw < self.next_effect && self.effect_owners@[effect.raw] == other by {
            assert(before.fibers@[other].effects@.contains(effect));
        }
        assert forall|other: u64| #[trigger] self.fibers@.dom().contains(other) implies
            self.fibers@[other].tasks@.no_duplicates()
            && self.fibers@[other].effects@.no_duplicates() by {
            assert(before.fibers@.dom().contains(other));
            if other == fiber {
                let tasks = self.fibers@[fiber].tasks@;
                assert forall|i: int, j: int|
                    0 <= i < tasks.len() && 0 <= j < tasks.len() && i != j implies tasks[i]
                    != tasks[j] by {
                    if i == listed.len() {
                        assert(listed[j] == tasks[j]);
                        assert(listed.contains(listed[j]));
                    } else if j == listed.len() {
                        assert(listed[i] == tasks[i]);
                        assert(listed.contains(listed[i]));
                    }
                }
            }
        }
        self.lemma_fibers_fit(before, fiber);
    }

    /// Changing what one fiber owns keeps every fiber in its place.
    proof fn lemma_fibers_fit(&self, before: Runtime, fiber: u64)
        requires
            before.wf(),
            before.fibers@.dom().contains(fiber),
            self.scopes == before.scopes,
            self.services == before.services,
            self.plugins == before.plugins,
            self.fibers@ == before.fibers@.insert(fiber, self.fibers@[fiber]),
            self.fibers@[fiber].scope == before.fibers@[fiber].scope,
            self.fibers@[fiber].descriptor == before.fibers@[fiber].descriptor,
            self.fibers@[fiber].provided == before.fibers@[fiber].provided,
            self.fibers@[fiber].generation == before.fibers@[fiber].generation,
        ensures
            forall|other: u64| #[trigger]
                self.fibers@.dom().contains(other) ==> fiber_fits(
                    self.scopes,
                    self.services,
                    self.plugins.next_generation,
                    self.fibers@[other],
                ),
    {
        assert forall|other: u64| #[trigger] self.fibers@.dom().contains(other) implies fiber_fits(
            self.scopes,
            self.services,
            self.plugins.next_generation,
            self.fibers@[other],
        ) by {
            assert(before.fibers@.dom().contains(other));
            assert(fiber_fits(
                before.scopes,
                before.services,
                before.plugins.next_generation,
                before.fibers@[other],
            ));
        }
    }

    /// Counts the end of a task and takes it off its fiber's list.
    pub fn complete_task(&mut self, id: TaskId, outcome: TaskOutcome)
        requires
            old(self).wf(),
        ensures
            final(self).wf(),
            ends_task(*old(self), *final(self), id, outcome),
    {
        let ghost before = *self;
        let owner = match self.tasks.complete(id, outcome, &mut self.diagnostics) {
            Some(owner) => owner,
            None => return,
        };
        let known: bool = self.fibers.contains(owner.raw);
        if known {
            if let Some(record) = self.fibers.get_mut(owner.raw) {
                drop_task(&mut record.tasks, id);
            }
        }
        proof {
            self.lemma_task_ended(before, id);
        }
    }

    /// A task that ended belongs to nobody; the others keep their owners.
    proof fn lemma_task_ended(&self, before: Runtime, id: TaskId)
        requires
            before.wf(),
            before.tasks.arena@.dom().contains(id.raw),
            *self == (Runtime {
                fibers: self.fibers,
                tasks: self.tasks,
                diagnostics: self.diagnostics,
                ..before
            }),
            self.fibers.wf(),
            self.tasks.wf(),
            self.diagnostics.wf(),
            self.tasks.arena@ == before.tasks.arena@.remove(id.raw),
            ({
                let owner = before.tasks.arena@[id.raw].owner.raw;
                if before.fibers@.dom().contains(owner) {
                    &&& self.fibers@ == before.fibers@.insert(owner, self.fibers@[owner])
                    &&& self.fibers@[owner] == (FiberRecord {
                        tasks: self.fibers@[owner].tasks,
                        ..before.fibers@[owner]
                    })
                    &&& self.fibers@[owner].tasks@ == before.fibers@[owner].tasks@.filter(
                        other_task(id),
                    )
                } else {
                    self.fibers == before.fibers
                }
            }),
        ensures
            self.wf(),
    {
        let owner = before.tasks.arena@[id.raw].owner.raw;
        let known = before.fibers@.dom().contains(owner);
        if known {
            let listed = before.fibers@[owner].tasks@;
            assert(self.fibers@.dom() =~= before.fibers@.dom());
            lemma_kept_tasks(listed, id);
            self.lemma_fibers_fit(before, owner);
        }
        assert forall|other: u64, task: TaskId|
            self.fibers@.dom().contains(other) && #[trigger] self.fibers@[other].tasks@.contains(
                task,
            ) implies self.tasks.arena@.dom().contains(task.raw)
            && self.tasks.arena@[task.raw].owner.raw == other by {
            assert(before.fibers@[other].tasks@.contains(task));
        }
        assert forall|other: u64, effect: EffectId|
            self.fibers@.dom().contains(other) && #[trigger] self.fibers@[other].effects@.contains(
                effect,
            ) implies effect.raw < self.next_effect && self.effect_owners@[effect.raw] == other by {
            assert(before.fibers@[other].effects@.contains(effect));
        }
        assert forall|other: u64| #[trigger] self.fibers@.dom().contains(other) implies
            self.fibers@[other].tasks@.no_duplicates()
            && self.fibers@[other].effects@.no_duplicates() by {
            assert(before.fibers@.dom().contains(other));
        }
    }
}

/// An effect is entered for the fiber of a context.
pub open spec fn enters_effect(
    before: Runtime,
    after: Runtime,
    context: Context,
    result: Result<EffectId, CordisError>,
) -> bool {
    let record = before.fibers@[context.fiber.raw];
    let next = after.fibers@[context.fiber.raw];
    match may_add(before, context) {
        Err(error) => after == before && result == Err::<EffectId, CordisError>(error),
        Ok(()) => if before.next_effect == u64::MAX {
            &&& after == before
            &&& result matches Err(CordisError::Invariant(message))
            &&& message@ == "effect identifiers are exhausted"@
        } else {
            &&& result == Ok::<EffectId, CordisError>(EffectId { raw: before.next_effect })
            &&& after == (Runtime {
                fibers: after.fibers,
                next_effect: (before.next_effect + 1) as u64,
                effect_owners: after.effect_owners,
                ..before
            })
            &&& after.effect_owners@ == before.effect_owners@.insert(
                before.next_effect,
                context.fiber.raw,
            )
            &&& after.fibers@ == before.fibers@.insert(context.fiber.raw, next)
            &&& after.fibers.order() == before.fibers.order()
            &&& after.fibers.versions() == before.fibers.versions()
            &&& next == (FiberRecord { effects: next.effects, ..record })
            &&& next.effects@ == record.effects@.push(EffectId { raw: before.next_effect })
        },
    }
}

impl Runtime {
    /// Enters an effect that the fiber of a context owns.
    pub fn add_effect(&mut self, context: Context) -> (result: Result<EffectId, CordisError>)
        requires
            old(self).wf(),
        ensures
            final(self).wf(),
            enters_effect(*old(self), *final(self), context, result),
    {
        if let Err(error) = self.check_addition(context) {
            return Err(error);
        }
        if self.next_effect == u64::MAX {
            return Err(CordisError::Invariant("effect identifiers are exhausted".to_owned()));
        }
        let ghost before = *self;
        let effect = EffectId { raw: self.next_effect };
        self.next_effect = self.next_effect + 1;
        self.effect_owners = Ghost(self.effect_owners@.insert(effect.raw, context.fiber.raw));
        if let Some(record) = self.fibers.get_mut(context.fiber.raw) {
            record.effects.push(effect);
        }
        proof {
            self.lemma_effect_entered(before, context.fiber.raw);
        }
        Ok(effect)
    }

    /// A new effect belongs to the fiber it was entered for.
    proof fn lemma_effect_entered(&self, before: Runtime, fiber: u64)
        requires
            before.wf(),
            before.fibers@.dom().contains(fiber),
            before.next_effect < u64::MAX,
            *self == (Runtime {
                fibers: self.fibers,
                next_effect: (before.next_effect + 1) as u64,
                effect_owners: self.effect_owners,
                ..before
            }),
            self.effect_owners@ == before.effect_owners@.insert(before.next_effect, fiber),
            self.fibers.wf(),
            self.fibers@ == before.fibers@.insert(fiber, self.fibers@[fiber]),
            self.fibers@[fiber] == (FiberRecord {
                effects: self.fibers@[fiber].effects,
                ..before.fibers@[fiber]
            }),
            self.fibers@[fiber].effects@ == before.fibers@[fiber].effects@.push(
                EffectId { raw: before.next_effect },
            ),
        ensures
            self.wf(),
    {
        let listed = before.fibers@[fiber].effects@;
        let new = EffectId { raw: before.next_effect };
        assert(self.fibers@.dom() =~= before.fibers@.dom());
        assert forall|other: u64, task: TaskId|
            self.fibers@.dom().contains(other) && #[trigger] self.fibers@[other].tasks@.contains(
                task,
            ) implies self.tasks.arena@.dom().contains(task.raw)
            && self.tasks.arena@[task.raw].owner.raw == other by {
            assert(before.fibers@[other].tasks@.contains(task));
        }
        assert forall|other: u64, effect: EffectId|
            self.fibers@.dom().contains(other) && #[trigger] self.fibers@[other].effects@.contains(
                effect,
            ) implies effect.raw < self.next_effect && self.effect_owners@[effect.raw] == other by {
            if other == fiber {
                vstd::seq_lib::lemma_seq_contains_after_push(listed, new, effect);
            }
            if effect != new || other != fiber {
                assert(before.fibers@[other].effects@.contains(effect));
            }
        }
        assert forall|other: u64| #[trigger] self.fibers@.dom().contains(other) implies
            self.fibers@[other].tasks@.no_duplicates()
            && self.fibers@[other].effects@.no_duplicates() by {
            assert(before.fibers@.dom().contains(other));
            if other == fiber {
                let effects = self.fibers@[fiber].effects@;
                assert forall|i: int, j: int|
                    0 <= i < effects.len() && 0 <= j < effects.len() && i != j implies effects[i]
                    != effects[j] by {
                    if i == listed.len() {
                        assert(listed.contains(listed[j]));
                        assert(before.fibers@[fiber].effects@.contains(effects[j]));
                    } else if j == listed.len() {
                        assert(listed.contains(listed[i]));
                        assert(before.fibers@[fiber].effects@.contains(effects[i]));
                    }
                }
            }
        }
        self.lemma_fibers_fit(before, fiber);
    }

    /// Provides a declared service from the fiber of a context; `value` names what
    /// is provided.
    pub fn provide(&mut self, context: Context, key: &ServiceKey, value: u64) -> (result: Result<
        ServiceSymbol,
        CordisError,
    >)
        requires
            old(self).wf(),
        ensures
            final(self).wf(),
            enters_service(*old(self), *final(self), context, *key, value, result),
    {
        if let Err(error) = self.check_addition(context) {
            return Err(error);
        }
        let ghost before = *self;
        proof {
            assert(fiber_fits(
                self.scopes,
                self.services,
                self.plugins.next_generation,
                self.fibers@[context.fiber.raw],
            ));
        }
        let (scope, symbol) = match self.fibers.get(context.fiber.raw) {
            None => return Err(CordisError::FiberNotFound),
            Some(record) => {
                if !names(&record.descriptor.provisions, key) {
                    return Err(
                        CordisError::RevisionValidationFailed(
                            "provided service is not declared".to_owned(),
                        ),
                    );
                }
                proof {
                    let declared = record.descriptor.provisions@;
                    let k = choose|k: int|
                        0 <= k < key_views(declared).len() && key_views(declared)[k] == key@;
                    assert(self.services.symbol_of(declared[k]@) is Some);
                }
                let symbol = self.services.intern(key);
                if names(&record.provided, key) || self.services.contains(record.scope, symbol) {
                    return Err(CordisError::DuplicateService(key.clone()));
                }
                (record.scope, symbol)
            },
        };
        self.services.insert(
            scope,
            symbol,
            ServiceEntry { owner: context.fiber, scope, value, gate: context.generation },
        );
        proof {
            self.lemma_services_reset(before);
        }
        let ghost entered = *self;
        if let Some(record) = self.fibers.get_mut(context.fiber.raw) {
            record.provided.push(key.clone());
        }
        proof {
            let listed = before.fibers@[context.fiber.raw].provided@;
            let provided = self.fibers@[context.fiber.raw].provided@;
            assert(entered.services.symbol_of(key@) == before.services.symbol_of(key@));
            assert(fiber_fits(
                entered.scopes,
                entered.services,
                entered.plugins.next_generation,
                entered.fibers@[context.fiber.raw],
            ));
            assert(all_interned(entered.services, provided)) by {
                assert forall|i: int| 0 <= i < provided.len() implies entered.services.symbol_of(
                    (#[trigger] provided[i])@,
                ) is Some by {
                    if i < listed.len() {
                        assert(provided[i] == listed[i]);
                    }
                }
            }
            assert(key_views(provided) =~= key_views(listed).push(key@));
            assert(key_views(provided).no_duplicates()) by {
                let views = key_views(provided);
                assert forall|i: int, j: int|
                    0 <= i < views.len() && 0 <= j < views.len() && i != j implies views[i]
                    != views[j] by {
                    if i == listed.len() {
                        assert(key_views(listed).contains(key_views(listed)[j]));
                    } else if j == listed.len() {
                        assert(key_views(listed).contains(key_views(listed)[i]));
                    }
                }
            }
            self.lemma_fiber_edited(entered, context.fiber.raw);
        }
        Ok(symbol)
    }

    /// Notes a handler that the fiber of a context answers for.
    pub fn register(&mut self, context: Context, registration: Registration) -> (result: Result<
        (),
        CordisError,
    >)
        requires
            old(self).wf(),
        ensures
            final(self).wf(),
            enters_handler(*old(self), *final(self), context, registration, result),
    {
        if let Err(error) = self.check_addition(context) {
            return Err(error);
        }
        if let Some(record) = self.fibers.get_mut(context.fiber.raw) {
            match registration {
                Registration::Handler(id) => record.handlers.push(id),
                Registration::InvocationHandler(id) => record.invocation_handlers.push(id),
                Registration::InvocationMiddleware(id) => record.invocation_middleware.push(id),
            }
        }
        proof {
            self.lemma_fiber_edited(*old(self), context.fiber.raw);
        }
        Ok(())
    }

    /// Makes a scope below that of the fiber of a context, for the fiber to dispose.
    pub fn create_child_scope(&mut self, context: Context, name: &str) -> (result: Result<
        ScopeId,
        CordisError,
    >)
        requires
            old(self).wf(),
        ensures
            final(self).wf(),
            makes_child(*old(self), *final(self), context, name@, result),
    {
        if let Err(error) = self.check_addition(context) {
            return Err(error);
        }
        let scope = match self.fibers.get(context.fiber.raw) {
            None => return Err(CordisError::FiberNotFound),
            Some(record) => record.scope,
        };
        let label = Arc::new(name.to_owned());
        let ghost named = label;
        let made = self.create_scope_internal(scope, label, false);
        let ghost given = made;
        let ghost middle = *self;
        proof {
            assert(creates_scope(*old(self), middle, scope, named, false, given));
        }
        match made {
            Err(error) => Err(error),
            Ok(child) => {
                if self.fibers.contains(context.fiber.raw) {
                    if let Some(record) = self.fibers.get_mut(context.fiber.raw) {
                        record.child_scopes.push(child);
                    }
                    proof {
                        self.lemma_fiber_edited(middle, context.fiber.raw);
                    }
                }
                Ok(child)
            },
        }
    }
}

/// A scope is made below that of the fiber of a context, and noted by the fiber.
pub open spec fn makes_child(
    before: Runtime,
    after: Runtime,
    context: Context,
    name: Seq<char>,
    result: Result<ScopeId, CordisError>,
) -> bool {
    match may_add(before, context) {
        Err(error) => after == before && result == Err::<ScopeId, CordisError>(error),
        Ok(()) => exists|middle: Runtime, label: Arc<String>|
            {
                &&& label@ == name
                &&& #[trigger] creates_scope(
                    before,
                    middle,
                    before.fibers@[context.fiber.raw].scope,
                    label,
                    false,
                    result,
                )
                &&& if result is Err || !middle.fibers@.dom().contains(context.fiber.raw) {
                    after == middle
                } else {
                    let record = middle.fibers@[context.fiber.raw];
                    let next = after.fibers@[context.fiber.raw];
                    &&& edits_fiber(middle, after, context.fiber, next)
                    &&& next == (FiberRecord { child_scopes: next.child_scopes, ..record })
                    &&& next.child_scopes@ == record.child_scopes@.push(result->Ok_0)
                }
            },
    }
}

/// Every task and every effect that is listed has one owner: no two fibers list the
/// same, and no fiber lists one twice.
pub proof fn law_work_has_one_owner(runtime: Runtime, a: u64, b: u64, task: TaskId, effect: EffectId)
    requires
        runtime.wf(),
        runtime.fibers@.dom().contains(a),
        runtime.fibers@.dom().contains(b),
    ensures
        runtime.fibers@[a].tasks@.contains(task) && runtime.fibers@[b].tasks@.contains(task) ==> a
            == b,
        runtime.fibers@[a].effects@.contains(effect) && runtime.fibers@[b].effects@.contains(effect)
            ==> a == b,
        runtime.fibers@[a].tasks@.no_duplicates(),
        runtime.fibers@[a].effects@.no_duplicates(),
{
}

/// A context adds a task, an effect, a service, a handler or a scope to what its fiber
/// owns, or is refused.
pub open spec fn asks_for_more(before: Runtime, after: Runtime, context: Context) -> bool {
    ||| exists|result: Result<TaskTicket, CordisError>| #[trigger]
        enters_task(before, after, context, result)
    ||| exists|result: Result<EffectId, CordisError>| #[trigger]
        enters_effect(before, after, context, result)
    ||| exists|key: ServiceKey, value: u64, result: Result<ServiceSymbol, CordisError>| #[trigger]
        enters_service(before, after, context, key, value, result)
    ||| exists|registration: Registration, result: Result<(), CordisError>| #[trigger]
        enters_handler(before, after, context, registration, result)
    ||| exists|name: Seq<char>, result: Result<ScopeId, CordisError>| #[trigger]
        makes_child(before, after, context, name, result)
}

/// A context of an earlier generation, or of one that was closed, adds nothing, and
/// neither does any context during an activation that is sealed, or once the runtime
/// shuts down.
pub proof fn law_refused_contexts_add_nothing(before: Runtime, after: Runtime, context: Context)
    requires
        asks_for_more(before, after, context),
        before.admission.closed || !before.fibers@.dom().contains(context.fiber.raw)
            || before.fibers@[context.fiber.raw].generation != context.generation
            || before.gates.at(context.generation).state is Closed
            || before.fibers@[context.fiber.raw].activation_sealed,
    ensures
        after == before,
{
}

/// Removing one task from a list keeps the others, each once.
proof fn lemma_kept_tasks(listed: Seq<TaskId>, id: TaskId)
    ensures
        forall|task: TaskId| #[trigger]
            listed.filter(other_task(id)).contains(task) <==> listed.contains(task) && task != id,
        listed.no_duplicates() ==> listed.filter(other_task(id)).no_duplicates(),
    decreases listed.len(),
{
    reveal(Seq::filter);
    if listed.len() > 0 {
        let rest = listed.drop_last();
        let last = listed.last();
        let kept = rest.filter(other_task(id));
        lemma_kept_tasks(rest, id);
        assert(listed =~= rest.push(last));
        assert forall|task: TaskId| #[trigger]
            listed.filter(other_task(id)).contains(task) <==> listed.contains(task) && task
                != id by {
            vstd::seq_lib::lemma_seq_contains_after_push(rest, last, task);
            vstd::seq_lib::lemma_seq_contains_after_push(kept, last, task);
        }
        if listed.no_duplicates() {
            assert(!rest.contains(last)) by {
                if rest.contains(last) {
                    let j = choose|j: int| 0 <= j < rest.len() && rest[j] == last;
                    assert(listed[j] == last);
                }
            }
            let whole = listed.filter(other_task(id));
            assert forall|i: int, j: int|
                0 <= i < whole.len() && 0 <= j < whole.len() && i != j implies whole[i]
                != whole[j] by {
                if i == kept.len() {
                    assert(kept.contains(kept[j]));
                } else if j == kept.len() {
                    assert(kept.contains(kept[i]));
                }
            }
        }
    }
}

} // verus!
