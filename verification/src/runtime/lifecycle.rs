//! Making a runtime, scheduling activations, and failures of hosts.
#[allow(unused_imports)]
use super::garbage::enters_worker;
#[allow(unused_imports)]
use super::invariants::{lemma_coherence_empty, lemma_owned_edited};
#[allow(unused_imports)]
use super::{fiber_fits, lists_no_more};
use super::{GcState, Runtime};
use crate::arena::Arena;
#[allow(unused_imports)]
use crate::arena::{id_index, id_version};
use crate::config::RuntimeConfig;
use crate::dependency_graph::DependencyGraph;
#[allow(unused_imports)]
use crate::dependency_graph::Edge;
use crate::error::CordisError;
#[allow(unused_imports)]
use crate::fiber_registry::FiberRecord;
use crate::gate::{AdmissionGate, GateTable};
use crate::health::Diagnostics;
#[allow(unused_imports)]
use crate::health::Moment;
use crate::ids::{FiberId, GenerationId, ScopeId};
use crate::plugin_registry::PluginRegistry;
use crate::scope_registry::ScopeRegistry;
#[allow(unused_imports)]
use crate::service_registry::CacheEntry;
use crate::service_registry::ServiceRegistry;
use crate::shutdown_coordinator::ShutdownCoordinator;
use crate::state::FiberState;
use crate::task::{RuntimeWorkerKind, RuntimeWorkerSupervisor, TaskSupervisor};
#[allow(unused_imports)]
use crate::task::{OwnedTask, RuntimeWorker};
use std::collections::HashMap;
use vstd::prelude::*;

verus! {

broadcast use vstd::std_specs::hash::group_hash_axioms;

/// A runtime in which nothing has happened.
pub open spec fn is_new(runtime: Runtime, config: RuntimeConfig) -> bool {
    &&& runtime.config == config
    &&& runtime.shutdown.lifecycle is Running
    &&& !runtime.admission.closed
    &&& !runtime.admission.complete
    &&& runtime.shutdown.operation is None
    &&& runtime.shutdown.attempts == 0
    &&& runtime.fibers@ == Map::<u64, FiberRecord>::empty()
    &&& runtime.fibers.order() == Seq::<u64>::empty()
    &&& runtime.fibers.versions() == seq![0u32]
    &&& runtime.scopes@.dom() == set![runtime.scopes.root.raw]
    &&& runtime.scopes@[runtime.scopes.root.raw].is_fresh(None, false)
    &&& runtime.scopes@[runtime.scopes.root.raw].name@ == "root"@
    &&& runtime.scopes.scopes.order() == seq![runtime.scopes.root.raw]
    &&& runtime.scopes.scopes.versions() == seq![0u32, 1u32]
    &&& id_index(runtime.scopes.root.raw) == 1
    &&& id_version(runtime.scopes.root.raw) == 1
    &&& runtime.services.keys@.len() == 0
    &&& runtime.services@.dom() == Set::<u128>::empty()
    &&& runtime.services.epoch == 0
    &&& runtime.services.cache@ == Map::<u128, CacheEntry>::empty()
    &&& runtime.services.cache_order@ == Seq::<u128>::empty()
    &&& runtime.gates@.dom() == Set::<u64>::empty()
    &&& runtime.tasks.arena@ == Map::<u64, OwnedTask>::empty()
    &&& runtime.tasks.arena.order() == Seq::<u64>::empty()
    &&& runtime.tasks.arena.versions() == seq![0u32]
    &&& runtime.tasks.reaped == 0
    &&& runtime.tasks.completed == 0
    &&& runtime.tasks.cancelled == 0
    &&& runtime.tasks.panicked == 0
    &&& runtime.tasks.aborted == 0
    &&& runtime.workers.workers@ == Map::<u64, RuntimeWorker>::empty()
    &&& runtime.workers.next == 1
    &&& runtime.workers.reaped == 0
    &&& runtime.workers.panicked == 0
    &&& runtime.workers.errors == 0
    &&& runtime.workers.cancelled == 0
    &&& runtime.workers.aborted == 0
    &&& runtime.plugins@.dom() == Set::<u64>::empty()
    &&& runtime.plugins.next_plugin == 1
    &&& runtime.plugins.next_generation == 1
    &&& runtime.dependencies.providers@ == Set::<Edge>::empty()
    &&& runtime.dependencies.dependents@ == Set::<Edge>::empty()
    &&& runtime.pending_activations@ == Map::<u64, bool>::empty()
    &&& runtime.diagnostics.now == (Moment { nanos: 0 })
    &&& runtime.diagnostics.recent@.len() == 0
    &&& runtime.diagnostics.successes == 0
    &&& runtime.diagnostics.errors == 0
    &&& runtime.diagnostics.timeouts == 0
    &&& runtime.diagnostics.cancellations == 0
    &&& runtime.diagnostics.panics == 0
    &&& runtime.diagnostics.quota_rejections == 0
    &&& runtime.active_reloads == 0
    &&& runtime.reload_cleanup_pending == 0
    &&& runtime.gc_state is Idle
    &&& runtime.next_effect == 0
    &&& runtime.effect_owners@ == Map::<u64, u64>::empty()
}

/// An activation is scheduled, or one that is scheduled is asked for again.
pub open spec fn schedules(
    before: Runtime,
    after: Runtime,
    fiber: FiberId,
    worker: Option<u64>,
) -> bool {
    if before.admission.closed {
        after == before && worker is None
    } else if before.pending_activations@.dom().contains(fiber.raw) {
        &&& worker is None
        &&& after == (Runtime {
            pending_activations: after.pending_activations,
            ..before
        })
        &&& after.pending_activations@ == before.pending_activations@.insert(
            fiber.raw,
            true,
        )
    } else {
        &&& worker == Some(before.workers.next)
        &&& after == (Runtime {
            pending_activations: after.pending_activations,
            workers: after.workers,
            ..before
        })
        &&& after.pending_activations@ == before.pending_activations@.insert(
            fiber.raw,
            false,
        )
        &&& enters_worker(
            before.workers,
            after.workers,
            RuntimeWorkerKind::DependencyReconcile,
            false,
        )
    }
}

/// A scheduled activation ended.
pub open spec fn settles_activation(
    before: Runtime,
    after: Runtime,
    fiber: FiberId,
    again: bool,
) -> bool {
    &&& again == (before.pending_activations@.dom().contains(fiber.raw)
        && before.pending_activations@[fiber.raw])
    &&& after == (Runtime {
        pending_activations: after.pending_activations,
        ..before
    })
    &&& after.pending_activations@ == if again {
        before.pending_activations@.insert(fiber.raw, false)
    } else {
        before.pending_activations@.remove(fiber.raw)
    }
}

/// The host of a fiber failed.
pub open spec fn marks_host_failure(
    before: Runtime,
    after: Runtime,
    fiber: FiberId,
    generation: GenerationId,
    dispose: bool,
) -> bool {
    &&& dispose == before.concerns(fiber, generation)
    &&& if dispose {
        &&& after == (Runtime { fibers: after.fibers, ..before })
        &&& after.fibers.order() == before.fibers.order()
        &&& after.fibers.versions() == before.fibers.versions()
        &&& after.fibers@ == before.fibers@.insert(
            fiber.raw,
            FiberRecord { state: FiberState::Failed, ..before.fibers@[fiber.raw] },
        )
    } else {
        after == before
    }
}

/// What the disposal after a failure of a host comes to.
pub open spec fn settles_host_failure(
    result: Result<(), CordisError>,
    settled: Result<(), CordisError>,
) -> bool {
    settled == match result {
        Err(CordisError::FiberNotFound) => Ok(()),
        Err(CordisError::FiberLifecycleOwned(fiber)) => Ok(()),
        other => other,
    }
}

impl Runtime {
    /// Creates an empty runtime with one root scope.
    pub fn new() -> (runtime: Self)
        ensures
            runtime.wf(),
            is_new(runtime, RuntimeConfig::standard()),
    {
        Self::build(RuntimeConfig::default())
    }

    /// Creates a runtime with validated personal-resource limits.
    pub fn with_config(config: RuntimeConfig) -> (runtime: Result<Self, CordisError>)
        ensures
            match runtime {
                Ok(runtime) => config.is_valid() && runtime.wf() && is_new(runtime, config),
                Err(error) => {
                    &&& !config.is_valid()
                    &&& error matches CordisError::InvalidRuntimeConfig(message)
                    &&& message@ == config.problem()
                },
            },
    {
        match config.validate() {
            Ok(()) => Ok(Self::build(config)),
            Err(error) => Err(error),
        }
    }

    fn build(config: RuntimeConfig) -> (runtime: Self)
        requires
            config.is_valid(),
        ensures
            runtime.wf(),
            is_new(runtime, config),
    {
        let runtime = Runtime {
            shutdown: ShutdownCoordinator::new(),
            fibers: Arena::new(),
            gates: GateTable::new(),
            tasks: TaskSupervisor::new(),
            workers: RuntimeWorkerSupervisor::new(),
            scopes: ScopeRegistry::new(),
            plugins: PluginRegistry::new(),
            services: ServiceRegistry::new(
                config.max_interned_symbols,
                config.max_resolution_cache_entries,
            ),
            dependencies: DependencyGraph::new(),
            config,
            diagnostics: Diagnostics::new(),
            active_reloads: 0,
            reload_cleanup_pending: 0,
            gc_state: GcState::Idle,
            pending_activations: HashMap::new(),
            admission: AdmissionGate::new(),
            next_effect: 0,
            effect_owners: Ghost(Map::empty()),
        };
        proof {
            lemma_coherence_empty(runtime.services, runtime.scopes, runtime.gates);
            assert(runtime.services@.dom() =~= Set::<u128>::empty());
            assert(runtime.gates@.dom() =~= Set::<u64>::empty());
            assert(runtime.plugins@.dom() =~= Set::<u64>::empty());
        }
        runtime
    }

    /// Root scope ID.
    pub fn root(&self) -> (root: ScopeId)
        ensures
            root == self.scopes.root,
    {
        self.scopes.root()
    }

    /// Schedules an activation of `fiber`; the worker to run it, where none is
    /// scheduled yet. One that is scheduled runs once more.
    pub fn schedule_activation(&mut self, fiber: FiberId) -> (worker: Option<u64>)
        requires
            old(self).wf(),
        ensures
            final(self).wf(),
            schedules(*old(self), *final(self), fiber, worker),
    {
        if self.admission.enter().is_err() {
            return None;
        }
        if self.pending_activations.contains_key(&fiber.raw) {
            self.pending_activations.insert(fiber.raw, true);
            return None;
        }
        self.pending_activations.insert(fiber.raw, false);
        Some(self.workers.spawn(RuntimeWorkerKind::DependencyReconcile, false))
    }

    /// Whether a scheduled activation that ended has to run again because it was
    /// asked for meanwhile.
    pub fn activation_settled(&mut self, fiber: FiberId) -> (again: bool)
        requires
            old(self).wf(),
        ensures
            final(self).wf(),
            settles_activation(*old(self), *final(self), fiber, again),
    {
        let again: bool = match self.pending_activations.get(&fiber.raw) {
            Some(again) => *again,
            None => false,
        };
        if again {
            self.pending_activations.insert(fiber.raw, false);
        } else {
            self.pending_activations.remove(&fiber.raw);
            assert(self.pending_activations@ =~= old(self).pending_activations@.remove(fiber.raw));
        }
        again
    }

    /// Whether the failure of a host concerns the fiber: it is about its current
    /// generation, which is committed and in use.
    pub open spec fn concerns(&self, fiber: FiberId, generation: GenerationId) -> bool {
        let record = self.fibers@[fiber.raw];
        &&& self.fibers@.dom().contains(fiber.raw)
        &&& record.generation == generation
        &&& !record.staged
        &&& record.state is Active || record.state is Reloading
    }

    /// Marks the fiber whose host failed. The caller disposes it where that
    /// concerns it.
    pub fn mark_host_failure(&mut self, fiber: FiberId, generation: GenerationId) -> (dispose: bool)
        requires
            old(self).wf(),
        ensures
            final(self).wf(),
            marks_host_failure(*old(self), *final(self), fiber, generation, dispose),
    {
        let concerned: bool = match self.fibers.get(fiber.raw) {
            Some(record) => record.generation == generation && !record.staged && matches!(
                record.state,
                FiberState::Active | FiberState::Reloading
            ),
            None => false,
        };
        if !concerned {
            return false;
        }
        let ghost before = *self;
        if let Some(record) = self.fibers.get_mut(fiber.raw) {
            record.state = FiberState::Failed;
        }
        proof {
            self.lemma_fiber_edited(before, fiber.raw);
        }
        true
    }

    /// What the disposal after a failure of a host comes to: that somebody else
    /// disposes the fiber, or that it is gone, is no failure.
    pub fn host_failure_result(result: Result<(), CordisError>) -> (settled: Result<
        (),
        CordisError,
    >)
        ensures
            settles_host_failure(result, settled),
    {
        match result {
            Ok(done) => Ok(done),
            Err(CordisError::FiberNotFound) => Ok(()),
            Err(CordisError::FiberLifecycleOwned(_)) => Ok(()),
            Err(error) => Err(error),
        }
    }

    /// Changing what a fiber owns and where it stands disturbs nothing.
    pub(crate) proof fn lemma_fiber_edited(&self, before: Runtime, fiber: u64)
        requires
            before.wf(),
            *self == (Runtime { fibers: self.fibers, ..before }),
            self.fibers.wf(),
            before.fibers@.dom().contains(fiber),
            self.fibers@ == before.fibers@.insert(fiber, self.fibers@[fiber]),
            fiber_fits(
                before.scopes,
                before.services,
                before.plugins.next_generation,
                self.fibers@[fiber],
            ) || ({
                let old_record = before.fibers@[fiber];
                let record = self.fibers@[fiber];
                &&& record.scope == old_record.scope
                &&& record.descriptor == old_record.descriptor
                &&& record.provided == old_record.provided
                &&& record.generation == old_record.generation
            }),
            lists_no_more(before.fibers@[fiber], self.fibers@[fiber]),
        ensures
            self.wf(),
    {
        assert(self.fibers@.dom() =~= before.fibers@.dom());
        lemma_owned_edited(before, *self, fiber);
        assert(fiber_fits(
            before.scopes,
            before.services,
            before.plugins.next_generation,
            before.fibers@[fiber],
        ));
        assert forall|other: u64| #[trigger] self.fibers@.dom().contains(other) implies fiber_fits(
            self.scopes,
            self.services,
            self.plugins.next_generation,
            self.fibers@[other],
        ) by {
            if other != fiber {
                assert(before.fibers@.dom().contains(other));
            }
        }
    }
}

} // verus!
