//! The runtime: scopes, fibers and everything they own, and the decisions of
//! their lifecycles. Each decision is one call; the work between two decisions
//! belongs to the caller.
use crate::config::RuntimeConfig;
use crate::dependency_graph::DependencyGraph;
use crate::error::CordisError;
use crate::fiber_registry::FiberRegistry;
#[allow(unused_imports)]
use crate::fiber_registry::{FiberRecord, Fibers};
use crate::gate::{AdmissionGate, GateTable};
use crate::health::{Diagnostics, Moment};
#[allow(unused_imports)]
use crate::health::{counted, noted, HealthIssue, HealthIssueKind};
#[allow(unused_imports)]
use crate::ids::{EffectId, TaskId};
use crate::ids::{FiberId, ScopeId, ServiceSymbol};
use crate::key::ServiceKey;
#[allow(unused_imports)]
use crate::key::key_views;
use crate::plugin_registry::PluginRegistry;
use crate::scope_registry::ScopeRegistry;
use crate::service_registry::ServiceRegistry;
#[allow(unused_imports)]
use crate::service_registry::slot_scope;
use crate::shutdown_coordinator::ShutdownCoordinator;
use crate::state::ResourceKind;
#[allow(unused_imports)]
use crate::task::OwnedTask;
use crate::task::{RuntimeWorkerSupervisor, TaskSupervisor};
use std::collections::HashMap;
use vstd::prelude::*;

pub mod activation;
pub mod activation_laws;
pub mod context;
pub mod dependency;
pub mod disposal;
pub mod disposal_laws;
pub mod garbage;
pub mod install;
mod invariants;
pub mod laws;
pub mod lifecycle;
pub mod permanence;
pub mod reload;
pub mod reload_laws;
pub mod report_laws;
pub mod scope;
pub mod scope_laws;
pub mod service;
pub mod service_laws;
pub mod shutdown;
pub mod shutdown_laws;
pub mod snapshot;
pub mod traversal;
pub mod work;
pub mod work_laws;

verus! {

/// Global runtime.
pub struct Runtime {
    pub shutdown: ShutdownCoordinator,
    pub fibers: FiberRegistry,
    pub gates: GateTable,
    pub tasks: TaskSupervisor,
    pub workers: RuntimeWorkerSupervisor,
    pub scopes: ScopeRegistry,
    pub plugins: PluginRegistry,
    pub services: ServiceRegistry,
    pub dependencies: DependencyGraph,
    pub config: RuntimeConfig,
    pub diagnostics: Diagnostics,
    pub active_reloads: usize,
    pub reload_cleanup_pending: usize,
    pub gc_state: GcState,
    /// The activations that are scheduled; set where one was asked for again.
    pub pending_activations: HashMap<u64, bool>,
    pub admission: AdmissionGate,
    /// The effect that is entered next.
    pub next_effect: u64,
    /// The fiber that each effect was entered for.
    pub effect_owners: Ghost<Map<u64, u64>>,
}

/// Whether a collection of garbage is under way, and was asked for again.
#[derive(Clone, Copy, Debug, PartialEq, Eq, Structural)]
pub enum GcState {
    Idle,
    Scheduled,
    Rescheduled,
}

/// The handles of the raw ids.
pub open spec fn scope_handles(ids: Seq<u64>) -> Seq<ScopeId> {
    Seq::new(ids.len(), |i: int| ScopeId { raw: ids[i] })
}

/// The scopes from `scope` to the root, or none where one is missing.
pub open spec fn line_of(scopes: ScopeRegistry, scope: ScopeId) -> Seq<ScopeId> {
    if scopes.rooted(scope) {
        scope_handles(scopes.above(scope))
    } else {
        Seq::empty()
    }
}

/// Whether the cache says no more than the scopes and gates do, for every scope
/// with all the scopes above it.
pub open spec fn is_coherent(
    services: ServiceRegistry,
    scopes: ScopeRegistry,
    gates: GateTable,
) -> bool {
    forall|scope: ScopeId, symbol: ServiceSymbol|
        scopes.rooted(scope) ==> #[trigger] services.sound_at(
            scope,
            symbol,
            line_of(scopes, scope),
            gates,
        )
}

/// Whether the scope exists or existed.
pub open spec fn is_issued(scopes: ScopeRegistry, scope: ScopeId) -> bool {
    scopes@.dom().contains(scope.raw) || scopes.scopes.retired(scope.raw)
}

/// Whether each of `keys` is interned.
pub open spec fn all_interned(services: ServiceRegistry, keys: Seq<ServiceKey>) -> bool {
    forall|i: int| 0 <= i < keys.len() ==> services.symbol_of((#[trigger] keys[i])@) is Some
}

/// What holds of one fiber in a runtime.
pub open spec fn fiber_fits(
    scopes: ScopeRegistry,
    services: ServiceRegistry,
    next_generation: u64,
    record: FiberRecord,
) -> bool {
    &&& is_issued(scopes, record.scope)
    &&& all_interned(services, record.descriptor.dependencies@)
    &&& all_interned(services, record.descriptor.provisions@)
    &&& all_interned(services, record.provided@)
    &&& key_views(record.provided@).no_duplicates()
    &&& record.generation.raw < next_generation
}

/// Whether each task and each effect that a fiber lists is its own, and listed once.
pub open spec fn owns_apart(
    fibers: Fibers,
    tasks: Map<u64, OwnedTask>,
    effects: Map<u64, u64>,
    next_effect: u64,
) -> bool {
    &&& forall|fiber: u64, task: TaskId|
        fibers.dom().contains(fiber) && #[trigger] fibers[fiber].tasks@.contains(task)
            ==> tasks.dom().contains(task.raw) && tasks[task.raw].owner.raw == fiber
    &&& forall|fiber: u64, effect: EffectId|
        fibers.dom().contains(fiber) && #[trigger] fibers[fiber].effects@.contains(effect)
            ==> effect.raw < next_effect && effects[effect.raw] == fiber
    &&& forall|fiber: u64| #[trigger]
        fibers.dom().contains(fiber) ==> fibers[fiber].tasks@.no_duplicates()
            && fibers[fiber].effects@.no_duplicates()
}

/// Whether a fiber lists no tasks and effects but those it listed before.
pub open spec fn lists_no_more(before: FiberRecord, after: FiberRecord) -> bool {
    &&& forall|task: TaskId| #[trigger]
        after.tasks@.contains(task) ==> before.tasks@.contains(task)
    &&& forall|effect: EffectId| #[trigger]
        after.effects@.contains(effect) ==> before.effects@.contains(effect)
    &&& before.tasks@.no_duplicates() ==> after.tasks@.no_duplicates()
    &&& before.effects@.no_duplicates() ==> after.effects@.no_duplicates()
}

impl Runtime {
    /// What holds of a runtime between two calls.
    pub open spec fn wf(&self) -> bool {
        &&& self.shutdown.wf()
        &&& self.fibers.wf()
        &&& self.tasks.wf()
        &&& self.scopes.wf()
        &&& self.plugins.wf()
        &&& self.services.wf()
        &&& self.dependencies.wf()
        &&& self.config.is_valid()
        &&& self.diagnostics.wf()
        &&& self.admission.closed == !(self.shutdown.lifecycle is Running)
        &&& self.services.max_symbols == self.config.max_interned_symbols
        &&& self.services.max_cache_entries == self.config.max_resolution_cache_entries
        &&& forall|fiber: u64| #[trigger]
            self.fibers@.dom().contains(fiber) ==> fiber_fits(
                self.scopes,
                self.services,
                self.plugins.next_generation,
                self.fibers@[fiber],
            )
        &&& forall|generation: u64| #[trigger]
            self.gates@.dom().contains(generation) ==> generation < self.plugins.next_generation
        &&& forall|slot: u128| #[trigger]
            self.services.cache@.dom().contains(slot) ==> is_issued(self.scopes, slot_scope(slot))
        &&& is_coherent(self.services, self.scopes, self.gates)
        &&& owns_apart(self.fibers@, self.tasks.arena@, self.effect_owners@, self.next_effect)
        &&& self.scopes@.dom().len() <= self.config.max_scopes
        &&& self.fibers@.dom().len() <= self.config.max_fibers
    }

    /// Tells what time it is: what is noted next, is noted for this time.
    pub fn tell_time(&mut self, now: Moment)
        requires
            old(self).wf(),
        ensures
            final(self).wf(),
            *final(self) == (Runtime {
                diagnostics: Diagnostics { now, ..old(self).diagnostics },
                ..*old(self)
            }),
    {
        self.diagnostics.tell_time(now);
    }

    /// Counts and notes a refused request for a resource.
    pub(crate) fn quota_error(
        &mut self,
        resource: ResourceKind,
        limit: usize,
        scope: Option<ScopeId>,
        fiber: Option<FiberId>,
    ) -> (error: CordisError)
        requires
            old(self).wf(),
        ensures
            final(self).wf(),
            error == (CordisError::ResourceLimitExceeded { resource, limit }),
            quota_rejected(*old(self), *final(self), scope, fiber),
    {
        self.diagnostics.reject_quota(scope, fiber);
        CordisError::ResourceLimitExceeded { resource, limit }
    }
}

/// A refused request for a resource is counted and noted; nothing else changes.
pub open spec fn quota_rejected(
    before: Runtime,
    after: Runtime,
    scope: Option<ScopeId>,
    fiber: Option<FiberId>,
) -> bool {
    &&& after == (Runtime { diagnostics: after.diagnostics, ..before })
    &&& after.diagnostics == (Diagnostics {
        recent: after.diagnostics.recent,
        quota_rejections: counted(before.diagnostics.quota_rejections),
        ..before.diagnostics
    })
    &&& after.diagnostics.recent@ == noted(
        before.diagnostics.recent@,
        HealthIssue {
            at: before.diagnostics.now,
            kind: HealthIssueKind::QuotaRejected,
            scope,
            fiber,
            invocation: None,
        },
    )
}

} // verus!
