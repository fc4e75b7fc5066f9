//! Fibers: what each runs and owns.
use crate::arena::Arena;
use crate::disposal::FiberDisposal;
use crate::ids::{
    EffectId, GenerationId, HandlerId, InvocationHandlerId, InvocationMiddlewareId, PluginId,
    ScopeId, TaskId,
};
use crate::key::ServiceKey;
use crate::state::{DependencyPolicy, FiberState};
use std::sync::Arc;
use vstd::prelude::*;

verus! {

/// What a plugin says of itself.
#[derive(Debug)]
pub struct PluginDescriptor {
    pub name: Arc<String>,
    /// Required services.
    pub dependencies: Arc<Vec<ServiceKey>>,
    /// Services that an activation provides.
    pub provisions: Arc<Vec<ServiceKey>>,
    pub dependency_policy: DependencyPolicy,
}

impl Clone for PluginDescriptor {
    fn clone(&self) -> (descriptor: Self)
        ensures
            descriptor == *self,
    {
        PluginDescriptor {
            name: self.name.clone(),
            dependencies: self.dependencies.clone(),
            provisions: self.provisions.clone(),
            dependency_policy: self.dependency_policy,
        }
    }
}

/// One fiber.
pub struct FiberRecord {
    pub plugin_id: PluginId,
    pub scope: ScopeId,
    pub descriptor: PluginDescriptor,
    pub state: FiberState,
    pub effects: Vec<EffectId>,
    pub tasks: Vec<TaskId>,
    pub handlers: Vec<HandlerId>,
    pub invocation_handlers: Vec<InvocationHandlerId>,
    pub invocation_middleware: Vec<InvocationMiddlewareId>,
    pub provided: Vec<ServiceKey>,
    pub child_scopes: Vec<ScopeId>,
    /// Number of hosted processes that live or were not reaped.
    pub hosted_live: usize,
    /// Whether the work of this generation was told to stop.
    pub cancelled: bool,
    /// Whether tasks wait for the activation to commit.
    pub activation: bool,
    /// Whether the activation takes no more registrations.
    pub activation_sealed: bool,
    pub generation: GenerationId,
    pub staged: bool,
    pub reload_owned: bool,
    pub disposal: FiberDisposal,
}

impl FiberRecord {
    /// A fiber that owns nothing and did not start.
    pub open spec fn is_fresh(
        self,
        plugin_id: PluginId,
        scope: ScopeId,
        descriptor: PluginDescriptor,
        generation: GenerationId,
        staged: bool,
    ) -> bool {
        &&& self.plugin_id == plugin_id
        &&& self.scope == scope
        &&& self.descriptor == descriptor
        &&& self.state is Created
        &&& self.effects@ == Seq::<EffectId>::empty()
        &&& self.tasks@ == Seq::<TaskId>::empty()
        &&& self.handlers@ == Seq::<HandlerId>::empty()
        &&& self.invocation_handlers@ == Seq::<InvocationHandlerId>::empty()
        &&& self.invocation_middleware@ == Seq::<InvocationMiddlewareId>::empty()
        &&& self.provided@ == Seq::<ServiceKey>::empty()
        &&& self.child_scopes@ == Seq::<ScopeId>::empty()
        &&& self.hosted_live == 0
        &&& !self.cancelled
        &&& !self.activation
        &&& !self.activation_sealed
        &&& self.generation == generation
        &&& self.staged == staged
        &&& self.reload_owned == staged
        &&& self.disposal.is_idle()
    }

    pub fn fresh(
        plugin_id: PluginId,
        scope: ScopeId,
        descriptor: PluginDescriptor,
        generation: GenerationId,
        staged: bool,
    ) -> (record: Self)
        ensures
            record.is_fresh(plugin_id, scope, descriptor, generation, staged),
    {
        FiberRecord {
            plugin_id,
            scope,
            descriptor,
            state: FiberState::Created,
            effects: Vec::new(),
            tasks: Vec::new(),
            handlers: Vec::new(),
            invocation_handlers: Vec::new(),
            invocation_middleware: Vec::new(),
            provided: Vec::new(),
            child_scopes: Vec::new(),
            hosted_live: 0,
            cancelled: false,
            activation: false,
            activation_sealed: false,
            generation,
            staged,
            reload_owned: staged,
            disposal: FiberDisposal::idle(),
        }
    }
}

/// The fibers by id.
pub type Fibers = Map<u64, FiberRecord>;

/// The fibers of a runtime.
pub type FiberRegistry = Arena<FiberRecord>;

} // verus!
