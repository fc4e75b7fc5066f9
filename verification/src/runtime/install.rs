//! Installing fibers.
use super::dependency::learn_declarations;
#[allow(unused_imports)]
use super::dependency::{all_met, drops_fiber, learns_fiber, meets, needs_of, symbols_of};
#[allow(unused_imports)]
use super::disposal::edits_fiber;
#[allow(unused_imports)]
use super::garbage::collects;
#[allow(unused_imports)]
use super::scope::sweeps_if;
#[allow(unused_imports)]
use super::service::interns_more;
use super::Runtime;
#[allow(unused_imports)]
use crate::arena::issues;
#[allow(unused_imports)]
use super::{all_interned, fiber_fits, is_issued, line_of, quota_rejected};
#[allow(unused_imports)]
use crate::dependency_graph::{is_acyclic, Edge};
use crate::error::CordisError;
use crate::fiber_registry::{FiberRecord, PluginDescriptor};
#[allow(unused_imports)]
use crate::gate::{CapabilityGate, GateState};
#[allow(unused_imports)]
use crate::ids::GenerationId;
use crate::ids::{FiberId, PluginId, ScopeId};
use crate::key::ServiceKey;
#[allow(unused_imports)]
use crate::key::{key_views, KeyView};
#[allow(unused_imports)]
use crate::plugin_registry::PluginRegistry;
#[allow(unused_imports)]
use crate::scope_registry::{ScopeRecord, ScopeRegistry};
#[allow(unused_imports)]
use crate::service_registry::ServiceRegistry;
use crate::state::{FiberState, ResourceKind, ScopeState};
use vstd::prelude::*;

verus! {

/// The interned keys after `wanted` are interned as far as there is room, and
/// whether there was.
pub open spec fn interned_with(
    known: Seq<KeyView>,
    wanted: Seq<KeyView>,
    limit: nat,
) -> (Seq<KeyView>, bool)
    decreases wanted.len(),
{
    if wanted.len() == 0 {
        (known, true)
    } else if known.contains(wanted[0]) {
        interned_with(known, wanted.drop_first(), limit)
    } else if known.len() >= limit {
        (known, false)
    } else {
        interned_with(known.push(wanted[0]), wanted.drop_first(), limit)
    }
}

/// What interning `keys` comes to.
pub open spec fn interns_keys(
    before: Runtime,
    after: Runtime,
    keys: Seq<ServiceKey>,
    result: Result<(), CordisError>,
) -> bool {
    let outcome = interned_with(
        key_views(before.services.keys@),
        key_views(keys),
        before.config.max_interned_symbols as nat,
    );
    &&& after == (Runtime { services: after.services, ..before })
    &&& after.services == (ServiceRegistry { keys: after.services.keys, ..before.services })
    &&& interns_more(before.services, after.services)
    &&& key_views(after.services.keys@) == outcome.0
    &&& match result {
        Ok(()) => outcome.1 && all_interned(after.services, keys),
        Err(error) => !outcome.1 && error == (CordisError::ResourceLimitExceeded {
            resource: ResourceKind::ServiceSymbols,
            limit: before.config.max_interned_symbols,
        }),
    }
}

/// The plugin that a new fiber belongs to, and how many fibers it has.
pub open spec fn plugin_for(plugins: PluginRegistry, logical: Option<PluginId>) -> (PluginId, usize) {
    match logical {
        Some(plugin) => (plugin, plugins@[plugin.raw]),
        None => (PluginId { raw: plugins.next_plugin }, 0),
    }
}

/// Whether handles and counters leave room for another fiber of the plugin.
pub open spec fn plugin_has_room(plugins: PluginRegistry, logical: Option<PluginId>) -> bool {
    &&& plugins.next_generation < u64::MAX
    &&& match logical {
        Some(plugin) => plugins@[plugin.raw] < usize::MAX,
        None => plugins.next_plugin < u64::MAX,
    }
}

/// The plugins after handles or counters left no room, and what is said of it.
pub open spec fn runs_out(
    before: PluginRegistry,
    after: PluginRegistry,
    logical: Option<PluginId>,
    message: Seq<char>,
) -> bool {
    let named = if logical is None {
        before@.insert(before.next_plugin, 0)
    } else {
        before@
    };
    let next_plugin = before.next_plugin + (if logical is None {
        1int
    } else {
        0int
    });
    if logical is None && before.next_plugin == u64::MAX {
        after == before && message == "plugin handles are used up"@
    } else if before.next_generation == u64::MAX {
        &&& message == "generations are used up"@
        &&& after@ == named
        &&& after.next_plugin == next_plugin
        &&& after.next_generation == before.next_generation
    } else {
        &&& message == "too many fibers of one plugin"@
        &&& after@ == named
        &&& after.next_plugin == next_plugin
        &&& after.next_generation == before.next_generation + 1
    }
}

/// The new fiber is entered everywhere: in its scope, under its plugin, with a
/// staged generation of its own, and with what it declares.
pub open spec fn enrolls(
    before: Runtime,
    after: Runtime,
    scope: ScopeId,
    descriptor: PluginDescriptor,
    staged: bool,
    logical: Option<PluginId>,
    fiber: FiberId,
) -> bool {
    let generation = GenerationId { raw: before.plugins.next_generation };
    let plugin = plugin_for(before.plugins, logical);
    let record = after.fibers@[fiber.raw];
    &&& after == (Runtime {
        plugins: after.plugins,
        gates: after.gates,
        fibers: after.fibers,
        scopes: after.scopes,
        dependencies: after.dependencies,
        ..before
    })
    &&& !before.fibers@.dom().contains(fiber.raw)
    &&& !before.fibers.retired(fiber.raw)
    &&& issues(before.fibers.versions(), after.fibers.versions(), fiber.raw)
    &&& after.fibers@ == before.fibers@.insert(fiber.raw, record)
    &&& record.is_fresh(plugin.0, scope, descriptor, generation, staged)
    &&& after.plugins@ == before.plugins@.insert(plugin.0.raw, (plugin.1 + 1) as usize)
    &&& after.plugins.next_generation == before.plugins.next_generation + 1
    &&& after.plugins.next_plugin == before.plugins.next_plugin + (if logical is None {
        1int
    } else {
        0int
    })
    &&& after.gates@ == before.gates@.insert(
        generation.raw,
        CapabilityGate::untouched(GateState::Staged),
    )
    &&& joins_scope(before.scopes, after.scopes, scope, fiber)
    &&& learns_fiber(
        before.dependencies,
        after.dependencies,
        fiber,
        scope,
        symbols_of(before.services, descriptor.dependencies@),
        symbols_of(before.services, descriptor.provisions@),
    )
}

/// `scopes` with `fiber` at the end of the list of `scope`.
pub open spec fn joins_scope(
    before: ScopeRegistry,
    after: ScopeRegistry,
    scope: ScopeId,
    fiber: FiberId,
) -> bool {
    let record = after@[scope.raw];
    &&& after.root == before.root
    &&& after.rank == before.rank
    &&& after.scopes.versions() == before.scopes.versions()
    &&& after.scopes.order() == before.scopes.order()
    &&& after@ == before@.insert(scope.raw, record)
    &&& record == (ScopeRecord { fibers: record.fibers, ..before@[scope.raw] })
    &&& record.fibers@ == before@[scope.raw].fibers@.push(fiber.raw)
}

impl Runtime {
    /// Interns every key, as far as there is room.
    pub(crate) fn intern_all(&mut self, keys: &Vec<ServiceKey>) -> (result: Result<(), CordisError>)
        requires
            old(self).wf(),
        ensures
            final(self).wf(),
            interns_keys(*old(self), *final(self), keys@, result),
    {
        let ghost views = key_views(keys@);
        let ghost limit = self.config.max_interned_symbols as nat;
        let ghost whole = interned_with(key_views(self.services.keys@), views, limit);
        let mut i: usize = 0;
        proof {
            assert(views.skip(0) =~= views);
        }
        while i < keys.len()
            invariant
                self.wf(),
                *self == (Runtime { services: self.services, ..*old(self) }),
                self.services == (ServiceRegistry {
                    keys: self.services.keys,
                    ..old(self).services
                }),
                interns_more(old(self).services, self.services),
                i <= keys@.len(),
                views == key_views(keys@),
                limit == self.config.max_interned_symbols as nat,
                interned_with(key_views(self.services.keys@), views.skip(i as int), limit) == whole,
                whole == interned_with(key_views(old(self).services.keys@), views, limit),
                forall|k: int|
                    0 <= k < i ==> self.services.symbol_of((#[trigger] keys@[k])@) is Some,
            decreases keys@.len() - i,
        {
            let ghost prior = *self;
            proof {
                assert(views.skip(i as int)[0] == keys@[i as int]@);
                assert(views.skip(i as int).drop_first() =~= views.skip(i + 1));
            }
            if let Err(error) = self.services.try_intern(&keys[i]) {
                proof {
                    self.lemma_keys_added(prior);
                }
                return Err(error);
            }
            proof {
                self.lemma_keys_added(prior);
                assert(key_views(prior.services.keys@.push(keys@[i as int])) =~= key_views(
                    prior.services.keys@,
                ).push(keys@[i as int]@));
                assert forall|k: int| 0 <= k < i + 1 implies self.services.symbol_of(
                    (#[trigger] keys@[k])@,
                ) is Some by {
                    if k < i {
                        assert(prior.services.symbol_of(keys@[k]@) is Some);
                    }
                }
            }
            i += 1;
        }
        Ok(())
    }

    /// Handing out handles disturbs nothing.
    pub(crate) proof fn lemma_plugins_grown(&self, before: Runtime)
        requires
            before.wf(),
            *self == (Runtime { plugins: self.plugins, ..before }),
            self.plugins.wf(),
            self.plugins.next_generation >= before.plugins.next_generation,
        ensures
            self.wf(),
    {
        assert forall|fiber: u64| #[trigger] self.fibers@.dom().contains(fiber) implies fiber_fits(
            self.scopes,
            self.services,
            self.plugins.next_generation,
            self.fibers@[fiber],
        ) by {
            assert(fiber_fits(
                before.scopes,
                before.services,
                before.plugins.next_generation,
                before.fibers@[fiber],
            ));
        }
    }

    /// Enters a new fiber everywhere.
    fn enroll(
        &mut self,
        scope: ScopeId,
        descriptor: &PluginDescriptor,
        staged: bool,
        logical: Option<PluginId>,
    ) -> (result: Result<FiberId, CordisError>)
        requires
            old(self).wf(),
            old(self).fibers@.dom().len() < old(self).config.max_fibers,
            all_interned(old(self).services, descriptor.dependencies@),
            all_interned(old(self).services, descriptor.provisions@),
        ensures
            final(self).wf(),
            match result {
                Ok(fiber) => {
                    &&& old(self).scopes@.dom().contains(scope.raw)
                    &&& old(self).scopes@[scope.raw].state is Active
                    &&& logical matches Some(plugin) ==> old(self).plugins@.dom().contains(
                        plugin.raw,
                    )
                    &&& plugin_has_room(old(self).plugins, logical)
                    &&& enrolls(
                        *old(self),
                        *final(self),
                        scope,
                        *descriptor,
                        staged,
                        logical,
                        fiber,
                    )
                },
                Err(error) => if !old(self).scopes@.dom().contains(scope.raw) {
                    error is ScopeNotFound && *final(self) == *old(self)
                } else if !(old(self).scopes@[scope.raw].state is Active) {
                    error == CordisError::ScopeDisposed(scope) && *final(self) == *old(self)
                } else if logical is Some && !old(self).plugins@.dom().contains(
                    logical->0.raw,
                ) {
                    error is PluginNotFound && *final(self) == *old(self)
                } else {
                    &&& !plugin_has_room(old(self).plugins, logical)
                    &&& error matches CordisError::Invariant(message)
                    &&& *final(self) == (Runtime { plugins: final(self).plugins, ..*old(self) })
                    &&& runs_out(old(self).plugins, final(self).plugins, logical, message@)
                },
            },
    {
        match self.scopes.get(scope) {
            None => return Err(CordisError::ScopeNotFound),
            Some(record) => {
                if record.state != ScopeState::Active {
                    return Err(CordisError::ScopeDisposed(scope));
                }
            },
        }
        let ghost before = *self;
        let plugin_id = match logical {
            Some(plugin) => plugin,
            None => match self.plugins.create() {
                Ok(plugin) => plugin,
                Err(error) => return Err(error),
            },
        };
        let generation = match self.plugins.allocate_generation(plugin_id) {
            Ok(generation) => generation,
            Err(error) => {
                proof {
                    self.lemma_plugins_grown(before);
                }
                return Err(error);
            },
        };
        if let Err(error) = self.plugins.attach_fiber(plugin_id) {
            proof {
                self.lemma_plugins_grown(before);
            }
            return Err(error);
        }
        proof {
            self.lemma_plugins_grown(before);
            assert(self.plugins@ =~= before.plugins@.insert(
                plugin_id.raw,
                (plugin_for(before.plugins, logical).1 + 1) as usize,
            ));
        }
        let ghost counted = *self;
        self.gates.stage(generation);
        proof {
            assert(!counted.gates@.dom().contains(generation.raw)) by {
                if before.gates@.dom().contains(generation.raw) {
                    assert(generation.raw < before.plugins.next_generation);
                }
            }
            assert forall|other: GenerationId| #[trigger]
                self.gates.visible(other) implies counted.gates.visible(other) by {}
            self.lemma_gates_turned(counted);
        }
        let ghost gated = *self;
        let record = FiberRecord::fresh(plugin_id, scope, descriptor.clone(), generation, staged);
        let ghost fresh = record;
        proof {
            self.fibers.lemma_order();
        }
        let raw = self.fibers.insert(record);
        let fiber = FiberId { raw };
        proof {
            assert(is_issued(self.scopes, scope));
            assert forall|other: u64| #[trigger]
                self.fibers@.dom().contains(other) implies fiber_fits(
                self.scopes,
                self.services,
                self.plugins.next_generation,
                self.fibers@[other],
            ) by {
                if other != raw {
                    assert(gated.fibers@.dom().contains(other));
                }
            }
        }
        let ghost entered = *self;
        if let Some(record) = self.scopes.get_mut(scope) {
            record.fibers.push(raw);
        }
        proof {
            assert(self.scopes@.dom() =~= entered.scopes@.dom());
            self.lemma_scopes_edited(entered);
        }
        learn_declarations(
            &mut self.dependencies,
            &self.services,
            fiber,
            scope,
            &descriptor.dependencies,
            &descriptor.provisions,
        );
        Ok(fiber)
    }
}

/// What an installed fiber does first.
#[derive(Clone, Copy, Debug, PartialEq, Eq, Structural)]
pub struct InstallStep {
    pub fiber: FiberId,
    /// Whether the fiber is to be activated now; it waits for its dependencies
    /// otherwise.
    pub activate: bool,
}

/// A fiber that was entered is checked against the others: it goes again where
/// its dependencies form a cycle, and otherwise its dependencies decide what it
/// does first.
pub open spec fn settles_install(
    enrolled: Runtime,
    after: Runtime,
    scope: ScopeId,
    descriptor: PluginDescriptor,
    fiber: FiberId,
    result: Result<InstallStep, CordisError>,
) -> bool {
    if !is_acyclic(needs_of(enrolled, enrolled.fibers.order())) {
        &&& result == Err::<InstallStep, CordisError>(CordisError::DependencyCycle)
        &&& drops_fiber(enrolled, after, fiber)
    } else {
        &&& result matches Ok(step)
        &&& step.fiber == fiber
        &&& meets(
            enrolled.services,
            after.services,
            scope,
            line_of(enrolled.scopes, scope),
            symbols_of(enrolled.services, descriptor.dependencies@),
            enrolled.gates,
            step.activate,
        )
        &&& enrolled.scopes.rooted(scope) ==> step.activate == all_met(
            enrolled,
            scope,
            descriptor.dependencies@,
        )
        &&& after == (Runtime { services: after.services, fibers: after.fibers, ..enrolled })
        &&& after.services.same_but_cache(&enrolled.services)
        &&& if step.activate {
            after.fibers == enrolled.fibers
        } else {
            &&& after.fibers@ == enrolled.fibers@.insert(
                fiber.raw,
                FiberRecord {
                    state: FiberState::WaitingDependencies,
                    ..enrolled.fibers@[fiber.raw]
                },
            )
            &&& after.fibers.order() == enrolled.fibers.order()
            &&& after.fibers.versions() == enrolled.fibers.versions()
        }
    }
}

/// What the entering of a fiber with interned keys comes to.
pub open spec fn admits(
    before: Runtime,
    after: Runtime,
    scope: ScopeId,
    descriptor: PluginDescriptor,
    staged: bool,
    logical: Option<PluginId>,
    result: Result<InstallStep, CordisError>,
) -> bool {
    if before.fibers@.dom().len() >= before.config.max_fibers {
        &&& result == Err::<InstallStep, CordisError>(
            CordisError::ResourceLimitExceeded {
                resource: ResourceKind::Fibers,
                limit: before.config.max_fibers,
            },
        )
        &&& quota_rejected(before, after, Some(scope), None)
    } else if !before.scopes@.dom().contains(scope.raw) {
        &&& result == Err::<InstallStep, CordisError>(CordisError::ScopeNotFound)
        &&& after == before
    } else if !(before.scopes@[scope.raw].state is Active) {
        &&& result == Err::<InstallStep, CordisError>(CordisError::ScopeDisposed(scope))
        &&& after == before
    } else if logical is Some && !before.plugins@.dom().contains(logical->0.raw) {
        &&& result == Err::<InstallStep, CordisError>(CordisError::PluginNotFound)
        &&& after == before
    } else if !plugin_has_room(before.plugins, logical) {
        &&& result matches Err(CordisError::Invariant(message))
        &&& after == (Runtime { plugins: after.plugins, ..before })
        &&& runs_out(before.plugins, after.plugins, logical, message@)
    } else {
        exists|enrolled: Runtime, fiber: FiberId|
            {
                &&& #[trigger] enrolls(
                    before,
                    enrolled,
                    scope,
                    descriptor,
                    staged,
                    logical,
                    fiber,
                )
                &&& enrolled.wf()
                &&& settles_install(enrolled, after, scope, descriptor, fiber, result)
            }
    }
}

/// What a request to install comes to, once there is as much room as there can
/// be.
pub open spec fn installs(
    before: Runtime,
    after: Runtime,
    scope: ScopeId,
    descriptor: PluginDescriptor,
    staged: bool,
    logical: Option<PluginId>,
    result: Result<InstallStep, CordisError>,
) -> bool {
    if before.admission.closed {
        &&& result == Err::<InstallStep, CordisError>(CordisError::RuntimeShuttingDown)
        &&& after == before
    } else {
        exists|named: Runtime, interned: Result<(), CordisError>|
            {
                &&& #[trigger] interns_keys(
                    before,
                    named,
                    descriptor.dependencies@ + descriptor.provisions@,
                    interned,
                )
                &&& named.wf()
                &&& match interned {
                    Err(error) => result == Err::<InstallStep, CordisError>(error) && after
                        == named,
                    Ok(()) => admits(named, after, scope, descriptor, staged, logical, result),
                }
            }
    }
}

impl Runtime {
    /// Moves a fiber to another state where the lifecycle allows it.
    pub fn transition(&mut self, fiber: FiberId, next: FiberState) -> (result: Result<
        (),
        CordisError,
    >)
        requires
            old(self).wf(),
        ensures
            final(self).wf(),
            if !old(self).fibers@.dom().contains(fiber.raw) {
                &&& result == Err::<(), CordisError>(CordisError::FiberNotFound)
                &&& *final(self) == *old(self)
            } else if !old(self).fibers@[fiber.raw].state.allows(next) {
                &&& result == Err::<(), CordisError>(
                    CordisError::InvalidFiberState {
                        fiber,
                        from: old(self).fibers@[fiber.raw].state,
                        to: next,
                    },
                )
                &&& *final(self) == *old(self)
            } else {
                &&& result is Ok
                &&& edits_fiber(
                    *old(self),
                    *final(self),
                    fiber,
                    FiberRecord { state: next, ..old(self).fibers@[fiber.raw] },
                )
            },
    {
        match self.fibers.get(fiber.raw) {
            None => return Err(CordisError::FiberNotFound),
            Some(record) => {
                if !record.state.can_transition_to(next) {
                    return Err(
                        CordisError::InvalidFiberState { fiber, from: record.state, to: next },
                    );
                }
            },
        }
        let ghost before = *self;
        if let Some(record) = self.fibers.get_mut(fiber.raw) {
            record.state = next;
        }
        proof {
            self.lemma_fiber_edited(before, fiber.raw);
        }
        Ok(())
    }

    /// Installs a fiber: it is entered and checked, and then is to be activated
    /// or waits for its dependencies.
    pub fn admit_install(
        &mut self,
        scope: ScopeId,
        descriptor: &PluginDescriptor,
        staged: bool,
        logical: Option<PluginId>,
    ) -> (result: Result<InstallStep, CordisError>)
        requires
            old(self).wf(),
        ensures
            final(self).wf(),
            exists|swept: Runtime|
                {
                    &&& sweeps_if(
                        *old(self),
                        swept,
                        old(self).fibers@.dom().len() >= old(self).config.max_fibers,
                    )
                    &&& swept.wf()
                    &&& #[trigger] installs(
                        swept,
                        *final(self),
                        scope,
                        *descriptor,
                        staged,
                        logical,
                        result,
                    )
                },
    {
        if self.fibers.len() >= self.config.max_fibers {
            let report = self.collect_garbage();
            assert(collects(*old(self), *self, report));
        }
        let ghost swept = *self;
        assert(sweeps_if(
            *old(self),
            swept,
            old(self).fibers@.dom().len() >= old(self).config.max_fibers,
        ));
        let result = self.install_swept(scope, descriptor, staged, logical);
        assert(installs(swept, *self, scope, *descriptor, staged, logical, result));
        result
    }

    fn install_swept(
        &mut self,
        scope: ScopeId,
        descriptor: &PluginDescriptor,
        staged: bool,
        logical: Option<PluginId>,
    ) -> (result: Result<InstallStep, CordisError>)
        requires
            old(self).wf(),
        ensures
            final(self).wf(),
            installs(*old(self), *final(self), scope, *descriptor, staged, logical, result),
    {
        if let Err(error) = self.admission.enter() {
            return Err(error);
        }
        let mut keys = crate::key::clone_keys(&descriptor.dependencies);
        let mut more = crate::key::clone_keys(&descriptor.provisions);
        keys.append(&mut more);
        let ghost before = *self;
        let interned = self.intern_all(&keys);
        let ghost named = *self;
        assert(keys@ == descriptor.dependencies@ + descriptor.provisions@);
        assert(interns_keys(
            before,
            named,
            descriptor.dependencies@ + descriptor.provisions@,
            interned,
        ));
        if let Err(error) = interned {
            return Err(error);
        }
        proof {
            lemma_both_interned(
                self.services,
                descriptor.dependencies@,
                descriptor.provisions@,
            );
        }
        let result = self.admit_named(scope, descriptor, staged, logical);
        assert(admits(named, *self, scope, *descriptor, staged, logical, result));
        result
    }

    fn admit_named(
        &mut self,
        scope: ScopeId,
        descriptor: &PluginDescriptor,
        staged: bool,
        logical: Option<PluginId>,
    ) -> (result: Result<InstallStep, CordisError>)
        requires
            old(self).wf(),
            all_interned(old(self).services, descriptor.dependencies@),
            all_interned(old(self).services, descriptor.provisions@),
        ensures
            final(self).wf(),
            admits(*old(self), *final(self), scope, *descriptor, staged, logical, result),
    {
        if self.fibers.len() >= self.config.max_fibers {
            let limit: usize = self.config.max_fibers;
            return Err(self.quota_error(ResourceKind::Fibers, limit, Some(scope), None));
        }
        let ghost before = *self;
        let fiber = match self.enroll(scope, descriptor, staged, logical) {
            Ok(fiber) => fiber,
            Err(error) => return Err(error),
        };
        let ghost enrolled = *self;
        assert(enrolls(before, enrolled, scope, *descriptor, staged, logical, fiber));
        let result = self.settle_install(scope, descriptor, fiber);
        assert(settles_install(enrolled, *self, scope, *descriptor, fiber, result));
        result
    }

    fn settle_install(
        &mut self,
        scope: ScopeId,
        descriptor: &PluginDescriptor,
        fiber: FiberId,
    ) -> (result: Result<InstallStep, CordisError>)
        requires
            old(self).wf(),
            old(self).fibers@.dom().contains(fiber.raw),
            old(self).fibers@[fiber.raw].state is Created,
            old(self).fibers@[fiber.raw].descriptor == *descriptor,
            old(self).fibers@[fiber.raw].scope == scope,
        ensures
            final(self).wf(),
            settles_install(*old(self), *final(self), scope, *descriptor, fiber, result),
    {
        if let Err(error) = self.validate_dependency_graph() {
            self.remove_unstarted_fiber(fiber);
            return Err(error);
        }
        proof {
            assert(fiber_fits(
                self.scopes,
                self.services,
                self.plugins.next_generation,
                self.fibers@[fiber.raw],
            ));
        }
        let activate = self.dependencies_met(scope, &descriptor.dependencies);
        if !activate {
            if let Err(error) = self.transition(fiber, FiberState::WaitingDependencies) {
                return Err(error);
            }
        }
        Ok(InstallStep { fiber, activate })
    }
}

proof fn lemma_both_interned(
    services: ServiceRegistry,
    first: Seq<ServiceKey>,
    second: Seq<ServiceKey>,
)
    requires
        all_interned(services, first + second),
    ensures
        all_interned(services, first),
        all_interned(services, second),
{
    assert forall|i: int| 0 <= i < first.len() implies services.symbol_of(
        (#[trigger] first[i])@,
    ) is Some by {
        assert((first + second)[i] == first[i]);
    }
    assert forall|i: int| 0 <= i < second.len() implies services.symbol_of(
        (#[trigger] second[i])@,
    ) is Some by {
        assert((first + second)[first.len() + i] == second[i]);
    }
}

/// An installation that is refused because of a cycle leaves nothing behind: the
/// fibers, the scope, the plugins, the gates and the declarations are what they
/// were.
pub proof fn law_refused_install_leaves_nothing(
    before: Runtime,
    enrolled: Runtime,
    after: Runtime,
    scope: ScopeId,
    descriptor: PluginDescriptor,
    staged: bool,
    logical: Option<PluginId>,
    fiber: FiberId,
)
    requires
        before.wf(),
        before.scopes@.dom().contains(scope.raw),
        logical is Some ==> before.plugins@.dom().contains(logical->0.raw)
            && before.plugins@[logical->0.raw] >= 1,
        plugin_has_room(before.plugins, logical),
        !before.scopes@[scope.raw].fibers@.contains(fiber.raw),
        forall|edge: Edge| #[trigger]
            before.dependencies.providers@.contains(edge) ==> edge.fiber != fiber,
        forall|edge: Edge| #[trigger]
            before.dependencies.dependents@.contains(edge) ==> edge.fiber != fiber,
        enrolls(before, enrolled, scope, descriptor, staged, logical, fiber),
        drops_fiber(enrolled, after, fiber),
    ensures
        after.fibers@ == before.fibers@,
        after.scopes@.dom() == before.scopes@.dom(),
        after.scopes@[scope.raw].fibers@ == before.scopes@[scope.raw].fibers@,
        forall|id: u64| #[trigger]
            before.scopes@.dom().contains(id) && id != scope.raw ==> after.scopes@[id]
                == before.scopes@[id],
        after.plugins@ == before.plugins@,
        after.gates@ == before.gates@,
        forall|edge: Edge| #[trigger]
            after.dependencies.providers@.contains(edge)
                <==> before.dependencies.providers@.contains(edge),
        forall|edge: Edge| #[trigger]
            after.dependencies.dependents@.contains(edge)
                <==> before.dependencies.dependents@.contains(edge),
{
    assert(after.fibers@ =~= before.fibers@);
    lemma_gates_restored(before, enrolled, after, fiber);
    lemma_plugins_restored(before.plugins, enrolled.plugins, after.plugins, logical);
    lemma_scope_restored(before.scopes, enrolled.scopes, after.scopes, scope, fiber);
    lemma_declarations_restored(
        before.dependencies,
        enrolled.dependencies,
        after.dependencies,
        fiber,
        scope,
        symbols_of(before.services, descriptor.dependencies@),
        symbols_of(before.services, descriptor.provisions@),
    );
}

proof fn lemma_gates_restored(before: Runtime, enrolled: Runtime, after: Runtime, fiber: FiberId)
    requires
        before.wf(),
        enrolled.gates@ == before.gates@.insert(
            before.plugins.next_generation,
            CapabilityGate::untouched(GateState::Staged),
        ),
        after.gates@ == enrolled.gates@.remove(before.plugins.next_generation),
    ensures
        after.gates@ == before.gates@,
{
    assert(!before.gates@.dom().contains(before.plugins.next_generation)) by {
        if before.gates@.dom().contains(before.plugins.next_generation) {
            assert(before.plugins.next_generation < before.plugins.next_generation);
        }
    }
    assert(after.gates@ =~= before.gates@);
}

proof fn lemma_plugins_restored(
    before: PluginRegistry,
    enrolled: PluginRegistry,
    after: PluginRegistry,
    logical: Option<PluginId>,
)
    requires
        before.wf(),
        plugin_has_room(before, logical),
        logical is Some ==> before@.dom().contains(logical->0.raw) && before@[logical->0.raw] >= 1,
        ({
            let plugin = plugin_for(before, logical);
            &&& enrolled@ == before@.insert(plugin.0.raw, (plugin.1 + 1) as usize)
            &&& after@ == PluginRegistry::after_detach(enrolled@, plugin.0)
        }),
    ensures
        after@ == before@,
{
    if logical is None {
        assert(!before@.dom().contains(before.next_plugin)) by {
            if before@.dom().contains(before.next_plugin) {
                assert(before.next_plugin < before.next_plugin);
            }
        }
    }
    assert(after@ =~= before@);
}

proof fn lemma_scope_restored(
    before: ScopeRegistry,
    enrolled: ScopeRegistry,
    after: ScopeRegistry,
    scope: ScopeId,
    fiber: FiberId,
)
    requires
        before@.dom().contains(scope.raw),
        !before@[scope.raw].fibers@.contains(fiber.raw),
        joins_scope(before, enrolled, scope, fiber),
        super::dependency::leaves_scope(enrolled, after, scope, fiber),
    ensures
        after@.dom() == before@.dom(),
        after@[scope.raw].fibers@ == before@[scope.raw].fibers@,
        forall|id: u64| #[trigger]
            before@.dom().contains(id) && id != scope.raw ==> after@[id] == before@[id],
{
    crate::id_list::lemma_take_back(before@[scope.raw].fibers@, fiber.raw);
    assert(enrolled@.dom() =~= before@.dom());
    assert(after@.dom() =~= enrolled@.dom());
}

proof fn lemma_declarations_restored(
    before: crate::dependency_graph::DependencyGraph,
    enrolled: crate::dependency_graph::DependencyGraph,
    after: crate::dependency_graph::DependencyGraph,
    fiber: FiberId,
    scope: ScopeId,
    dependencies: Seq<crate::ids::ServiceSymbol>,
    provisions: Seq<crate::ids::ServiceSymbol>,
)
    requires
        forall|edge: Edge| #[trigger] before.providers@.contains(edge) ==> edge.fiber != fiber,
        forall|edge: Edge| #[trigger] before.dependents@.contains(edge) ==> edge.fiber != fiber,
        learns_fiber(before, enrolled, fiber, scope, dependencies, provisions),
        super::dependency::forgets_fiber(
            enrolled,
            after,
            fiber,
            scope,
            dependencies,
            provisions,
        ),
    ensures
        forall|edge: Edge| #[trigger]
            after.providers@.contains(edge) <==> before.providers@.contains(edge),
        forall|edge: Edge| #[trigger]
            after.dependents@.contains(edge) <==> before.dependents@.contains(edge),
{
    assert forall|edge: Edge| #[trigger]
        after.providers@.contains(edge) <==> before.providers@.contains(edge) by {
        assert(enrolled.providers@.contains(edge) || !enrolled.providers@.contains(edge));
    }
    assert forall|edge: Edge| #[trigger]
        after.dependents@.contains(edge) <==> before.dependents@.contains(edge) by {
        assert(enrolled.dependents@.contains(edge) || !enrolled.dependents@.contains(edge));
    }
}

} // verus!
