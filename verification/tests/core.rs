use cordis_runtime::arena::Arena;
use cordis_runtime::config::RuntimeConfig;
use cordis_runtime::dependency_graph::{DependencyGraph, Need};
use cordis_runtime::error::{is_terminal_cleanup_error, CordisError};
use cordis_runtime::fiber_registry::PluginDescriptor;
use cordis_runtime::gate::{GateState, GateTable, GenerationExecutionState};
use cordis_runtime::health::{Diagnostics, HealthIssue, HealthIssueKind, Moment};
use cordis_runtime::id_list::IdList;
use cordis_runtime::ids::{FiberId, GenerationId, PluginId, ScopeId, ServiceSymbol};
use cordis_runtime::key::{InvocationKey, ServiceKey};
use cordis_runtime::plugin_registry::PluginRegistry;
use cordis_runtime::runtime::{GcState, Runtime};
use cordis_runtime::scope_registry::ScopeRegistry;
use cordis_runtime::scope_revision::PreparedScopeRevision;
use cordis_runtime::service_registry::{ServiceEntry, ServiceRegistry};
use cordis_runtime::shutdown_coordinator::{
    RuntimeShutdownState, ShutdownCoordinator, ShutdownOutcome, ShutdownStart,
};
use cordis_runtime::state::{DependencyPolicy, FiberState, ResourceKind, ScopeState};
use cordis_runtime::task::{RuntimeWorkerKind, TaskOutcome, WorkerEnd};
use cordis_runtime::text::{decimal_text, join};
use std::sync::Arc;

fn descriptor(dependencies: Vec<ServiceKey>, provisions: Vec<ServiceKey>) -> PluginDescriptor {
    PluginDescriptor {
        name: Arc::new("plugin".to_owned()),
        dependencies: Arc::new(dependencies),
        provisions: Arc::new(provisions),
        dependency_policy: DependencyPolicy::Restart,
    }
}

#[test]
fn service_interner_is_stable_and_bounded_without_id_reuse() {
    let mut runtime = Runtime::with_config(RuntimeConfig {
        max_interned_symbols: 2,
        ..RuntimeConfig::default()
    })
    .expect("runtime");
    let first = ServiceKey::new("bound", "first", 1);
    let second = ServiceKey::new("bound", "second", 1);
    let rejected = ServiceKey::new("bound", "rejected", 1);
    let first_symbol = runtime.intern_service(&first).expect("first");
    assert_eq!(runtime.intern_service(&first).expect("stable"), first_symbol);
    runtime.intern_service(&second).expect("second");
    assert_eq!(runtime.services.symbol_count(), 2);
    assert!(matches!(
        runtime.intern_service(&rejected),
        Err(CordisError::ResourceLimitExceeded {
            resource: ResourceKind::ServiceSymbols,
            limit: 2
        })
    ));
    assert_eq!(runtime.intern_service(&first).expect("existing remains"), first_symbol);
}

#[test]
fn interner_config_rejects_symbol_limit_above_id_space() {
    let result = Runtime::with_config(RuntimeConfig {
        max_interned_symbols: u32::MAX as usize + 1,
        ..RuntimeConfig::default()
    });
    let Err(error) = result else {
        panic!("symbol limit must fit ServiceSymbol");
    };
    assert!(matches!(error, CordisError::InvalidRuntimeConfig(_)));
}

#[test]
fn service_registry_lock_is_independent_from_lifecycle_state() {
    let mut runtime = Runtime::new();
    let key = ServiceKey::new("isolation", "service", 1);
    let symbol = runtime.services.try_intern(&key).expect("symbol admission");
    assert_eq!(runtime.services.intern(&key), symbol);
}

#[test]
fn scope_ancestry_is_correct() {
    let mut runtime = Runtime::new();
    let root = runtime.root();
    let child = runtime.create_scope(root, "child").expect("child");
    let leaf = runtime.create_scope(child, "leaf").expect("leaf");
    assert_eq!(runtime.scopes.ancestry(leaf).expect("ancestry"), vec![leaf, child, runtime.root()]);
    assert_eq!(
        runtime.scopes.ancestry_root_to_leaf(leaf, true).expect("root to leaf"),
        vec![runtime.root(), child, leaf]
    );
}

#[test]
fn limits_without_a_root_or_beyond_the_handles_are_refused() {
    for config in [
        RuntimeConfig { max_scopes: 0, ..RuntimeConfig::default() },
        RuntimeConfig { max_scopes: 0xFFFF_FFFF, ..RuntimeConfig::default() },
        RuntimeConfig { max_fibers: 0xFFFF_FFFF, ..RuntimeConfig::default() },
    ] {
        assert!(matches!(config.validate(), Err(CordisError::InvalidRuntimeConfig(_))));
    }
    assert_eq!(RuntimeConfig::default().validate(), Ok(()));
}

#[test]
fn arena_ids_are_never_reused() {
    let mut arena: Arena<&str> = Arena::new();
    let first = arena.insert("first");
    let second = arena.insert("second");
    assert_eq!(arena.remove(first), Some("first"));
    assert_eq!(arena.remove(first), None);
    let third = arena.insert("third");
    assert_ne!(third, first);
    assert_eq!(third & 0xFFFF_FFFF, first & 0xFFFF_FFFF);
    assert_eq!(arena.get(first), None);
    assert_eq!(arena.get(third), Some(&"third"));
    assert_eq!(arena.len(), 2);
    assert_eq!(arena.ids(), vec![third, second]);
    *arena.get_mut(second).expect("second") = "changed";
    assert_eq!(arena.get(second), Some(&"changed"));
    assert!(arena.is_removable(second));
}

#[test]
fn id_lists_keep_order_beyond_their_inline_room() {
    let mut list = IdList::new();
    assert!(list.is_empty());
    for id in 0..10_u64 {
        list.push(id % 7);
    }
    assert_eq!(list.to_vec(), vec![0, 1, 2, 3, 4, 5, 6, 0, 1, 2]);
    assert!(list.holds_once(3));
    assert!(!list.holds_once(0));
    list.retain_except(&vec![0, 5]);
    assert_eq!(list.to_vec(), vec![1, 2, 3, 4, 6, 1, 2]);
    list.discard(1);
    assert_eq!(list.len(), 5);
    list.extend(&vec![9, 9]);
    assert!(list.contains(9));
    assert!(!list.contains(0));
    assert_eq!(list.to_vec(), vec![2, 3, 4, 6, 2, 9, 9]);
}

#[test]
fn texts_read_as_written() {
    assert_eq!(decimal_text(0), "0");
    assert_eq!(decimal_text(18_446_744_073_709_551_615), "18446744073709551615");
    assert_eq!(cordis_runtime::text::concat("a", "b"), "ab");
    assert_eq!(join(&vec![], "; "), "");
    assert_eq!(join(&vec!["x".to_owned(), "y".to_owned(), "z".to_owned()], "; "), "x; y; z");
    assert_eq!(ServiceKey::new("bound", "first", 12).to_string(), "bound/first@12");
    assert_eq!(InvocationKey::new("a", "b", 3).to_string(), "a/b@3");
    assert_eq!(FiberId { raw: 0x3_0000_0002 }.debug_text(), "FiberId(2v3)");
    assert_eq!(ScopeId { raw: 0x1_0000_0001 }.debug_text(), "ScopeId(1v1)");
    assert_eq!(GenerationId { raw: 8 }.get(), 8);
}

#[test]
fn every_error_has_its_text() {
    let fiber = FiberId { raw: 0x1_0000_0001 };
    let scope = ScopeId { raw: 0x1_0000_0001 };
    let m = || "m".to_owned();
    let inner = Arc::new(CordisError::Invariant(m()));
    let none = Arc::new(Vec::new());
    let generation = |raw: u64| GenerationId { raw };
    let texts = vec![
        (CordisError::ScopeNotFound, "scope not found"),
        (CordisError::ScopeDisposed(scope), "scope is not active: ScopeId(1v1)"),
        (CordisError::FiberNotFound, "fiber not found"),
        (CordisError::PluginNotFound, "plugin not found"),
        (CordisError::FiberLifecycleOwned(fiber), "fiber lifecycle is owned by a reload: FiberId(1v1)"),
        (CordisError::InvalidRuntimeConfig(m()), "invalid runtime configuration: m"),
        (CordisError::RevisionValidationFailed(m()), "revision validation failed: m"),
        (CordisError::CapabilityPublicationFailed(fiber), "capability publication failed: FiberId(1v1)"),
        (CordisError::ActivationSealed(fiber), "activation is sealed: FiberId(1v1)"),
        (CordisError::DuplicateService(ServiceKey::new("a", "b", 1)), "service is already provided: a/b@1"),
        (CordisError::DuplicateInvocationHandler(InvocationKey::new("a", "b", 1)), "invocation is already handled: a/b@1"),
        (CordisError::DependencyCycle, "dependency cycle"),
        (CordisError::Invariant(m()), "invariant violated: m"),
        (CordisError::CleanupFailed(m()), "cleanup failed: m"),
        (CordisError::PluginPanicked(m()), "plugin panicked: m"),
        (CordisError::PluginStartFailed(m()), "plugin start failed: m"),
        (CordisError::PluginDisposeFailed(m()), "plugin dispose failed: m"),
        (CordisError::TaskPanicked(m()), "task panicked: m"),
        (CordisError::TaskCancelled, "task cancelled"),
        (CordisError::RuntimeShuttingDown, "runtime is shutting down"),
        (CordisError::DisposalWorkerPanicked(m()), "disposal worker panicked: m"),
        (CordisError::DisposalWorkerCancelled, "disposal worker cancelled"),
        (CordisError::DisposalWorkerTerminated(m()), "disposal worker terminated: m"),
        (CordisError::ScopeDisposalPanicked(m()), "scope disposal panicked: m"),
        (CordisError::ScopeDisposalCancelled, "scope disposal cancelled"),
        (CordisError::ScopeDisposalTerminated(m()), "scope disposal terminated: m"),
        (CordisError::ShutdownWorkerPanicked(m()), "shutdown worker panicked: m"),
        (CordisError::Host(m()), "host error: m"),
        (CordisError::RemoteDomain(m()), "remote domain error: m"),
        (
            CordisError::InvalidFiberState { fiber, from: FiberState::Active, to: FiberState::Starting },
            "invalid fiber state: FiberId(1v1) Active -> Starting",
        ),
        (
            CordisError::ResourceLimitExceeded { resource: ResourceKind::ScopeDepth, limit: 64 },
            "resource limit exceeded: ScopeDepth 64",
        ),
        (
            CordisError::StaleContextGeneration { fiber, expected: generation(1), actual: generation(2) },
            "stale context generation: FiberId(1v1) 1 is now 2",
        ),
        (
            CordisError::ReloadCommitted { new_fiber: fiber, cleanup: inner.clone() },
            "reload committed with failed cleanup: invariant violated: m",
        ),
        (
            CordisError::ReloadFailed { primary: inner.clone(), cleanup: none.clone() },
            "reload failed: invariant violated: m",
        ),
        (
            CordisError::ActivationFailed { primary: inner, cleanup: none },
            "activation failed: invariant violated: m",
        ),
    ];
    for (error, text) in &texts {
        assert_eq!(error.to_string(), *text);
        assert_eq!(error.clone(), *error);
    }
    assert_eq!(texts.iter().filter(|(error, _)| is_terminal_cleanup_error(error)).count(), 6);
}

#[test]
fn fiber_states_follow_their_table() {
    assert!(FiberState::Created.can_transition_to(FiberState::WaitingDependencies));
    assert!(FiberState::Active.can_transition_to(FiberState::Reloading));
    assert!(FiberState::Reloading.can_transition_to(FiberState::Active));
    assert!(!FiberState::Active.can_transition_to(FiberState::Starting));
    for state in [
        FiberState::Created,
        FiberState::WaitingDependencies,
        FiberState::Starting,
        FiberState::Active,
        FiberState::Reloading,
        FiberState::Failed,
        FiberState::Disposing,
        FiberState::Disposed,
    ] {
        assert!(!FiberState::Disposed.can_transition_to(state));
    }
}

#[test]
fn generation_gates_switch_and_drain() {
    let mut gates = GateTable::new();
    let (old, new) = (GenerationId { raw: 1 }, GenerationId { raw: 2 });
    gates.stage(old);
    gates.stage(new);
    assert!(gates.publish(old));
    assert!(!gates.publish(old));
    assert!(gates.try_acquire(old));
    assert!(gates.try_acquire_service(old));
    assert!(gates.cutover(new, old));
    assert!(gates.is_visible(new));
    assert!(!gates.is_visible(old));
    assert!(!gates.try_acquire(old));
    assert!(!gates.cutover(new, old));
    assert_eq!(gates.get(old).execution_snapshot(), (GenerationExecutionState::Draining, 2));
    gates.release(old);
    gates.release_service(old);
    assert_eq!(gates.get(old).execution_snapshot(), (GenerationExecutionState::Drained, 0));
    gates.retire(old);
    assert_eq!(gates.get(old).state, GateState::Closed);
    gates.close(new);
    assert!(!gates.publish(new));
}

#[test]
fn plugins_count_their_fibers() {
    let mut plugins = PluginRegistry::new();
    let plugin = plugins.create().expect("plugin");
    let first = plugins.allocate_generation(plugin).expect("generation");
    let second = plugins.allocate_generation(plugin).expect("generation");
    assert!(second.raw > first.raw);
    assert_eq!(plugins.attach_fiber(plugin), Ok(()));
    plugins.reclaim_if_dead(plugin);
    assert_eq!(plugins.detach_fiber(plugin), Ok(()));
    plugins.reclaim_if_dead(plugin);
    assert_eq!(plugins.attach_fiber(plugin), Err(CordisError::PluginNotFound));
    assert_eq!(
        plugins.allocate_generation(PluginId { raw: 99 }),
        Err(CordisError::PluginNotFound)
    );
}

#[test]
fn cycles_are_found_and_leave_nothing() {
    let acyclic = vec![
        Need { fiber: 1, providers: vec![2, 3] },
        Need { fiber: 2, providers: vec![3] },
        Need { fiber: 3, providers: vec![] },
    ];
    assert_eq!(DependencyGraph::validate_cycles(&acyclic), Ok(()));
    let cyclic = vec![
        Need { fiber: 1, providers: vec![2] },
        Need { fiber: 2, providers: vec![1] },
    ];
    assert_eq!(DependencyGraph::validate_cycles(&cyclic), Err(CordisError::DependencyCycle));

    let mut runtime = Runtime::new();
    let root = runtime.root();
    let (a, b) = (ServiceKey::new("c", "a", 1), ServiceKey::new("c", "b", 1));
    runtime
        .admit_install(root, &descriptor(vec![a.clone()], vec![b.clone()]), false, None)
        .expect("first");
    let fibers = runtime.fibers.len();
    assert!(matches!(
        runtime.admit_install(root, &descriptor(vec![b], vec![a]), false, None),
        Err(CordisError::DependencyCycle)
    ));
    assert_eq!(runtime.fibers.len(), fibers);
    assert_eq!(runtime.scopes.get(root).expect("root").fibers.len(), fibers);
    assert_eq!(runtime.validate_dependency_graph(), Ok(()));
}

#[test]
fn install_limits_are_enforced_and_noted() {
    let mut runtime = Runtime::with_config(RuntimeConfig {
        max_fibers: 1,
        max_interned_symbols: 1,
        ..RuntimeConfig::default()
    })
    .expect("runtime");
    let root = runtime.root();
    let (a, b) = (ServiceKey::new("l", "a", 1), ServiceKey::new("l", "b", 1));
    assert!(matches!(
        runtime.admit_install(root, &descriptor(vec![a], vec![b]), false, None),
        Err(CordisError::ResourceLimitExceeded { resource: ResourceKind::ServiceSymbols, limit: 1 })
    ));
    runtime.admit_install(root, &descriptor(vec![], vec![]), false, None).expect("first");
    assert!(matches!(
        runtime.admit_install(root, &descriptor(vec![], vec![]), false, None),
        Err(CordisError::ResourceLimitExceeded { resource: ResourceKind::Fibers, limit: 1 })
    ));
    assert_eq!(runtime.diagnostics.quota_rejections, 1);
    assert!(matches!(
        runtime.admit_install(root, &descriptor(vec![], vec![]), true, Some(PluginId { raw: 77 })),
        Err(_)
    ));
}

#[test]
fn scope_limits_are_enforced() {
    let mut runtime = Runtime::with_config(RuntimeConfig {
        max_scopes: 4,
        max_scope_depth: 2,
        ..RuntimeConfig::default()
    })
    .expect("runtime");
    let root = runtime.root();
    let child = runtime.create_scope(root, "child").expect("child");
    let grandchild = runtime.create_scope(child, "grandchild").expect("grandchild");
    assert_eq!(
        runtime.create_scope(grandchild, "deep"),
        Err(CordisError::ResourceLimitExceeded { resource: ResourceKind::ScopeDepth, limit: 2 })
    );
    assert_eq!(runtime.create_scope(ScopeId { raw: 5 }, "orphan"), Err(CordisError::ScopeNotFound));
    runtime.create_scope(root, "last").expect("last");
    assert_eq!(
        runtime.create_scope(root, "more"),
        Err(CordisError::ResourceLimitExceeded { resource: ResourceKind::Scopes, limit: 4 })
    );
    assert_eq!(runtime.diagnostics.quota_rejections, 2);
    assert_eq!(runtime.scopes.len(), 4);
}

#[test]
fn disposed_scope_is_reclaimed_under_quota_pressure_and_stale_id_does_not_alias() {
    let mut runtime = Runtime::with_config(RuntimeConfig {
        max_scopes: 2,
        ..RuntimeConfig::default()
    })
    .expect("runtime");
    let root = runtime.root();
    let first = runtime.create_scope(root, "first").expect("first");
    assert!(runtime.begin_scope_disposal(first, false).is_ok());
    let job = runtime.scope_disposal_job(first).expect("job");
    let (result, terminated) = job.finish(&mut runtime);
    let (ended, _) = runtime.finalize_scope_disposal(first, result, terminated);
    assert_eq!(ended, Ok(()));
    assert_eq!(runtime.scopes.get(first).expect("first").state, ScopeState::Disposed);
    let second = runtime.create_scope(root, "second").expect("second");
    assert_ne!(second, first);
    assert_eq!(runtime.scopes.parent(first), Err(CordisError::ScopeNotFound));
    assert_eq!(runtime.scopes.parent(second), Ok(Some(root)));
}

fn provide(services: &mut ServiceRegistry, scope: ScopeId, symbol: ServiceSymbol, owner: u64, gate: u64) {
    services.insert(
        scope,
        symbol,
        ServiceEntry {
            owner: FiberId { raw: owner },
            scope,
            value: owner * 10,
            gate: GenerationId { raw: gate },
        },
    );
}

#[test]
fn the_nearest_visible_service_is_found_and_remembered() {
    for capacity in [0, 2] {
        let mut services = ServiceRegistry::new(8, capacity);
        let mut gates = GateTable::new();
        for raw in 1..4_u64 {
            gates.stage(GenerationId { raw });
        }
        gates.publish(GenerationId { raw: 1 });
        gates.publish(GenerationId { raw: 2 });
        let symbol = services.try_intern(&ServiceKey::new("s", "s", 1)).expect("symbol");
        let (root, leaf) = (ScopeId { raw: 1 }, ScopeId { raw: 2 });
        let line = vec![leaf, root];
        assert!(services.resolve(leaf, &line, symbol, &gates).is_none());
        assert_eq!(services.cache_len(), if capacity == 0 { 0 } else { 1 });
        provide(&mut services, root, symbol, 1, 1);
        assert_eq!(services.resolve(leaf, &line, symbol, &gates).expect("root").value, 10);
        provide(&mut services, leaf, symbol, 2, 2);
        assert_eq!(services.resolve(leaf, &line, symbol, &gates).expect("leaf").value, 20);
        assert_eq!(services.resolve(leaf, &line, symbol, &gates).expect("again").value, 20);
        gates.close(GenerationId { raw: 2 });
        assert_eq!(services.resolve(leaf, &line, symbol, &gates).expect("root").value, 10);
        provide(&mut services, leaf, symbol, 3, 3);
        assert_eq!(services.resolve(leaf, &line, symbol, &gates).expect("hidden").value, 10);
        assert_eq!(
            services
                .resolve_owned(&line, symbol, FiberId { raw: 3 }, &gates)
                .expect("own")
                .value,
            30
        );
        for raw in 10..20_u64 {
            let scope = ScopeId { raw };
            services.resolve(scope, &vec![scope, root], symbol, &gates);
            assert!(services.cache_len() <= capacity);
        }
        assert_eq!(services.count(), 2);
        assert_eq!(services.snapshots().len(), 2);
        assert_eq!(services.remove(leaf, symbol).expect("removed").value, 30);
        assert!(services.remove(leaf, symbol).is_none());
    }
}

#[test]
fn service_revisions_are_checked_and_published() {
    let mut services = ServiceRegistry::new(8, 8);
    let mut gates = GateTable::new();
    let (old, staged) = (GenerationId { raw: 1 }, GenerationId { raw: 2 });
    gates.stage(old);
    gates.publish(old);
    gates.stage(staged);
    let symbol = services.try_intern(&ServiceKey::new("r", "r", 1)).expect("symbol");
    let (target, staging) = (ScopeId { raw: 1 }, ScopeId { raw: 2 });
    let (old_owner, staged_owner) = (FiberId { raw: 1 }, FiberId { raw: 2 });
    assert_eq!(
        services.prepare_revision(staging, target, vec![symbol], old_owner, staged_owner).err(),
        Some(CordisError::RevisionValidationFailed(
            "staged service disappeared or changed owner".to_owned()
        ))
    );
    provide(&mut services, staging, symbol, 2, 2);
    provide(&mut services, target, symbol, 9, 1);
    assert_eq!(
        services.prepare_revision(staging, target, vec![symbol], old_owner, staged_owner).err(),
        Some(CordisError::RevisionValidationFailed(
            "service replacement target changed owner".to_owned()
        ))
    );
    provide(&mut services, target, symbol, 1, 1);
    let prepared = services
        .prepare_revision(staging, target, vec![symbol], old_owner, staged_owner)
        .expect("prepared");
    provide(&mut services, target, symbol, 9, 1);
    assert!(matches!(
        services.commit_revision_and_publish(&prepared, staged, old, &mut gates),
        Err(CordisError::RevisionValidationFailed(_))
    ));
    provide(&mut services, target, symbol, 1, 1);
    assert_eq!(services.commit_revision_and_publish(&prepared, staged, old, &mut gates), Ok(()));
    assert_eq!(services.get(target, symbol).expect("moved").owner, staged_owner);
    assert!(!services.contains(staging, symbol));
    assert!(gates.is_visible(staged));
    provide(&mut services, staging, symbol, 2, 2);
    provide(&mut services, target, symbol, 1, 1);
    assert_eq!(
        services.commit_revision_and_publish(&prepared, staged, old, &mut gates),
        Err(CordisError::CapabilityPublicationFailed(staged_owner))
    );
}

fn revision(scopes: &mut ScopeRegistry) -> PreparedScopeRevision {
    let root = scopes.root();
    let staging = scopes.create(root, Arc::new("staging".to_owned()), true);
    let child = scopes.create(staging, Arc::new("child".to_owned()), false);
    scopes.get_mut(root).expect("root").fibers.push(1);
    scopes.get_mut(staging).expect("staging").fibers.push(2);
    PreparedScopeRevision::prepare(
        scopes,
        staging,
        root,
        FiberId { raw: 2 },
        FiberId { raw: 1 },
        vec![child.raw],
    )
    .expect("prepared")
}

#[test]
fn scope_revision_commit_is_atomic() {
    let mut scopes = ScopeRegistry::new();
    let revision = revision(&mut scopes);
    let root = scopes.root();
    scopes.get_mut(root).expect("root").state = ScopeState::Disposing;
    assert_eq!(
        revision.commit_locked(&mut scopes),
        Err(CordisError::RevisionValidationFailed(
            "scope topology changed before reload commit".to_owned()
        ))
    );
    assert_eq!(scopes.get(root).expect("root").fibers.to_vec(), vec![1]);
    scopes.get_mut(root).expect("root").state = ScopeState::Active;
    assert_eq!(revision.commit_locked(&mut scopes), Ok(()));
    assert_eq!(scopes.get(root).expect("root").fibers.to_vec(), vec![1, 2]);
    assert!(scopes.get(revision.staging).expect("staging").fibers.is_empty());
    assert!(scopes.get(revision.staging).expect("staging").children.is_empty());
    let child = ScopeId { raw: revision.children[0] };
    assert_eq!(scopes.parent(child), Ok(Some(root)));
}

#[test]
fn scope_revision_rollback_is_atomic() {
    let mut scopes = ScopeRegistry::new();
    let revision = revision(&mut scopes);
    let root = scopes.root();
    assert_eq!(
        revision.rollback_locked(&mut scopes),
        Err(CordisError::RevisionValidationFailed(
            "scope topology changed before reload rollback".to_owned()
        ))
    );
    assert_eq!(revision.commit_locked(&mut scopes), Ok(()));
    assert_eq!(revision.rollback_locked(&mut scopes), Ok(()));
    assert_eq!(scopes.get(root).expect("root").fibers.to_vec(), vec![1]);
    assert_eq!(scopes.get(revision.staging).expect("staging").fibers.to_vec(), vec![2]);
    let child = ScopeId { raw: revision.children[0] };
    assert_eq!(scopes.parent(child), Ok(Some(revision.staging)));
}

#[test]
fn dependency_revision_commit_and_rollback_are_atomic() {
    let mut graph = DependencyGraph::new();
    let (from, to) = (ScopeId { raw: 1 }, ScopeId { raw: 2 });
    let (a, b) = (ServiceSymbol { index: 0 }, ServiceSymbol { index: 1 });
    let fiber = FiberId { raw: 7 };
    graph.add_provider(from, a, fiber);
    assert_eq!(
        graph.move_providers(from, to, &vec![a, b], fiber),
        Err(CordisError::RevisionValidationFailed(
            "declared providers changed before reload commit".to_owned()
        ))
    );
    assert_eq!(graph.providers(from, a), vec![7]);
    graph.add_provider(from, b, fiber);
    assert_eq!(graph.move_providers(from, to, &vec![a, b], fiber), Ok(()));
    assert_eq!(
        graph.provider_revision_snapshot(from, to, &vec![a, b], fiber),
        vec![(false, true), (false, true)]
    );
    assert_eq!(graph.move_providers(to, from, &vec![a, b], fiber), Ok(()));
    assert_eq!(
        graph.provider_revision_snapshot(from, to, &vec![a, b], fiber),
        vec![(true, false), (true, false)]
    );
    graph.add_dependency(a, fiber);
    assert_eq!(graph.dependents(a), vec![7]);
    graph.discard_fibers(&vec![7]);
    assert!(graph.dependents(a).is_empty());
    assert!(graph.providers(from, a).is_empty());
}

#[test]
fn shutdown_attempts_follow_each_other() {
    let mut shutdown = ShutdownCoordinator::new();
    assert_eq!(shutdown.state(), RuntimeShutdownState::Running);
    assert_eq!(shutdown.start_or_observe(), ShutdownStart::Started(1));
    assert_eq!(shutdown.start_or_observe(), ShutdownStart::Observing(1));
    assert!(!shutdown.supervisor_finished());
    shutdown.finish(ShutdownOutcome::Incomplete { blockers: vec![], issues: vec![] });
    assert_eq!(shutdown.state(), RuntimeShutdownState::Incomplete);
    assert_eq!(shutdown.start_or_observe(), ShutdownStart::Started(2));
    shutdown.finish(ShutdownOutcome::Complete);
    assert_eq!(shutdown.start_or_observe(), ShutdownStart::Observing(2));
    let (state, outcome, running) = shutdown.snapshot();
    assert_eq!(state, RuntimeShutdownState::Complete);
    assert_eq!(*outcome.expect("outcome"), ShutdownOutcome::Complete);
    assert!(!running);
    assert!(shutdown.supervisor_finished());
}

#[test]
fn diagnostics_keep_the_newest_issues() {
    let mut diagnostics = Diagnostics::new();
    for invocation in 0..70_u64 {
        diagnostics.push(HealthIssue {
            at: Moment { nanos: i128::from(invocation) },
            kind: HealthIssueKind::TaskPanic,
            scope: None,
            fiber: None,
            invocation: Some(invocation),
        });
    }
    let recent = diagnostics.recent();
    assert_eq!(recent.len(), 64);
    assert_eq!(recent[0].invocation, Some(6));
    assert_eq!(recent[63].invocation, Some(69));
    assert_eq!(recent[63].at, Moment { nanos: 69 });
}

#[test]
fn issues_carry_the_time_that_was_told() {
    let config = RuntimeConfig { max_scopes: 1, ..RuntimeConfig::default() };
    let mut runtime = Runtime::with_config(config).expect("runtime");
    let root = runtime.root();
    assert_eq!(runtime.diagnostics.now, Moment { nanos: 0 });
    runtime.tell_time(Moment { nanos: 5 });
    assert!(runtime.create_scope(root, "one").is_err());
    runtime.tell_time(Moment { nanos: -7 });
    assert!(runtime.create_scope(root, "two").is_err());
    runtime.tell_time(Moment { nanos: 9 });
    runtime.worker_joined(cordis_runtime::task::JoinOutcome::Ended(TaskOutcome::Panicked));
    let times: Vec<i128> =
        runtime.diagnostics.recent().iter().map(|issue| issue.at.nanos).collect();
    assert_eq!(times, vec![5, -7, 9]);
    assert_eq!(runtime.diagnostics.recent()[0].kind, HealthIssueKind::QuotaRejected);
}

#[test]
fn generations_grow_over_all_plugins() {
    let mut plugins = PluginRegistry::new();
    let first = plugins.create().expect("first");
    let second = plugins.create().expect("second");
    let earlier = plugins.allocate_generation(second).expect("earlier");
    let later = plugins.allocate_generation(first).expect("later");
    assert_eq!((earlier.raw, later.raw), (1, 2));
    assert!(matches!(
        plugins.allocate_generation(PluginId { raw: 9 }),
        Err(CordisError::PluginNotFound)
    ));
}

#[test]
fn caches_never_show_in_what_is_looked_up() {
    let scopes = [ScopeId { raw: 1 }, ScopeId { raw: 2 }];
    let line = vec![scopes[1], scopes[0]];
    let mut gates = GateTable::new();
    let generation = GenerationId { raw: 1 };
    gates.stage(generation);
    assert!(gates.publish(generation));
    let entry = |owner: u64| ServiceEntry {
        scope: scopes[0],
        owner: FiberId { raw: owner },
        value: owner,
        gate: generation,
    };
    let mut answers: Vec<Vec<Option<u64>>> = Vec::new();
    for limit in [0_usize, 1, 8] {
        let mut registry = ServiceRegistry::new(8, limit);
        let symbols: Vec<ServiceSymbol> = ["a", "b"]
            .iter()
            .map(|name| registry.try_intern(&ServiceKey::new("cache", name, 1)).expect("symbol"))
            .collect();
        let mut given: Vec<Option<u64>> = Vec::new();
        for round in 0..3_u64 {
            for _ in 0..2 {
                for symbol in &symbols {
                    let found = registry.resolve(scopes[1], &line, *symbol, &gates);
                    given.push(found.map(|entry| entry.value));
                    assert!(registry.cache_len() <= limit);
                }
            }
            match round {
                0 => registry.insert(scopes[0], symbols[0], entry(4)),
                1 => registry.insert(scopes[1], symbols[0], entry(5)),
                _ => {
                    registry.remove(scopes[1], symbols[0]);
                }
            }
        }
        given.push(registry.resolve(scopes[1], &line, symbols[0], &gates).map(|entry| entry.value));
        answers.push(given);
    }
    assert_eq!(answers[0], answers[1]);
    assert_eq!(answers[0], answers[2]);
    assert_eq!(answers[0][4], Some(4));
    assert_eq!(answers[0][8], Some(5));
    assert_eq!(answers[0][12], Some(4));
}

#[test]
fn workers_are_counted_and_noted() {
    let mut runtime = Runtime::new();
    let id = runtime.accept_install().expect("accepted");
    assert_eq!(runtime.workers.live(), 1);
    runtime.worker_ended(id, &WorkerEnd::Returned(Err(CordisError::TaskCancelled)));
    runtime.worker_ended(id, &WorkerEnd::Panicked);
    assert_eq!(runtime.workers.errors, 1);
    assert_eq!(runtime.workers.panicked, 0);
    assert_eq!(runtime.workers.reaped, 1);
    let other = runtime.accept_install().expect("accepted");
    assert_ne!(other, id);
    let drained = runtime.stop_workers();
    assert_eq!(drained.len(), 1);
    assert_eq!(drained[0].worker.kind, RuntimeWorkerKind::Install);
    assert!(drained[0].worker.cleanup);
    runtime.worker_ended(other, &WorkerEnd::CancelledFirst);
    assert_eq!(runtime.workers.cancelled, 0);
    runtime.worker_joined(cordis_runtime::task::JoinOutcome::TornDown);
    assert_eq!(runtime.workers.aborted, 1);
    runtime.worker_joined(cordis_runtime::task::JoinOutcome::PanickedOutside);
    assert_eq!(runtime.workers.panicked, 1);
    runtime.worker_joined(cordis_runtime::task::JoinOutcome::Ended(TaskOutcome::Completed));
    assert_eq!(runtime.workers.reaped, 4);
    let kinds: Vec<HealthIssueKind> =
        runtime.diagnostics.recent().iter().map(|issue| issue.kind).collect();
    assert_eq!(
        kinds,
        vec![HealthIssueKind::RuntimeWorkerError, HealthIssueKind::RuntimeWorkerPanic]
    );
}

#[test]
fn duplicate_reconcile_requests_are_coalesced() {
    let mut runtime = Runtime::new();
    let fiber = FiberId { raw: 3 };
    assert!(runtime.schedule_activation(fiber).is_some());
    assert!(runtime.schedule_activation(fiber).is_none());
    assert!(runtime.schedule_activation(fiber).is_none());
    assert!(runtime.activation_settled(fiber));
    assert!(!runtime.activation_settled(fiber));
    assert!(runtime.schedule_activation(fiber).is_some());
}

#[test]
fn garbage_requests_are_coalesced() {
    let mut runtime = Runtime::new();
    assert!(runtime.request_gc().is_some());
    assert!(runtime.request_gc().is_none());
    assert!(runtime.request_gc().is_none());
    assert_eq!(runtime.gc_state, GcState::Rescheduled);
    assert!(runtime.run_gc_round());
    assert!(!runtime.run_gc_round());
    assert_eq!(runtime.gc_state, GcState::Idle);
    runtime.begin_shutdown();
    assert!(runtime.request_gc().is_none());
}

#[test]
fn host_failures_concern_the_live_generation_only() {
    let mut runtime = Runtime::new();
    let root = runtime.root();
    let step = runtime.admit_install(root, &descriptor(vec![], vec![]), false, None).expect("admitted");
    let generation = runtime.fibers.get(step.fiber.raw).expect("fiber").generation;
    assert!(!runtime.mark_host_failure(step.fiber, generation));
    runtime.fibers.get_mut(step.fiber.raw).expect("fiber").state = FiberState::Active;
    assert!(!runtime.mark_host_failure(step.fiber, GenerationId { raw: generation.raw + 1 }));
    assert!(runtime.mark_host_failure(step.fiber, generation));
    assert_eq!(runtime.fibers.get(step.fiber.raw).expect("fiber").state, FiberState::Failed);
    assert_eq!(Runtime::host_failure_result(Err(CordisError::FiberNotFound)), Ok(()));
    assert_eq!(Runtime::host_failure_result(Err(CordisError::FiberLifecycleOwned(step.fiber))), Ok(()));
    assert_eq!(
        Runtime::host_failure_result(Err(CordisError::TaskCancelled)),
        Err(CordisError::TaskCancelled)
    );
    runtime.begin_shutdown();
    let worker = runtime.submit_host_failure();
    assert_eq!(runtime.workers.live(), 1);
    runtime.worker_ended(worker, &WorkerEnd::Returned(Ok(())));
    assert_eq!(runtime.workers.live(), 0);
}
