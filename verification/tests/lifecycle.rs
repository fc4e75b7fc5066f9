use cordis_runtime::config::RuntimeConfig;
use cordis_runtime::disposal::{
    CleanupIssue, DisposalObservation, DisposalTerminal, DisposeOutcome, ScopeDisposeOutcome,
};
use cordis_runtime::error::{panic_message, CordisError, PanicPayload};
use cordis_runtime::fiber_registry::PluginDescriptor;
use cordis_runtime::ids::{EffectId, FiberId, HandlerId, ScopeId, ServiceSymbol};
use cordis_runtime::key::{InvocationKey, ServiceKey};
use cordis_runtime::runtime::activation::{ActivationStep, StartEnd};
use cordis_runtime::runtime::context::{Context, Registration};
use cordis_runtime::runtime::dependency::{ReconcileJob, ReconcileStep};
use cordis_runtime::runtime::disposal::{
    DisposalAction, DisposalEnd, DrainOutcome, EffectEnd, FiberDisposalJob,
};
use cordis_runtime::runtime::reload::{ReloadAction, ReloadOutcome};
use cordis_runtime::runtime::scope::{DisposalStart, ScopeStep, WorkerExit};
use cordis_runtime::runtime::shutdown::{ShutdownAction, ShutdownAttempt};
use cordis_runtime::runtime::Runtime;
use cordis_runtime::shutdown_coordinator::{
    RuntimeShutdownState, ShutdownBlocker, ShutdownOutcome, ShutdownStart,
};
use cordis_runtime::state::{
    CleanupPhase, DependencyPolicy, DisposalPhase, FiberState, ResourceKind, ScopeState,
};
use cordis_runtime::task::{JoinOutcome, TaskDrain, TaskEnd, TaskOutcome};
use std::sync::Arc;

type Observed = Result<Arc<DisposalObservation>, CordisError>;

fn key(name: &str) -> ServiceKey {
    ServiceKey::new("test", name, 1)
}

fn descriptor(
    name: &str,
    dependencies: Vec<ServiceKey>,
    provisions: Vec<ServiceKey>,
) -> PluginDescriptor {
    PluginDescriptor {
        name: Arc::new(name.to_owned()),
        dependencies: Arc::new(dependencies),
        provisions: Arc::new(provisions),
        dependency_policy: DependencyPolicy::Restart,
    }
}

fn empty() -> PluginDescriptor {
    descriptor("empty", vec![], vec![])
}

/// Starts a fiber that provides all it declares, with `value` as each service.
fn activate(runtime: &mut Runtime, fiber: FiberId, value: u64) -> Result<Context, CordisError> {
    let ticket = runtime.begin_activation(fiber)?;
    let context = ticket.context();
    let declared = match runtime.fibers.get(fiber.raw) {
        Some(record) => record.descriptor.provisions.clone(),
        None => Arc::new(Vec::new()),
    };
    for key in declared.iter() {
        runtime.provide(context, key, value)?;
    }
    match runtime.complete_start(fiber, StartEnd::Started, Ok(())) {
        ActivationStep::Converge(primary) => Err(converge(runtime, fiber, primary)),
        ActivationStep::Done(symbols) => {
            if !symbols.is_empty() {
                reconcile(runtime, &symbols).expect("reconcile");
            }
            Ok(context)
        }
    }
}

fn converge(runtime: &mut Runtime, fiber: FiberId, primary: CordisError) -> CordisError {
    runtime.fail_activation(fiber);
    let observed = dispose_with(runtime, fiber, false, false, true);
    Runtime::activation_failure(primary, Runtime::activation_cleanup(observed))
}

fn reconcile(runtime: &mut Runtime, symbols: &Vec<ServiceSymbol>) -> Result<(), CordisError> {
    let mut job = ReconcileJob::new(runtime, symbols);
    let mut last = Ok(());
    loop {
        match job.step(runtime, last) {
            ReconcileStep::Done(result) => return result,
            ReconcileStep::Activate(fiber) => {
                last = activate(runtime, fiber, 7).map(|_| ());
            }
            ReconcileStep::Dispose { fiber, restart } => {
                last = dispose(runtime, fiber, restart);
            }
        }
    }
}

fn install_with(
    runtime: &mut Runtime,
    scope: ScopeId,
    descriptor: &PluginDescriptor,
    value: u64,
) -> Result<FiberId, CordisError> {
    let step = runtime.admit_install(scope, descriptor, false, None)?;
    if step.activate {
        activate(runtime, step.fiber, value)?;
    }
    Ok(step.fiber)
}

fn install(runtime: &mut Runtime, scope: ScopeId, descriptor: &PluginDescriptor) -> FiberId {
    install_with(runtime, scope, descriptor, 1).expect("install")
}

fn context_of(runtime: &Runtime, fiber: FiberId) -> Context {
    let record = runtime.fibers.get(fiber.raw).expect("fiber");
    Context { scope: record.scope, fiber, generation: record.generation }
}

fn run_disposal(runtime: &mut Runtime, fiber: FiberId) -> DisposalEnd {
    let (mut job, tasks) = match FiberDisposalJob::begin(runtime, fiber) {
        Ok(begun) => begun,
        Err(end) => return end,
    };
    let mut drain = TaskDrain::new();
    for task in &tasks {
        runtime.task_joined(&mut drain, task, JoinOutcome::Ended(TaskOutcome::Cancelled));
    }
    let mut action = job.tasks_joined(runtime, drain.finish());
    loop {
        action = match action {
            DisposalAction::Drain => {
                let generation = runtime.fibers.get(fiber.raw).expect("fiber").generation;
                let remaining = runtime.gates.get(generation).inflight;
                if remaining == 0 {
                    job.drained(runtime, DrainOutcome::Drained)
                } else {
                    job.drained(runtime, DrainOutcome::TimedOut { remaining })
                }
            }
            DisposalAction::DisposeChild(child) => {
                let result = dispose_scope(runtime, child);
                job.child_disposed(runtime, child, result)
            }
            DisposalAction::Unregister(_) => job.handlers_removed(runtime),
            DisposalAction::DisposeEffect(_) => job.effect_disposed(runtime, EffectEnd::Disposed),
            DisposalAction::Reconcile(symbols) => {
                let result = reconcile(runtime, &symbols);
                DisposalAction::Finish(job.reconciled(runtime, result))
            }
            DisposalAction::Finish(end) => return end,
        };
    }
}

fn dispose_with(
    runtime: &mut Runtime,
    fiber: FiberId,
    wait: bool,
    persistent: bool,
    reload: bool,
) -> Observed {
    match runtime.begin_fiber_disposal(fiber, wait, persistent, reload)? {
        DisposalStart::Started => {
            let end = run_disposal(runtime, fiber);
            let end = Runtime::fiber_worker_result(WorkerExit::Returned(end));
            let _ = runtime.finalize_fiber_disposal(fiber, end);
        }
        DisposalStart::Joined => {}
    }
    Ok(runtime.fiber_observation(fiber).expect("observation"))
}

fn dispose(runtime: &mut Runtime, fiber: FiberId, wait: bool) -> Result<(), CordisError> {
    Runtime::legacy_result(&dispose_with(runtime, fiber, wait, false, false))
}

fn observe_scope(runtime: &mut Runtime, scope: ScopeId, persistent: bool) -> Observed {
    if let DisposalStart::Started = runtime.begin_scope_disposal(scope, persistent)? {
        let mut job = runtime.scope_disposal_job(scope)?;
        loop {
            match job.next(runtime) {
                ScopeStep::DisposeChild { child, persistent } => {
                    let observed = observe_scope(runtime, child, persistent);
                    job.child_disposed(runtime, child, Runtime::legacy_result(&observed));
                }
                ScopeStep::DisposeFiber { fiber, persistent } => {
                    let observed = dispose_with(runtime, fiber, false, persistent, true);
                    job.fiber_disposed(runtime, fiber, Runtime::legacy_result(&observed));
                }
                ScopeStep::Finish => break,
            }
        }
        let (result, terminated) = job.finish(runtime);
        let _ = runtime.finalize_scope_disposal(scope, result, terminated);
    }
    Ok(runtime.scope_observation(scope).expect("observation"))
}

fn dispose_scope(runtime: &mut Runtime, scope: ScopeId) -> Result<(), CordisError> {
    Runtime::legacy_result(&observe_scope(runtime, scope, false))
}

fn reload(
    runtime: &mut Runtime,
    old: FiberId,
    descriptor: &PluginDescriptor,
    end: StartEnd,
) -> Result<ReloadOutcome, CordisError> {
    runtime.accept_reload(old)?;
    runtime.check_reload(old)?;
    let mut job = runtime.begin_reload(old)?;
    let mut action = job.first_action();
    let mut started = Some(end);
    let finished = loop {
        action = match action {
            ReloadAction::Install { scope, plugin } => {
                let installed = match runtime.admit_install(scope, descriptor, true, Some(plugin)) {
                    Err(error) => Err(error),
                    Ok(step) => {
                        if step.activate {
                            start_staged(runtime, step.fiber, started.take().expect("one start"))
                                .map(|()| step.fiber)
                        } else {
                            Ok(step.fiber)
                        }
                    }
                };
                job.installed(runtime, installed, Ok(()))
            }
            ReloadAction::DisposeStaged(staged) => {
                let observed = dispose_with(runtime, staged, false, false, true);
                job.staged_disposed(Runtime::legacy_result(&observed))
            }
            ReloadAction::DisposeOld(old) => {
                let observed = dispose_with(runtime, old, false, true, false);
                job.old_disposed(Runtime::legacy_result(&observed))
            }
            ReloadAction::DisposeStaging(staging) => {
                let result = dispose_scope(runtime, staging);
                break job.staging_disposed(runtime, result);
            }
        };
    };
    runtime.reload_ended();
    finished.report.expect("report")
}

fn start_staged(runtime: &mut Runtime, fiber: FiberId, end: StartEnd) -> Result<(), CordisError> {
    let ticket = runtime.begin_activation(fiber)?;
    let declared = runtime.fibers.get(fiber.raw).expect("fiber").descriptor.provisions.clone();
    for key in declared.iter() {
        runtime.provide(ticket.context(), key, 2)?;
    }
    match runtime.complete_start(fiber, end, Ok(())) {
        ActivationStep::Converge(primary) => Err(converge(runtime, fiber, primary)),
        ActivationStep::Done(symbols) => {
            assert!(symbols.is_empty());
            Ok(())
        }
    }
}

fn shut_down(runtime: &mut Runtime) -> ShutdownOutcome {
    if let ShutdownStart::Started(_) = runtime.begin_shutdown() {
        let mut attempt = ShutdownAttempt::new();
        let root = runtime.root();
        let observed = observe_scope(runtime, root, true);
        let mut action = attempt.root_disposed(Some(observed));
        loop {
            action = match action {
                ShutdownAction::StopWorkers => {
                    for _ in runtime.stop_workers() {
                        runtime.worker_joined(JoinOutcome::Ended(TaskOutcome::Completed));
                    }
                    attempt.begin_round(runtime)
                }
                ShutdownAction::DisposeScope(scope) => {
                    let observed = observe_scope(runtime, scope, true);
                    attempt.scope_disposed(runtime, Some(observed))
                }
                ShutdownAction::DisposeFiber(fiber) => {
                    let _ = dispose_with(runtime, fiber, false, true, false);
                    attempt.fiber_disposed(runtime, true)
                }
                ShutdownAction::Pause => attempt.begin_round(runtime),
                ShutdownAction::Conclude => break,
            };
        }
        let outcome = attempt.conclude(runtime);
        runtime.finalize_shutdown(outcome);
    }
    runtime.shutdown_detailed().expect("outcome")
}

fn state_of(runtime: &Runtime, fiber: FiberId) -> FiberState {
    runtime.fibers.get(fiber.raw).expect("fiber").state
}

#[test]
fn activation_ok_implies_capability_published() {
    let mut runtime = Runtime::new();
    let root = runtime.root();
    let fiber = install(&mut runtime, root, &empty());
    assert_eq!(state_of(&runtime, fiber), FiberState::Active);
    let generation = context_of(&runtime, fiber).generation;
    assert!(runtime.gates.is_visible(generation));
}

#[test]
fn topology_is_sealed_before_commit() {
    let mut runtime = Runtime::new();
    let root = runtime.root();
    let fiber = install(
        &mut runtime,
        root,
        &descriptor("serialized-activation", vec![key("missing")], vec![]),
    );
    assert_eq!(state_of(&runtime, fiber), FiberState::WaitingDependencies);
    let record = runtime.fibers.get_mut(fiber.raw).expect("fiber");
    record.state = FiberState::Starting;
    record.activation_sealed = true;
    let context = context_of(&runtime, fiber);
    assert!(matches!(
        runtime.add_effect(context),
        Err(CordisError::ActivationSealed(id)) if id == fiber
    ));
}

#[test]
fn dependents_wait_for_providers_and_lose_their_place_with_them() {
    let mut runtime = Runtime::new();
    let root = runtime.root();
    let wanted = key("wanted");
    let dependent = install(&mut runtime, root, &descriptor("dependent", vec![wanted.clone()], vec![]));
    assert_eq!(state_of(&runtime, dependent), FiberState::WaitingDependencies);
    let provider = install(&mut runtime, root, &descriptor("provider", vec![], vec![wanted.clone()]));
    assert_eq!(state_of(&runtime, provider), FiberState::Active);
    assert_eq!(state_of(&runtime, dependent), FiberState::Active);
    let first = context_of(&runtime, dependent);

    assert_eq!(dispose(&mut runtime, provider, false), Ok(()));
    assert_eq!(state_of(&runtime, provider), FiberState::Disposed);
    assert_eq!(state_of(&runtime, dependent), FiberState::WaitingDependencies);
    assert_eq!(runtime.services.count(), 0);
    let record = runtime.fibers.get(provider.raw).expect("provider");
    assert!(record.provided.is_empty() && record.tasks.is_empty() && record.effects.is_empty());
    assert!(!runtime.gates.is_visible(record.generation));

    let again = install(&mut runtime, root, &descriptor("provider", vec![], vec![wanted]));
    assert_eq!(state_of(&runtime, again), FiberState::Active);
    assert_eq!(state_of(&runtime, dependent), FiberState::Active);
    let second = context_of(&runtime, dependent);
    assert_ne!(first.generation, second.generation);
    assert!(matches!(
        runtime.context_scope(first),
        Err(CordisError::StaleContextGeneration { fiber, expected, actual })
            if fiber == dependent && expected == first.generation && actual == second.generation
    ));
    assert_eq!(runtime.context_scope(second), Ok(root));

    assert!(runtime.spawn_task(first).is_err());
    assert!(runtime.add_effect(first).is_err());
    assert!(runtime.register(first, Registration::Handler(HandlerId { raw: 1 })).is_err());
    assert!(runtime.create_child_scope(first, "late").is_err());
    let record = runtime.fibers.get(dependent.raw).expect("dependent");
    assert!(record.tasks.is_empty() && record.effects.is_empty() && record.handlers.is_empty());
    assert_eq!(runtime.scopes.len(), 1);
    runtime.begin_shutdown();
    assert!(matches!(runtime.spawn_task(second), Err(CordisError::RuntimeShuttingDown)));
}

#[test]
fn a_fiber_that_does_not_keep_its_promise_is_disposed() {
    let mut runtime = Runtime::new();
    let root = runtime.root();
    let step = runtime
        .admit_install(root, &descriptor("liar", vec![], vec![key("promised")]), false, None)
        .expect("admitted");
    assert!(step.activate);
    runtime.begin_activation(step.fiber).expect("ticket");
    match runtime.complete_start(step.fiber, StartEnd::Started, Ok(())) {
        ActivationStep::Converge(primary) => {
            assert_eq!(
                primary.to_string(),
                "revision validation failed: declared provisions {ServiceKey { namespace: \"test\", \
                 name: \"promised\", version: 1 }} do not match actual services {}"
            );
            let error = converge(&mut runtime, step.fiber, primary);
            assert!(matches!(error, CordisError::RevisionValidationFailed(_)));
        }
        ActivationStep::Done(_) => panic!("must not commit"),
    }
    assert_eq!(state_of(&runtime, step.fiber), FiberState::Disposed);
    assert_eq!(runtime.collect_garbage().fibers, 1);
    assert!(!runtime.fibers.contains(step.fiber.raw));
}

#[test]
fn failed_starts_tell_their_reason() {
    let mut runtime = Runtime::new();
    let root = runtime.root();
    for (end, text) in [
        (StartEnd::Panicked(PanicPayload::Text("boom".to_owned())), "plugin start failed: plugin panicked: boom"),
        (StartEnd::Panicked(PanicPayload::Opaque), "plugin start failed: plugin panicked: non-string panic payload"),
        (StartEnd::Cancelled, "plugin start failed: task cancelled"),
        (StartEnd::Failed(CordisError::Invariant("x".to_owned())), "plugin start failed: invariant violated: x"),
        (StartEnd::Failed(CordisError::Host("h".to_owned())), "host error: h"),
    ] {
        let step = runtime.admit_install(root, &empty(), false, None).expect("admitted");
        runtime.begin_activation(step.fiber).expect("ticket");
        match runtime.complete_start(step.fiber, end, Ok(())) {
            ActivationStep::Converge(primary) => {
                let error = converge(&mut runtime, step.fiber, primary);
                assert_eq!(error.to_string(), text);
            }
            ActivationStep::Done(_) => panic!("must not commit"),
        }
        assert_eq!(state_of(&runtime, step.fiber), FiberState::Disposed);
    }
    assert_eq!(
        Runtime::activation_panic(&PanicPayload::Text("late".to_owned())).to_string(),
        "plugin panicked: activation worker: late"
    );
    assert_eq!(panic_message(&PanicPayload::Opaque), "non-string panic payload");
}

#[test]
fn commits_refuse_what_does_not_fit() {
    let mut runtime = Runtime::new();
    let root = runtime.root();
    let fiber = install(&mut runtime, root, &empty());
    assert!(matches!(
        runtime.commit_activation(fiber, Ok(())),
        Err(CordisError::InvalidFiberState { from: FiberState::Active, to: FiberState::Active, .. })
    ));
    let conflict = CordisError::DuplicateInvocationHandler(InvocationKey::new("a", "b", 1));
    assert!(matches!(
        runtime.commit_activation(fiber, Err(conflict)),
        Err(CordisError::DuplicateInvocationHandler(_))
    ));
    assert!(matches!(
        runtime.commit_activation(FiberId { raw: 0 }, Ok(())),
        Err(CordisError::FiberNotFound)
    ));
    let record = runtime.fibers.get_mut(fiber.raw).expect("fiber");
    record.state = FiberState::Starting;
    record.activation_sealed = true;
    assert!(matches!(
        runtime.commit_activation(fiber, Ok(())),
        Err(CordisError::CapabilityPublicationFailed(id)) if id == fiber
    ));
}

#[test]
fn services_of_a_staged_fiber_stay_hidden() {
    let mut runtime = Runtime::new();
    let root = runtime.root();
    let shared = key("shared");
    let step = runtime
        .admit_install(root, &descriptor("hidden", vec![], vec![shared.clone()]), false, None)
        .expect("admitted");
    let context = runtime.begin_activation(step.fiber).expect("ticket").context();
    let symbol = runtime.provide(context, &shared, 5).expect("provided");
    assert!(runtime.resolve_symbol(root, symbol).is_none());
    assert!(matches!(
        runtime.complete_start(step.fiber, StartEnd::Started, Ok(())),
        ActivationStep::Done(_)
    ));
    assert_eq!(runtime.resolve_symbol(root, symbol).expect("visible").value, 5);
}

#[test]
fn undeclared_provide_does_not_consume_interner_capacity() {
    let mut runtime = Runtime::new();
    let root = runtime.root();
    let fiber = install(&mut runtime, root, &empty());
    let context = context_of(&runtime, fiber);
    let before = runtime.services.symbol_count();
    let error = runtime.provide(context, &key("undeclared"), 1).expect_err("undeclared provision");
    assert!(matches!(error, CordisError::RevisionValidationFailed(_)));
    assert_eq!(runtime.services.symbol_count(), before);
}

#[test]
fn repeated_declared_provide_does_not_grow_interner() {
    let mut runtime = Runtime::new();
    let root = runtime.root();
    let declared = key("repeated");
    let fiber = install(&mut runtime, root, &descriptor("once", vec![], vec![declared.clone()]));
    let context = context_of(&runtime, fiber);
    assert!(matches!(
        runtime.provide(context, &declared, 9),
        Err(CordisError::DuplicateService(twice)) if twice.to_string() == "test/repeated@1"
    ));
    assert_eq!(runtime.services.symbol_count(), 1);
}

#[test]
fn tasks_are_owned_counted_once_and_limited() {
    let config = RuntimeConfig { max_tasks_per_fiber: 2, ..RuntimeConfig::default() };
    let mut runtime = Runtime::with_config(config).expect("runtime");
    let root = runtime.root();
    let fiber = install(&mut runtime, root, &empty());
    let context = context_of(&runtime, fiber);
    for _ in 0..10 {
        let ticket = runtime.spawn_task(context).expect("live quota, not lifetime quota");
        assert!(!ticket.waits);
        runtime.complete_task(ticket.id, TaskEnd::Returned.outcome());
        runtime.complete_task(ticket.id, TaskOutcome::Completed);
    }
    assert_eq!(runtime.tasks.reaped, 10);
    let first = runtime.spawn_task(context).expect("first");
    let second = runtime.spawn_task(context).expect("second");
    assert_ne!(first.id, second.id);
    assert!(matches!(
        runtime.spawn_task(context),
        Err(CordisError::ResourceLimitExceeded { resource: ResourceKind::TasksPerFiber, limit: 2 })
    ));
    assert_eq!(runtime.diagnostics.quota_rejections, 1);
    runtime.complete_task(first.id, TaskEnd::Panicked.outcome());
    assert_eq!(runtime.tasks.panicked, 1);
    assert_eq!(runtime.diagnostics.recent()[1].fiber, Some(fiber));
    assert_eq!(runtime.snapshot().fibers[0].task_ids, vec![second.id]);
    assert_eq!(dispose(&mut runtime, fiber, false), Ok(()));
    assert_eq!(runtime.tasks.live_fiber_tasks(), 0);
    assert_eq!(runtime.tasks.cancelled, 1);
    assert_eq!(TaskEnd::NotAdmitted.outcome(), TaskOutcome::Cancelled);
}

#[test]
fn effects_are_disposed_last_in_first_out() {
    let mut runtime = Runtime::new();
    let root = runtime.root();
    let fiber = install(&mut runtime, root, &empty());
    let context = context_of(&runtime, fiber);
    let first = runtime.add_effect(context).expect("first");
    let second = runtime.add_effect(context).expect("second");
    assert_eq!((first, second), (EffectId { raw: 0 }, EffectId { raw: 1 }));
    assert_eq!(runtime.register(context, Registration::Handler(HandlerId { raw: 4 })), Ok(()));
    assert_eq!(runtime.snapshot().handler_count, 1);
    assert!(matches!(
        runtime.begin_fiber_disposal(fiber, false, false, false),
        Ok(DisposalStart::Started)
    ));
    let (mut job, tasks) = FiberDisposalJob::begin(&mut runtime, fiber).expect("begun");
    assert!(tasks.is_empty());
    assert!(matches!(job.tasks_joined(&mut runtime, Ok(())), DisposalAction::Drain));
    match job.drained(&mut runtime, DrainOutcome::Drained) {
        DisposalAction::Unregister(registrations) => {
            assert_eq!(registrations.handlers, vec![HandlerId { raw: 4 }]);
        }
        other => panic!("unexpected {other:?}"),
    }
    assert!(matches!(
        job.handlers_removed(&mut runtime),
        DisposalAction::DisposeEffect(effect) if effect == second
    ));
    assert!(matches!(
        job.effect_disposed(&mut runtime, EffectEnd::Failed(CordisError::Invariant("e".to_owned()))),
        DisposalAction::DisposeEffect(effect) if effect == first
    ));
    match job.effect_disposed(&mut runtime, EffectEnd::Panicked(PanicPayload::Opaque)) {
        DisposalAction::Finish(end) => {
            let (result, worker) = runtime.finalize_fiber_disposal(fiber, end);
            assert!(result.is_err());
            assert!(worker.is_some());
        }
        other => panic!("unexpected {other:?}"),
    }
    let observed = runtime.fiber_observation(fiber).expect("observation");
    let late = DisposalEnd { result: Ok(()), target: Some(FiberState::Disposed), terminated: false };
    assert_eq!(
        runtime.finalize_fiber_disposal(fiber, late),
        (Err(CordisError::Invariant("disposal outcome is already published".to_owned())), None)
    );
    assert_eq!(runtime.fiber_observation(fiber).expect("observation"), observed);
    assert_eq!(observed.issues.len(), 2);
    assert!(observed.issues.iter().all(|issue| issue.phase == CleanupPhase::EffectCleanup));
    match Runtime::dispose_fiber_detailed(&Ok(observed)) {
        DisposeOutcome::CommittedWithCleanupIssues { issues } => assert_eq!(issues.len(), 2),
        other => panic!("unexpected {other:?}"),
    }
}

#[test]
fn a_drain_that_times_out_leaves_the_fiber_and_can_persist() {
    let mut runtime = Runtime::new();
    let root = runtime.root();
    let fiber = install(&mut runtime, root, &empty());
    let generation = context_of(&runtime, fiber).generation;
    assert!(runtime.gates.try_acquire(generation));
    let error = dispose(&mut runtime, fiber, false).expect_err("drain");
    assert!(error.to_string().contains("generation drain timed out with 1 provider executions"));
    assert_eq!(runtime.fibers.get(fiber.raw).expect("fiber").disposal.phase, DisposalPhase::Terminated);
    let health = runtime.health(runtime.config.max_concurrent_invocations);
    assert_eq!(health.terminated_fibers, 1);
    assert_eq!(health.provider_inflight, 1);
    assert_eq!(health.draining_generations, 1);
    let snapshot = runtime.snapshot();
    assert!(snapshot.fibers[0].unfinished_cleanup);
    assert!(snapshot.fibers[0].disposal_error.as_ref().expect("text").contains("timed out"));
}

#[test]
fn disposing_a_scope_disposes_what_it_holds() {
    let mut runtime = Runtime::new();
    let root = runtime.root();
    let outer = runtime.create_scope(root, "outer").expect("outer");
    let inner = runtime.create_scope(outer, "inner").expect("inner");
    let fiber = install(&mut runtime, inner, &empty());
    let waiting = install(&mut runtime, outer, &descriptor("waiting", vec![key("absent")], vec![]));
    assert_eq!(state_of(&runtime, waiting), FiberState::WaitingDependencies);
    assert_eq!(dispose_scope(&mut runtime, outer), Ok(()));
    assert_eq!(state_of(&runtime, fiber), FiberState::Disposed);
    assert_eq!(state_of(&runtime, waiting), FiberState::Disposed);
    assert_eq!(runtime.scopes.get(outer).expect("outer").state, ScopeState::Disposed);
    assert!(matches!(
        runtime.admit_install(inner, &empty(), false, None),
        Err(CordisError::ScopeDisposed(scope)) if scope == inner
    ));
    assert!(matches!(
        Runtime::dispose_scope_detailed(&observe_scope(&mut runtime, outer, false)),
        ScopeDisposeOutcome::Disposed
    ));
    let report = runtime.collect_garbage();
    assert_eq!(report.fibers, 2);
    assert!(report.scopes >= 1);
    while runtime.collect_garbage().scopes != 0 {}
    assert_eq!(runtime.scopes.len(), 1);
    assert!(matches!(dispose_scope(&mut runtime, outer), Err(CordisError::ScopeNotFound)));
}

#[test]
fn scope_incomplete_outcome_preserves_terminal_blocker_and_child_issue() {
    let mut runtime = Runtime::new();
    let root = runtime.root();
    let scope = runtime.create_scope(root, "incomplete").expect("scope");
    let fiber = install(&mut runtime, scope, &empty());
    let generation = context_of(&runtime, fiber).generation;
    assert!(runtime.gates.try_acquire(generation));
    match Runtime::dispose_scope_detailed(&observe_scope(&mut runtime, scope, false)) {
        ScopeDisposeOutcome::Incomplete { primary, issues } => {
            assert!(primary.to_string().contains("scope disposal terminated"));
            assert_eq!(issues.len(), 1);
            assert_eq!(issues[0].phase, CleanupPhase::FiberDetach);
            assert!(issues[0].message.contains("generation drain timed out"));
        }
        other => panic!("expected incomplete scope outcome, got {other:?}"),
    }
    assert_eq!(runtime.scopes.get(scope).expect("scope").state, ScopeState::Terminated);
}

#[test]
fn activation_primary_issue_and_terminal_blocker_are_all_preserved() {
    let cleanup = Runtime::activation_cleanup(Ok(Arc::new(DisposalObservation {
        legacy_result: Err(CordisError::CleanupFailed("generation drain timed out".into())),
        terminal: DisposalTerminal::Incomplete(CordisError::CleanupFailed(
            "generation drain timed out".into(),
        )),
        issues: vec![CleanupIssue {
            phase: CleanupPhase::TaskDrain,
            message: "prior task issue".into(),
            cause: None,
        }],
    })));
    let error = Runtime::activation_failure(
        CordisError::DuplicateInvocationHandler(InvocationKey::new("primary", "conflict", 1)),
        cleanup,
    );
    match error {
        CordisError::ActivationFailed { primary, cleanup } => {
            assert!(matches!(*primary, CordisError::DuplicateInvocationHandler(_)));
            assert_eq!(cleanup.len(), 2);
            assert!(cleanup[0].to_string().contains("prior task issue"));
            assert!(cleanup[1].to_string().contains("generation drain timed out"));
        }
        other => panic!("expected activation failure, got {other:?}"),
    }
}

#[test]
fn reload_preserves_plugin_id_and_allocates_new_generation() {
    let mut runtime = Runtime::new();
    let root = runtime.root();
    let shared = key("reloaded");
    let revision = descriptor("revision", vec![], vec![shared.clone()]);
    let old = install(&mut runtime, root, &revision);
    let plugin = runtime.fibers.get(old.raw).expect("old").plugin_id;
    let old_generation = context_of(&runtime, old).generation;
    let symbol = runtime.intern_service(&shared).expect("symbol");
    assert_eq!(runtime.resolve_symbol(root, symbol).expect("old service").value, 1);
    let outcome = reload(&mut runtime, old, &revision, StartEnd::Started).expect("reload");
    let new = match outcome {
        ReloadOutcome::Completed { new_fiber } => new_fiber,
        other => panic!("unexpected {other:?}"),
    };
    assert_eq!(Runtime::legacy_reload_result(outcome), Ok(new));
    assert_ne!(new, old);
    let record = runtime.fibers.get(new.raw).expect("new");
    assert_eq!(record.plugin_id, plugin);
    assert_eq!(record.scope, root);
    assert_ne!(record.generation, old_generation);
    assert!(runtime.gates.is_visible(context_of(&runtime, new).generation));
    assert!(!runtime.gates.is_visible(old_generation));
    assert_eq!(state_of(&runtime, old), FiberState::Disposed);
    assert_eq!(runtime.resolve_symbol(root, symbol).expect("new service").value, 2);
    assert_eq!(runtime.active_reloads, 0);
    let snapshot = runtime.snapshot();
    assert_eq!((snapshot.staging_fibers, snapshot.staging_scopes), (0, 0));
    let context = context_of(&runtime, new);
    let child = runtime.create_child_scope(context, "retained-child").expect("child");
    assert_eq!(runtime.scopes.parent(child), Ok(Some(root)));
}

#[test]
fn failed_reload_keeps_the_old_generation() {
    let mut runtime = Runtime::new();
    let root = runtime.root();
    let old = install(&mut runtime, root, &empty());
    let generation = context_of(&runtime, old).generation;
    let error = reload(
        &mut runtime,
        old,
        &empty(),
        StartEnd::Failed(CordisError::Invariant("no".to_owned())),
    )
    .expect_err("reload");
    match error {
        CordisError::ReloadFailed { primary, cleanup } => {
            assert_eq!(primary.to_string(), "plugin start failed: invariant violated: no");
            assert!(cleanup.is_empty());
        }
        other => panic!("unexpected {other:?}"),
    }
    assert_eq!(state_of(&runtime, old), FiberState::Active);
    assert!(runtime.gates.is_visible(generation));
    assert_eq!(runtime.snapshot().staging_scopes, 0);
}

#[test]
fn reload_is_refused_where_it_cannot_begin() {
    let mut runtime = Runtime::new();
    let root = runtime.root();
    assert!(matches!(runtime.accept_reload(FiberId { raw: 9 }), Err(CordisError::FiberNotFound)));
    let waiting = install(&mut runtime, root, &descriptor("waiting", vec![key("never")], vec![]));
    assert!(matches!(
        runtime.begin_reload(waiting),
        Err(CordisError::InvalidFiberState {
            from: FiberState::WaitingDependencies,
            to: FiberState::Reloading,
            ..
        })
    ));
    runtime.fibers.get_mut(waiting.raw).expect("fiber").reload_owned = true;
    assert!(matches!(
        runtime.accept_reload(waiting),
        Err(CordisError::FiberLifecycleOwned(fiber)) if fiber == waiting
    ));
}

#[test]
fn reload_without_room_for_a_staging_scope_rolls_back() {
    let config = RuntimeConfig { max_scopes: 1, ..RuntimeConfig::default() };
    let mut runtime = Runtime::with_config(config).expect("runtime");
    let root = runtime.root();
    let old = install(&mut runtime, root, &empty());
    match runtime.begin_reload(old) {
        Err(CordisError::ReloadFailed { primary, cleanup }) => {
            assert!(matches!(
                *primary,
                CordisError::ResourceLimitExceeded { resource: ResourceKind::Scopes, limit: 1 }
            ));
            assert!(cleanup.is_empty());
        }
        _ => panic!("must fail"),
    }
    assert_eq!(state_of(&runtime, old), FiberState::Active);
}

#[test]
fn commit_of_a_taken_service_is_refused_and_changes_nothing() {
    let mut runtime = Runtime::new();
    let root = runtime.root();
    let shared = key("taken");
    let old = install(&mut runtime, root, &empty());
    install(&mut runtime, root, &descriptor("holder", vec![], vec![shared.clone()]));
    let error = reload(
        &mut runtime,
        old,
        &descriptor("grabber", vec![], vec![shared]),
        StartEnd::Started,
    )
    .expect_err("reload");
    match error {
        CordisError::ReloadFailed { primary, cleanup } => {
            assert!(matches!(&*primary, CordisError::DuplicateService(_)));
            assert!(cleanup.is_empty());
        }
        other => panic!("unexpected {other:?}"),
    }
    assert_eq!(state_of(&runtime, old), FiberState::Active);
}

#[test]
fn publication_failure_takes_the_whole_commit_back() {
    let mut runtime = Runtime::new();
    let root = runtime.root();
    let shared = key("back");
    let revision = descriptor("revision", vec![], vec![shared.clone()]);
    let old = install(&mut runtime, root, &revision);
    let generation = context_of(&runtime, old).generation;
    runtime.accept_reload(old).expect("accepted");
    let mut job = runtime.begin_reload(old).expect("job");
    let (scope, plugin) = match job.first_action() {
        ReloadAction::Install { scope, plugin } => (scope, plugin),
        other => panic!("unexpected {other:?}"),
    };
    let step = runtime.admit_install(scope, &revision, true, Some(plugin)).expect("staged");
    start_staged(&mut runtime, step.fiber, StartEnd::Started).expect("started");
    let symbol = runtime.intern_service(&shared).expect("symbol");
    runtime.gates.close(generation);
    let before = runtime.scopes.get(root).expect("root").fibers.to_vec();
    assert!(matches!(
        job.installed(&mut runtime, Ok(step.fiber), Ok(())),
        ReloadAction::DisposeStaged(fiber) if fiber == step.fiber
    ));
    match job.primary.as_ref().expect("primary") {
        CordisError::ReloadFailed { primary, cleanup } => {
            assert!(matches!(&**primary, CordisError::CapabilityPublicationFailed(_)));
            assert!(cleanup.is_empty());
        }
        other => panic!("unexpected {other:?}"),
    }
    assert_eq!(runtime.scopes.get(root).expect("root").fibers.to_vec(), before);
    assert_eq!(runtime.scopes.get(scope).expect("staging").fibers.to_vec(), vec![step.fiber.raw]);
    assert_eq!(runtime.services.get(root, symbol).expect("old").owner, old);
    assert_eq!(runtime.services.get(scope, symbol).expect("staged").owner, step.fiber);
    assert_eq!(runtime.dependencies.providers(root, symbol), vec![old.raw]);
    assert_eq!(runtime.dependencies.providers(scope, symbol), vec![step.fiber.raw]);
    assert_eq!(runtime.fibers.get(step.fiber.raw).expect("staged").scope, scope);
}

#[test]
fn cleanup_pending_is_reported_before_it_ends() {
    let mut runtime = Runtime::new();
    let root = runtime.root();
    let old = install(&mut runtime, root, &empty());
    runtime.accept_reload(old).expect("accepted");
    let mut job = runtime.begin_reload(old).expect("job");
    let (scope, plugin) = match job.first_action() {
        ReloadAction::Install { scope, plugin } => (scope, plugin),
        other => panic!("unexpected {other:?}"),
    };
    let step = runtime.admit_install(scope, &empty(), true, Some(plugin)).expect("staged");
    start_staged(&mut runtime, step.fiber, StartEnd::Started).expect("started");
    assert!(matches!(
        job.installed(&mut runtime, Ok(step.fiber), Ok(())),
        ReloadAction::DisposeOld(fiber) if fiber == old
    ));
    let outcome = job.cleanup_pending(&mut runtime, step.fiber);
    assert_eq!(
        outcome,
        ReloadOutcome::CommittedWithCleanupPending { new_fiber: step.fiber, old_fiber: old }
    );
    assert_eq!(runtime.snapshot().reload_cleanup_pending, 1);
    match Runtime::legacy_reload_result(outcome) {
        Err(CordisError::ReloadCommitted { new_fiber, cleanup }) => {
            assert_eq!(new_fiber, step.fiber);
            assert_eq!(
                cleanup.to_string(),
                "cleanup failed: old-generation cleanup continues in a Runtime-owned worker"
            );
        }
        other => panic!("unexpected {other:?}"),
    }
    let observed = dispose_with(&mut runtime, old, false, true, false);
    job.old_disposed(Runtime::legacy_result(&observed));
    let result = dispose_scope(&mut runtime, scope);
    let end = job.staging_disposed(&mut runtime, result);
    assert!(end.report.is_none());
    assert_eq!(end.result, Ok(()));
    assert_eq!(runtime.reload_cleanup_pending, 0);
    runtime.reload_cleanup_pending = 2;
    runtime.reload_cleanup_ended();
    assert_eq!(runtime.reload_cleanup_pending, 1);
}

#[test]
fn reload_cleanup_errors_are_combined() {
    let host = || Err(CordisError::Host("h".to_owned()));
    let plain = || Err(CordisError::Invariant("i".to_owned()));
    assert_eq!(Runtime::combine_reload_cleanup(Ok(()), Ok(())), Ok(()));
    assert_eq!(
        Runtime::combine_reload_cleanup(host(), Ok(())),
        Err(CordisError::Host("h".to_owned()))
    );
    assert_eq!(
        Runtime::combine_reload_cleanup(Ok(()), plain()),
        Err(CordisError::CleanupFailed("invariant violated: i".to_owned()))
    );
    assert_eq!(
        Runtime::combine_reload_cleanup(host(), plain()),
        Err(CordisError::CleanupFailed("host error: h; invariant violated: i".to_owned()))
    );
}

#[test]
fn shutdown_completes_and_stays_complete() {
    let mut runtime = Runtime::new();
    let root = runtime.root();
    let scope = runtime.create_scope(root, "scope").expect("scope");
    install(&mut runtime, scope, &empty());
    assert_eq!(runtime.shutdown_state(), RuntimeShutdownState::Running);
    let outcome = shut_down(&mut runtime);
    assert_eq!(outcome, ShutdownOutcome::Complete);
    assert_eq!(Runtime::shutdown(&outcome), Ok(()));
    assert_eq!(runtime.shutdown_state(), RuntimeShutdownState::Complete);
    assert!(matches!(runtime.begin_shutdown(), ShutdownStart::Observing(1)));
    assert!(matches!(
        runtime.admit_install(root, &empty(), false, None),
        Err(CordisError::RuntimeShuttingDown)
    ));
    assert!(matches!(runtime.create_scope(root, "late"), Err(CordisError::RuntimeShuttingDown)));
    assert!(matches!(runtime.accept_install(), Err(CordisError::RuntimeShuttingDown)));
    assert!(runtime.snapshot().shutting_down);
}

#[test]
fn shutdown_with_a_live_handle_is_incomplete_and_can_be_tried_again() {
    let mut runtime = Runtime::new();
    let root = runtime.root();
    let live = key("live-handle");
    let provider = install(&mut runtime, root, &descriptor("provider", vec![], vec![live.clone()]));
    let caller = install(&mut runtime, root, &empty());
    let symbol = runtime.intern_service(&live).expect("symbol");
    let handle = runtime.acquire_service(root, symbol, caller).expect("handle");
    assert_eq!(handle.provider_fiber(), provider);
    assert_eq!(handle.scope(), root);
    assert_eq!(handle.symbol(), symbol);
    assert_eq!(handle.service(), 1);

    // The handle keeps its generation in use, so draining it times out.
    assert!(matches!(runtime.begin_shutdown(), ShutdownStart::Started(1)));
    let attempt = ShutdownAttempt::new();
    let outcome = attempt.conclude(&mut runtime);
    let generation = handle.generation();
    match &outcome {
        ShutdownOutcome::Incomplete { blockers, issues } => {
            assert!(issues.is_empty());
            assert!(blockers.contains(&ShutdownBlocker::GenerationInflight {
                fiber: provider,
                generation,
                inflight: 1,
                service_handles: 1,
            }));
            assert!(blockers.contains(&ShutdownBlocker::Fiber(caller)));
        }
        other => panic!("unexpected {other:?}"),
    }
    runtime.finalize_shutdown(outcome);
    assert_eq!(runtime.shutdown_state(), RuntimeShutdownState::Incomplete);
    assert_eq!(
        runtime.snapshot().shutdown_error.expect("text"),
        "shutdown incomplete with 3 blocker(s)"
    );
    assert!(matches!(
        runtime.admit_install(root, &empty(), false, None),
        Err(CordisError::RuntimeShuttingDown)
    ));
    runtime.release_service(handle);
    assert_eq!(shut_down(&mut runtime), ShutdownOutcome::Complete);
}

#[test]
fn blockers_read_like_their_values() {
    let fiber = FiberId { raw: 0x1_0000_0002 };
    let outcome = ShutdownOutcome::Incomplete {
        blockers: vec![
            ShutdownBlocker::Fiber(fiber),
            ShutdownBlocker::HostedExecution { fiber },
            ShutdownBlocker::RuntimeWorkers(3),
            ShutdownBlocker::GenerationInflight {
                fiber,
                generation: 7,
                inflight: 2,
                service_handles: 1,
            },
            ShutdownBlocker::Staging { fibers: 1, scopes: 0 },
        ],
        issues: vec![],
    };
    let text = fiber.debug_text();
    assert_eq!(
        Runtime::shutdown(&outcome),
        Err(CordisError::CleanupFailed(format!(
            "shutdown incomplete: [Fiber({text}), HostedExecution {{ fiber: {text} }}, \
             RuntimeWorkers(3), GenerationInflight {{ fiber: {text}, generation: 7, \
             inflight: 2, service_handles: 1 }}, Staging {{ fibers: 1, scopes: 0 }}]"
        )))
    );
}

#[test]
fn a_shutdown_that_panics_is_incomplete() {
    let mut runtime = Runtime::new();
    runtime.begin_shutdown();
    let outcome = runtime.shutdown_panicked(&PanicPayload::Text("bad".to_owned()));
    match &outcome {
        ShutdownOutcome::Incomplete { blockers, issues } => {
            assert!(blockers.is_empty());
            assert_eq!(issues.len(), 1);
            assert_eq!(issues[0].phase, CleanupPhase::Worker);
            assert_eq!(issues[0].message, "shutdown worker panicked: bad");
        }
        other => panic!("unexpected {other:?}"),
    }
}

#[test]
fn shutdown_steps_stop_when_time_runs_out() {
    let mut runtime = Runtime::new();
    let root = runtime.root();
    let scope = runtime.create_scope(root, "left").expect("scope");
    let fiber = install(&mut runtime, scope, &empty());
    let mut attempt = ShutdownAttempt::new();
    assert_eq!(attempt.root_disposed(None), ShutdownAction::Conclude);
    assert_eq!(
        attempt.root_disposed(Some(Err(CordisError::ScopeNotFound))),
        ShutdownAction::Conclude
    );
    assert_eq!(attempt.issues.len(), 1);
    assert_eq!(attempt.begin_round(&runtime), ShutdownAction::DisposeScope(scope));
    assert_eq!(attempt.scope_disposed(&runtime, None), ShutdownAction::Conclude);
    assert_eq!(
        attempt.scope_disposed(&runtime, Some(Err(CordisError::ScopeNotFound))),
        ShutdownAction::DisposeFiber(fiber)
    );
    assert_eq!(attempt.fiber_disposed(&runtime, false), ShutdownAction::Conclude);
    assert_eq!(attempt.fiber_disposed(&runtime, true), ShutdownAction::Pause);
    assert_eq!(attempt.rounds, 1);
}

#[test]
fn health_follows_the_lifecycle() {
    let mut runtime = Runtime::new();
    let root = runtime.root();
    let all = runtime.config.max_concurrent_invocations;
    assert_eq!(format!("{:?}", runtime.health(all).status), "Healthy");
    install(&mut runtime, root, &descriptor("waiting", vec![key("never")], vec![]));
    let degraded = runtime.health(all - 3);
    assert_eq!(format!("{:?}", degraded.status), "Degraded");
    assert_eq!(degraded.waiting_fibers, 1);
    assert_eq!(degraded.active_invocations, 3);
    assert_eq!(degraded.active_scopes, 1);
    runtime.begin_shutdown();
    assert_eq!(format!("{:?}", runtime.health(all).status), "ShuttingDown");
    assert!(runtime.can_sum());
}

/// A fiber that was active and waits for `wanted` again, in `scope`.
fn left_waiting(runtime: &mut Runtime, scope: ScopeId, wanted: &ServiceKey) -> FiberId {
    let root = runtime.root();
    let provider = install(runtime, root, &descriptor("provider", vec![], vec![wanted.clone()]));
    let fiber = install(runtime, scope, &descriptor("waiting", vec![wanted.clone()], vec![]));
    assert_eq!(state_of(runtime, fiber), FiberState::Active);
    assert_eq!(dispose(runtime, provider, false), Ok(()));
    assert_eq!(state_of(runtime, fiber), FiberState::WaitingDependencies);
    let disposal = &runtime.fibers.get(fiber.raw).expect("fiber").disposal;
    assert_eq!(disposal.phase, DisposalPhase::Complete);
    assert!(disposal.wait_for_dependencies && disposal.observation.is_some());
    fiber
}

#[test]
fn a_waiting_fiber_can_be_disposed_for_good() {
    let mut runtime = Runtime::new();
    let root = runtime.root();
    let wanted = key("wanted");
    let fiber = left_waiting(&mut runtime, root, &wanted);
    assert_eq!(
        runtime.begin_fiber_disposal(fiber, true, false, false),
        Ok(DisposalStart::Joined)
    );
    assert_eq!(state_of(&runtime, fiber), FiberState::WaitingDependencies);
    assert_eq!(
        runtime.begin_fiber_disposal(fiber, false, false, false),
        Ok(DisposalStart::Started)
    );
    let disposal = &runtime.fibers.get(fiber.raw).expect("fiber").disposal;
    assert_eq!(disposal.phase, DisposalPhase::Tasks);
    assert!(disposal.observation.is_none() && !disposal.wait_for_dependencies);
    assert_eq!(state_of(&runtime, fiber), FiberState::Disposing);
    let end = run_disposal(&mut runtime, fiber);
    let (result, _) = runtime.finalize_fiber_disposal(fiber, end);
    assert_eq!(result, Ok(()));
    assert_eq!(state_of(&runtime, fiber), FiberState::Disposed);
    assert!(!runtime.scopes.get(root).expect("root").fibers.to_vec().contains(&fiber.raw));
    let provider = install(&mut runtime, root, &descriptor("provider", vec![], vec![wanted]));
    assert_eq!(state_of(&runtime, provider), FiberState::Active);
    assert_eq!(state_of(&runtime, fiber), FiberState::Disposed);
    assert_eq!(runtime.collect_garbage().fibers, 2);
    assert!(!runtime.fibers.contains(fiber.raw));
}

#[test]
fn a_disposal_for_good_overtakes_one_that_waits() {
    let mut runtime = Runtime::new();
    let root = runtime.root();
    let fiber = install(&mut runtime, root, &empty());
    assert_eq!(
        runtime.begin_fiber_disposal(fiber, true, false, false),
        Ok(DisposalStart::Started)
    );
    let end = run_disposal(&mut runtime, fiber);
    assert_eq!(end.target, Some(FiberState::WaitingDependencies));
    assert_eq!(
        runtime.begin_fiber_disposal(fiber, false, false, false),
        Ok(DisposalStart::Joined)
    );
    let (result, _) = runtime.finalize_fiber_disposal(fiber, end);
    assert_eq!(result, Ok(()));
    assert_eq!(state_of(&runtime, fiber), FiberState::Disposed);
    assert!(runtime.scopes.get(root).expect("root").fibers.to_vec().is_empty());
}

#[test]
fn a_disposed_scope_does_not_take_its_waiting_fiber_back() {
    let mut runtime = Runtime::new();
    let root = runtime.root();
    let scope = runtime.create_scope(root, "scope").expect("scope");
    let wanted = key("wanted");
    let fiber = left_waiting(&mut runtime, scope, &wanted);
    assert_eq!(dispose_scope(&mut runtime, scope), Ok(()));
    assert_eq!(runtime.scopes.get(scope).expect("scope").state, ScopeState::Disposed);
    assert_eq!(state_of(&runtime, fiber), FiberState::Disposed);
    let provider = install(&mut runtime, root, &descriptor("provider", vec![], vec![wanted]));
    assert_eq!(state_of(&runtime, provider), FiberState::Active);
    assert_eq!(state_of(&runtime, fiber), FiberState::Disposed);
    assert!(matches!(
        runtime.begin_activation(fiber),
        Err(CordisError::ScopeDisposed(id)) if id == scope
    ));
}

#[test]
fn a_scope_that_goes_activates_nobody() {
    let mut runtime = Runtime::new();
    let root = runtime.root();
    let scope = runtime.create_scope(root, "scope").expect("scope");
    let wanted = key("wanted");
    let fiber = left_waiting(&mut runtime, scope, &wanted);
    let elsewhere = left_waiting(&mut runtime, root, &wanted);
    let started = runtime.admit_install(scope, &empty(), false, None).expect("admitted").fiber;
    assert_eq!(runtime.begin_scope_disposal(scope, false), Ok(DisposalStart::Started));
    for id in [fiber, started] {
        assert!(matches!(
            runtime.begin_activation(id),
            Err(CordisError::ScopeDisposed(refused)) if refused == scope
        ));
    }
    assert_eq!(state_of(&runtime, started), FiberState::Created);
    let provider = install(&mut runtime, root, &descriptor("provider", vec![], vec![wanted]));
    assert_eq!(state_of(&runtime, provider), FiberState::Active);
    assert_eq!(state_of(&runtime, elsewhere), FiberState::Active);
    assert_eq!(state_of(&runtime, fiber), FiberState::WaitingDependencies);
    runtime.begin_shutdown();
    assert!(matches!(
        runtime.begin_activation(fiber),
        Err(CordisError::RuntimeShuttingDown)
    ));
}

#[test]
fn snapshots_show_visible_services_only() {
    let mut runtime = Runtime::new();
    let root = runtime.root();
    let (open, hidden) = (key("open"), key("hidden"));
    let provider = install(&mut runtime, root, &descriptor("open", vec![], vec![open]));
    let step = runtime
        .admit_install(root, &descriptor("hidden", vec![], vec![hidden.clone()]), false, None)
        .expect("admitted");
    let context = runtime.begin_activation(step.fiber).expect("ticket").context();
    let symbol = runtime.provide(context, &hidden, 5).expect("provided");
    assert_eq!(runtime.services.count(), 2);
    let snapshot = runtime.snapshot();
    assert_eq!(snapshot.service_count, 1);
    assert_eq!(snapshot.services.len(), 1);
    assert_eq!((snapshot.services[0].scope, snapshot.services[0].owner), (root, provider));
    assert!(matches!(
        runtime.complete_start(step.fiber, StartEnd::Started, Ok(())),
        ActivationStep::Done(_)
    ));
    let snapshot = runtime.snapshot();
    assert_eq!(snapshot.service_count, 2);
    assert!(snapshot
        .services
        .iter()
        .any(|service| service.symbol == symbol && service.owner == step.fiber));
    assert_eq!(snapshot.scopes.len(), 1);
    assert!(snapshot.scopes[0].parent.is_none() && snapshot.scopes[0].id == root);
    assert!(!snapshot.scopes[0].disposed && !snapshot.scopes[0].unfinished_cleanup);
    assert!(!snapshot.shutting_down && !snapshot.shutdown_in_progress);
    assert_eq!((snapshot.terminated_scope_count, snapshot.terminated_fiber_count), (0, 0));
}

#[test]
fn ids_of_what_is_gone_name_nothing_again() {
    let mut runtime = Runtime::new();
    assert_eq!((runtime.plugins.next_plugin, runtime.plugins.next_generation), (1, 1));
    assert_eq!((runtime.workers.next, runtime.tasks.reaped, runtime.workers.reaped), (1, 0, 0));
    let root = runtime.root();
    let mut seen: Vec<FiberId> = Vec::new();
    for _ in 0..3 {
        let fiber = install(&mut runtime, root, &empty());
        assert!(!seen.contains(&fiber));
        let task = runtime.spawn_task(context_of(&runtime, fiber)).expect("task").id;
        runtime.complete_task(task, TaskOutcome::Completed);
        let other = runtime.spawn_task(context_of(&runtime, fiber)).expect("task").id;
        assert_ne!(task, other);
        assert_eq!(dispose(&mut runtime, fiber, false), Ok(()));
        assert_eq!(runtime.collect_garbage().fibers, 1);
        seen.push(fiber);
        for gone in &seen {
            assert!(!runtime.fibers.contains(gone.raw));
            assert!(matches!(runtime.begin_activation(*gone), Err(CordisError::FiberNotFound)));
        }
    }
}

#[test]
fn both_sets_are_told_where_services_do_not_match() {
    let mut runtime = Runtime::new();
    let root = runtime.root();
    let odd = ServiceKey::new("a\"b", "tab\t", 2);
    let declared = vec![key("one"), odd.clone(), key("one"), key("two")];
    let step = runtime
        .admit_install(root, &descriptor("half", vec![], declared), false, None)
        .expect("admitted");
    let context = runtime.begin_activation(step.fiber).expect("ticket").context();
    runtime.provide(context, &key("two"), 1).expect("two");
    runtime.provide(context, &odd, 1).expect("odd");
    match runtime.validate_staged_revision(step.fiber) {
        Err(CordisError::RevisionValidationFailed(message)) => assert_eq!(
            message,
            "declared provisions {\
             ServiceKey { namespace: \"test\", name: \"one\", version: 1 }, \
             ServiceKey { namespace: \"a\\\"b\", name: \"tab\\t\", version: 2 }, \
             ServiceKey { namespace: \"test\", name: \"two\", version: 1 }} \
             do not match actual services {\
             ServiceKey { namespace: \"test\", name: \"two\", version: 1 }, \
             ServiceKey { namespace: \"a\\\"b\", name: \"tab\\t\", version: 2 }}"
        ),
        other => panic!("unexpected {other:?}"),
    }
    assert_eq!(odd.debug_text(), format!("{odd:?}"));
}

#[test]
fn hosted_executions_are_blockers_until_they_are_reaped() {
    let mut runtime = Runtime::new();
    let root = runtime.root();
    let fiber = install(&mut runtime, root, &empty());
    assert!(matches!(
        runtime.hosted_started(FiberId { raw: 0 }),
        Err(CordisError::FiberNotFound)
    ));
    assert!(matches!(
        runtime.hosted_reaped(FiberId { raw: 0 }),
        Err(CordisError::FiberNotFound)
    ));
    assert_eq!(
        runtime.hosted_reaped(fiber),
        Err(CordisError::Invariant("no hosted execution is live".to_owned()))
    );
    assert_eq!(runtime.hosted_started(fiber), Ok(()));
    assert_eq!(runtime.hosted_started(fiber), Ok(()));
    assert_eq!(runtime.hosted_reaped(fiber), Ok(()));
    assert_eq!(runtime.fibers.get(fiber.raw).expect("fiber").hosted_live, 1);
    assert_eq!(
        runtime.shutdown_blockers(),
        vec![ShutdownBlocker::Fiber(fiber), ShutdownBlocker::HostedExecution { fiber }]
    );
    assert_eq!(runtime.hosted_reaped(fiber), Ok(()));
    assert_eq!(runtime.shutdown_blockers(), vec![ShutdownBlocker::Fiber(fiber)]);
    runtime.fibers.get_mut(fiber.raw).expect("fiber").hosted_live = usize::MAX;
    assert_eq!(
        runtime.hosted_started(fiber),
        Err(CordisError::Invariant("hosted executions are used up".to_owned()))
    );
}
