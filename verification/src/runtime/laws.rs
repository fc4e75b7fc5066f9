//! What every step of a runtime keeps.
#[allow(unused_imports)]
use super::activation::{
    begins_activation, completes_start, ActivationStep, ActivationTicket, StartEnd,
};
#[allow(unused_imports)]
use super::context::{asks_for_more, enters_service, makes_child, may_add, Context};
#[allow(unused_imports)]
use super::dependency::symbols_of;
#[allow(unused_imports)]
use super::disposal::{
    asks_to_go, disposal_settles, edits_fiber, in_phase, is_worker_terminal, next_after_children,
    next_after_services, notes_failure, other_than, settled_target, stops_serving, withdrawn, DisposalAction,
};
#[allow(unused_imports)]
use super::garbage::{collects, collects_scopes, dead, is_dead, retired_all, GarbageReport};
#[allow(unused_imports)]
use super::install::{admits, enrolls, installs, interns_keys, settles_install, InstallStep};
#[allow(unused_imports)]
use super::lifecycle::is_new;
#[allow(unused_imports)]
use super::reload::{all_replaceable, commits_revision, switches};
#[allow(unused_imports)]
use super::scope::{
    creates_scope, goes_on, hears_of_child, hears_of_fiber, makes_scope, scope_settles, sweeps_if,
    DisposalStart, ScopeDisposalJob, ScopeStep,
};
#[allow(unused_imports)]
use super::service::interns_more;
#[allow(unused_imports)]
use super::{all_interned, fiber_fits, is_issued, Runtime};
#[allow(unused_imports)]
use crate::arena::id_index;
#[allow(unused_imports)]
use crate::config::RuntimeConfig;
#[allow(unused_imports)]
use crate::error::CordisError;
#[allow(unused_imports)]
use crate::fiber_registry::{FiberRecord, FiberRegistry, Fibers, PluginDescriptor};
#[allow(unused_imports)]
use crate::gate::CapabilityGate;
#[allow(unused_imports)]
use crate::id_list::lemma_except_contains;
#[allow(unused_imports)]
use crate::ids::{FiberId, GenerationId, HandlerId, PluginId, ScopeId, ServiceSymbol};
#[allow(unused_imports)]
use crate::key::{key_views, ServiceKey};
#[allow(unused_imports)]
use crate::scope_registry::{without_fibers, ScopeRecord, Scopes};
#[allow(unused_imports)]
use crate::scope_revision::PreparedScopeRevision;
#[allow(unused_imports)]
use crate::service_registry::{
    is_slot_in, lemma_slot, owned_in, replaceable, slot_of, slot_symbol, Entries, ServiceRegistry,
};
#[allow(unused_imports)]
use crate::state::{CleanupPhase, DisposalPhase, FiberState};
#[allow(unused_imports)]
use std::sync::Arc;
use vstd::prelude::*;

verus! {

/// Whether a fiber lies in a scope that is disposed.
pub open spec fn lies_in_disposed(runtime: Runtime, fiber: u64) -> bool {
    let scope = runtime.fibers@[fiber].scope.raw;
    runtime.scopes@.dom().contains(scope) && runtime.scopes@[scope].state is Disposed
}

/// Whether the scope of a fiber, where it exists, lists the fiber.
pub open spec fn is_listed(runtime: Runtime, fiber: u64) -> bool {
    let scope = runtime.fibers@[fiber].scope.raw;
    runtime.scopes@.dom().contains(scope) ==> runtime.scopes@[scope].fibers@.contains(fiber)
}

/// Whether everybody can read that the disposal of the fiber succeeded.
pub open spec fn is_told(record: FiberRecord) -> bool {
    record.disposal.observation matches Some(observation) && observation.legacy_result is Ok
}

/// Whether everybody can read that the disposal of the fiber was not cut off.
pub open spec fn is_over(record: FiberRecord) -> bool {
    record.disposal.observation matches Some(observation) && observation.terminal is Committed
}

/// Whether a disposal that everybody can read about left the fiber disposed, or
/// waiting for its dependencies.
pub open spec fn is_truthful(record: FiberRecord) -> bool {
    &&& is_told(record) ==> is_over(record)
    &&& is_over(record) ==> record.disposal.phase is Complete && (record.state is Disposed
        || record.state is WaitingDependencies)
}

/// Whether everybody can read that the fiber is disposed, and not that a worker broke off.
pub open spec fn has_gone(record: FiberRecord) -> bool {
    &&& record.state is Disposed
    &&& record.disposal.observation matches Some(observation) && !is_worker_terminal(
        observation.legacy_result,
    )
}

/// Whether the scope of a fiber, where it exists, does not list the fiber.
pub open spec fn is_unlisted(runtime: Runtime, fiber: u64) -> bool {
    let scope = runtime.fibers@[fiber].scope.raw;
    runtime.scopes@.dom().contains(scope) ==> !runtime.scopes@[scope].fibers@.contains(fiber)
}

/// Whether a fiber owns nothing.
pub open spec fn owns_nothing(record: FiberRecord) -> bool {
    &&& record.tasks@.len() == 0
    &&& record.child_scopes@.len() == 0
    &&& is_unregistered(record)
    &&& record.provided@.len() == 0
    &&& record.effects@.len() == 0
}

/// Whether no handler is registered for a fiber.
pub open spec fn is_unregistered(record: FiberRecord) -> bool {
    &&& record.handlers@.len() == 0
    &&& record.invocation_handlers@.len() == 0
    &&& record.invocation_middleware@.len() == 0
}

/// Whether a fiber owns no more than it can at this point of its disposal.
pub open spec fn is_emptied(record: FiberRecord) -> bool {
    match record.disposal.phase {
        DisposalPhase::Idle | DisposalPhase::Tasks | DisposalPhase::Terminated => true,
        DisposalPhase::Draining | DisposalPhase::ChildScopes => record.tasks@.len() == 0,
        DisposalPhase::Handlers | DisposalPhase::Services => {
            &&& record.tasks@.len() == 0
            &&& record.child_scopes@.len() == 0
            &&& is_unregistered(record)
        },
        DisposalPhase::Effects => {
            &&& record.tasks@.len() == 0
            &&& record.child_scopes@.len() == 0
            &&& is_unregistered(record)
            &&& record.provided@.len() == 0
        },
        DisposalPhase::Reconciling | DisposalPhase::Finalizing | DisposalPhase::Complete =>
            owns_nothing(record),
    }
}

/// Whether a fiber that waits for its dependencies may do so: nobody asked to dispose of it
/// for good, and no disposal of it is on its way.
pub open spec fn waits_rightly(record: FiberRecord) -> bool {
    record.state is WaitingDependencies ==> {
        &&& record.disposal.wait_for_dependencies
        &&& record.disposal.phase is Idle || (record.disposal.phase is Complete
            && record.disposal.observation is Some)
    }
}

/// Whether a fiber is as its disposal says, owns nothing once it is disposed, and belongs to
/// a reload only as long as it is staged.
pub open spec fn record_sound(record: FiberRecord) -> bool {
    &&& is_truthful(record)
    &&& is_emptied(record)
    &&& waits_rightly(record)
    &&& record.state is Disposed ==> owns_nothing(record) && record.disposal.phase is Complete
    &&& is_spared(record.state) ==> record.disposal.phase is Idle
    &&& record.reload_owned ==> record.staged
}

/// Whether a fiber in this state is one that nobody disposes of.
pub open spec fn is_spared(state: FiberState) -> bool {
    state is Created || state is Starting || state is Active || state is Reloading
}

/// Whether a fiber is where it belongs: it is disposed where its scope is, its scope lists
/// it until then and no longer, and its generation is closed once its disposal began.
pub open spec fn fiber_sound(runtime: Runtime, fiber: u64) -> bool {
    let record = runtime.fibers@[fiber];
    &&& record_sound(record)
    &&& lies_in_disposed(runtime, fiber) ==> record.state is Disposed
    &&& !(record.state is Disposed) ==> is_listed(runtime, fiber)
    &&& has_gone(record) ==> is_unlisted(runtime, fiber)
    &&& !(record.disposal.phase is Idle) ==> runtime.gates.at(record.generation).state is Closed
}

/// Whether the owner of a service exists and provides it, in its own scope.
pub open spec fn is_provided(runtime: Runtime, slot: u128) -> bool {
    let owner = runtime.services@[slot].owner.raw;
    &&& runtime.fibers@.dom().contains(owner)
    &&& provides_at(runtime.services, runtime.fibers@[owner], slot)
}

/// Whether a fiber says that it provides the service at `slot`.
pub open spec fn provides_at(services: ServiceRegistry, record: FiberRecord, slot: u128) -> bool {
    exists|k: int|
        #![trigger record.provided@[k]]
        0 <= k < record.provided@.len() && services.symbol_of(record.provided@[k]@) is Some && slot
            == slot_of(record.scope, services.symbol_of(record.provided@[k]@)->0)
}

/// Whether every fiber and every service of a runtime is where it belongs.
pub open spec fn is_sound(runtime: Runtime) -> bool {
    &&& forall|fiber: u64| #[trigger]
        runtime.fibers@.dom().contains(fiber) ==> fiber_sound(runtime, fiber)
    &&& forall|slot: u128| #[trigger]
        runtime.services@.dom().contains(slot) ==> is_provided(runtime, slot)
}

/// A fiber stays in its scope and provides the same, a disposed fiber stays disposed, what
/// was said of its disposal stays true, and one that is disposed for good does not wait for
/// its dependencies again.
pub open spec fn keeps_place(before: FiberRecord, after: FiberRecord) -> bool {
    &&& after.scope == before.scope
    &&& after.provided@ == before.provided@
    &&& before.state is Disposed ==> after.state is Disposed
    &&& record_sound(before) ==> record_sound(after)
    &&& record_sound(before) && after.disposal.wait_for_dependencies
        ==> before.disposal.wait_for_dependencies
}

/// A scope that is being disposed is there still, and being disposed.
pub open spec fn keeps_disposing(before: Runtime, after: Runtime) -> bool {
    forall|id: u64| #[trigger]
        before.scopes@.dom().contains(id) && before.scopes@[id].state is Disposing
            ==> after.scopes@.dom().contains(id) && after.scopes@[id].state is Disposing
}

/// No generation that was closed opens again.
pub open spec fn keeps_closed(before: Runtime, after: Runtime) -> bool {
    forall|generation: GenerationId|
        #![trigger after.gates.at(generation)]
        generation.raw < before.plugins.next_generation && before.gates.at(generation).state is Closed
            ==> after.gates.at(generation).state is Closed
}

/// No generation becomes visible.
pub open spec fn shows_no_more(before: Runtime, after: Runtime) -> bool {
    forall|generation: GenerationId| #[trigger]
        after.gates.visible(generation) ==> before.gates.visible(generation)
}

/// The services are the same, under the same names.
pub open spec fn keeps_services(before: Runtime, after: Runtime) -> bool {
    &&& after.services@ == before.services@
    &&& interns_more(before.services, after.services)
}

/// One fiber changes, but not its scope nor its services, and no scope does. Its
/// generation is closed where its disposal begins.
pub open spec fn touches_fiber(
    before: Runtime,
    after: Runtime,
    fiber: u64,
    record: FiberRecord,
) -> bool {
    &&& before.fibers@.dom().contains(fiber)
    &&& keeps_place(before.fibers@[fiber], record)
    &&& record.state is Disposed ==> before.fibers@[fiber].state is Disposed
    &&& has_gone(record) ==> has_gone(before.fibers@[fiber])
    &&& record.generation == before.fibers@[fiber].generation
    &&& !(record.disposal.phase is Idle) ==> !(before.fibers@[fiber].disposal.phase is Idle)
        || after.gates.at(record.generation).state is Closed
    &&& after.fibers@ == before.fibers@.insert(fiber, record)
    &&& after.fibers.versions() == before.fibers.versions()
    &&& after.scopes == before.scopes
    &&& after.admission == before.admission
    &&& keeps_closed(before, after)
    &&& shows_no_more(before, after)
    &&& keeps_services(before, after)
}

/// No fiber, scope or service changes, and no generation opens or becomes visible: only
/// tasks, workers, health issues or counters do, or the runtime begins to shut down.
pub open spec fn touches_nobody(before: Runtime, after: Runtime) -> bool {
    &&& after.fibers == before.fibers
    &&& after.scopes == before.scopes
    &&& before.admission.closed ==> after.admission.closed
    &&& keeps_closed(before, after)
    &&& shows_no_more(before, after)
    &&& keeps_services(before, after)
}

/// One scope changes, but it lists the same fibers, and its disposal begins at most;
/// nothing else changes.
pub open spec fn touches_scope(
    before: Runtime,
    after: Runtime,
    scope: u64,
    record: ScopeRecord,
) -> bool {
    &&& before.scopes@.dom().contains(scope)
    &&& record.state == before.scopes@[scope].state || (before.scopes@[scope].state is Active
        && record.state is Disposing)
    &&& record.fibers@ == before.scopes@[scope].fibers@
    &&& after == (Runtime { scopes: after.scopes, ..before })
    &&& after.scopes@ == before.scopes@.insert(scope, record)
}

/// Whether a disposal ends as disposals do: with a failure where it stopped early, and
/// with the fiber disposed or waiting otherwise.
pub open spec fn ends_properly(
    result: Result<(), CordisError>,
    target: Option<FiberState>,
    terminated: bool,
) -> bool {
    if terminated {
        result is Err
    } else {
        target == Some(FiberState::Disposed) || target == Some(FiberState::WaitingDependencies)
    }
}

/// Whether every fiber of the job's scope that is not disposed is still before the job,
/// or is the one it deals with, unless the job ended early.
pub open spec fn covers(runtime: Runtime, job: ScopeDisposalJob, dealt_with: Option<FiberId>) -> bool {
    job.terminated || forall|fiber: u64| #[trigger]
        runtime.fibers@.dom().contains(fiber) && runtime.fibers@[fiber].scope == job.scope && !(
        runtime.fibers@[fiber].state is Disposed) ==> job.fibers@.contains(fiber) || dealt_with
            == Some(FiberId { raw: fiber })
}

/// Whether the job went through its scope to the end and nothing stopped half-way.
pub open spec fn went_through(runtime: Runtime, job: ScopeDisposalJob, scope: ScopeId) -> bool {
    &&& job.scope == scope
    &&& !job.terminated
    &&& job.fibers@.len() == 0
    &&& covers(runtime, job, None)
}

/// One step of a lifecycle: a fiber is installed, activated, replaced or disposed, adds
/// to what it owns or withdraws its services, a scope is made or disposed, or garbage is
/// collected. A scope is disposed by a job that went through it.
pub open spec fn lifecycle_step(before: Runtime, after: Runtime) -> bool {
    ||| moves_on(before, after)
    ||| exists|
        scope: ScopeId,
        result: Result<(), CordisError>,
        terminated: bool,
        job: ScopeDisposalJob,
    | #[trigger]
        ends_scope_disposal(before, after, scope, result, terminated, job)
}

/// One step of a lifecycle but the end of the disposal of a scope. A reload commits what
/// was staged in the scope it made.
pub open spec fn moves_on(before: Runtime, after: Runtime) -> bool {
    ||| exists|
        scope: ScopeId,
        descriptor: PluginDescriptor,
        staged: bool,
        logical: Option<PluginId>,
        result: Result<InstallStep, CordisError>,
    | #[trigger]
        installs(before, after, scope, descriptor, staged, logical, result)
    ||| exists|fiber: FiberId, result: Result<ActivationTicket, CordisError>| #[trigger]
        begins_activation(before, after, fiber, result)
    ||| exists|
        fiber: FiberId,
        end: StartEnd,
        invocations: Result<(), CordisError>,
        step: ActivationStep,
    | #[trigger]
        completes_start(before, after, fiber, end, invocations, step)
    ||| exists|
        old: FiberId,
        staged: FiberId,
        revision: PreparedScopeRevision,
        invocations: Result<(), CordisError>,
        result: Result<Vec<HandlerId>, CordisError>,
    |
        is_revision_of(before, staged, revision) && #[trigger] commits_revision(
            before,
            after,
            old,
            staged,
            revision,
            invocations,
            result,
        )
    ||| exists|report: GarbageReport| #[trigger] collects(before, after, report)
    ||| exists|
        fiber: FiberId,
        result: Result<(), CordisError>,
        target: Option<FiberState>,
        terminated: bool,
    | #[trigger]
        ends_disposal(before, after, fiber, result, target, terminated)
    ||| exists|fiber: u64, record: FiberRecord| #[trigger]
        touches_fiber(before, after, fiber, record)
    ||| exists|scope: u64, record: ScopeRecord| #[trigger]
        touches_scope(before, after, scope, record)
    ||| touches_nobody(before, after)
    ||| exists|
        fiber: FiberId,
        wait: bool,
        persistent: bool,
        allow: bool,
        start: Result<DisposalStart, CordisError>,
    | #[trigger]
        asks_to_go(before, after, fiber, wait, persistent, allow, start)
    ||| exists|
        parent: ScopeId,
        name: Arc<String>,
        hidden: bool,
        result: Result<ScopeId, CordisError>,
    | #[trigger]
        creates_scope(before, after, parent, name, hidden, result)
    ||| exists|context: Context| #[trigger] asks_for_more(before, after, context)
    ||| exists|
        fiber: FiberId,
        removed: Seq<ServiceSymbol>,
        target: FiberState,
        action: DisposalAction,
    | #[trigger]
        withdraws_in_turn(before, after, fiber, removed, target, action)
}

/// The revision is about the staged fiber, in the scope where it was staged.
pub open spec fn is_revision_of(
    before: Runtime,
    staged: FiberId,
    revision: PreparedScopeRevision,
) -> bool {
    &&& revision.staged == staged
    &&& before.fibers@.dom().contains(staged.raw) ==> before.fibers@[staged.raw].scope
        == revision.staging
}

/// A fiber withdraws its services after its handlers were taken back.
pub open spec fn withdraws_in_turn(
    before: Runtime,
    after: Runtime,
    fiber: FiberId,
    removed: Seq<ServiceSymbol>,
    target: FiberState,
    action: DisposalAction,
) -> bool {
    &&& before.fibers@.dom().contains(fiber.raw)
    &&& before.fibers@[fiber.raw].disposal.phase is Handlers
    &&& stops_serving(before, after, fiber, removed, target, action)
}

/// A disposal of a fiber ends, once, and after all its steps unless it stopped early.
pub open spec fn ends_disposal(
    before: Runtime,
    after: Runtime,
    fiber: FiberId,
    result: Result<(), CordisError>,
    target: Option<FiberState>,
    terminated: bool,
) -> bool {
    &&& disposal_settles(
        before,
        after,
        fiber,
        result,
        settled_target(before.fibers@[fiber.raw], target),
        terminated,
    )
    &&& before.fibers@.dom().contains(fiber.raw)
    &&& !(before.fibers@[fiber.raw].state is Disposed)
    &&& before.fibers@[fiber.raw].disposal.observation is None
    &&& terminated || before.fibers@[fiber.raw].disposal.phase is Reconciling
    &&& !(before.fibers@[fiber.raw].disposal.phase is Idle)
    &&& ends_properly(result, target, terminated)
}

/// A disposal of a scope ends as its job did.
pub open spec fn ends_scope_disposal(
    before: Runtime,
    after: Runtime,
    scope: ScopeId,
    result: Result<(), CordisError>,
    terminated: bool,
    job: ScopeDisposalJob,
) -> bool {
    &&& scope_settles(before.scopes, after.scopes, scope, result, terminated)
    &&& before.scopes@.dom().contains(scope.raw)
    &&& after == (Runtime { scopes: after.scopes, ..before })
    &&& terminated || went_through(before, job, scope)
}

/// No scope turns disposed, scopes keep listing fibers that are not disposed, every fiber
/// keeps its place, and services keep their owners.
pub open spec fn disturbs_nobody(before: Runtime, after: Runtime) -> bool {
    &&& forall|id: u64| #[trigger]
        after.scopes@.dom().contains(id) && after.scopes@[id].state is Disposed
            ==> before.scopes@.dom().contains(id) && before.scopes@[id].state is Disposed
    &&& keeps_disposing(before, after)
    &&& forall|fiber: u64| #[trigger]
        after.fibers@.dom().contains(fiber) ==> before.fibers@.dom().contains(fiber)
            && fares_well(before, after, fiber)
    &&& forall|fiber: u64| #[trigger]
        before.fibers@.dom().contains(fiber) && before.fibers@[fiber].provided@.len() > 0
            ==> after.fibers@.dom().contains(fiber)
    &&& keeps_closed(before, after)
    &&& keeps_services(before, after)
}

/// A fiber keeps its place and its entry in its scope, and its generation is closed where
/// its disposal begins.
pub open spec fn fares_well(before: Runtime, after: Runtime, fiber: u64) -> bool {
    let old = before.fibers@[fiber];
    let new = after.fibers@[fiber];
    &&& keeps_place(old, new)
    &&& !(new.state is Disposed) && is_listed(before, fiber) ==> is_listed(after, fiber)
    &&& has_gone(new) && (has_gone(old) ==> is_unlisted(before, fiber)) ==> is_unlisted(
        after,
        fiber,
    )
    &&& !(new.disposal.phase is Idle) ==> (!(old.disposal.phase is Idle) && new.generation
        == old.generation) || after.gates.at(new.generation).state is Closed
}

/// Whether the generations of all fibers were handed out.
spec fn knows_generations(runtime: Runtime) -> bool {
    forall|fiber: u64| #[trigger]
        runtime.fibers@.dom().contains(fiber) ==> runtime.fibers@[fiber].generation.raw
            < runtime.plugins.next_generation
}

proof fn lemma_knows_generations(runtime: Runtime)
    requires
        runtime.wf(),
    ensures
        knows_generations(runtime),
{
    assert forall|fiber: u64| #[trigger] runtime.fibers@.dom().contains(fiber) implies
        runtime.fibers@[fiber].generation.raw < runtime.plugins.next_generation by {
        assert(fiber_fits(
            runtime.scopes,
            runtime.services,
            runtime.plugins.next_generation,
            runtime.fibers@[fiber],
        ));
    }
}

proof fn lemma_nobody(before: Runtime, after: Runtime)
    requires
        knows_generations(before),
        is_sound(before),
        disturbs_nobody(before, after),
    ensures
        is_sound(after),
{
    assert forall|fiber: u64| #[trigger] after.fibers@.dom().contains(fiber) implies fiber_sound(
        after,
        fiber,
    ) by {
        assert(before.fibers@.dom().contains(fiber));
        assert(fiber_sound(before, fiber));
        let old = before.fibers@[fiber];
        let new = after.fibers@[fiber];
        assert(fares_well(before, after, fiber));
        if lies_in_disposed(after, fiber) {
            assert(after.scopes@.dom().contains(new.scope.raw));
            assert(lies_in_disposed(before, fiber));
        }
        assert(before.gates.at(old.generation) == before.gates.at(old.generation));
        assert(after.gates.at(new.generation) == after.gates.at(new.generation));
    }
    assert forall|slot: u128| #[trigger] after.services@.dom().contains(slot) implies is_provided(
        after,
        slot,
    ) by {
        assert(is_provided(before, slot));
        let owner = before.services@[slot].owner.raw;
        let old = before.fibers@[owner];
        let k = choose|k: int|
            #![trigger old.provided@[k]]
            0 <= k < old.provided@.len() && before.services.symbol_of(old.provided@[k]@) is Some
                && slot == slot_of(old.scope, before.services.symbol_of(old.provided@[k]@)->0);
        assert(after.fibers@.dom().contains(owner));
        assert(fares_well(before, after, owner));
        let new = after.fibers@[owner];
        assert(new.provided@[k] == old.provided@[k]);
        assert(before.services.symbol_of(old.provided@[k]@) is Some);
    }
}

/// What one step does: the runtime stays sound, and a fiber that is not disposed was
/// there before, in the same scope, and waits for its dependencies only if it did, unless
/// its scope is active.
pub open spec fn steps_soundly(before: Runtime, after: Runtime) -> bool {
    &&& is_sound(after)
    &&& forall|fiber: u64| #[trigger]
        after.fibers@.dom().contains(fiber) && !(after.fibers@[fiber].state is Disposed) ==> {
            let scope = after.fibers@[fiber].scope;
            ||| before.fibers@.dom().contains(fiber) && !(before.fibers@[fiber].state is Disposed)
                && before.fibers@[fiber].scope == scope && (
            after.fibers@[fiber].disposal.wait_for_dependencies
                ==> before.fibers@[fiber].disposal.wait_for_dependencies)
            ||| before.scopes@.dom().contains(scope.raw) && before.scopes@[scope.raw].state is Active
        }
    &&& keeps_faith(before, after)
}

/// A fiber that is disposed for good does not wait for its dependencies again, and one that
/// is disposed stays so.
pub open spec fn keeps_faith(before: Runtime, after: Runtime) -> bool {
    forall|fiber: u64| #[trigger]
        after.fibers@.dom().contains(fiber) && before.fibers@.dom().contains(fiber) ==> {
            &&& after.fibers@[fiber].disposal.wait_for_dependencies
                ==> before.fibers@[fiber].disposal.wait_for_dependencies
            &&& before.fibers@[fiber].state is Disposed ==> after.fibers@[fiber].state is Disposed
        }
}

/// What is not disturbed steps soundly.
proof fn lemma_nobody_steps(before: Runtime, after: Runtime)
    requires
        knows_generations(before),
        is_sound(before),
        disturbs_nobody(before, after),
    ensures
        steps_soundly(before, after),
        keeps_disposing(before, after),
{
    lemma_nobody(before, after);
    assert forall|fiber: u64| #[trigger]
        after.fibers@.dom().contains(fiber) && !(after.fibers@[fiber].state is Disposed) implies
        before.fibers@.dom().contains(fiber) && !(before.fibers@[fiber].state is Disposed)
        && before.fibers@[fiber].scope == after.fibers@[fiber].scope && (
    after.fibers@[fiber].disposal.wait_for_dependencies
        ==> before.fibers@[fiber].disposal.wait_for_dependencies) by {
        assert(fares_well(before, after, fiber));
        assert(fiber_sound(before, fiber));
    }
    assert forall|fiber: u64| #[trigger]
        after.fibers@.dom().contains(fiber) && before.fibers@.dom().contains(fiber) implies {
        &&& after.fibers@[fiber].disposal.wait_for_dependencies
            ==> before.fibers@[fiber].disposal.wait_for_dependencies
        &&& before.fibers@[fiber].state is Disposed ==> after.fibers@[fiber].state is Disposed
    } by {
        assert(fares_well(before, after, fiber));
        assert(fiber_sound(before, fiber));
    }
}

proof fn lemma_installs_soundly(
    before: Runtime,
    after: Runtime,
    scope: ScopeId,
    descriptor: PluginDescriptor,
    staged: bool,
    logical: Option<PluginId>,
    result: Result<InstallStep, CordisError>,
)
    requires
        knows_generations(before),
        is_sound(before),
        installs(before, after, scope, descriptor, staged, logical, result),
    ensures
        steps_soundly(before, after),
        keeps_disposing(before, after),
{
    if !before.admission.closed {
        let (named, interned) = choose|named: Runtime, interned: Result<(), CordisError>|
            {
                &&& #[trigger] interns_keys(
                    before,
                    named,
                    descriptor.dependencies@ + descriptor.provisions@,
                    interned,
                )
                &&& match interned {
                    Err(error) => result == Err::<InstallStep, CordisError>(error) && after
                        == named,
                    Ok(()) => admits(named, after, scope, descriptor, staged, logical, result),
                }
            };
        assert(disturbs_nobody(before, named));
        lemma_nobody_steps(before, named);
        if interned is Ok && exists|enrolled: Runtime, fiber: FiberId| #[trigger]
            enrolls(named, enrolled, scope, descriptor, staged, logical, fiber) && settles_install(
                enrolled,
                after,
                scope,
                descriptor,
                fiber,
                result,
            ) && named.scopes@.dom().contains(scope.raw)
                && named.scopes@[scope.raw].state is Active {
            let (enrolled, fiber) = choose|enrolled: Runtime, fiber: FiberId| #[trigger]
                enrolls(named, enrolled, scope, descriptor, staged, logical, fiber)
                    && settles_install(enrolled, after, scope, descriptor, fiber, result)
                    && named.scopes@.dom().contains(scope.raw)
                    && named.scopes@[scope.raw].state is Active;
            lemma_enrolls_soundly(named, enrolled, scope, descriptor, staged, logical, fiber);
            lemma_settles_soundly(enrolled, after, scope, descriptor, fiber, result);
        } else {
            assert(disturbs_nobody(named, after));
            lemma_nobody_steps(named, after);
        }
    }
}

proof fn lemma_settles_soundly(
    before: Runtime,
    after: Runtime,
    scope: ScopeId,
    descriptor: PluginDescriptor,
    fiber: FiberId,
    result: Result<InstallStep, CordisError>,
)
    requires
        knows_generations(before),
        is_sound(before),
        before.fibers@.dom().contains(fiber.raw),
        before.fibers@[fiber.raw].state is Created,
        before.fibers@[fiber.raw].provided@.len() == 0,
        before.fibers@[fiber.raw].disposal.is_idle(),
        settles_install(before, after, scope, descriptor, fiber, result),
    ensures
        steps_soundly(before, after),
        keeps_disposing(before, after),
{
    let moved = seq![fiber.raw];
    assert(moved[0] == fiber.raw);
    assert forall|other: u64| #[trigger] after.fibers@.dom().contains(other) implies
        before.fibers@.dom().contains(other) && fares_well(before, after, other) by {
        let list = before.scopes@[before.fibers@[other].scope.raw].fibers@;
        lemma_except_contains(list, moved, other);
        if result is Err {
            assert(other != fiber.raw);
        }
    }
    assert(keeps_services(before, after)) by {
        assert(after.services.keys == before.services.keys);
    }
    assert(disturbs_nobody(before, after));
    lemma_nobody_steps(before, after);
}

proof fn lemma_enrolls_soundly(
    before: Runtime,
    after: Runtime,
    scope: ScopeId,
    descriptor: PluginDescriptor,
    staged: bool,
    logical: Option<PluginId>,
    fiber: FiberId,
)
    requires
        knows_generations(before),
        is_sound(before),
        enrolls(before, after, scope, descriptor, staged, logical, fiber),
        before.scopes@.dom().contains(scope.raw),
        before.scopes@[scope.raw].state is Active,
    ensures
        steps_soundly(before, after),
        keeps_disposing(before, after),
        knows_generations(after),
{
    let list = before.scopes@[scope.raw].fibers@;
    assert forall|other: u64| #[trigger] after.fibers@.dom().contains(other) implies fiber_sound(
        after,
        other,
    ) by {
        vstd::seq_lib::lemma_seq_contains_after_push(list, fiber.raw, other);
        if other != fiber.raw {
            assert(before.fibers@.dom().contains(other));
            assert(fiber_sound(before, other));
            if lies_in_disposed(after, other) {
                assert(lies_in_disposed(before, other));
            }
        }
    }
    assert forall|slot: u128| #[trigger] after.services@.dom().contains(slot) implies is_provided(
        after,
        slot,
    ) by {
        assert(is_provided(before, slot));
    }
}

proof fn lemma_activates_soundly(
    before: Runtime,
    after: Runtime,
    fiber: FiberId,
    end: StartEnd,
    invocations: Result<(), CordisError>,
    step: ActivationStep,
)
    requires
        knows_generations(before),
        is_sound(before),
        completes_start(before, after, fiber, end, invocations, step),
    ensures
        steps_soundly(before, after),
        keeps_disposing(before, after),
{
    assert(after.scopes == before.scopes);
    assert(after.services.keys == before.services.keys);
    if before.fibers@.dom().contains(fiber.raw) {
        assert(fiber_sound(before, fiber.raw));
    }
    assert(disturbs_nobody(before, after));
    lemma_nobody_steps(before, after);
}

proof fn lemma_begins_soundly(
    before: Runtime,
    after: Runtime,
    fiber: FiberId,
    result: Result<ActivationTicket, CordisError>,
)
    requires
        knows_generations(before),
        is_sound(before),
        begins_activation(before, after, fiber, result),
    ensures
        steps_soundly(before, after),
        keeps_disposing(before, after),
{
    if before.fibers@.dom().contains(fiber.raw) {
        assert(fiber_sound(before, fiber.raw));
    }
    assert(disturbs_nobody(before, after));
    lemma_nobody_steps(before, after);
}

proof fn lemma_reloads_soundly(
    before: Runtime,
    after: Runtime,
    old: FiberId,
    staged: FiberId,
    revision: PreparedScopeRevision,
    invocations: Result<(), CordisError>,
    result: Result<Vec<HandlerId>, CordisError>,
)
    requires
        before.wf(),
        knows_generations(before),
        is_sound(before),
        is_revision_of(before, staged, revision),
        commits_revision(before, after, old, staged, revision, invocations, result),
    ensures
        steps_soundly(before, after),
        keeps_disposing(before, after),
{
    assert forall|id: u64| #[trigger]
        after.scopes@.dom().contains(id) && after.scopes@[id].state is Disposed implies
        before.scopes@.dom().contains(id) && before.scopes@[id].state is Disposed by {
        assert(after.scopes@[id] == after.scopes@[id]);
    }
    if result is Err {
        assert forall|other: u64| #[trigger] after.fibers@.dom().contains(other) implies fares_well(
            before,
            after,
            other,
        ) by {
            let scope = before.fibers@[other].scope.raw;
            assert(after.scopes@[scope] == after.scopes@[scope]);
        }
        assert(disturbs_nobody(before, after));
        lemma_nobody_steps(before, after);
    } else {
        lemma_switches_soundly(before, after, old, staged, revision);
    }
}

proof fn lemma_switches_soundly(
    before: Runtime,
    after: Runtime,
    old: FiberId,
    staged: FiberId,
    revision: PreparedScopeRevision,
)
    requires
        before.wf(),
        knows_generations(before),
        is_sound(before),
        is_revision_of(before, staged, revision),
        switches(before, after, old, staged, revision),
        before.fibers@.dom().contains(old.raw),
        before.fibers@.dom().contains(staged.raw),
        before.fibers@[staged.raw].state is Active,
        before.gates.staged(before.fibers@[staged.raw].generation),
        before.gates.visible(before.fibers@[old.raw].generation),
        before.scopes@.dom().contains(revision.staging.raw),
        before.scopes@.dom().contains(revision.target.raw),
        revision.fits(before.scopes@, revision.staging, revision.target),
        all_replaceable(
            before.services@,
            revision.staging,
            revision.target,
            symbols_of(before.services, before.fibers@[staged.raw].provided@),
            old,
            staged,
        ),
    ensures
        steps_soundly(before, after),
        keeps_disposing(before, after),
{
    let staging = revision.staging.raw;
    let target = revision.target.raw;
    let moved = seq![staged.raw];
    assert(moved[0] == staged.raw);
    assert(fiber_sound(before, staged.raw));
    assert forall|other: u64| #[trigger] after.fibers@.dom().contains(other) implies fiber_sound(
        after,
        other,
    ) by {
        assert(before.fibers@.dom().contains(other));
        assert(fiber_sound(before, other));
        let scope = after.fibers@[other].scope.raw;
        assert(after.scopes@[scope] == after.scopes@[scope]);
        assert(after.scopes@[target].state is Active);
        if other != staged.raw && lies_in_disposed(after, other) {
            assert(lies_in_disposed(before, other));
        }
        vstd::seq_lib::lemma_seq_contains_after_push(
            before.scopes@[target].fibers@,
            staged.raw,
            other,
        );
        lemma_except_contains(before.scopes@[staging].fibers@, moved, other);
    }
    assert(fiber_fits(
        before.scopes,
        before.services,
        before.plugins.next_generation,
        before.fibers@[staged.raw],
    ));
    lemma_switched_services(before, after, old, staged, revision);
}

proof fn lemma_switched_services(
    before: Runtime,
    after: Runtime,
    old: FiberId,
    staged: FiberId,
    revision: PreparedScopeRevision,
)
    requires
        is_sound(before),
        is_revision_of(before, staged, revision),
        switches(before, after, old, staged, revision),
        before.fibers@.dom().contains(staged.raw),
        revision.staging != revision.target,
        all_interned(before.services, before.fibers@[staged.raw].provided@),
        all_replaceable(
            before.services@,
            revision.staging,
            revision.target,
            symbols_of(before.services, before.fibers@[staged.raw].provided@),
            old,
            staged,
        ),
    ensures
        forall|slot: u128| #[trigger]
            after.services@.dom().contains(slot) ==> is_provided(after, slot),
{
    let record = before.fibers@[staged.raw];
    let next = after.fibers@[staged.raw];
    let symbols = symbols_of(before.services, record.provided@);
    assert forall|slot: u128| #[trigger] after.services@.dom().contains(slot) implies is_provided(
        after,
        slot,
    ) by {
        if is_slot_in(slot, revision.target, symbols) {
            let k = choose|k: int| 0 <= k < symbols.len() && symbols[k] == slot_symbol(slot);
            assert(replaceable(
                before.services@,
                revision.staging,
                revision.target,
                symbols[k],
                old,
                staged,
            ));
            assert(before.services.symbol_of(record.provided@[k]@) is Some);
            assert(next.provided@[k] == record.provided@[k]);
            assert(provides_at(after.services, next, slot));
        } else {
            assert(is_provided(before, slot));
            let owner = before.services@[slot].owner.raw;
            let old_record = before.fibers@[owner];
            let k = choose|k: int|
                #![trigger old_record.provided@[k]]
                0 <= k < old_record.provided@.len() && before.services.symbol_of(
                    old_record.provided@[k]@,
                ) is Some && slot == slot_of(
                    old_record.scope,
                    before.services.symbol_of(old_record.provided@[k]@)->0,
                );
            lemma_slot(
                old_record.scope,
                before.services.symbol_of(old_record.provided@[k]@)->0,
            );
            if owner == staged.raw {
                assert(symbols[k] == slot_symbol(slot));
                assert(is_slot_in(slot, revision.staging, symbols));
            }
            assert(after.fibers@[owner].provided@[k] == old_record.provided@[k]);
            assert(provides_at(after.services, after.fibers@[owner], slot));
        }
    }
}

/// Forgetting generations neither opens nor shows any.
proof fn lemma_retired_all(gates: Map<u64, CapabilityGate>, fibers: Fibers, gone: Seq<u64>)
    ensures
        forall|generation: u64| #[trigger]
            retired_all(gates, fibers, gone).dom().contains(generation) ==> gates.dom().contains(
                generation,
            ) && retired_all(gates, fibers, gone)[generation] == gates[generation],
    decreases gone.len(),
{
    if gone.len() > 0 {
        lemma_retired_all(gates, fibers, gone.drop_last());
        let rest = retired_all(gates, fibers, gone.drop_last());
        let all = retired_all(gates, fibers, gone);
        assert forall|generation: u64| #[trigger] all.dom().contains(generation) implies
            gates.dom().contains(generation) && all[generation] == gates[generation] by {
            assert(rest.dom().contains(generation));
        }
    }
}

proof fn lemma_collects_soundly(before: Runtime, after: Runtime, report: GarbageReport)
    requires
        knows_generations(before),
        is_sound(before),
        collects(before, after, report),
    ensures
        steps_soundly(before, after),
        keeps_disposing(before, after),
        keeps_closed(before, after),
        shows_no_more(before, after),
{
    let gone = before.fibers.order().filter(dead(before.fibers@));
    lemma_retired_all(before.gates@, before.fibers@, gone);
    let emptied = choose|emptied: Scopes|
        {
            &&& without_fibers(before.scopes@, emptied, gone)
            &&& collects_scopes(emptied, after.scopes@, before.scopes.root)
        };
    assert forall|id: u64| #[trigger] after.scopes@.dom().contains(id) implies
        before.scopes@.dom().contains(id) && after.scopes@[id].state == before.scopes@[id].state by {
        assert(emptied.dom().contains(id));
    }
    assert forall|fiber: u64| #[trigger] after.fibers@.dom().contains(fiber) implies fares_well(
        before,
        after,
        fiber,
    ) by {
        let scope = after.fibers@[fiber].scope.raw;
        if after.scopes@.dom().contains(scope) {
            assert(emptied.dom().contains(scope));
            lemma_except_contains(before.scopes@[scope].fibers@, gone, fiber);
            if gone.contains(fiber) {
                let k = choose|k: int| 0 <= k < gone.len() && gone[k] == fiber;
                before.fibers.order().lemma_filter_pred(dead(before.fibers@), k);
                assert(is_dead(before.fibers@, fiber));
            }
        }
    }
    assert forall|fiber: u64| #[trigger]
        before.fibers@.dom().contains(fiber) && before.fibers@[fiber].provided@.len() > 0 implies
        after.fibers@.dom().contains(fiber) by {
        assert(fiber_sound(before, fiber));
    }
    assert(disturbs_nobody(before, after));
    lemma_nobody_steps(before, after);
}

proof fn lemma_creates_soundly(
    before: Runtime,
    after: Runtime,
    parent: ScopeId,
    name: Arc<String>,
    hidden: bool,
    result: Result<ScopeId, CordisError>,
)
    requires
        before.wf(),
        is_sound(before),
        creates_scope(before, after, parent, name, hidden, result),
    ensures
        steps_soundly(before, after),
        keeps_disposing(before, after),
        keeps_closed(before, after),
        shows_no_more(before, after),
        knows_generations(after),
{
    lemma_knows_generations(before);
    if !before.admission.closed {
        let swept = choose|swept: Runtime|
            sweeps_if(before, swept, before.scopes@.dom().len() >= before.config.max_scopes)
                && #[trigger] makes_scope(swept, after, parent, name, hidden, result);
        if swept != before {
            let report = choose|report: GarbageReport| #[trigger] collects(before, swept, report);
            lemma_collects_soundly(before, swept, report);
        }
        assert forall|fiber: u64| #[trigger] swept.fibers@.dom().contains(fiber) implies is_issued(
            swept.scopes,
            swept.fibers@[fiber].scope,
        ) by {
            assert(before.fibers@.dom().contains(fiber));
            assert(fiber_fits(
                before.scopes,
                before.services,
                before.plugins.next_generation,
                before.fibers@[fiber],
            ));
            assert(is_issued(before.scopes, before.fibers@[fiber].scope));
        }
        assert forall|id: u64| #[trigger]
            after.scopes@.dom().contains(id) && after.scopes@[id].state is Disposed implies
            swept.scopes@.dom().contains(id) && swept.scopes@[id].state is Disposed by {
            if result is Ok && id != result->Ok_0.raw {
                assert(swept.scopes@.dom().contains(id));
            }
        }
        assert forall|fiber: u64| #[trigger]
            after.fibers@.dom().contains(fiber) implies fares_well(swept, after, fiber) by {
            let scope = swept.fibers@[fiber].scope;
            assert(is_issued(swept.scopes, scope));
            if swept.scopes@.dom().contains(scope.raw) {
                assert(after.scopes@.dom().contains(scope.raw));
            }
        }
        assert(disturbs_nobody(swept, after));
        lemma_nobody_steps(swept, after);
    }
}

proof fn lemma_disposes_soundly(
    before: Runtime,
    after: Runtime,
    fiber: FiberId,
    result: Result<(), CordisError>,
    target: Option<FiberState>,
    terminated: bool,
)
    requires
        knows_generations(before),
        is_sound(before),
        ends_disposal(before, after, fiber, result, target, terminated),
    ensures
        steps_soundly(before, after),
        keeps_disposing(before, after),
{
    assert(fiber_sound(before, fiber.raw));
    assert forall|other: u64| #[trigger] after.fibers@.dom().contains(other) implies
        before.fibers@.dom().contains(other) && fares_well(before, after, other) by {
        let list = before.scopes@[before.fibers@[fiber.raw].scope.raw].fibers@;
        lemma_except_contains(list, seq![fiber.raw], other);
        assert(seq![fiber.raw].contains(other) ==> other == fiber.raw);
        assert(seq![fiber.raw][0] == fiber.raw);
    }
    assert(disturbs_nobody(before, after));
    lemma_nobody_steps(before, after);
}

pub(crate) proof fn lemma_scope_ends_soundly(
    before: Runtime,
    after: Runtime,
    scope: ScopeId,
    result: Result<(), CordisError>,
    terminated: bool,
    job: ScopeDisposalJob,
)
    requires
        is_sound(before),
        ends_scope_disposal(before, after, scope, result, terminated, job),
    ensures
        steps_soundly(before, after),
{
    assert forall|fiber: u64| #[trigger] after.fibers@.dom().contains(fiber) implies fiber_sound(
        after,
        fiber,
    ) by {
        assert(before.fibers@.dom().contains(fiber));
        assert(fiber_sound(before, fiber));
        let id = after.fibers@[fiber].scope.raw;
        if before.scopes@.dom().contains(id) {
            assert(after.scopes@[id].fibers == before.scopes@[id].fibers);
            if id != scope.raw {
                assert(after.scopes@[id].state == before.scopes@[id].state);
                if lies_in_disposed(after, fiber) {
                    assert(lies_in_disposed(before, fiber));
                }
            }
        }
    }
    assert forall|slot: u128| #[trigger] after.services@.dom().contains(slot) implies is_provided(
        after,
        slot,
    ) by {
        assert(is_provided(before, slot));
    }
}

/// What a context adds, or does not.
proof fn lemma_adds_soundly(before: Runtime, after: Runtime, context: Context)
    requires
        before.wf(),
        is_sound(before),
        asks_for_more(before, after, context),
    ensures
        steps_soundly(before, after),
        keeps_disposing(before, after),
        keeps_closed(before, after),
        shows_no_more(before, after),
{
    lemma_knows_generations(before);
    let fiber = context.fiber.raw;
    if may_add(before, context) is Err {
        assert(after == before);
    } else {
        assert(before.fibers@.dom().contains(fiber));
        assert(fiber_sound(before, fiber));
        assert(before.fibers@[fiber].disposal.phase is Idle);
        if exists|key: ServiceKey, value: u64, result: Result<ServiceSymbol, CordisError>|
            #[trigger]
            enters_service(before, after, context, key, value, result) {
            let (key, value, result) = choose|
                key: ServiceKey,
                value: u64,
                result: Result<ServiceSymbol, CordisError>,
            | #[trigger]
                enters_service(before, after, context, key, value, result);
            lemma_provides_soundly(before, after, context, key, value, result);
        } else if exists|name: Seq<char>, result: Result<ScopeId, CordisError>| #[trigger]
            makes_child(before, after, context, name, result) {
            let (name, result) = choose|name: Seq<char>, result: Result<ScopeId, CordisError>|
                #[trigger]
                makes_child(before, after, context, name, result);
            lemma_child_soundly(before, after, context, name, result);
        } else {
            assert(after.services == before.services);
            assert(disturbs_nobody(before, after));
            lemma_nobody_steps(before, after);
        }
    }
}

proof fn lemma_child_soundly(
    before: Runtime,
    after: Runtime,
    context: Context,
    name: Seq<char>,
    result: Result<ScopeId, CordisError>,
)
    requires
        before.wf(),
        is_sound(before),
        makes_child(before, after, context, name, result),
        may_add(before, context) is Ok,
        before.fibers@[context.fiber.raw].disposal.phase is Idle,
    ensures
        steps_soundly(before, after),
        keeps_disposing(before, after),
        keeps_closed(before, after),
        shows_no_more(before, after),
{
    let (middle, label) = choose|middle: Runtime, label: Arc<String>|
        {
            &&& label@ == name
            &&& #[trigger] creates_scope(
                before,
                middle,
                before.fibers@[context.fiber.raw].scope,
                label,
                false,
                result,
            )
            &&& if result is Err || !middle.fibers@.dom().contains(context.fiber.raw) {
                after == middle
            } else {
                let record = middle.fibers@[context.fiber.raw];
                let next = after.fibers@[context.fiber.raw];
                &&& edits_fiber(middle, after, context.fiber, next)
                &&& next == (FiberRecord { child_scopes: next.child_scopes, ..record })
                &&& next.child_scopes@ == record.child_scopes@.push(result->Ok_0)
            }
        };
    lemma_creates_soundly(
        before,
        middle,
        before.fibers@[context.fiber.raw].scope,
        label,
        false,
        result,
    );
    if after != middle {
        assert(fiber_sound(middle, context.fiber.raw));
        assert(middle.fibers@[context.fiber.raw] == before.fibers@[context.fiber.raw]);
        assert(disturbs_nobody(middle, after));
        lemma_nobody_steps(middle, after);
    }
}

proof fn lemma_provides_soundly(
    before: Runtime,
    after: Runtime,
    context: Context,
    key: ServiceKey,
    value: u64,
    result: Result<ServiceSymbol, CordisError>,
)
    requires
        before.wf(),
        is_sound(before),
        enters_service(before, after, context, key, value, result),
        may_add(before, context) is Ok,
        before.fibers@[context.fiber.raw].disposal.phase is Idle,
    ensures
        steps_soundly(before, after),
        keeps_disposing(before, after),
{
    if after != before {
        let fiber = context.fiber.raw;
        let record = before.fibers@[fiber];
        let next = after.fibers@[fiber];
        let symbol = before.services.symbol_of(key@)->0;
        assert(fiber_fits(before.scopes, before.services, before.plugins.next_generation, record));
        assert(before.services.symbol_of(key@) is Some) by {
            let declared = record.descriptor.provisions@;
            let k = choose|k: int|
                0 <= k < key_views(declared).len() && key_views(declared)[k] == key@;
            assert(before.services.symbol_of(declared[k]@) is Some);
        }
        assert forall|other: u64| #[trigger] after.fibers@.dom().contains(other) implies fiber_sound(
            after,
            other,
        ) by {
            assert(fiber_sound(before, other));
        }
        assert forall|slot: u128| #[trigger]
            after.services@.dom().contains(slot) implies is_provided(after, slot) by {
            if slot == slot_of(record.scope, symbol) {
                let k = record.provided@.len() as int;
                assert(next.provided@[k] == key);
            } else {
                assert(is_provided(before, slot));
                let owner = before.services@[slot].owner.raw;
                let old = before.fibers@[owner];
                let k = choose|k: int|
                    #![trigger old.provided@[k]]
                    0 <= k < old.provided@.len() && before.services.symbol_of(
                        old.provided@[k]@,
                    ) is Some && slot == slot_of(
                        old.scope,
                        before.services.symbol_of(old.provided@[k]@)->0,
                    );
                assert(after.fibers@[owner].provided@[k] == old.provided@[k]);
            }
        }
    }
}

/// Withdrawing services of a fiber leaves none of them, and no others come.
pub proof fn law_withdrawn_services_are_gone(
    services: ServiceRegistry,
    entries: Entries,
    scope: ScopeId,
    fiber: FiberId,
    keys: Seq<ServiceKey>,
)
    ensures
        ({
            let left = withdrawn(services, entries, scope, fiber, keys).0;
            &&& forall|slot: u128| #[trigger]
                left.dom().contains(slot) ==> entries.dom().contains(slot) && left[slot]
                    == entries[slot]
            &&& forall|k: int|
                0 <= k < keys.len() ==> !owned_in(
                    left,
                    scope,
                    services.symbol_of((#[trigger] keys[k])@)->0,
                    fiber,
                )
        }),
    decreases keys.len(),
{
    if keys.len() > 0 {
        let symbol = services.symbol_of(keys.last()@)->0;
        let next = if owned_in(entries, scope, symbol, fiber) {
            entries.remove(slot_of(scope, symbol))
        } else {
            entries
        };
        law_withdrawn_services_are_gone(services, next, scope, fiber, keys.drop_last());
        let left = withdrawn(services, entries, scope, fiber, keys).0;
        assert(left == withdrawn(services, next, scope, fiber, keys.drop_last()).0);
        assert forall|slot: u128| #[trigger] left.dom().contains(slot) implies
            entries.dom().contains(slot) && left[slot] == entries[slot] by {
            assert(next.dom().contains(slot));
        }
        assert(!owned_in(left, scope, symbol, fiber)) by {
            if left.dom().contains(slot_of(scope, symbol)) {
                assert(next.dom().contains(slot_of(scope, symbol)));
            }
        }
        assert forall|k: int| 0 <= k < keys.len() implies !owned_in(
            left,
            scope,
            services.symbol_of((#[trigger] keys[k])@)->0,
            fiber,
        ) by {
            if k < keys.len() - 1 {
                assert(keys.drop_last()[k] == keys[k]);
            }
        }
    }
}

proof fn lemma_withdraws_soundly(
    before: Runtime,
    after: Runtime,
    fiber: FiberId,
    removed: Seq<ServiceSymbol>,
    target: FiberState,
    action: DisposalAction,
)
    requires
        is_sound(before),
        withdraws_in_turn(before, after, fiber, removed, target, action),
    ensures
        steps_soundly(before, after),
        keeps_disposing(before, after),
{
    let record = before.fibers@[fiber.raw];
    let next = after.fibers@[fiber.raw];
    assert(fiber_sound(before, fiber.raw));
    assert forall|other: u64| #[trigger] after.fibers@.dom().contains(other) implies fiber_sound(
        after,
        other,
    ) by {
        assert(before.fibers@.dom().contains(other));
        assert(fiber_sound(before, other));
        if lies_in_disposed(after, other) {
            assert(lies_in_disposed(before, other));
        }
    }
    law_withdrawn_services_are_gone(
        before.services,
        before.services@,
        record.scope,
        fiber,
        record.provided@,
    );
    assert forall|slot: u128| #[trigger] after.services@.dom().contains(slot) implies is_provided(
        after,
        slot,
    ) by {
        assert(is_provided(before, slot));
        let owner = before.services@[slot].owner.raw;
        let old = before.fibers@[owner];
        let k = choose|k: int|
            #![trigger old.provided@[k]]
            0 <= k < old.provided@.len() && before.services.symbol_of(old.provided@[k]@) is Some
                && slot == slot_of(old.scope, before.services.symbol_of(old.provided@[k]@)->0);
        if owner == fiber.raw {
            assert(!owned_in(
                after.services@,
                record.scope,
                before.services.symbol_of(record.provided@[k]@)->0,
                fiber,
            ));
        } else {
            assert(after.fibers@[owner].provided@[k] == old.provided@[k]);
        }
    }
}

/// Asking a fiber to go.
pub(crate) proof fn lemma_asks_soundly(
    before: Runtime,
    after: Runtime,
    fiber: FiberId,
    wait: bool,
    persistent: bool,
    allow: bool,
    start: Result<DisposalStart, CordisError>,
)
    requires
        before.wf(),
        is_sound(before),
        asks_to_go(before, after, fiber, wait, persistent, allow, start),
    ensures
        steps_soundly(before, after),
        keeps_disposing(before, after),
        keeps_closed(before, after),
        shows_no_more(before, after),
        after.fibers@.dom().contains(fiber.raw) && !wait && allow
            ==> !after.fibers@[fiber.raw].disposal.wait_for_dependencies,
{
    lemma_knows_generations(before);
    if before.fibers@.dom().contains(fiber.raw) {
        assert(fiber_sound(before, fiber.raw));
    }
    assert(disturbs_nobody(before, after));
    lemma_nobody_steps(before, after);
}

pub(crate) proof fn lemma_moves_soundly(before: Runtime, after: Runtime)
    requires
        before.wf(),
        is_sound(before),
        moves_on(before, after),
    ensures
        steps_soundly(before, after),
        keeps_disposing(before, after),
{
    lemma_knows_generations(before);
    if exists|
        scope: ScopeId,
        descriptor: PluginDescriptor,
        staged: bool,
        logical: Option<PluginId>,
        result: Result<InstallStep, CordisError>,
    | #[trigger]
        installs(before, after, scope, descriptor, staged, logical, result) {
        let (scope, descriptor, staged, logical, result) = choose|
            scope: ScopeId,
            descriptor: PluginDescriptor,
            staged: bool,
            logical: Option<PluginId>,
            result: Result<InstallStep, CordisError>,
        | #[trigger]
            installs(before, after, scope, descriptor, staged, logical, result);
        lemma_installs_soundly(before, after, scope, descriptor, staged, logical, result);
    } else if exists|fiber: FiberId, result: Result<ActivationTicket, CordisError>| #[trigger]
        begins_activation(before, after, fiber, result) {
        let (fiber, result) = choose|fiber: FiberId, result: Result<ActivationTicket, CordisError>|
            #[trigger]
            begins_activation(before, after, fiber, result);
        lemma_begins_soundly(before, after, fiber, result);
    } else if exists|
        fiber: FiberId,
        end: StartEnd,
        invocations: Result<(), CordisError>,
        step: ActivationStep,
    | #[trigger]
        completes_start(before, after, fiber, end, invocations, step) {
        let (fiber, end, invocations, step) = choose|
            fiber: FiberId,
            end: StartEnd,
            invocations: Result<(), CordisError>,
            step: ActivationStep,
        | #[trigger]
            completes_start(before, after, fiber, end, invocations, step);
        lemma_activates_soundly(before, after, fiber, end, invocations, step);
    } else if exists|
        old: FiberId,
        staged: FiberId,
        revision: PreparedScopeRevision,
        invocations: Result<(), CordisError>,
        result: Result<Vec<HandlerId>, CordisError>,
    |
        is_revision_of(before, staged, revision) && #[trigger] commits_revision(
            before,
            after,
            old,
            staged,
            revision,
            invocations,
            result,
        ) {
        let (old, staged, revision, invocations, result) = choose|
            old: FiberId,
            staged: FiberId,
            revision: PreparedScopeRevision,
            invocations: Result<(), CordisError>,
            result: Result<Vec<HandlerId>, CordisError>,
        |
            is_revision_of(before, staged, revision) && #[trigger] commits_revision(
                before,
                after,
                old,
                staged,
                revision,
                invocations,
                result,
            );
        lemma_reloads_soundly(before, after, old, staged, revision, invocations, result);
    } else if exists|report: GarbageReport| #[trigger] collects(before, after, report) {
        let report = choose|report: GarbageReport| #[trigger] collects(before, after, report);
        lemma_collects_soundly(before, after, report);
    } else if exists|
        parent: ScopeId,
        name: Arc<String>,
        hidden: bool,
        result: Result<ScopeId, CordisError>,
    | #[trigger]
        creates_scope(before, after, parent, name, hidden, result) {
        let (parent, name, hidden, result) = choose|
            parent: ScopeId,
            name: Arc<String>,
            hidden: bool,
            result: Result<ScopeId, CordisError>,
        | #[trigger]
            creates_scope(before, after, parent, name, hidden, result);
        lemma_creates_soundly(before, after, parent, name, hidden, result);
    } else if exists|fiber: u64, record: FiberRecord| #[trigger]
        touches_fiber(before, after, fiber, record) {
        assert(disturbs_nobody(before, after));
        lemma_nobody_steps(before, after);
    } else if exists|scope: u64, record: ScopeRecord| #[trigger]
        touches_scope(before, after, scope, record) {
        assert(disturbs_nobody(before, after));
        lemma_nobody_steps(before, after);
    } else if touches_nobody(before, after) {
        assert(disturbs_nobody(before, after));
        lemma_nobody_steps(before, after);
    } else if exists|
        fiber: FiberId,
        wait: bool,
        persistent: bool,
        allow: bool,
        start: Result<DisposalStart, CordisError>,
    | #[trigger]
        asks_to_go(before, after, fiber, wait, persistent, allow, start) {
        let (fiber, wait, persistent, allow, start) = choose|
            fiber: FiberId,
            wait: bool,
            persistent: bool,
            allow: bool,
            start: Result<DisposalStart, CordisError>,
        | #[trigger]
            asks_to_go(before, after, fiber, wait, persistent, allow, start);
        lemma_asks_soundly(before, after, fiber, wait, persistent, allow, start);
    } else if exists|context: Context| #[trigger] asks_for_more(before, after, context) {
        let context = choose|context: Context| #[trigger] asks_for_more(before, after, context);
        lemma_adds_soundly(before, after, context);
    } else if exists|
        fiber: FiberId,
        removed: Seq<ServiceSymbol>,
        target: FiberState,
        action: DisposalAction,
    | #[trigger]
        withdraws_in_turn(before, after, fiber, removed, target, action) {
        let (fiber, removed, target, action) = choose|
            fiber: FiberId,
            removed: Seq<ServiceSymbol>,
            target: FiberState,
            action: DisposalAction,
        | #[trigger]
            withdraws_in_turn(before, after, fiber, removed, target, action);
        lemma_withdraws_soundly(before, after, fiber, removed, target, action);
    } else {
        let (fiber, result, target, terminated) = choose|
            fiber: FiberId,
            result: Result<(), CordisError>,
            target: Option<FiberState>,
            terminated: bool,
        | #[trigger]
            ends_disposal(before, after, fiber, result, target, terminated);
        lemma_disposes_soundly(before, after, fiber, result, target, terminated);
    }
}

pub(crate) proof fn lemma_steps_soundly(before: Runtime, after: Runtime)
    requires
        before.wf(),
        is_sound(before),
        lifecycle_step(before, after),
    ensures
        steps_soundly(before, after),
{
    if moves_on(before, after) {
        lemma_moves_soundly(before, after);
    } else {
        let (scope, result, terminated, job) = choose|
            scope: ScopeId,
            result: Result<(), CordisError>,
            terminated: bool,
            job: ScopeDisposalJob,
        | #[trigger]
            ends_scope_disposal(before, after, scope, result, terminated, job);
        lemma_scope_ends_soundly(before, after, scope, result, terminated, job);
    }
}

/// A new runtime is sound.
pub proof fn law_new_runtimes_are_sound(runtime: Runtime, config: RuntimeConfig)
    requires
        is_new(runtime, config),
    ensures
        is_sound(runtime),
{
}

/// A disposed scope holds no active fiber, whatever step is taken: every fiber in it
/// is disposed and stays so.
pub proof fn law_disposed_scopes_stay_quiet(before: Runtime, after: Runtime)
    requires
        before.wf(),
        is_sound(before),
        lifecycle_step(before, after),
    ensures
        is_sound(after),
        forall|fiber: u64| #[trigger]
            after.fibers@.dom().contains(fiber) && lies_in_disposed(after, fiber)
                ==> !(after.fibers@[fiber].state is Active),
{
    lemma_steps_soundly(before, after);
    assert forall|fiber: u64| #[trigger]
        after.fibers@.dom().contains(fiber) && lies_in_disposed(after, fiber) implies !(
    after.fibers@[fiber].state is Active) by {}
}

/// The disposal of a scope begins with every fiber of the scope before it.
pub proof fn law_scope_disposal_begins_with_everybody(
    runtime: Runtime,
    job: ScopeDisposalJob,
    scope: ScopeId,
)
    requires
        is_sound(runtime),
        runtime.scopes@.dom().contains(scope.raw),
        job.begins(scope, runtime.scopes@[scope.raw]),
    ensures
        covers(runtime, job, None),
{
    assert forall|fiber: u64| #[trigger]
        runtime.fibers@.dom().contains(fiber) && runtime.fibers@[fiber].scope == job.scope && !(
        runtime.fibers@[fiber].state is Disposed) implies job.fibers@.contains(fiber) by {
        assert(is_listed(runtime, fiber));
    }
}

/// Whatever else happens meanwhile, the disposal of a scope misses nobody: nobody comes
/// into a scope that is no longer active.
pub proof fn law_scope_disposal_misses_nobody(
    before: Runtime,
    after: Runtime,
    job: ScopeDisposalJob,
    dealt_with: Option<FiberId>,
)
    requires
        before.wf(),
        is_sound(before),
        lifecycle_step(before, after),
        covers(before, job, dealt_with),
        before.scopes@.dom().contains(job.scope.raw) ==> !(
        before.scopes@[job.scope.raw].state is Active),
    ensures
        covers(after, job, dealt_with),
{
    lemma_steps_soundly(before, after);
    if !job.terminated {
        assert forall|fiber: u64| #[trigger]
            after.fibers@.dom().contains(fiber) && after.fibers@[fiber].scope == job.scope && !(
            after.fibers@[fiber].state is Disposed) implies job.fibers@.contains(fiber)
            || dealt_with == Some(FiberId { raw: fiber }) by {
            assert(before.fibers@.dom().contains(fiber));
        }
    }
}

/// A disposal of a scope that takes its next step deals with one fiber at most, and has
/// the others before it still.
pub proof fn law_scope_disposal_deals_with_one_by_one(
    runtime: Runtime,
    before: ScopeDisposalJob,
    after: ScopeDisposalJob,
    step: ScopeStep,
)
    requires
        covers(runtime, before, None),
        goes_on(before, after, runtime, step),
    ensures
        match step {
            ScopeStep::DisposeChild { child, persistent } => covers(runtime, after, None),
            ScopeStep::DisposeFiber { fiber, persistent } => covers(runtime, after, Some(fiber)),
            ScopeStep::Finish => before.terminated || went_through(runtime, after, before.scope),
        },
{
    if !before.terminated {
        assert forall|fiber: u64| #[trigger]
            runtime.fibers@.dom().contains(fiber) && runtime.fibers@[fiber].scope == after.scope
                && !(runtime.fibers@[fiber].state is Disposed) implies match step {
            ScopeStep::DisposeChild { child, persistent } => after.fibers@.contains(fiber),
            ScopeStep::DisposeFiber { fiber: next, persistent } => after.fibers@.contains(fiber)
                || next.raw == fiber,
            ScopeStep::Finish => false,
        } by {
            let k = choose|k: int| 0 <= k < before.fibers@.len() && before.fibers@[k] == fiber;
            assert(before.fibers@[k] == fiber);
            if let ScopeStep::DisposeFiber { fiber: next, persistent } = step {
                if k < after.fibers@.len() {
                    assert(after.fibers@[k] == fiber);
                }
            }
        }
    }
}

/// A fiber that a scope disposal dealt with is disposed, or the disposal ends early: it was
/// asked to go for good.
pub proof fn law_scope_disposal_leaves_nobody(
    runtime: Runtime,
    before: ScopeDisposalJob,
    after: ScopeDisposalJob,
    fiber: FiberId,
    result: Result<(), CordisError>,
)
    requires
        is_sound(runtime),
        covers(runtime, before, Some(fiber)),
        hears_of_fiber(before, after, runtime, fiber, result),
        result is Ok && runtime.fibers@.dom().contains(fiber.raw) ==> is_told(
            runtime.fibers@[fiber.raw],
        ),
        runtime.fibers@.dom().contains(fiber.raw)
            ==> !runtime.fibers@[fiber.raw].disposal.wait_for_dependencies,
    ensures
        covers(runtime, after, None),
{
    if runtime.fibers@.dom().contains(fiber.raw) {
        assert(fiber_sound(runtime, fiber.raw));
    }
}

/// What a scope disposal hears of a child does not make it miss a fiber.
pub proof fn law_children_hide_nobody(
    runtime: Runtime,
    before: ScopeDisposalJob,
    after: ScopeDisposalJob,
    child: ScopeId,
    result: Result<(), CordisError>,
)
    requires
        covers(runtime, before, None),
        hears_of_child(before, after, runtime, child, result),
    ensures
        covers(runtime, after, None),
{
}

/// Every registered service has an owner that is there and not disposed.
pub proof fn law_services_have_living_owners(runtime: Runtime, slot: u128)
    requires
        is_sound(runtime),
        runtime.services@.dom().contains(slot),
    ensures
        runtime.fibers@.dom().contains(runtime.services@[slot].owner.raw),
        !(runtime.fibers@[runtime.services@[slot].owner.raw].state is Disposed),
{
    assert(is_provided(runtime, slot));
    assert(fiber_sound(runtime, runtime.services@[slot].owner.raw));
}

/// A disposed fiber left nothing: it owns no task, no effect, no handler, no scope and no
/// service, and its generation takes no more work.
pub proof fn law_disposed_fibers_own_nothing(runtime: Runtime, fiber: u64)
    requires
        is_sound(runtime),
        runtime.fibers@.dom().contains(fiber),
        runtime.fibers@[fiber].state is Disposed,
    ensures
        owns_nothing(runtime.fibers@[fiber]),
        runtime.gates.at(runtime.fibers@[fiber].generation).state is Closed,
        forall|slot: u128| #[trigger]
            runtime.services@.dom().contains(slot) ==> runtime.services@[slot].owner.raw != fiber,
{
    assert(fiber_sound(runtime, fiber));
    assert forall|slot: u128| #[trigger] runtime.services@.dom().contains(slot) implies
        runtime.services@[slot].owner.raw != fiber by {
        assert(is_provided(runtime, slot));
    }
}

/// One step of the disposal of a fiber but the withdrawal of its services: its tasks were
/// joined, its generation was drained, a child scope or an effect was disposed, or those
/// that depended on it have acted.
pub open spec fn cleans(before: FiberRecord, after: FiberRecord) -> bool {
    ||| exists|noted: FiberRecord, result: Result<(), CordisError>|
        {
            &&& before.disposal.phase is Tasks
            &&& before.tasks@.len() == 0
            &&& #[trigger] notes_failure(before, noted, CleanupPhase::TaskDrain, result)
            &&& after == in_phase(noted, DisposalPhase::Draining)
        }
    ||| exists|action: DisposalAction|
        {
            &&& before.disposal.phase is Draining
            &&& #[trigger] next_after_children(
                in_phase(before, DisposalPhase::ChildScopes),
                after,
                action,
            )
        }
    ||| exists|
        noted: FiberRecord,
        left: FiberRecord,
        child: ScopeId,
        result: Result<(), CordisError>,
        action: DisposalAction,
    |
        {
            &&& before.disposal.phase is ChildScopes
            &&& #[trigger] notes_failure(before, noted, CleanupPhase::ChildScopeCleanup, result)
            &&& left == (FiberRecord { child_scopes: left.child_scopes, ..noted })
            &&& left.child_scopes@ == noted.child_scopes@.filter(#[trigger] other_than(child))
            &&& #[trigger] next_after_children(left, after, action)
        }
    ||| exists|
        noted: FiberRecord,
        result: Result<(), CordisError>,
        removed: Seq<ServiceSymbol>,
        closed: bool,
        target: FiberState,
        action: DisposalAction,
    |
        {
            &&& before.disposal.phase is Effects
            &&& #[trigger] notes_failure(before, noted, CleanupPhase::EffectCleanup, result)
            &&& #[trigger] next_after_services(noted, after, removed, closed, target, action)
        }
    ||| exists|result: Result<(), CordisError>|
        {
            &&& before.disposal.phase is Reconciling
            &&& #[trigger] notes_failure(before, after, CleanupPhase::DependencyCleanup, result)
        }
}

/// The disposal of a fiber goes forward: what it cleaned up stays clean.
pub proof fn law_disposals_go_forward(before: FiberRecord, after: FiberRecord)
    requires
        record_sound(before),
        cleans(before, after),
    ensures
        keeps_place(before, after),
        after.state == before.state,
        after.generation == before.generation,
{
}

/// The generation of a fiber that was staged becomes visible, and the fiber is active and
/// no longer staged.
pub open spec fn becomes_public(
    before: Runtime,
    after: Runtime,
    fiber: u64,
    generation: GenerationId,
) -> bool {
    &&& before.fibers@.dom().contains(fiber)
    &&& before.fibers@[fiber].generation == generation
    &&& before.gates.staged(generation)
    &&& after.fibers@.dom().contains(fiber)
    &&& after.fibers@[fiber].state is Active
    &&& !after.fibers@[fiber].staged
}

proof fn lemma_install_shows_nothing(
    before: Runtime,
    after: Runtime,
    scope: ScopeId,
    descriptor: PluginDescriptor,
    staged: bool,
    logical: Option<PluginId>,
    result: Result<InstallStep, CordisError>,
)
    requires
        installs(before, after, scope, descriptor, staged, logical, result),
    ensures
        shows_no_more(before, after),
{
    if !before.admission.closed {
        let (named, interned) = choose|named: Runtime, interned: Result<(), CordisError>|
            {
                &&& #[trigger] interns_keys(
                    before,
                    named,
                    descriptor.dependencies@ + descriptor.provisions@,
                    interned,
                )
                &&& match interned {
                    Err(error) => result == Err::<InstallStep, CordisError>(error) && after
                        == named,
                    Ok(()) => admits(named, after, scope, descriptor, staged, logical, result),
                }
            };
        assert(named.gates == before.gates);
        if after.gates != named.gates {
            let (enrolled, fiber) = choose|enrolled: Runtime, fiber: FiberId| #[trigger]
                enrolls(named, enrolled, scope, descriptor, staged, logical, fiber)
                    && settles_install(enrolled, after, scope, descriptor, fiber, result);
            assert(shows_no_more(named, enrolled));
            assert(shows_no_more(enrolled, after));
            assert forall|generation: GenerationId| #[trigger]
                after.gates.visible(generation) implies before.gates.visible(generation) by {
                assert(enrolled.gates.visible(generation));
            }
        }
    }
}

/// What is staged stays hidden: a generation becomes visible only in the step in which its
/// fiber becomes active and is no longer staged.
pub proof fn law_only_commits_publish(before: Runtime, after: Runtime, generation: GenerationId)
    requires
        before.wf(),
        is_sound(before),
        lifecycle_step(before, after),
        !before.gates.visible(generation),
        after.gates.visible(generation),
    ensures
        exists|fiber: u64| #[trigger] becomes_public(before, after, fiber, generation),
{
    lemma_knows_generations(before);
    if exists|
        scope: ScopeId,
        descriptor: PluginDescriptor,
        staged: bool,
        logical: Option<PluginId>,
        result: Result<InstallStep, CordisError>,
    | #[trigger]
        installs(before, after, scope, descriptor, staged, logical, result) {
        let (scope, descriptor, staged, logical, result) = choose|
            scope: ScopeId,
            descriptor: PluginDescriptor,
            staged: bool,
            logical: Option<PluginId>,
            result: Result<InstallStep, CordisError>,
        | #[trigger]
            installs(before, after, scope, descriptor, staged, logical, result);
        lemma_install_shows_nothing(before, after, scope, descriptor, staged, logical, result);
    } else if exists|
        fiber: FiberId,
        end: StartEnd,
        invocations: Result<(), CordisError>,
        step: ActivationStep,
    | #[trigger]
        completes_start(before, after, fiber, end, invocations, step) {
        let (fiber, end, invocations, step) = choose|
            fiber: FiberId,
            end: StartEnd,
            invocations: Result<(), CordisError>,
            step: ActivationStep,
        | #[trigger]
            completes_start(before, after, fiber, end, invocations, step);
        assert(becomes_public(before, after, fiber.raw, generation));
    } else if exists|
        old: FiberId,
        staged: FiberId,
        revision: PreparedScopeRevision,
        invocations: Result<(), CordisError>,
        result: Result<Vec<HandlerId>, CordisError>,
    |
        is_revision_of(before, staged, revision) && #[trigger] commits_revision(
            before,
            after,
            old,
            staged,
            revision,
            invocations,
            result,
        ) {
        let (old, staged, revision, invocations, result) = choose|
            old: FiberId,
            staged: FiberId,
            revision: PreparedScopeRevision,
            invocations: Result<(), CordisError>,
            result: Result<Vec<HandlerId>, CordisError>,
        |
            is_revision_of(before, staged, revision) && #[trigger] commits_revision(
                before,
                after,
                old,
                staged,
                revision,
                invocations,
                result,
            );
        if result is Err {
            assert(after.gates@ == before.gates@);
        }
        assert(becomes_public(before, after, staged.raw, generation));
    } else if exists|report: GarbageReport| #[trigger] collects(before, after, report) {
        let report = choose|report: GarbageReport| #[trigger] collects(before, after, report);
        lemma_collects_soundly(before, after, report);
    } else if exists|
        parent: ScopeId,
        name: Arc<String>,
        hidden: bool,
        result: Result<ScopeId, CordisError>,
    | #[trigger]
        creates_scope(before, after, parent, name, hidden, result) {
        let (parent, name, hidden, result) = choose|
            parent: ScopeId,
            name: Arc<String>,
            hidden: bool,
            result: Result<ScopeId, CordisError>,
        | #[trigger]
            creates_scope(before, after, parent, name, hidden, result);
        lemma_creates_soundly(before, after, parent, name, hidden, result);
    } else if exists|context: Context| #[trigger] asks_for_more(before, after, context) {
        let context = choose|context: Context| #[trigger] asks_for_more(before, after, context);
        lemma_adds_soundly(before, after, context);
    } else {
        assert(shows_no_more(before, after));
    }
}

/// Once the runtime shuts down it takes nothing new, whatever step is taken: no fiber and no
/// scope comes, no generation becomes visible, and it stays closed.
pub proof fn law_closed_runtimes_take_nothing(before: Runtime, after: Runtime)
    requires
        before.wf(),
        is_sound(before),
        before.admission.closed,
        lifecycle_step(before, after),
    ensures
        after.admission.closed,
        forall|fiber: u64| #[trigger]
            after.fibers@.dom().contains(fiber) ==> before.fibers@.dom().contains(fiber),
        forall|scope: u64| #[trigger]
            after.scopes@.dom().contains(scope) ==> before.scopes@.dom().contains(scope),
        shows_no_more(before, after),
{
    lemma_knows_generations(before);
    if exists|report: GarbageReport| #[trigger] collects(before, after, report) {
        let report = choose|report: GarbageReport| #[trigger] collects(before, after, report);
        lemma_collects_soundly(before, after, report);
        let gone = before.fibers.order().filter(dead(before.fibers@));
        let emptied = choose|emptied: Scopes|
            {
                &&& without_fibers(before.scopes@, emptied, gone)
                &&& collects_scopes(emptied, after.scopes@, before.scopes.root)
            };
        assert forall|scope: u64| #[trigger] after.scopes@.dom().contains(scope) implies
            before.scopes@.dom().contains(scope) by {
            assert(emptied.dom().contains(scope));
        }
    }
}

/// Whether the slot of `id` came to its last version and was vacated: its versions begin
/// anew.
pub open spec fn is_used_up(before: FiberRegistry, after: FiberRegistry, id: u64) -> bool {
    &&& before.versions()[id_index(id)] == u32::MAX - 1
    &&& after.versions()[id_index(id)] == 0
}

/// Every fiber id that was retired is so still.
pub open spec fn keeps_retired(before: Runtime, after: Runtime) -> bool {
    forall|id: u64| #[trigger]
        before.fibers.retired(id) ==> after.fibers.retired(id) || is_used_up(
            before.fibers,
            after.fibers,
            id,
        )
}

proof fn lemma_install_retires_nobody(
    before: Runtime,
    after: Runtime,
    scope: ScopeId,
    descriptor: PluginDescriptor,
    staged: bool,
    logical: Option<PluginId>,
    result: Result<InstallStep, CordisError>,
)
    requires
        installs(before, after, scope, descriptor, staged, logical, result),
    ensures
        keeps_retired(before, after),
{
    if !before.admission.closed {
        let (named, interned) = choose|named: Runtime, interned: Result<(), CordisError>|
            {
                &&& #[trigger] interns_keys(
                    before,
                    named,
                    descriptor.dependencies@ + descriptor.provisions@,
                    interned,
                )
                &&& match interned {
                    Err(error) => result == Err::<InstallStep, CordisError>(error) && after
                        == named,
                    Ok(()) => admits(named, after, scope, descriptor, staged, logical, result),
                }
            };
        assert(named.fibers == before.fibers);
        if after.fibers != named.fibers {
            let (enrolled, fiber) = choose|enrolled: Runtime, fiber: FiberId| #[trigger]
                enrolls(named, enrolled, scope, descriptor, staged, logical, fiber)
                    && settles_install(enrolled, after, scope, descriptor, fiber, result);
            assert(keeps_retired(before, after));
        }
    }
}

/// The id of a fiber that is gone never names another, whatever step is taken: it stays
/// retired, unless the slot of the id has no version left.
pub proof fn law_retired_fibers_stay_retired(before: Runtime, after: Runtime, id: u64)
    requires
        before.wf(),
        lifecycle_step(before, after),
        before.fibers.retired(id),
    ensures
        after.fibers.retired(id) || is_used_up(before.fibers, after.fibers, id),
{
    if exists|
        scope: ScopeId,
        descriptor: PluginDescriptor,
        staged: bool,
        logical: Option<PluginId>,
        result: Result<InstallStep, CordisError>,
    | #[trigger]
        installs(before, after, scope, descriptor, staged, logical, result) {
        let (scope, descriptor, staged, logical, result) = choose|
            scope: ScopeId,
            descriptor: PluginDescriptor,
            staged: bool,
            logical: Option<PluginId>,
            result: Result<InstallStep, CordisError>,
        | #[trigger]
            installs(before, after, scope, descriptor, staged, logical, result);
        lemma_install_retires_nobody(before, after, scope, descriptor, staged, logical, result);
    }
    assert(after.fibers.retired(id) || is_used_up(before.fibers, after.fibers, id));
}

/// Fibers, scopes, symbols and remembered resolutions never exceed their limits.
pub proof fn law_capacities_hold(runtime: Runtime)
    requires
        runtime.wf(),
    ensures
        runtime.scopes@.dom().len() <= runtime.config.max_scopes,
        runtime.fibers@.dom().len() <= runtime.config.max_fibers,
        runtime.services.keys@.len() <= runtime.config.max_interned_symbols,
        runtime.services.cache@.dom().len() <= runtime.config.max_resolution_cache_entries,
{
    crate::service_registry::law_cache_is_bounded(runtime.services);
}

} // verus!
