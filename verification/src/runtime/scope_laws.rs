//! What the life of a scope keeps and tells.
#[allow(unused_imports)]
use super::activation::{begins_activation, ActivationTicket};
#[allow(unused_imports)]
use super::disposal::{ends_fiber_worker, is_fiber_outcome, DisposalEnd};
#[allow(unused_imports)]
use super::install::{installs, InstallStep};
#[allow(unused_imports)]
use super::scope::{
    asks_scope_to_go, creates_scope, ends_scope_job, ends_scope_worker, finalizes_scope, goes_on,
    hears_of_child, hears_of_fiber, is_scope_outcome, observes_scope_disposal, takes_up_scope,
    DisposalStart, ScopeDisposalJob, ScopeStep, WorkerExit,
};
#[allow(unused_imports)]
use super::{quota_rejected, Runtime};
#[allow(unused_imports)]
use crate::arena::id_version;
#[allow(unused_imports)]
use crate::disposal::{DisposalObservation, DisposalTerminal, DisposeOutcome, ScopeDisposeOutcome};
#[allow(unused_imports)]
use crate::error::CordisError;
#[allow(unused_imports)]
use crate::fiber_registry::PluginDescriptor;
#[allow(unused_imports)]
use crate::id_list::lemma_except_contains;
#[allow(unused_imports)]
use crate::ids::{FiberId, PluginId, ScopeId};
#[allow(unused_imports)]
use crate::state::ScopeState;
use std::sync::Arc;
use vstd::prelude::*;

verus! {

/// A scope that is made is new and empty, lies below the one that was asked for, and is listed
/// there; no other scope changes. While there is room it is made exactly where the runtime
/// takes new work, the parent takes new scopes, and the new scope does not lie too deep; no
/// fiber, service or generation is touched.
pub proof fn law_made_scopes_are_new(
    before: Runtime,
    after: Runtime,
    parent: ScopeId,
    name: Arc<String>,
    hidden: bool,
    result: Result<ScopeId, CordisError>,
)
    requires
        creates_scope(before, after, parent, name, hidden, result),
        before.scopes@.dom().len() < before.config.max_scopes,
    ensures
        result is Ok && before.scopes.rooted(parent) ==> before.scopes.above(parent).len()
            <= before.config.max_scope_depth,
        result is Err && !before.admission.closed && before.scopes@.dom().contains(parent.raw)
            && before.scopes@[parent.raw].state is Active && before.scopes.rooted(parent)
            ==> before.scopes.above(parent).len() == 0 || before.scopes.above(parent).len()
            > before.config.max_scope_depth,
        result is Ok <==> !before.admission.closed && before.scopes@.dom().contains(parent.raw)
            && before.scopes@[parent.raw].state is Active && before.scopes.child_depth(parent)
            <= before.config.max_scope_depth,
        result matches Ok(id) ==> {
            &&& !before.scopes@.dom().contains(id.raw)
            &&& after.scopes@.dom() == before.scopes@.dom().insert(id.raw)
            &&& after.scopes@[id.raw].parent == Some(parent)
            &&& after.scopes@[id.raw].name == name
            &&& after.scopes@[id.raw].hidden == hidden
            &&& after.scopes@[id.raw].state is Active
            &&& after.scopes@[id.raw].children@.len() == 0
            &&& after.scopes@[id.raw].fibers@.len() == 0
            &&& after.scopes@[id.raw].disposal.observation is None
            &&& !after.scopes@[id.raw].disposal.persistent
            &&& after.scopes@[id.raw].disposal.issues@.len() == 0
            &&& after.scopes@[parent.raw].children@ == before.scopes@[parent.raw].children@.push(
                id.raw,
            )
            &&& after.scopes@[parent.raw].fibers == before.scopes@[parent.raw].fibers
            &&& after.scopes@[parent.raw].state == before.scopes@[parent.raw].state
            &&& forall|other: u64| #[trigger]
                before.scopes@.dom().contains(other) && other != parent.raw
                    ==> after.scopes@[other] == before.scopes@[other]
        },
        result matches Err(error) ==> {
            &&& error is RuntimeShuttingDown <==> before.admission.closed
            &&& error is ScopeNotFound ==> !before.scopes@.dom().contains(parent.raw)
            &&& error matches CordisError::ScopeDisposed(told) ==> told == parent && !(
            before.scopes@[parent.raw].state is Active)
            &&& error matches CordisError::ResourceLimitExceeded { resource, limit } ==> resource
                is ScopeDepth && limit == before.config.max_scope_depth
                && before.scopes.child_depth(parent) > limit
        },
        result is Err ==> after.scopes == before.scopes,
        after.fibers == before.fibers,
        after.gates == before.gates,
        after.services == before.services,
        after.tasks == before.tasks,
{
}

/// A scope whose disposal was asked for takes nothing new, whatever came of the request: no
/// fiber is installed in it, no scope is made below it, and no fiber of it is activated.
pub proof fn law_scopes_that_go_take_nothing(
    before: Runtime,
    after: Runtime,
    scope: ScopeId,
    persistent: bool,
    start: DisposalStart,
    installed: (Runtime, PluginDescriptor, bool, Option<PluginId>, Result<InstallStep, CordisError>),
    made: (Runtime, Arc<String>, bool, Result<ScopeId, CordisError>),
    activated: (Runtime, FiberId, Result<ActivationTicket, CordisError>),
)
    requires
        asks_scope_to_go(before, after, scope, persistent, Ok(start)),
        installs(after, installed.0, scope, installed.1, installed.2, installed.3, installed.4),
        after.scopes@.dom().len() < after.config.max_scopes,
        creates_scope(after, made.0, scope, made.1, made.2, made.3),
        begins_activation(after, activated.0, activated.1, activated.2),
        after.fibers@.dom().contains(activated.1.raw),
        after.fibers@[activated.1.raw].scope == scope,
    ensures
        !(after.scopes@[scope.raw].state is Active),
        installed.4 is Err,
        made.3 is Err,
        activated.2 is Err,
        activated.0 == after,
{
}

/// The disposal of a scope begins once, with the first request; whoever asks later joins, and
/// can only make it more persistent. A scope that is gone is refused. Nothing else changes.
pub proof fn law_scope_disposals_begin_once(
    before: Runtime,
    middle: Runtime,
    after: Runtime,
    scope: ScopeId,
    persistent: (bool, bool),
    start: Result<DisposalStart, CordisError>,
    again: Result<DisposalStart, CordisError>,
)
    requires
        asks_scope_to_go(before, middle, scope, persistent.0, start),
        asks_scope_to_go(middle, after, scope, persistent.1, again),
    ensures
        start is Err <==> !before.scopes@.dom().contains(scope.raw),
        start matches Ok(DisposalStart::Started) <==> before.scopes@.dom().contains(scope.raw)
            && before.scopes@[scope.raw].state is Active,
        start matches Ok(DisposalStart::Started) ==> middle.scopes@[scope.raw].state is Disposing,
        start is Ok && !(before.scopes@[scope.raw].state is Active) ==> middle.scopes@[scope.raw].state
            == before.scopes@[scope.raw].state,
        start is Ok ==> again == Ok::<DisposalStart, CordisError>(DisposalStart::Joined),
        start is Ok ==> middle.scopes@[scope.raw].disposal.persistent == (
        before.scopes@[scope.raw].disposal.persistent || persistent.0),
        start is Ok ==> after.scopes@[scope.raw].disposal.persistent == (
        before.scopes@[scope.raw].disposal.persistent || persistent.0 || persistent.1),
        start is Ok ==> middle.scopes@[scope.raw].children == before.scopes@[scope.raw].children
            && middle.scopes@[scope.raw].fibers == before.scopes@[scope.raw].fibers
            && middle.scopes@[scope.raw].parent == before.scopes@[scope.raw].parent,
        forall|other: u64| #[trigger]
            before.scopes@.dom().contains(other) && other != scope.raw
                ==> middle.scopes@.dom().contains(other) && middle.scopes@[other]
                == before.scopes@[other],
        middle.fibers == before.fibers,
        middle.gates == before.gates,
        middle.services == before.services,
{
}

/// A scope is gone through from the last child scope to the first, and only then from the last
/// fiber to the first; each is handed out once and as persistently as the scope is disposed.
/// A fiber is passed over only where it is gone or disposed, and the end is reached only where
/// no child scope is left and every fiber is gone or disposed.
pub proof fn law_scopes_are_gone_through_backwards(
    before: ScopeDisposalJob,
    after: ScopeDisposalJob,
    runtime: Runtime,
    step: ScopeStep,
    k: int,
)
    requires
        goes_on(before, after, runtime, step),
        0 <= k < before.fibers@.len(),
    ensures
        match step {
            ScopeStep::DisposeChild { child, persistent } => {
                &&& before.children@ == after.children@.push(child.raw)
                &&& after.fibers@ == before.fibers@
                &&& persistent == before.persistent
            },
            ScopeStep::DisposeFiber { fiber, persistent } => {
                &&& before.children@.len() == 0
                &&& after.fibers@.len() < before.fibers@.len()
                &&& before.fibers@[after.fibers@.len() as int] == fiber.raw
                &&& runtime.fibers@.dom().contains(fiber.raw)
                &&& !(runtime.fibers@[fiber.raw].state is Disposed)
                &&& persistent == before.persistent
                &&& k < after.fibers@.len() ==> after.fibers@[k] == before.fibers@[k]
                &&& k > after.fibers@.len() ==> !runtime.fibers@.dom().contains(before.fibers@[k])
                    || runtime.fibers@[before.fibers@[k]].state is Disposed
            },
            ScopeStep::Finish => {
                &&& before.children@.len() == 0
                &&& !runtime.fibers@.dom().contains(before.fibers@[k])
                    || runtime.fibers@[before.fibers@[k]].state is Disposed
            },
        },
        after.errors == before.errors,
        after.terminated == before.terminated,
        after.scope == before.scope,
{
    if let ScopeStep::DisposeChild { child, persistent } = step {
        assert(before.children@ =~= before.children@.drop_last().push(before.children@.last()));
    }
}

/// No failure below a scope is lost: it is noted as the cause of an issue behind those that
/// were noted before. A disposal below that was cut off, or did not get to its end, cuts this
/// one off too, and nothing takes that back; a disposal that went well changes nothing.
pub proof fn law_scope_jobs_note_failures(
    before: ScopeDisposalJob,
    after: ScopeDisposalJob,
    runtime: Runtime,
    child: ScopeId,
    fiber: FiberId,
    result: Result<(), CordisError>,
)
    requires
        hears_of_child(before, after, runtime, child, result) || hears_of_fiber(
            before,
            after,
            runtime,
            fiber,
            result,
        ),
    ensures
        result is Ok ==> after == before,
        result matches Err(error) ==> {
            &&& after.errors@.len() == before.errors@.len() + 1
            &&& forall|k: int|
                0 <= k < before.errors@.len() ==> #[trigger] after.errors@[k] == before.errors@[k]
            &&& after.errors@[before.errors@.len() as int].cause == Some(error)
            &&& hears_of_child(before, after, runtime, child, result)
                && after.errors@[before.errors@.len() as int].phase is ChildScopeCleanup || (
            hears_of_fiber(before, after, runtime, fiber, result)
                && after.errors@[before.errors@.len() as int].phase is FiberDetach)
            &&& error.is_terminal() ==> after.terminated
        },
        before.terminated ==> after.terminated,
        result is Err && hears_of_child(before, after, runtime, child, result) && !(
        runtime.scopes@.dom().contains(child.raw) && runtime.scopes@[child.raw].state is Disposed)
            ==> after.terminated,
        result is Err && hears_of_fiber(before, after, runtime, fiber, result) && !(
        runtime.fibers@.dom().contains(fiber.raw) && (runtime.fibers@[fiber.raw].state is Disposed
            || runtime.fibers@[fiber.raw].state is WaitingDependencies)) ==> after.terminated,
        after.children == before.children,
        after.fibers == before.fibers,
        after.scope == before.scope,
        after.persistent == before.persistent,
{
    if result is Err {
        let was = before.errors@;
        let now = after.errors@;
        assert(now.drop_last() == was);
        assert forall|k: int| 0 <= k < was.len() implies #[trigger] now[k] == was[k] by {
            assert(now.drop_last()[k] == now[k]);
        }
    }
}

/// What is published of the disposal of a scope is what its job noted: every issue, in order,
/// success exactly where there was none, and that it was cut off exactly where it was. A scope
/// that was disposed is not listed by its parent any more, and one whose disposal was cut off
/// still is; the other scopes stay as they are.
pub proof fn law_published_scope_disposals_tell_everything(
    before: Runtime,
    middle: Runtime,
    after: Runtime,
    job: ScopeDisposalJob,
    outcome: (Result<(), CordisError>, bool),
    ended: (Result<(), CordisError>, Option<u64>),
    other: u64,
)
    requires
        before.scopes@.dom().contains(job.scope.raw),
        before.scopes@[job.scope.raw].disposal.observation is None,
        ends_scope_job(before, middle, job, outcome),
        finalizes_scope(middle, after, job.scope, outcome.0, outcome.1, ended),
    ensures
        ({
            let was = before.scopes@[job.scope.raw];
            let now = after.scopes@[job.scope.raw];
            &&& now.disposal.observation matches Some(observation)
            &&& observation.issues@ == job.errors@
            &&& observation.legacy_result == ended.0
            &&& observation.terminal is Committed <==> !job.terminated
            &&& now.disposal.result == Some(ended.0)
            &&& now.state == if job.terminated {
                ScopeState::Terminated
            } else {
                ScopeState::Disposed
            }
            &&& !job.terminated ==> (ended.0 is Ok <==> job.errors@.len() == 0)
            &&& job.terminated ==> ended.0 is Err && observation.terminal
                == DisposalTerminal::Incomplete(ended.0->Err_0)
            &&& now.parent == was.parent
            &&& now.fibers == was.fibers
        }),
        after.scopes@.dom() == before.scopes@.dom(),
        before.scopes@.dom().contains(other) && other != job.scope.raw ==> {
            let was = before.scopes@[other];
            let now = after.scopes@[other];
            let parent = before.scopes@[job.scope.raw].parent == Some(ScopeId { raw: other });
            &&& now.state == was.state
            &&& now.fibers == was.fibers
            &&& now.parent == was.parent
            &&& !(parent && !job.terminated) ==> now == was
            &&& parent && !job.terminated ==> !now.children@.contains(job.scope.raw)
            &&& forall|child: u64|
                child != job.scope.raw ==> (#[trigger] now.children@.contains(child)
                    <==> was.children@.contains(child))
        },
        after.fibers == before.fibers,
        after.services == before.services,
{
    assert(middle.scopes@.dom() =~= before.scopes@.dom());
    let was = before.scopes@[other];
    let now = after.scopes@[other];
    if before.scopes@.dom().contains(other) && other != job.scope.raw {
        assert(middle.scopes@.dom().contains(other));
        assert(seq![job.scope.raw][0] == job.scope.raw);
        lemma_except_contains(was.children@, seq![job.scope.raw], job.scope.raw);
        assert forall|child: u64| child != job.scope.raw implies (
        #[trigger] now.children@.contains(child) <==> was.children@.contains(child)) by {
            lemma_except_contains(was.children@, seq![job.scope.raw], child);
        }
    }
}

/// What a caller learns in detail: a scope or a fiber is disposed exactly where its disposal
/// was observed to commit without an issue, every issue that was observed is told, and a
/// disposal that was cut off, or could not be observed, is told as incomplete, with the
/// reason.
pub proof fn law_outcomes_tell_what_was_observed(
    observed: Result<Arc<DisposalObservation>, CordisError>,
    scope: ScopeDisposeOutcome,
    fiber: DisposeOutcome,
)
    requires
        is_scope_outcome(observed, scope),
        is_fiber_outcome(observed, fiber),
    ensures
        scope is Disposed <==> (observed matches Ok(observation) && observation.terminal
            is Committed && observation.issues@.len() == 0),
        fiber is Disposed <==> (observed matches Ok(observation) && observation.terminal
            is Committed && observation.issues@.len() == 0),
        scope is Incomplete <==> !(observed matches Ok(observation) && observation.terminal
            is Committed),
        fiber is Incomplete <==> !(observed matches Ok(observation) && observation.terminal
            is Committed),
        match (observed, scope, fiber) {
            (
                Err(error),
                ScopeDisposeOutcome::Incomplete { primary: of_scope, issues: left },
                DisposeOutcome::Incomplete { primary: of_fiber, issues: right },
            ) => of_scope == error && of_fiber == error && left@.len() == 0 && right@.len() == 0,
            (
                Ok(observation),
                ScopeDisposeOutcome::Incomplete { primary: of_scope, issues: left },
                DisposeOutcome::Incomplete { primary: of_fiber, issues: right },
            ) => left@ == observation.issues@ && right@ == observation.issues@
                && observation.terminal == DisposalTerminal::Incomplete(of_scope) && of_fiber
                == of_scope,
            (
                Ok(observation),
                ScopeDisposeOutcome::CommittedWithCleanupIssues { issues: left },
                DisposeOutcome::CommittedWithCleanupIssues { issues: right },
            ) => left@ == observation.issues@ && right@ == observation.issues@,
            (Ok(observation), ScopeDisposeOutcome::Disposed, DisposeOutcome::Disposed) => true,
            _ => false,
        },
{
}

/// A worker that did not return cuts its disposal off, with a failure; one that returned says
/// itself how it ended.
pub proof fn law_lost_workers_cut_disposals_off(
    scope: WorkerExit<(Result<(), CordisError>, bool)>,
    outcome: (Result<(), CordisError>, bool),
    fiber: WorkerExit<DisposalEnd>,
    end: DisposalEnd,
)
    requires
        ends_scope_worker(scope, outcome),
        ends_fiber_worker(fiber, end),
    ensures
        scope matches WorkerExit::Returned(returned) ==> outcome == returned,
        !(scope is Returned) ==> outcome.1 && outcome.0 is Err && outcome.0->Err_0.is_terminal(),
        fiber matches WorkerExit::Returned(returned) ==> end == returned,
        !(fiber is Returned) ==> end.terminated && end.result is Err && end.target is None
            && end.result->Err_0.is_terminal(),
{
}

/// The work on a scope takes up all that the scope lists, at first without an issue; a scope
/// that is gone cannot be taken up. Its disposal can be read by everybody once it is published.
pub proof fn law_scope_jobs_take_up_everything(
    runtime: Runtime,
    scope: ScopeId,
    job: Result<ScopeDisposalJob, CordisError>,
    observation: Option<Arc<DisposalObservation>>,
)
    requires
        takes_up_scope(runtime, scope, job),
        observes_scope_disposal(runtime, scope, observation),
    ensures
        job is Ok <==> runtime.scopes@.dom().contains(scope.raw),
        job matches Ok(job) ==> {
            &&& job.scope == scope
            &&& job.children@ == runtime.scopes@[scope.raw].children@
            &&& job.fibers@ == runtime.scopes@[scope.raw].fibers@
            &&& job.persistent == runtime.scopes@[scope.raw].disposal.persistent
            &&& job.errors@.len() == 0
            &&& !job.terminated
        },
        job matches Err(error) ==> error.is_terminal(),
        runtime.scopes@.dom().contains(scope.raw) ==> observation
            == runtime.scopes@[scope.raw].disposal.observation,
        !runtime.scopes@.dom().contains(scope.raw) ==> observation is None,
{
}

/// A request that is refused for want of room is counted and noted, with the scope and the
/// fiber it was made for; nothing else changes.
pub proof fn law_refusals_for_want_of_room_are_noted(
    before: Runtime,
    after: Runtime,
    scope: Option<ScopeId>,
    fiber: Option<FiberId>,
)
    requires
        quota_rejected(before, after, scope, fiber),
        before.diagnostics.quota_rejections < u64::MAX,
    ensures
        after.diagnostics.quota_rejections == before.diagnostics.quota_rejections + 1,
        after.diagnostics.recent@.len() > 0,
        after.diagnostics.recent@.last().kind is QuotaRejected,
        after.diagnostics.recent@.last().scope == scope,
        after.diagnostics.recent@.last().fiber == fiber,
        after.diagnostics.recent@.last().at == before.diagnostics.now,
        after.fibers == before.fibers,
        after.scopes == before.scopes,
        after.services == before.services,
        after.tasks == before.tasks,
        after.workers == before.workers,
{
}

/// The same for the disposal of a scope.
pub proof fn law_ended_scope_disposals_ask_for_a_collection(
    before: Runtime,
    after: Runtime,
    scope: ScopeId,
    result: Result<(), CordisError>,
    terminated: bool,
    ended: (Result<(), CordisError>, Option<u64>),
)
    requires
        before.scopes@.dom().contains(scope.raw),
        before.scopes@[scope.raw].disposal.observation is None,
        finalizes_scope(before, after, scope, result, terminated, ended),
    ensures
        !before.admission.closed ==> !(after.gc_state is Idle),
        !before.admission.closed && before.gc_state is Idle ==> ended.1 is Some
            && after.workers.workers@.dom().contains(ended.1->0),
        before.admission.closed ==> ended.1 is None && after.gc_state == before.gc_state,
{
}

/// Where there is no room for another scope, what is dead makes room first: no disposed fiber
/// that can be given up is left. Only where that does not help is the request refused.
pub proof fn law_dead_fibers_make_room_for_scopes(
    before: Runtime,
    after: Runtime,
    parent: ScopeId,
    name: Arc<String>,
    hidden: bool,
    result: Result<ScopeId, CordisError>,
    id: u64,
)
    requires
        creates_scope(before, after, parent, name, hidden, result),
        !before.admission.closed,
        before.scopes@.dom().len() >= before.config.max_scopes,
    ensures
        after.fibers@.dom().contains(id) ==> !(after.fibers@[id].state is Disposed && id_version(id)
            < u32::MAX),
        before.fibers@.dom().contains(id) && !(before.fibers@[id].state is Disposed)
            ==> after.fibers@.dom().contains(id) && after.fibers@[id] == before.fibers@[id],
{
}

} // verus!
