//! What a reload keeps, moves and reports.
#[allow(unused_imports)]
use super::activation::validates;
#[allow(unused_imports)]
use super::context::{may_add, places, Context};
#[allow(unused_imports)]
use super::dependency::symbols_of;
#[allow(unused_imports)]
use super::disposal::{asks_to_go, edits_fiber};
#[allow(unused_imports)]
use super::install::{installs, InstallStep};
#[allow(unused_imports)]
use super::laws::{is_sound, law_disposed_scopes_stay_quiet, lifecycle_step};
#[allow(unused_imports)]
use super::reload::{
    accepts_reload, adopts, begins_reload, checks_reload, combines, commits_revision, ends_reload,
    error_texts, fails_clean, failures, hears_of_install, hears_of_old, hears_of_staged,
    is_legacy_result, is_new_job, lets_cleanup_go, lets_reload_go, sets_out, tells_early,
    ReloadAction, ReloadEnd, ReloadJob, ReloadOutcome,
};
#[allow(unused_imports)]
use super::scope::{creates_scope, DisposalStart};
#[allow(unused_imports)]
use super::Runtime;
#[allow(unused_imports)]
use crate::dependency_graph::Edge;
#[allow(unused_imports)]
use crate::error::CordisError;
#[allow(unused_imports)]
use crate::fiber_registry::{FiberRecord, PluginDescriptor};
#[allow(unused_imports)]
use crate::id_list::lemma_except_contains;
#[allow(unused_imports)]
use crate::ids::{FiberId, HandlerId, ScopeId};
#[allow(unused_imports)]
use crate::key::{key_views, KeyView};
#[allow(unused_imports)]
use crate::scope_revision::PreparedScopeRevision;
#[allow(unused_imports)]
use crate::service_registry::{lemma_slot, nearest, slot_of};
#[allow(unused_imports)]
use crate::state::FiberState;
#[allow(unused_imports)]
use crate::text::law_joined_parts_are_there;
use std::sync::Arc;
use vstd::prelude::*;

verus! {

/// Once a reload has committed, the new fiber is an ordinary active one: it belongs to no
/// reload, so that anybody may dispose of it, and it can be reloaded in turn while the runtime
/// takes new work. It keeps its plugin, its generation and all that it owns.
pub proof fn law_committed_fibers_are_ordinary(
    before: Runtime,
    after: Runtime,
    old: FiberId,
    staged: FiberId,
    revision: PreparedScopeRevision,
    invocations: Result<(), CordisError>,
    handlers: Vec<HandlerId>,
    asked: (Runtime, bool, bool, Result<DisposalStart, CordisError>),
    accepted: (Runtime, Result<u64, CordisError>),
    begun: (Runtime, Result<ReloadJob, CordisError>),
)
    requires
        is_sound(before),
        commits_revision(before, after, old, staged, revision, invocations, Ok(handlers)),
        asks_to_go(after, asked.0, staged, asked.1, asked.2, false, asked.3),
        accepts_reload(after, accepted.0, staged, accepted.1),
        begins_reload(after, begun.0, staged, begun.1),
    ensures
        asked.3 == Ok::<DisposalStart, CordisError>(DisposalStart::Started),
        accepted.1 is Ok,
        begun.1 matches Err(error) ==> error is ReloadFailed,
        ({
            let was = before.fibers@[staged.raw];
            let now = after.fibers@[staged.raw];
            &&& now.state is Active
            &&& !now.staged
            &&& !now.reload_owned
            &&& !now.activation_sealed
            &&& !now.activation
            &&& now.scope == revision.target
            &&& now.plugin_id == was.plugin_id
            &&& now.descriptor == was.descriptor
            &&& now.generation == was.generation
            &&& now.cancelled == was.cancelled
            &&& now.tasks == was.tasks
            &&& now.effects == was.effects
            &&& now.handlers == was.handlers
            &&& now.invocation_handlers == was.invocation_handlers
            &&& now.invocation_middleware == was.invocation_middleware
            &&& now.provided == was.provided
            &&& now.child_scopes == was.child_scopes
            &&& now.hosted_live == was.hosted_live
            &&& now.disposal == was.disposal
        }),
        handlers@ == before.fibers@[staged.raw].handlers@,
        forall|other: u64| #[trigger]
            before.fibers@.dom().contains(other) && other != staged.raw
                ==> after.fibers@.dom().contains(other) && after.fibers@[other]
                == before.fibers@[other],
        after.tasks == before.tasks,
        after.workers == before.workers,
        after.admission == before.admission,
{
    assert(before.fibers@.dom().contains(staged.raw));
}

/// A fiber belongs to a reload only as long as it is staged, whatever happens.
pub proof fn law_reloads_own_only_staged_fibers(before: Runtime, after: Runtime, fiber: u64)
    requires
        before.wf(),
        is_sound(before),
        lifecycle_step(before, after),
        after.fibers@.dom().contains(fiber),
        after.fibers@[fiber].reload_owned,
    ensures
        after.fibers@[fiber].staged,
{
    law_disposed_scopes_stay_quiet(before, after);
}

/// Nobody disposes of a fiber that starts, works or is replaced: a disposal that begins
/// takes it out of these states, whatever happens.
pub proof fn law_working_fibers_are_not_disposed_of(before: Runtime, after: Runtime, fiber: u64)
    requires
        before.wf(),
        is_sound(before),
        lifecycle_step(before, after),
        after.fibers@.dom().contains(fiber),
        after.fibers@[fiber].state is Created || after.fibers@[fiber].state is Starting
            || after.fibers@[fiber].state is Active || after.fibers@[fiber].state is Reloading,
    ensures
        after.fibers@[fiber].disposal.phase is Idle,
{
    law_disposed_scopes_stay_quiet(before, after);
}

/// A reload that commits moves the new fiber, with its child scopes, from where it was staged
/// to where the old one is: the one scope lists it, the other does not any more, and all other
/// scopes and members stay.
pub proof fn law_committed_fibers_move(
    before: Runtime,
    after: Runtime,
    old: FiberId,
    staged: FiberId,
    revision: PreparedScopeRevision,
    invocations: Result<(), CordisError>,
    handlers: Vec<HandlerId>,
    id: u64,
)
    requires
        commits_revision(before, after, old, staged, revision, invocations, Ok(handlers)),
        revision.staged == staged,
        revision.staging != revision.target,
    ensures
        ({
            let from = revision.staging.raw;
            let to = revision.target.raw;
            &&& after.scopes@.dom() == before.scopes@.dom()
            &&& after.scopes@[to].fibers@.contains(staged.raw)
            &&& !after.scopes@[from].fibers@.contains(staged.raw)
            &&& id != staged.raw ==> (after.scopes@[to].fibers@.contains(id)
                <==> before.scopes@[to].fibers@.contains(id))
            &&& id != staged.raw ==> (after.scopes@[from].fibers@.contains(id)
                <==> before.scopes@[from].fibers@.contains(id))
            &&& revision.children@.contains(id) ==> after.scopes@[to].children@.contains(id)
                && !after.scopes@[from].children@.contains(id)
            &&& revision.children@.contains(id) && before.scopes@.dom().contains(id) && id != from
                && id != to ==> after.scopes@[id].parent == Some(revision.target)
            &&& after.scopes@[to].state == before.scopes@[to].state
            &&& after.scopes@[from].state == before.scopes@[from].state
            &&& after.scopes@[to].parent == before.scopes@[to].parent
            &&& after.scopes@[from].parent == before.scopes@[from].parent
            &&& before.scopes@.dom().contains(id) && id != from && id != to
                && !revision.children@.contains(id) ==> after.scopes@[id] == before.scopes@[id]
        }),
{
    let from = revision.staging.raw;
    let to = revision.target.raw;
    let listed = before.scopes@[to].fibers@;
    let moved = before.scopes@[to].children@;
    assert(revision.shifts(before.scopes@, after.scopes@, revision.staging, revision.target));
    assert(after.scopes@[to].fibers@ == listed.push(staged.raw));
    assert(listed.push(staged.raw)[listed.len() as int] == staged.raw);
    vstd::seq_lib::lemma_seq_contains_after_push(listed, staged.raw, id);
    lemma_except_contains(before.scopes@[from].fibers@, seq![staged.raw], staged.raw);
    lemma_except_contains(before.scopes@[from].fibers@, seq![staged.raw], id);
    assert(seq![staged.raw][0] == staged.raw);
    lemma_except_contains(before.scopes@[from].children@, revision.children@, id);
    if revision.children@.contains(id) {
        let k = revision.children@.index_of(id);
        assert((moved + revision.children@)[moved.len() + k] == id);
    }
}

/// A reload that commits puts every service of the new fiber in the place of the old one: it
/// is found where the old fiber was, with the value and the generation it was provided with,
/// and no longer where it was staged. Where the new fiber's generation provides it, whoever
/// looks from there finds it.
pub proof fn law_committed_services_replace_the_old(
    before: Runtime,
    after: Runtime,
    old: FiberId,
    staged: FiberId,
    revision: PreparedScopeRevision,
    invocations: Result<(), CordisError>,
    handlers: Vec<HandlerId>,
    k: int,
    line: Seq<ScopeId>,
)
    requires
        commits_revision(before, after, old, staged, revision, invocations, Ok(handlers)),
        revision.staging != revision.target,
        0 <= k < before.fibers@[staged.raw].provided@.len(),
        line.len() > 0,
        line[0] == revision.target,
    ensures
        ({
            let symbol = before.services.symbol_of(before.fibers@[staged.raw].provided@[k]@)->0;
            let from = slot_of(revision.staging, symbol);
            let to = slot_of(revision.target, symbol);
            let was = before.services@[from];
            let now = after.services@[to];
            &&& before.services@.dom().contains(from)
            &&& before.services@.dom().contains(to) ==> before.services@[to].owner == old
            &&& after.services@.dom().contains(to)
            &&& !after.services@.dom().contains(from)
            &&& now.owner == staged
            &&& now.scope == revision.target
            &&& now.value == was.value
            &&& now.gate == was.gate
            &&& now.gate == before.fibers@[staged.raw].generation ==> nearest(
                after.services@,
                after.gates,
                line,
                symbol,
            ) == Some(now)
        }),
{
    let record = before.fibers@[staged.raw];
    let symbols = symbols_of(before.services, record.provided@);
    let symbol = before.services.symbol_of(record.provided@[k]@)->0;
    assert(symbols[k] == symbol);
    assert(symbols.contains(symbol));
    lemma_slot(revision.staging, symbol);
    lemma_slot(revision.target, symbol);
}

/// A reload is accepted exactly while the runtime takes new work, of a fiber that exists and
/// that no other reload owns; it counts until it is over, and then the count is as before.
pub proof fn law_accepted_reloads_count_until_they_end(
    before: Runtime,
    middle: Runtime,
    after: Runtime,
    fiber: FiberId,
    result: Result<u64, CordisError>,
)
    requires
        before.active_reloads < usize::MAX,
        accepts_reload(before, middle, fiber, result),
        result is Ok ==> lets_reload_go(middle, after),
    ensures
        result is Ok <==> !before.admission.closed && before.fibers@.dom().contains(fiber.raw)
            && !before.fibers@[fiber.raw].reload_owned,
        result matches Err(error) ==> {
            &&& error is RuntimeShuttingDown <==> before.admission.closed
            &&& !before.admission.closed ==> (error is FiberNotFound
                <==> !before.fibers@.dom().contains(fiber.raw))
            &&& error is RuntimeShuttingDown || error is FiberNotFound || error
                == CordisError::FiberLifecycleOwned(fiber)
        },
        result is Err ==> middle == before,
        result is Ok ==> middle.active_reloads == before.active_reloads + 1,
        result is Ok ==> after.active_reloads == before.active_reloads,
        result is Ok ==> middle.workers.workers@.dom().contains(result->Ok_0),
        result is Ok ==> middle.workers.workers@[result->Ok_0].cleanup,
        middle.fibers == before.fibers,
        middle.scopes == before.scopes,
        middle.services == before.services,
        middle.gates == before.gates,
        result is Ok ==> after.workers == middle.workers,
{
}

/// A cleanup that the caller does not wait for counts until it is over, and then the count is
/// as before.
pub proof fn law_pending_cleanups_count_until_they_end(
    before: Runtime,
    middle: Runtime,
    after: Runtime,
    job: ReloadJob,
    later: ReloadJob,
    new_fiber: FiberId,
    outcome: ReloadOutcome,
    result: Result<(), CordisError>,
    end: ReloadEnd,
)
    requires
        before.reload_cleanup_pending < usize::MAX,
        job.primary is None,
        tells_early(before, middle, job, later, new_fiber, outcome),
        lets_cleanup_go(middle, after) || ends_reload(middle, after, later, result, end),
    ensures
        middle.reload_cleanup_pending == before.reload_cleanup_pending + 1,
        after == before,
        outcome matches ReloadOutcome::CommittedWithCleanupPending { new_fiber: told, old_fiber }
            && told == new_fiber && old_fiber == job.old,
{
}

/// A caller that waits for the old generation to go is told of success exactly where it is
/// gone; either way the caller learns which fiber is the new one.
pub proof fn law_callers_learn_the_new_fiber(
    outcome: ReloadOutcome,
    result: Result<FiberId, CordisError>,
)
    requires
        is_legacy_result(outcome, result),
    ensures
        result is Ok <==> outcome is Completed,
        match (outcome, result) {
            (ReloadOutcome::Completed { new_fiber }, Ok(told)) => told == new_fiber,
            (
                ReloadOutcome::CommittedWithCleanupPending { new_fiber, old_fiber },
                Err(CordisError::ReloadCommitted { new_fiber: told, cleanup }),
            ) => told == new_fiber,
            _ => false,
        },
{
}

/// Making a scope loses no fiber that is not disposed.
proof fn lemma_made_keeps(
    before: Runtime,
    after: Runtime,
    parent: ScopeId,
    name: Arc<String>,
    hidden: bool,
    result: Result<ScopeId, CordisError>,
    id: u64,
)
    requires
        creates_scope(before, after, parent, name, hidden, result),
        before.fibers@.dom().contains(id),
        !(before.fibers@[id].state is Disposed),
    ensures
        after.fibers@.dom().contains(id),
        after.fibers@[id] == before.fibers@[id],
        after.services == before.services,
        after.tasks == before.tasks,
{
}

/// A reload that begins leaves the old fiber at work: it is marked and nothing else of it
/// changes, its services stay, and where there is room for the scope that is made no
/// generation is touched. The new revision is made of the same plugin, hidden in a scope of
/// its own below that of the old fiber. A reload that cannot begin leaves every fiber as it
/// was.
pub proof fn law_begun_reloads_leave_the_old_at_work(
    before: Runtime,
    after: Runtime,
    old: FiberId,
    result: Result<ReloadJob, CordisError>,
)
    requires
        begins_reload(before, after, old, result),
    ensures
        result is Ok ==> before.fibers@.dom().contains(old.raw) && before.fibers@[old.raw].state
            is Active,
        result matches Err(error) ==> {
            &&& error is FiberNotFound <==> !before.fibers@.dom().contains(old.raw)
            &&& error is InvalidFiberState <==> before.fibers@.dom().contains(old.raw) && !(
            before.fibers@[old.raw].state is Active)
            &&& error matches CordisError::InvalidFiberState { fiber, from, to } ==> fiber == old
                && from == before.fibers@[old.raw].state && to is Reloading
        },
        result is Ok ==> after.fibers@.dom().contains(old.raw) && after.fibers@[old.raw] == (
        FiberRecord { state: FiberState::Reloading, ..before.fibers@[old.raw] }),
        result is Err && before.fibers@.dom().contains(old.raw) ==> after.fibers@.dom().contains(
            old.raw,
        ) && after.fibers@[old.raw] == before.fibers@[old.raw],
        forall|id: u64| #[trigger]
            before.fibers@.dom().contains(id) && id != old.raw && !(before.fibers@[id].state
                is Disposed) ==> after.fibers@.dom().contains(id) && after.fibers@[id]
                == before.fibers@[id],
        before.scopes@.dom().len() < before.config.max_scopes ==> after.gates == before.gates,
        after.services@ == before.services@,
        after.tasks == before.tasks,
        result matches Ok(job) ==> {
            &&& job.old == old
            &&& job.plugin == before.fibers@[old.raw].plugin_id
            &&& job.target == before.fibers@[old.raw].scope
            &&& !before.scopes@.dom().contains(job.staging.raw)
            &&& after.scopes@.dom().contains(job.staging.raw)
            &&& after.scopes@[job.staging.raw].parent == Some(job.target)
            &&& after.scopes@[job.staging.raw].hidden
            &&& after.scopes@[job.staging.raw].state is Active
            &&& after.scopes@[job.staging.raw].fibers@.len() == 0
            &&& job.staged is None
            &&& job.primary is None
            &&& job.cleanup@.len() == 0
            &&& job.disposal is Ok
            &&& !job.pending
        },
{
    if before.fibers@.dom().contains(old.raw) && before.fibers@[old.raw].state is Active {
        let record = before.fibers@[old.raw];
        let (marked, made, name, scope) = choose|
            marked: Runtime,
            made: Runtime,
            name: Arc<String>,
            scope: Result<ScopeId, CordisError>,
        |
            {
                &&& edits_fiber(
                    before,
                    marked,
                    old,
                    FiberRecord { state: FiberState::Reloading, ..record },
                )
                &&& name@ == "hmr-staging"@
                &&& #[trigger] creates_scope(marked, made, record.scope, name, true, scope)
                &&& match scope {
                    Ok(staging) => {
                        &&& after == made
                        &&& result matches Ok(job)
                        &&& is_new_job(job, old, record, staging)
                    },
                    Err(primary) => {
                        &&& result matches Err(error)
                        &&& fails_clean(error, primary)
                        &&& edits_fiber(made, after, old, record)
                    },
                }
            };
        lemma_made_keeps(marked, made, record.scope, name, true, scope, old.raw);
        assert forall|id: u64| #[trigger] before.fibers@.dom().contains(id) && id != old.raw && !(
        before.fibers@[id].state is Disposed) implies after.fibers@.dom().contains(id)
            && after.fibers@[id] == before.fibers@[id] by {
            assert(marked.fibers@.dom().contains(id));
            lemma_made_keeps(marked, made, record.scope, name, true, scope, id);
        }
    }
}

/// What comes of the installation of the new revision. Where it failed, or could not be put in
/// place of the old one, the reload is rolled back for that very reason and no fiber, service
/// or generation is touched; the staged fiber is disposed where there is one, and otherwise
/// the scope that was made for it. Where it succeeded, the new fiber is in place and shown,
/// the old one is not shown any more, and it is the old one that is disposed.
pub proof fn law_installed_revisions_replace_or_roll_back(
    before: Runtime,
    after: Runtime,
    job: ReloadJob,
    later: ReloadJob,
    installed: Result<FiberId, CordisError>,
    invocations: Result<(), CordisError>,
    action: ReloadAction,
)
    requires
        hears_of_install(before, after, job, later, installed, invocations, action),
    ensures
        installed matches Err(error) ==> later.primary == Some(error) && action
            == ReloadAction::DisposeStaging(job.staging) && after == before,
        installed matches Ok(staged) ==> later.staged == Some(staged) && match later.primary {
            Some(primary) => {
                &&& action == ReloadAction::DisposeStaged(staged)
                &&& after.fibers == before.fibers
                &&& after.services == before.services
                &&& after.gates@ == before.gates@
            },
            None => {
                &&& action == ReloadAction::DisposeOld(job.old)
                &&& invocations is Ok
                &&& after.fibers@[staged.raw].scope == job.target
                &&& after.fibers@[staged.raw].state is Active
                &&& !after.fibers@[staged.raw].reload_owned
                &&& after.gates.visible(before.fibers@[staged.raw].generation)
                &&& !after.gates.visible(before.fibers@[job.old.raw].generation)
            },
        },
        later.old == job.old,
        later.plugin == job.plugin,
        later.target == job.target,
        later.staging == job.staging,
        later.cleanup == job.cleanup,
{
}

/// A reload that is rolled back fails for the reason for which it is, and tells everything
/// that went wrong meanwhile: a failure to dispose of the staged fiber, of the staging scope,
/// and to restore the old fiber. The old fiber works again where it still can.
pub proof fn law_rollbacks_tell_everything(
    before: Runtime,
    after: Runtime,
    job: ReloadJob,
    later: ReloadJob,
    disposed: Result<(), CordisError>,
    action: ReloadAction,
    primary: CordisError,
    result: Result<(), CordisError>,
    end: ReloadEnd,
)
    requires
        hears_of_staged(job, later, disposed, action),
        job.primary == Some(primary),
        ends_reload(before, after, later, result, end),
    ensures
        action == ReloadAction::DisposeStaging(job.staging),
        end.result matches Err(CordisError::ReloadFailed { primary: told, cleanup }) && {
            &&& *told == primary
            &&& disposed matches Err(error) ==> cleanup@.contains(error)
            &&& result matches Err(error) ==> cleanup@.contains(error)
            &&& forall|k: int|
                0 <= k < job.cleanup@.len() ==> cleanup@.contains(#[trigger] job.cleanup@[k])
            &&& before.fibers@.dom().contains(job.old.raw) && before.fibers@[job.old.raw].state
                is Reloading ==> {
                &&& after.fibers@ == before.fibers@.insert(
                    job.old.raw,
                    FiberRecord { state: FiberState::Active, ..before.fibers@[job.old.raw] },
                )
                &&& job.cleanup@.len() == 0 && disposed is Ok && result is Ok ==> cleanup@.len()
                    == 0
            }
        },
        end.report matches Some(Err(told)) && end.result == Err::<(), CordisError>(told),
{
    let given = job.cleanup@;
    let noted = later.cleanup@;
    let error = end.result->Err_0;
    let cleanup = error->ReloadFailed_cleanup@;
    assert forall|k: int| 0 <= k < given.len() implies cleanup.contains(#[trigger] given[k]) by {
        assert(noted[k] == given[k]);
        assert(cleanup[k] == given[k]);
    }
    if disposed is Err {
        assert(noted[given.len() as int] == disposed->Err_0);
        assert(cleanup[given.len() as int] == disposed->Err_0);
    }
    if result is Err {
        assert(cleanup[noted.len() as int] == result->Err_0);
    }
}

/// A reload that committed is reported as complete exactly where the old fiber and the staging
/// scope were disposed without failure; otherwise the caller is told that it committed, with
/// the new fiber, and of the failure. What the caller was told early is not told again, but
/// a failure is still one of the worker.
pub proof fn law_committed_reloads_tell_failures(
    before: Runtime,
    after: Runtime,
    job: ReloadJob,
    later: ReloadJob,
    disposed: Result<(), CordisError>,
    action: ReloadAction,
    result: Result<(), CordisError>,
    end: ReloadEnd,
)
    requires
        hears_of_old(job, later, disposed, action),
        job.primary is None,
        job.staged is Some,
        ends_reload(before, after, later, result, end),
    ensures
        action == ReloadAction::DisposeStaging(job.staging),
        after.fibers == before.fibers,
        job.pending ==> end.report is None,
        !job.pending ==> match end.report {
            Some(Ok(outcome)) => {
                &&& outcome == (ReloadOutcome::Completed { new_fiber: job.staged->0 })
                &&& disposed is Ok
                &&& result is Ok
            },
            Some(Err(CordisError::ReloadCommitted { new_fiber, cleanup })) => {
                &&& new_fiber == job.staged->0
                &&& disposed is Err || result is Err
            },
            _ => false,
        },
        end.result is Ok <==> disposed is Ok && result is Ok,
{
}

/// Failures of the cleanup after a reload are combined and none is passed over: there is none
/// exactly where neither the old fiber nor the staging scope failed, an error of a host that is
/// the only one is told as it is, and otherwise the words of each are told, in order.
pub proof fn law_cleanup_failures_are_combined(
    disposal: Result<(), CordisError>,
    scope: Result<(), CordisError>,
    result: Result<(), CordisError>,
)
    requires
        combines(disposal, scope, result),
    ensures
        result is Ok <==> disposal is Ok && scope is Ok,
        disposal matches Err(error) && scope is Ok && error.is_hosted() ==> result == disposal,
        scope matches Err(error) && disposal is Ok && error.is_hosted() ==> result == scope,
        disposal is Err && scope is Ok && !disposal->Err_0.is_hosted() ==> (
        result matches Err(CordisError::CleanupFailed(words)) && words@ == disposal->Err_0.text()),
        scope is Err && disposal is Ok && !scope->Err_0.is_hosted() ==> (
        result matches Err(CordisError::CleanupFailed(words)) && words@ == scope->Err_0.text()),
        disposal is Err && scope is Err ==> (result matches Err(CordisError::CleanupFailed(words))
            && words@ == disposal->Err_0.text() + "; "@ + scope->Err_0.text()),
{
    let issues = failures(disposal, scope);
    let texts = error_texts(issues);
    if disposal is Err && scope is Err {
        let first = seq![disposal->Err_0.text()];
        assert(texts =~= first.push(scope->Err_0.text()));
        law_joined_parts_are_there(first, "; "@, scope->Err_0.text());
        law_joined_parts_are_there(first, "; "@, disposal->Err_0.text());
    } else if issues.len() == 1 {
        assert(texts =~= seq![issues[0].text()]);
    }
}

/// A reload that was accepted can begin exactly as long as the runtime takes new work and the
/// old fiber is there. A revision can take its place exactly where it provides what it declared,
/// no more and no less.
pub proof fn law_reloads_are_checked(
    runtime: Runtime,
    old: FiberId,
    result: Result<(), CordisError>,
    fiber: FiberId,
    valid: Result<(), CordisError>,
)
    requires
        checks_reload(runtime, old, result),
        validates(runtime, fiber, valid),
    ensures
        result is Ok <==> !runtime.admission.closed && runtime.fibers@.dom().contains(old.raw),
        runtime.admission.closed ==> result == Err::<(), CordisError>(
            CordisError::RuntimeShuttingDown,
        ),
        valid is Ok <==> runtime.fibers@.dom().contains(fiber.raw) && (forall|key: KeyView|
            #![trigger key_views(runtime.fibers@[fiber.raw].provided@).contains(key)]
            key_views(runtime.fibers@[fiber.raw].descriptor.provisions@).contains(key)
                <==> key_views(runtime.fibers@[fiber.raw].provided@).contains(key)),
        valid matches Err(error) ==> (error is FiberNotFound <==> !runtime.fibers@.dom().contains(
            fiber.raw,
        )) && (error is FiberNotFound || error is RevisionValidationFailed),
{
    if runtime.fibers@.dom().contains(fiber.raw) {
        let declared = key_views(runtime.fibers@[fiber.raw].descriptor.provisions@);
        let given = key_views(runtime.fibers@[fiber.raw].provided@);
        if forall|key: KeyView|
            #![trigger given.contains(key)]
            declared.contains(key) <==> given.contains(key) {
            assert(declared.to_set() =~= given.to_set());
        }
        if declared.to_set() == given.to_set() {
            assert forall|key: KeyView|
                #![trigger given.contains(key)]
                declared.contains(key) <==> given.contains(key) by {
                assert(declared.to_set().contains(key) <==> given.to_set().contains(key));
            }
        }
    }
}

/// A reload commits only where it can: while the runtime takes new work, of an old fiber that is
/// being replaced and is shown, by a staged fiber that works and is hidden, with its invocations
/// accepted, in scopes that take new work and list the two, and where the staged fiber is known
/// for all that it declared. Where anything of this is missing nothing changes for the fibers,
/// and the caller learns why.
pub proof fn law_reloads_commit_only_where_they_can(
    before: Runtime,
    after: Runtime,
    old: FiberId,
    staged: FiberId,
    revision: PreparedScopeRevision,
    invocations: Result<(), CordisError>,
    result: Result<Vec<HandlerId>, CordisError>,
    k: int,
)
    requires
        commits_revision(before, after, old, staged, revision, invocations, result),
        revision.staged == staged,
        revision.old == old,
    ensures
        result is Ok ==> {
            let old_record = before.fibers@[old.raw];
            let record = before.fibers@[staged.raw];
            let from = revision.staging.raw;
            let to = revision.target.raw;
            &&& !before.admission.closed
            &&& before.fibers@.dom().contains(old.raw)
            &&& before.fibers@.dom().contains(staged.raw)
            &&& old_record.state is Reloading
            &&& record.state is Active
            &&& before.gates.at(record.generation).state is Staged
            &&& before.gates.at(old_record.generation).state is Published
            &&& invocations is Ok
            &&& before.scopes@.dom().contains(from)
            &&& before.scopes@.dom().contains(to)
            &&& before.scopes@[from].state is Active
            &&& before.scopes@[to].state is Active
            &&& before.scopes@[from].fibers@.contains(staged.raw)
            &&& !before.scopes@[to].fibers@.contains(staged.raw)
            &&& before.scopes@[to].fibers@.contains(old.raw)
            &&& 0 <= k < revision.children@.len() ==> before.scopes@[from].children@.contains(
                revision.children@[k],
            ) && !before.scopes@[to].children@.contains(revision.children@[k])
            &&& 0 <= k < record.descriptor.provisions@.len() ==> before.dependencies.provides(
                revision.staging,
                before.services.symbol_of(record.descriptor.provisions@[k]@)->0,
                staged,
            )
        },
        before.admission.closed ==> after == before && result == Err::<Vec<HandlerId>, CordisError>(
            CordisError::RuntimeShuttingDown,
        ),
        result is Err ==> after.fibers == before.fibers && after.services == before.services
            && after.gates@ == before.gates@ && after.tasks == before.tasks,
        result matches Err(CordisError::DuplicateService(key)) ==> (invocations is Err || exists|
            n: int,
        |
            #![trigger before.fibers@[staged.raw].provided@[n]]
            {
                let slot = slot_of(
                    revision.target,
                    before.services.symbol_of(before.fibers@[staged.raw].provided@[n]@)->0,
                );
                &&& 0 <= n < before.fibers@[staged.raw].provided@.len()
                &&& key == before.fibers@[staged.raw].provided@[n]
                &&& before.services@.dom().contains(slot)
                &&& before.services@[slot].owner != old
            }),
        result matches Err(error) ==> (error is FiberNotFound ==> !before.fibers@.dom().contains(
            old.raw,
        ) || !before.fibers@.dom().contains(staged.raw) || (invocations matches Err(reason)
            && reason == error)),
{
    let record = before.fibers@[staged.raw];
    let declared = symbols_of(before.services, record.descriptor.provisions@);
    if result is Ok && 0 <= k < record.descriptor.provisions@.len() {
        assert(before.dependencies.provides(revision.staging, declared[k], staged));
    }
}

/// With the fiber moves what it is known for: it is expected to provide what it declared where
/// the old fiber is, and no longer where it was staged. Nobody else is known for anything else
/// than before, and what fibers depend on stays.
pub proof fn law_committed_provisions_move(
    before: Runtime,
    after: Runtime,
    old: FiberId,
    staged: FiberId,
    revision: PreparedScopeRevision,
    invocations: Result<(), CordisError>,
    handlers: Vec<HandlerId>,
    k: int,
    edge: Edge,
)
    requires
        commits_revision(before, after, old, staged, revision, invocations, Ok(handlers)),
        revision.staging != revision.target,
    ensures
        ({
            let record = before.fibers@[staged.raw];
            let symbol = before.services.symbol_of(record.descriptor.provisions@[k]@)->0;
            &&& 0 <= k < record.descriptor.provisions@.len() ==> after.dependencies.provides(
                revision.target,
                symbol,
                staged,
            ) && !after.dependencies.provides(revision.staging, symbol, staged)
            &&& edge.fiber != staged ==> (after.dependencies.providers@.contains(edge)
                <==> before.dependencies.providers@.contains(edge))
        }),
        after.dependencies.dependents == before.dependencies.dependents,
{
    let record = before.fibers@[staged.raw];
    let declared = symbols_of(before.services, record.descriptor.provisions@);
    if 0 <= k < declared.len() {
        assert(declared.contains(declared[k]));
    }
}

/// A revision takes the place of the old one only where it provides just what it declared, and
/// where it was staged right below the scope of the old one.
pub proof fn law_adopted_revisions_keep_their_promise(
    before: Runtime,
    after: Runtime,
    job: ReloadJob,
    staged: FiberId,
    invocations: Result<(), CordisError>,
    key: KeyView,
)
    requires
        adopts(before, after, job, staged, invocations, None),
    ensures
        ({
            let record = before.fibers@[staged.raw];
            &&& key_views(record.descriptor.provisions@).contains(key) <==> key_views(
                record.provided@,
            ).contains(key)
            &&& before.scopes@.dom().contains(job.staging.raw)
            &&& before.scopes@[job.staging.raw].parent == Some(job.target)
            &&& before.fibers@[job.old.raw].state is Reloading
            &&& after.scopes@[job.target.raw].fibers@.contains(staged.raw)
            &&& after.fibers@[staged.raw].scope == job.target
        }),
{
    let record = before.fibers@[staged.raw];
    let declared = key_views(record.descriptor.provisions@);
    let given = key_views(record.provided@);
    assert(declared.to_set().contains(key) <==> given.to_set().contains(key));
    let listed = before.scopes@[job.target.raw].fibers@;
    assert(listed.push(staged.raw)[listed.len() as int] == staged.raw);
}

/// A reload installs another revision of the very plugin that is reloaded, hidden, in the scope
/// that was made for it: the fiber that is installed is of the old fiber's plugin, belongs to
/// the reload, and nothing of it is shown.
pub proof fn law_reloads_install_the_same_plugin(
    before: Runtime,
    begun: Runtime,
    after: Runtime,
    old: FiberId,
    job: ReloadJob,
    action: ReloadAction,
    descriptor: PluginDescriptor,
    step: InstallStep,
)
    requires
        begins_reload(before, begun, old, Ok(job)),
        sets_out(job, action),
        action matches ReloadAction::Install { scope, plugin } && installs(
            begun,
            after,
            scope,
            descriptor,
            true,
            Some(plugin),
            Ok(step),
        ),
    ensures
        after.fibers@[step.fiber.raw].plugin_id == before.fibers@[old.raw].plugin_id,
        after.fibers@[step.fiber.raw].scope == job.staging,
        after.fibers@[step.fiber.raw].staged,
        after.fibers@[step.fiber.raw].reload_owned,
        !after.gates.visible(after.fibers@[step.fiber.raw].generation),
        step.fiber != old,
{
}

/// A context of the new fiber works where the old fiber was as soon as the reload has committed,
/// and one of the old fiber does not stand any more.
pub proof fn law_contexts_follow_the_fiber(
    before: Runtime,
    after: Runtime,
    old: FiberId,
    staged: FiberId,
    revision: PreparedScopeRevision,
    invocations: Result<(), CordisError>,
    handlers: Vec<HandlerId>,
    new_context: Context,
    old_context: Context,
    placed: Result<ScopeId, CordisError>,
    stale: Result<ScopeId, CordisError>,
)
    requires
        commits_revision(before, after, old, staged, revision, invocations, Ok(handlers)),
        new_context.fiber == staged,
        new_context.generation == before.fibers@[staged.raw].generation,
        old_context.fiber == old,
        old_context.generation == before.fibers@[old.raw].generation,
        places(after, new_context, placed),
        places(after, old_context, stale),
    ensures
        placed == Ok::<ScopeId, CordisError>(revision.target),
        stale is Err,
        !before.admission.closed ==> may_add(after, new_context) is Ok,
{
}

} // verus!
