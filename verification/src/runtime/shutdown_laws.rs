//! What a shutdown goes through, and what it tells.
#[allow(unused_imports)]
use super::shutdown::{
    asks_shutdown, begins_round, blockers_of, breaks_off, ends_attempt, fiber_blockers,
    fibers_blockers, hears_of_fiber, hears_of_root, hears_of_scope, is_legacy_shutdown, left_fibers,
    left_scopes, one_if, scope_blockers, settles_shutdown, tells_outcome, ShutdownAction,
    ShutdownAttempt,
};
#[allow(unused_imports)]
use super::snapshot::{how_many, staging_fibers, staging_scopes};
#[allow(unused_imports)]
use super::Runtime;
#[allow(unused_imports)]
use crate::arena::id_version;
#[allow(unused_imports)]
use crate::disposal::{CleanupIssue, DisposalObservation};
#[allow(unused_imports)]
use crate::error::{CordisError, PanicPayload};
#[allow(unused_imports)]
use crate::fiber_registry::Fibers;
#[allow(unused_imports)]
use crate::gate::GateTable;
#[allow(unused_imports)]
use crate::ids::{FiberId, ScopeId};
#[allow(unused_imports)]
use crate::shutdown_coordinator::{ShutdownBlocker, ShutdownOutcome, ShutdownStart};
#[allow(unused_imports)]
use std::sync::Arc;
use vstd::prelude::*;

verus! {

/// What an attempt learned of the disposal of a scope; nothing where time ran out.
pub type Heard = Option<Result<Arc<DisposalObservation>, CordisError>>;

/// Whether the issues tell all of what was heard: every issue of a disposal that was observed,
/// and the failure to observe one.
pub open spec fn tells_all(issues: Seq<CleanupIssue>, heard: Heard) -> bool {
    match heard {
        None => true,
        Some(Ok(observation)) => forall|k: int|
            0 <= k < observation.issues@.len() ==> issues.contains(
                #[trigger] observation.issues@[k],
            ),
        Some(Err(error)) => exists|k: int|
            0 <= k < issues.len() && (#[trigger] issues[k]).cause == Some(error),
    }
}

/// One step of an attempt, with what it hears.
pub open spec fn attempt_goes_on(
    before: ShutdownAttempt,
    after: ShutdownAttempt,
    heard: Heard,
) -> bool {
    ||| exists|action: ShutdownAction| #[trigger] hears_of_root(before, after, heard, action)
    ||| exists|runtime: Runtime, action: ShutdownAction| #[trigger]
        hears_of_scope(runtime, before, after, heard, action)
    ||| heard is None && exists|runtime: Runtime, action: ShutdownAction| #[trigger]
        begins_round(runtime, before, after, action)
    ||| heard is None && exists|runtime: Runtime, in_time: bool, action: ShutdownAction| #[trigger]
        hears_of_fiber(runtime, before, after, in_time, action)
}

/// A step of an attempt forgets no issue, in no order, and notes all of what it hears.
pub proof fn law_attempts_note_what_they_hear(
    before: ShutdownAttempt,
    after: ShutdownAttempt,
    heard: Heard,
)
    requires
        attempt_goes_on(before, after, heard),
    ensures
        before.issues@.len() <= after.issues@.len(),
        forall|k: int|
            0 <= k < before.issues@.len() ==> #[trigger] after.issues@[k] == before.issues@[k],
        heard matches Some(Ok(observation)) ==> {
            &&& after.issues@.len() == before.issues@.len() + observation.issues@.len()
            &&& forall|k: int|
                0 <= k < observation.issues@.len() ==> #[trigger] after.issues@[before.issues@.len()
                    + k] == observation.issues@[k]
        },
        heard matches Some(Err(error)) ==> {
            &&& after.issues@.len() == before.issues@.len() + 1
            &&& after.issues@[before.issues@.len() as int].cause == Some(error)
            &&& after.issues@[before.issues@.len() as int].phase is ChildScopeCleanup
            &&& after.issues@[before.issues@.len() as int].message@ == error.text()
        },
        heard is None ==> after.issues@.len() == before.issues@.len(),
        tells_all(after.issues@, heard),
{
    let was = before.issues@;
    let now = after.issues@;
    match heard {
        None => {},
        Some(Ok(observation)) => {
            assert(now == was + observation.issues@);
            assert forall|k: int| 0 <= k < observation.issues@.len() implies now.contains(
                #[trigger] observation.issues@[k],
            ) by {
                assert(now[was.len() + k] == observation.issues@[k]);
            }
        },
        Some(Err(error)) => {
            assert(now.drop_last() == was);
            assert forall|k: int| 0 <= k < was.len() implies #[trigger] now[k] == was[k] by {
                assert(now.drop_last()[k] == now[k]);
            }
            assert(now[was.len() as int] == now.last());
        },
    }
}

/// Whether an attempt went from its beginning through `course`, and heard `heard` on its way.
pub open spec fn is_attempt(course: Seq<ShutdownAttempt>, heard: Seq<Heard>) -> bool {
    &&& course.len() == heard.len() + 1
    &&& course[0].is_new()
    &&& forall|k: int|
        #![trigger heard[k]]
        0 <= k < heard.len() ==> attempt_goes_on(course[k], course[k + 1], heard[k])
}

/// The issues of an attempt tell all of what it heard up to here.
proof fn lemma_attempt_tells(course: Seq<ShutdownAttempt>, heard: Seq<Heard>, n: int, k: int)
    requires
        is_attempt(course, heard),
        0 <= k < n <= heard.len(),
    ensures
        tells_all(course[n].issues@, heard[k]),
    decreases n - k,
{
    law_attempts_note_what_they_hear(course[n - 1], course[n], heard[n - 1]);
    if k < n - 1 {
        lemma_attempt_tells(course, heard, n - 1, k);
        let was = course[n - 1].issues@;
        let now = course[n].issues@;
        match heard[k] {
            None => {},
            Some(Ok(observation)) => {
                assert forall|i: int| 0 <= i < observation.issues@.len() implies now.contains(
                    #[trigger] observation.issues@[i],
                ) by {
                    let at = was.index_of(observation.issues@[i]);
                    assert(was.contains(observation.issues@[i]));
                    assert(now[at] == was[at]);
                }
            },
            Some(Err(error)) => {
                let at = choose|at: int| 0 <= at < was.len() && (#[trigger] was[at]).cause == Some(
                    error,
                );
                assert(now[at] == was[at]);
            },
        }
    }
}

/// A shutdown tells everything that it heard: each issue of each disposal that the attempt
/// observed is among the issues of its outcome, and so is each disposal that could not be
/// observed. So it is complete only if every disposal that it observed was without issues.
pub proof fn law_shutdowns_tell_all_issues(
    course: Seq<ShutdownAttempt>,
    heard: Seq<Heard>,
    before: Runtime,
    after: Runtime,
    outcome: ShutdownOutcome,
    k: int,
)
    requires
        is_attempt(course, heard),
        ends_attempt(before, after, course.last(), outcome),
        0 <= k < heard.len(),
    ensures
        match outcome {
            ShutdownOutcome::Complete => match heard[k] {
                None => true,
                Some(Ok(observation)) => observation.issues@.len() == 0,
                Some(Err(error)) => false,
            },
            ShutdownOutcome::CompleteWithIssues { issues } => tells_all(issues@, heard[k]),
            ShutdownOutcome::Incomplete { blockers, issues } => tells_all(issues@, heard[k]),
        },
{
    lemma_attempt_tells(course, heard, heard.len() as int, k);
    if outcome is Complete {
        let issues = course.last().issues@;
        assert(issues.len() == 0);
        if let Some(Ok(observation)) = heard[k] {
            if observation.issues@.len() > 0 {
                assert(issues.contains(observation.issues@[0]));
            }
        }
    }
}

/// A shutdown that has something to tell is not complete, and one that has nothing to tell and
/// finds nothing left is.
pub proof fn law_outcomes_tell_issues_and_blockers(
    before: Runtime,
    after: Runtime,
    attempt: ShutdownAttempt,
    outcome: ShutdownOutcome,
)
    requires
        ends_attempt(before, after, attempt, outcome),
    ensures
        outcome is Complete ==> attempt.issues@.len() == 0 && blockers_of(after).len() == 0,
        attempt.issues@.len() == 0 && blockers_of(after).len() == 0 ==> outcome is Complete,
        outcome matches ShutdownOutcome::CompleteWithIssues { issues } ==> issues@
            == attempt.issues@ && blockers_of(after).len() == 0 && issues@.len() > 0,
        outcome matches ShutdownOutcome::Incomplete { blockers, issues } ==> issues@
            == attempt.issues@ && blockers@ == blockers_of(after) && blockers@.len() > 0,
{
}

/// A root scope that converged lets the attempt stop the workers; where it did not, or could
/// not be observed, the attempt ends.
pub proof fn law_attempts_stop_workers_after_the_root(
    before: ShutdownAttempt,
    after: ShutdownAttempt,
    disposed: Heard,
    action: ShutdownAction,
)
    requires
        hears_of_root(before, after, disposed, action),
    ensures
        action is StopWorkers <==> (disposed matches Some(Ok(observation))),
        action is StopWorkers || action is Conclude,
{
}

/// What a filter keeps is what was there and is picked.
proof fn lemma_picked(ids: Seq<u64>, pick: spec_fn(u64) -> bool, id: u64)
    ensures
        ids.filter(pick).contains(id) <==> ids.contains(id) && pick(id),
{
    let kept = ids.filter(pick);
    if ids.contains(id) && pick(id) {
        ids.lemma_filter_contains(pick, ids.index_of(id));
    }
    if kept.contains(id) {
        ids.lemma_filter_pred(pick, kept.index_of(id));
        ids.lemma_filter_contains_rev(pick, id);
    }
}

/// A round takes up every scope that is left but the root, and no other, and asks for the
/// first of them; where none is left, it takes up every fiber that is left, and no other. It
/// is the last one where nothing is left at all.
pub proof fn law_rounds_take_up_what_is_left(
    runtime: Runtime,
    before: ShutdownAttempt,
    after: ShutdownAttempt,
    action: ShutdownAction,
    id: u64,
)
    requires
        runtime.wf(),
        begins_round(runtime, before, after, action),
    ensures
        after.rounds == before.rounds + 1,
        after.scopes@.contains(id) <==> runtime.scopes@.dom().contains(id) && id
            != runtime.scopes.root.raw && !(runtime.scopes@[id].state is Disposed),
        after.scopes@.len() > 0 ==> after.fibers is None && after.at == 0 && action
            == ShutdownAction::DisposeScope(ScopeId { raw: after.scopes@[0] }),
        after.scopes@.len() == 0 ==> after.fibers is Some && (after.fibers->0@.contains(id)
            <==> runtime.fibers@.dom().contains(id) && !(runtime.fibers@[id].state is Disposed)),
        after.scopes@.len() == 0 && after.fibers->0@.len() > 0 ==> action
            == ShutdownAction::DisposeFiber(FiberId { raw: after.fibers->0@[0] }),
        after.scopes@.len() == 0 && after.fibers->0@.len() == 0 ==> action is Conclude,
{
    runtime.scopes.scopes.lemma_order();
    runtime.fibers.lemma_order();
    lemma_picked(
        runtime.scopes.scopes.order(),
        left_scopes(runtime.scopes@, runtime.scopes.root),
        id,
    );
    lemma_picked(runtime.fibers.order(), left_fibers(runtime.fibers@), id);
}

/// A round goes through its scopes one after the other, then through every fiber that is left
/// at that point, one after the other, and pauses or ends only after the last of them. It ends
/// the attempt where the round found nothing, or where it was the fourth one.
pub proof fn law_rounds_go_one_by_one(
    runtime: Runtime,
    before: ShutdownAttempt,
    after: ShutdownAttempt,
    disposed: Heard,
    action: ShutdownAction,
    id: u64,
)
    requires
        runtime.wf(),
        before.fibers is None,
        before.at < before.scopes@.len(),
        before.at < usize::MAX,
        hears_of_scope(runtime, before, after, disposed, action),
    ensures
        disposed is None ==> action is Conclude,
        disposed is Some && before.at + 1 < before.scopes@.len() ==> {
            &&& after.fibers is None
            &&& after.at == before.at + 1
            &&& action == ShutdownAction::DisposeScope(
                ScopeId { raw: before.scopes@[before.at + 1] },
            )
        },
        disposed is Some && before.at + 1 == before.scopes@.len() ==> {
            &&& after.fibers is Some
            &&& after.fibers->0@.contains(id) <==> runtime.fibers@.dom().contains(id) && !(
            runtime.fibers@[id].state is Disposed)
            &&& after.fibers->0@.len() > 0 ==> action == ShutdownAction::DisposeFiber(
                FiberId { raw: after.fibers->0@[0] },
            )
            &&& after.fibers->0@.len() == 0 ==> action == if before.rounds >= 4 {
                ShutdownAction::Conclude
            } else {
                ShutdownAction::Pause
            }
        },
        after.rounds == before.rounds,
        after.scopes@ == before.scopes@,
{
    runtime.fibers.lemma_order();
    lemma_picked(runtime.fibers.order(), left_fibers(runtime.fibers@), id);
}

/// The same for the fibers of a round.
pub proof fn law_fibers_of_rounds_go_one_by_one(
    runtime: Runtime,
    before: ShutdownAttempt,
    after: ShutdownAttempt,
    in_time: bool,
    action: ShutdownAction,
)
    requires
        before.fibers is Some,
        before.at < before.fibers->0@.len(),
        before.at < usize::MAX,
        hears_of_fiber(runtime, before, after, in_time, action),
    ensures
        !in_time ==> action is Conclude && after == before,
        in_time && before.at + 1 < before.fibers->0@.len() ==> action
            == ShutdownAction::DisposeFiber(FiberId { raw: before.fibers->0@[before.at + 1] }),
        in_time && before.at + 1 == before.fibers->0@.len() ==> action == if before.rounds >= 4 {
            ShutdownAction::Conclude
        } else {
            ShutdownAction::Pause
        },
        in_time ==> after.at == before.at + 1,
        after.issues@ == before.issues@,
        after.rounds == before.rounds,
        after.fibers is Some,
        after.fibers->0@ == before.fibers->0@,
{
}

/// What one fiber stands in the way with is among the blockers.
proof fn lemma_fiber_blocks(ids: Seq<u64>, fibers: Fibers, gates: GateTable, k: int, b: int)
    requires
        0 <= k < ids.len(),
        0 <= b < fiber_blockers(
            ids[k],
            fibers[ids[k]],
            gates.at(fibers[ids[k]].generation),
        ).len(),
    ensures
        fibers_blockers(ids, fibers, gates).contains(
            fiber_blockers(ids[k], fibers[ids[k]], gates.at(fibers[ids[k]].generation))[b],
        ),
    decreases ids.len(),
{
    let rest = fibers_blockers(ids.drop_last(), fibers, gates);
    let last = fiber_blockers(
        ids.last(),
        fibers[ids.last()],
        gates.at(fibers[ids.last()].generation),
    );
    let all = fibers_blockers(ids, fibers, gates);
    assert(all == rest + last);
    if k == ids.len() - 1 {
        assert(all[rest.len() + b] == last[b]);
    } else {
        lemma_fiber_blocks(ids.drop_last(), fibers, gates, k, b);
        let blocker = fiber_blockers(
            ids[k],
            fibers[ids[k]],
            gates.at(fibers[ids[k]].generation),
        )[b];
        let at = rest.index_of(blocker);
        assert(all[at] == rest[at]);
    }
}

/// What stands in the way of one fiber's end, by name.
proof fn lemma_fiber_blockers(
    id: u64,
    record: crate::fiber_registry::FiberRecord,
    gate: crate::gate::CapabilityGate,
)
    ensures
        ({
            let all = fiber_blockers(id, record, gate);
            let fiber = FiberId { raw: id };
            &&& !(record.state is Disposed) ==> exists|b: int|
                0 <= b < all.len() && #[trigger] all[b] == ShutdownBlocker::Fiber(fiber)
            &&& record.hosted_live > 0 ==> exists|b: int|
                0 <= b < all.len() && #[trigger] all[b] == (ShutdownBlocker::HostedExecution {
                    fiber,
                })
            &&& gate.inflight != 0 || gate.service_handles != 0 ==> exists|b: int|
                0 <= b < all.len() && #[trigger] all[b] == (ShutdownBlocker::GenerationInflight {
                    fiber,
                    generation: record.generation.raw,
                    inflight: gate.inflight,
                    service_handles: gate.service_handles,
                })
        }),
{
    let fiber = FiberId { raw: id };
    let all = fiber_blockers(id, record, gate);
    let first = one_if(!(record.state is Disposed), ShutdownBlocker::Fiber(fiber));
    let second = one_if(record.hosted_live > 0, ShutdownBlocker::HostedExecution { fiber });
    let held = ShutdownBlocker::GenerationInflight {
        fiber,
        generation: record.generation.raw,
        inflight: gate.inflight,
        service_handles: gate.service_handles,
    };
    let third = one_if(gate.inflight != 0 || gate.service_handles != 0, held);
    assert(all == first + second + third);
    if first.len() > 0 {
        assert(all[0] == first[0]);
    }
    if second.len() > 0 {
        assert(all[first.len() as int] == second[0]);
    }
    if third.len() > 0 {
        assert(all[(first + second).len() as int] == third[0]);
    }
}

/// A shutdown that is not through names everything that stands in its way: every fiber that is
/// not disposed, every fiber with a hosted process, every generation in use with how often it
/// is, every scope that is left, and how many workers, tasks, reloads and staged things are.
pub proof fn law_blockers_name_everything(runtime: Runtime, id: u64)
    requires
        runtime.wf(),
    ensures
        ({
            let blockers = blockers_of(runtime);
            let record = runtime.fibers@[id];
            let gate = runtime.gates.at(record.generation);
            let workers = runtime.workers.workers@.dom().len();
            let tasks = runtime.tasks.arena@.dom().len();
            let reloads = runtime.active_reloads + runtime.reload_cleanup_pending;
            &&& runtime.fibers@.dom().contains(id) && !(record.state is Disposed)
                ==> blockers.contains(ShutdownBlocker::Fiber(FiberId { raw: id }))
            &&& runtime.fibers@.dom().contains(id) && record.hosted_live > 0 ==> blockers.contains(
                ShutdownBlocker::HostedExecution { fiber: FiberId { raw: id } },
            )
            &&& runtime.fibers@.dom().contains(id) && (gate.inflight != 0 || gate.service_handles
                != 0) ==> blockers.contains(
                ShutdownBlocker::GenerationInflight {
                    fiber: FiberId { raw: id },
                    generation: record.generation.raw,
                    inflight: gate.inflight,
                    service_handles: gate.service_handles,
                },
            )
            &&& runtime.scopes@.dom().contains(id) && id != runtime.scopes.root.raw && !(
            runtime.scopes@[id].state is Disposed) ==> blockers.contains(
                ShutdownBlocker::Scope(ScopeId { raw: id }),
            )
            &&& workers != 0 ==> blockers.contains(ShutdownBlocker::RuntimeWorkers(workers as usize))
            &&& tasks != 0 ==> blockers.contains(ShutdownBlocker::Tasks(tasks as usize))
            &&& reloads != 0 ==> blockers.contains(
                ShutdownBlocker::ReloadTransactions(reloads as usize),
            )
            &&& runtime.fibers@.dom().contains(id) && record.staged && !(record.state is Disposed)
                ==> exists|k: int|
                0 <= k < blockers.len() && (#[trigger] blockers[k]) is Staging
        }),
{
    let ids = runtime.fibers.order();
    let scopes = runtime.scopes.scopes.order();
    let left = scopes.filter(left_scopes(runtime.scopes@, runtime.scopes.root));
    runtime.fibers.lemma_order();
    runtime.scopes.scopes.lemma_order();
    let record = runtime.fibers@[id];
    let gate = runtime.gates.at(record.generation);
    let workers = runtime.workers.workers@.dom().len();
    let tasks = runtime.tasks.arena@.dom().len();
    let reloads = runtime.active_reloads + runtime.reload_cleanup_pending;
    let staged_fibers = how_many(ids, staging_fibers(runtime.fibers@));
    let staged_scopes = how_many(scopes, staging_scopes(runtime.scopes@));
    let a = fibers_blockers(ids, runtime.fibers@, runtime.gates);
    let b = scope_blockers(left);
    let c = one_if(workers != 0, ShutdownBlocker::RuntimeWorkers(workers as usize));
    let d = one_if(tasks != 0, ShutdownBlocker::Tasks(tasks as usize));
    let e = one_if(reloads != 0, ShutdownBlocker::ReloadTransactions(reloads as usize));
    let f = one_if(
        staged_fibers != 0 || staged_scopes != 0,
        ShutdownBlocker::Staging {
            fibers: staged_fibers as usize,
            scopes: staged_scopes as usize,
        },
    );
    let all = blockers_of(runtime);
    assert(all == a + b + c + d + e + f);
    assert forall|k: int| 0 <= k < a.len() implies all.contains(#[trigger] a[k]) by {
        assert(all[k] == a[k]);
    }
    assert forall|k: int| 0 <= k < b.len() implies all.contains(#[trigger] b[k]) by {
        assert(all[a.len() + k] == b[k]);
    }
    if runtime.fibers@.dom().contains(id) {
        let k = ids.index_of(id);
        let own = fiber_blockers(id, record, gate);
        lemma_fiber_blockers(id, record, gate);
        assert forall|n: int| 0 <= n < own.len() implies all.contains(#[trigger] own[n]) by {
            lemma_fiber_blocks(ids, runtime.fibers@, runtime.gates, k, n);
            let at = a.index_of(own[n]);
            assert(a[at] == own[n]);
        }
    }
    if runtime.scopes@.dom().contains(id) && id != runtime.scopes.root.raw && !(
    runtime.scopes@[id].state is Disposed) {
        lemma_picked(scopes, left_scopes(runtime.scopes@, runtime.scopes.root), id);
        let k = left.index_of(id);
        assert(b[k] == ShutdownBlocker::Scope(ScopeId { raw: id }));
    }
    if workers != 0 {
        assert(all[(a + b).len() as int] == c[0]);
    }
    if tasks != 0 {
        assert(all[(a + b + c).len() as int] == d[0]);
    }
    if reloads != 0 {
        assert(all[(a + b + c + d).len() as int] == e[0]);
    }
    if runtime.fibers@.dom().contains(id) && record.staged && !(record.state is Disposed) {
        lemma_picked(ids, staging_fibers(runtime.fibers@), id);
        assert(ids.filter(staging_fibers(runtime.fibers@)).len() > 0);
        assert(all[(a + b + c + d + e).len() as int] == f[0]);
    }
}

/// Callers who only ask whether a shutdown is complete and clean are told so exactly where it
/// is; an attempt that panicked is none of that, and says so.
pub proof fn law_only_clean_shutdowns_succeed(
    outcome: ShutdownOutcome,
    result: Result<(), CordisError>,
)
    requires
        is_legacy_shutdown(outcome, result),
    ensures
        result is Ok <==> outcome is Complete,
        result is Err ==> result->Err_0 is CleanupFailed,
{
}

/// An attempt that panicked leaves the runtime as it stands: incomplete, with what stands in
/// the way, and with the panic as the one issue.
pub proof fn law_panicked_attempts_are_incomplete(
    runtime: Runtime,
    payload: PanicPayload,
    outcome: ShutdownOutcome,
    result: Result<(), CordisError>,
)
    requires
        breaks_off(runtime, payload, outcome),
        is_legacy_shutdown(outcome, result),
    ensures
        result is Err,
        outcome matches ShutdownOutcome::Incomplete { blockers, issues } && blockers@
            == blockers_of(runtime) && issues@.len() == 1 && issues@[0].phase is Worker && (
        issues@[0].cause matches Some(CordisError::ShutdownWorkerPanicked(message)) && (
        payload matches PanicPayload::Text(words) ==> message@ == words@)),
{
}

/// A shutdown closes the runtime when it begins and keeps it closed. It is over where its
/// outcome says so, and where it is not, another attempt can begin, which gets another number
/// and begins without an outcome.
pub proof fn law_shutdowns_begin_and_settle(
    before: Runtime,
    asked: Runtime,
    settled: Runtime,
    again: Runtime,
    start: ShutdownStart,
    outcome: ShutdownOutcome,
    next: ShutdownStart,
)
    requires
        before.wf(),
        asks_shutdown(before, asked, start),
        start is Started,
        settles_shutdown(asked, settled, outcome),
        settled.wf(),
        asks_shutdown(settled, again, next),
    ensures
        asked.admission.closed,
        asked.shutdown.lifecycle is ShuttingDown,
        asked.shutdown.last_outcome() is None,
        match (start, next) {
            (ShutdownStart::Started(first), ShutdownStart::Started(second)) => outcome is Incomplete
                && (first < u64::MAX ==> second == first + 1),
            (ShutdownStart::Started(first), ShutdownStart::Observing(second)) => second == first,
            _ => false,
        },
        outcome is Incomplete ==> settled.shutdown.lifecycle is Incomplete && next is Started
            && again.shutdown.lifecycle is ShuttingDown && settled.admission == asked.admission,
        !(outcome is Incomplete) ==> settled.shutdown.lifecycle is Complete && again == settled
            && settled.admission.complete,
        settled.shutdown.last_outcome() matches Some(told) && *told == outcome,
        settled.fibers == before.fibers,
        settled.scopes == before.scopes,
{
}

/// What can be read of the last shutdown is what it was settled with: the same kind of outcome,
/// with the same blockers and the same issues, and nothing before one ended.
pub proof fn law_settled_outcomes_can_be_read(
    before: Runtime,
    after: Runtime,
    outcome: ShutdownOutcome,
    told: Option<ShutdownOutcome>,
    early: Option<ShutdownOutcome>,
)
    requires
        before.shutdown.lifecycle is ShuttingDown,
        before.wf(),
        tells_outcome(before, early),
        settles_shutdown(before, after, outcome),
        tells_outcome(after, told),
    ensures
        early is None,
        match (told, outcome) {
            (Some(ShutdownOutcome::Complete), ShutdownOutcome::Complete) => true,
            (
                Some(ShutdownOutcome::CompleteWithIssues { issues }),
                ShutdownOutcome::CompleteWithIssues { issues: given },
            ) => issues@ == given@,
            (
                Some(ShutdownOutcome::Incomplete { blockers, issues }),
                ShutdownOutcome::Incomplete { blockers: left, issues: given },
            ) => blockers@ == left@ && issues@ == given@,
            _ => false,
        },
{
}

/// An attempt that ends leaves no garbage: no disposed fiber that can be given up is left, and
/// nobody who is not disposed is lost.
pub proof fn law_ended_attempts_leave_no_garbage(
    before: Runtime,
    after: Runtime,
    attempt: ShutdownAttempt,
    outcome: ShutdownOutcome,
    id: u64,
)
    requires
        ends_attempt(before, after, attempt, outcome),
    ensures
        after.fibers@.dom().contains(id) ==> !(after.fibers@[id].state is Disposed && id_version(id)
            < u32::MAX),
        before.fibers@.dom().contains(id) && !(before.fibers@[id].state is Disposed)
            ==> after.fibers@.dom().contains(id) && after.fibers@[id] == before.fibers@[id],
        after.workers == before.workers,
        after.tasks == before.tasks,
{
}

/// Where no fiber stands in the way, none is named.
proof fn lemma_no_fiber_blocks(ids: Seq<u64>, fibers: Fibers, gates: GateTable)
    requires
        forall|k: int|
            0 <= k < ids.len() ==> fibers[#[trigger] ids[k]].state is Disposed
                && fibers[ids[k]].hosted_live == 0 && gates.at(fibers[ids[k]].generation).inflight
                == 0 && gates.at(fibers[ids[k]].generation).service_handles == 0,
    ensures
        fibers_blockers(ids, fibers, gates).len() == 0,
    decreases ids.len(),
{
    if ids.len() > 0 {
        assert forall|k: int| 0 <= k < ids.drop_last().len() implies fibers[
            #[trigger] ids.drop_last()[k]
        ].state is Disposed && fibers[ids.drop_last()[k]].hosted_live == 0 && gates.at(
            fibers[ids.drop_last()[k]].generation,
        ).inflight == 0 && gates.at(fibers[ids.drop_last()[k]].generation).service_handles == 0 by {
            assert(ids.drop_last()[k] == ids[k]);
        }
        lemma_no_fiber_blocks(ids.drop_last(), fibers, gates);
        assert(ids.last() == ids[ids.len() - 1]);
    }
}

/// A shutdown is complete where nothing is left to stand in its way and nothing went wrong:
/// every fiber is disposed, without hosted processes and uses, every scope but the root is
/// disposed, and no worker, task or reload is left.
pub proof fn law_nothing_left_is_complete(
    before: Runtime,
    after: Runtime,
    attempt: ShutdownAttempt,
    outcome: ShutdownOutcome,
)
    requires
        after.wf(),
        ends_attempt(before, after, attempt, outcome),
        attempt.issues@.len() == 0,
        forall|id: u64| #[trigger]
            after.fibers@.dom().contains(id) ==> {
                &&& after.fibers@[id].state is Disposed
                &&& after.fibers@[id].hosted_live == 0
                &&& after.gates.at(after.fibers@[id].generation).inflight == 0
                &&& after.gates.at(after.fibers@[id].generation).service_handles == 0
            },
        forall|id: u64| #[trigger]
            after.scopes@.dom().contains(id) ==> (id == after.scopes.root.raw
                && !after.scopes@[id].hidden) || after.scopes@[id].state is Disposed,
        after.workers.workers@.dom().len() == 0,
        after.tasks.arena@.dom().len() == 0,
        after.active_reloads == 0,
        after.reload_cleanup_pending == 0,
    ensures
        outcome is Complete,
{
    let ids = after.fibers.order();
    let scopes = after.scopes.scopes.order();
    after.fibers.lemma_order();
    after.scopes.scopes.lemma_order();
    assert forall|k: int| 0 <= k < ids.len() implies after.fibers@.dom().contains(
        #[trigger] ids[k],
    ) by {
        assert(ids.contains(ids[k]));
    }
    lemma_no_fiber_blocks(ids, after.fibers@, after.gates);
    let left = scopes.filter(left_scopes(after.scopes@, after.scopes.root));
    if left.len() > 0 {
        lemma_picked(scopes, left_scopes(after.scopes@, after.scopes.root), left[0]);
        assert(left.contains(left[0]));
        assert(after.scopes@.dom().contains(left[0]));
    }
    assert(left.len() == 0);
    let staged = ids.filter(staging_fibers(after.fibers@));
    if staged.len() > 0 {
        lemma_picked(ids, staging_fibers(after.fibers@), staged[0]);
        assert(staged.contains(staged[0]));
        assert(after.fibers@.dom().contains(staged[0]));
    }
    assert(how_many(ids, staging_fibers(after.fibers@)) == 0);
    let hidden = scopes.filter(staging_scopes(after.scopes@));
    if hidden.len() > 0 {
        lemma_picked(scopes, staging_scopes(after.scopes@), hidden[0]);
        assert(hidden.contains(hidden[0]));
        assert(after.scopes@.dom().contains(hidden[0]));
    }
    assert(how_many(scopes, staging_scopes(after.scopes@)) == 0);
    assert(scope_blockers(left).len() == 0);
    assert(blockers_of(after).len() == 0);
}

} // verus!
