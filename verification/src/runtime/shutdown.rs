//! Shutting a runtime down.
#[allow(unused_imports)]
use super::garbage::{collects, GarbageReport};
#[allow(unused_imports)]
use super::snapshot::{how_many, staging_fibers, staging_scopes};
use super::Runtime;
use crate::disposal::{append_issues, report, CleanupIssue, DisposalObservation};
#[allow(unused_imports)]
use crate::disposal::issues_text;
use crate::error::{panic_message, CordisError, PanicPayload};
use crate::fiber_registry::FiberRecord;
#[allow(unused_imports)]
use crate::fiber_registry::Fibers;
use crate::gate::CapabilityGate;
#[allow(unused_imports)]
use crate::gate::{AdmissionGate, GateTable};
use crate::ids::{FiberId, ScopeId};
#[allow(unused_imports)]
use crate::scope_registry::Scopes;
#[allow(unused_imports)]
use crate::shutdown_coordinator::starts_attempt;
use crate::shutdown_coordinator::{
    RuntimeShutdownState, ShutdownBlocker, ShutdownOutcome, ShutdownStart,
};
use crate::state::{CleanupPhase, FiberState, ScopeState};
use crate::text::{concat, decimal_text, join};
#[allow(unused_imports)]
use crate::text::{decimal, joined, views};
use std::sync::Arc;
use vstd::prelude::*;

verus! {

/// How many rounds a shutdown goes through what is left.
pub const RESIDUE_ROUNDS: usize = 4;

/// One or none, as `now` tells.
pub open spec fn one_if(now: bool, blocker: ShutdownBlocker) -> Seq<ShutdownBlocker> {
    if now {
        seq![blocker]
    } else {
        Seq::empty()
    }
}

/// What one fiber keeps from being over.
pub open spec fn fiber_blockers(
    id: u64,
    record: FiberRecord,
    gate: CapabilityGate,
) -> Seq<ShutdownBlocker> {
    let fiber = FiberId { raw: id };
    one_if(!(record.state is Disposed), ShutdownBlocker::Fiber(fiber)) + one_if(
        record.hosted_live > 0,
        ShutdownBlocker::HostedExecution { fiber },
    ) + one_if(
        gate.inflight != 0 || gate.service_handles != 0,
        ShutdownBlocker::GenerationInflight {
            fiber,
            generation: record.generation.raw,
            inflight: gate.inflight,
            service_handles: gate.service_handles,
        },
    )
}

/// What the fibers keep from being over, in their order.
pub open spec fn fibers_blockers(
    ids: Seq<u64>,
    fibers: Fibers,
    gates: GateTable,
) -> Seq<ShutdownBlocker>
    decreases ids.len(),
{
    if ids.len() == 0 {
        Seq::empty()
    } else {
        let id = ids.last();
        fibers_blockers(ids.drop_last(), fibers, gates) + fiber_blockers(
            id,
            fibers[id],
            gates.at(fibers[id].generation),
        )
    }
}

/// Whether a scope other than the root is not disposed.
pub open spec fn is_left(scopes: Scopes, root: ScopeId, id: u64) -> bool {
    id != root.raw && !(scopes[id].state is Disposed)
}

/// Picks the scopes that are left.
pub open spec fn left_scopes(scopes: Scopes, root: ScopeId) -> spec_fn(u64) -> bool {
    |id: u64| is_left(scopes, root, id)
}

/// Picks the fibers that are left.
pub open spec fn left_fibers(fibers: Fibers) -> spec_fn(u64) -> bool {
    |id: u64| !(fibers[id].state is Disposed)
}

/// The scopes as blockers.
pub open spec fn scope_blockers(ids: Seq<u64>) -> Seq<ShutdownBlocker> {
    Seq::new(ids.len(), |i: int| ShutdownBlocker::Scope(ScopeId { raw: ids[i] }))
}

/// Everything that keeps a shutdown from being complete.
pub open spec fn blockers_of(runtime: Runtime) -> Seq<ShutdownBlocker> {
    let ids = runtime.fibers.order();
    let scopes = runtime.scopes.scopes.order();
    let workers = runtime.workers.workers@.dom().len();
    let tasks = runtime.tasks.arena@.dom().len();
    let reloads = runtime.active_reloads + runtime.reload_cleanup_pending;
    let staged_fibers = how_many(ids, staging_fibers(runtime.fibers@));
    let staged_scopes = how_many(scopes, staging_scopes(runtime.scopes@));
    fibers_blockers(ids, runtime.fibers@, runtime.gates) + scope_blockers(
        scopes.filter(left_scopes(runtime.scopes@, runtime.scopes.root)),
    ) + one_if(workers != 0, ShutdownBlocker::RuntimeWorkers(workers as usize)) + one_if(
        tasks != 0,
        ShutdownBlocker::Tasks(tasks as usize),
    ) + one_if(reloads != 0, ShutdownBlocker::ReloadTransactions(reloads as usize)) + one_if(
        staged_fibers != 0 || staged_scopes != 0,
        ShutdownBlocker::Staging {
            fibers: staged_fibers as usize,
            scopes: staged_scopes as usize,
        },
    )
}

/// How an attempt ends that left `blockers` and noted `issues`.
pub open spec fn concludes(
    blockers: Seq<ShutdownBlocker>,
    issues: Seq<CleanupIssue>,
    outcome: ShutdownOutcome,
) -> bool {
    if blockers.len() == 0 && issues.len() == 0 {
        outcome is Complete
    } else if blockers.len() == 0 {
        outcome matches ShutdownOutcome::CompleteWithIssues { issues: noted } && noted@ == issues
    } else {
        &&& outcome matches ShutdownOutcome::Incomplete { blockers: left, issues: noted }
        &&& left@ == blockers
        &&& noted@ == issues
    }
}

/// How a blocker reads.
pub open spec fn blocker_text(blocker: ShutdownBlocker) -> Seq<char> {
    match blocker {
        ShutdownBlocker::Fiber(fiber) => "Fiber("@ + fiber.text() + ")"@,
        ShutdownBlocker::HostedExecution { fiber } => "HostedExecution { fiber: "@ + fiber.text()
            + " }"@,
        ShutdownBlocker::Scope(scope) => "Scope("@ + scope.text() + ")"@,
        ShutdownBlocker::RuntimeWorkers(count) => "RuntimeWorkers("@ + decimal(count as nat)
            + ")"@,
        ShutdownBlocker::Tasks(count) => "Tasks("@ + decimal(count as nat) + ")"@,
        ShutdownBlocker::GenerationInflight { fiber, generation, inflight, service_handles } => {
            "GenerationInflight { fiber: "@ + fiber.text() + ", generation: "@ + decimal(
                generation as nat,
            ) + ", inflight: "@ + decimal(inflight as nat) + ", service_handles: "@ + decimal(
                service_handles as nat,
            ) + " }"@
        },
        ShutdownBlocker::ReloadTransactions(count) => "ReloadTransactions("@ + decimal(
            count as nat,
        ) + ")"@,
        ShutdownBlocker::Staging { fibers, scopes } => "Staging { fibers: "@ + decimal(
            fibers as nat,
        ) + ", scopes: "@ + decimal(scopes as nat) + " }"@,
    }
}

/// How each blocker reads.
pub open spec fn blocker_texts(blockers: Seq<ShutdownBlocker>) -> Seq<Seq<char>> {
    Seq::new(blockers.len(), |i: int| blocker_text(blockers[i]))
}

fn show_blocker(blocker: &ShutdownBlocker) -> (text: String)
    ensures
        text@ == blocker_text(*blocker),
{
    match blocker {
        ShutdownBlocker::Fiber(fiber) => concat(&concat("Fiber(", &fiber.debug_text()), ")"),
        ShutdownBlocker::HostedExecution { fiber } => concat(
            &concat("HostedExecution { fiber: ", &fiber.debug_text()),
            " }",
        ),
        ShutdownBlocker::Scope(scope) => concat(&concat("Scope(", &scope.debug_text()), ")"),
        ShutdownBlocker::RuntimeWorkers(count) => concat(
            &concat("RuntimeWorkers(", &decimal_text(*count as u64)),
            ")",
        ),
        ShutdownBlocker::Tasks(count) => concat(
            &concat("Tasks(", &decimal_text(*count as u64)),
            ")",
        ),
        ShutdownBlocker::GenerationInflight { fiber, generation, inflight, service_handles } => {
            let mut text = concat("GenerationInflight { fiber: ", &fiber.debug_text());
            text.append(", generation: ");
            text.append(decimal_text(*generation).as_str());
            text.append(", inflight: ");
            text.append(decimal_text(*inflight as u64).as_str());
            text.append(", service_handles: ");
            text.append(decimal_text(*service_handles as u64).as_str());
            text.append(" }");
            text
        },
        ShutdownBlocker::ReloadTransactions(count) => concat(
            &concat("ReloadTransactions(", &decimal_text(*count as u64)),
            ")",
        ),
        ShutdownBlocker::Staging { fibers, scopes } => {
            let mut text = concat("Staging { fibers: ", &decimal_text(*fibers as u64));
            text.append(", scopes: ");
            text.append(decimal_text(*scopes as u64).as_str());
            text.append(" }");
            text
        },
    }
}

/// How a list of blockers reads.
pub open spec fn blockers_text(blockers: Seq<ShutdownBlocker>) -> Seq<char> {
    "["@ + joined(blocker_texts(blockers), ", "@) + "]"@
}

fn show_blockers(blockers: &Vec<ShutdownBlocker>) -> (text: String)
    ensures
        text@ == blockers_text(blockers@),
{
    let mut parts: Vec<String> = Vec::new();
    let mut i: usize = 0;
    while i < blockers.len()
        invariant
            i <= blockers@.len(),
            parts@.len() == i,
            forall|k: int| 0 <= k < i ==> (#[trigger] parts@[k])@ == blocker_text(blockers@[k]),
        decreases blockers@.len() - i,
    {
        parts.push(show_blocker(&blockers[i]));
        i += 1;
    }
    proof {
        assert(views(parts@) =~= blocker_texts(blockers@));
    }
    concat(&concat("[", &join(&parts, ", ")), "]")
}

proof fn lemma_next_fiber(ids: Seq<u64>, i: int, fibers: Fibers, gates: GateTable)
    requires
        0 <= i < ids.len(),
    ensures
        fibers_blockers(ids.take(i + 1), fibers, gates) == fibers_blockers(
            ids.take(i),
            fibers,
            gates,
        ) + fiber_blockers(ids[i], fibers[ids[i]], gates.at(fibers[ids[i]].generation)),
{
    assert(ids.take(i + 1).drop_last() =~= ids.take(i));
}

proof fn lemma_next_pick(ids: Seq<u64>, i: int, pick: spec_fn(u64) -> bool)
    requires
        0 <= i < ids.len(),
    ensures
        ids.take(i + 1).filter(pick) == if pick(ids[i]) {
            ids.take(i).filter(pick).push(ids[i])
        } else {
            ids.take(i).filter(pick)
        },
{
    reveal(Seq::filter);
    assert(ids.take(i + 1).drop_last() =~= ids.take(i));
}

/// Adds what one fiber keeps from being over.
fn add_fiber_blockers(
    blockers: &mut Vec<ShutdownBlocker>,
    id: u64,
    record: &FiberRecord,
    gate: CapabilityGate,
)
    ensures
        final(blockers)@ == old(blockers)@ + fiber_blockers(id, *record, gate),
{
    let fiber = FiberId { raw: id };
    if record.state != FiberState::Disposed {
        blockers.push(ShutdownBlocker::Fiber(fiber));
    }
    if record.hosted_live > 0 {
        blockers.push(ShutdownBlocker::HostedExecution { fiber });
    }
    if gate.inflight != 0 || gate.service_handles != 0 {
        blockers.push(
            ShutdownBlocker::GenerationInflight {
                fiber,
                generation: record.generation.raw,
                inflight: gate.inflight,
                service_handles: gate.service_handles,
            },
        );
    }
    proof {
        assert(blockers@ =~= old(blockers)@ + fiber_blockers(id, *record, gate));
    }
}

/// Adds a blocker where it blocks.
fn add_if(blockers: &mut Vec<ShutdownBlocker>, now: bool, blocker: ShutdownBlocker)
    ensures
        final(blockers)@ == old(blockers)@ + one_if(now, blocker),
{
    if now {
        blockers.push(blocker);
    }
    proof {
        assert(blockers@ =~= old(blockers)@ + one_if(now, blocker));
    }
}

impl Runtime {
    /// The scopes other than the root that are not disposed.
    fn residue_scopes(&self) -> (left: Vec<u64>)
        requires
            self.wf(),
        ensures
            left@ == self.scopes.scopes.order().filter(
                left_scopes(self.scopes@, self.scopes.root),
            ),
    {
        let ids = self.scopes.ids();
        let ghost pick = left_scopes(self.scopes@, self.scopes.root);
        let mut left: Vec<u64> = Vec::new();
        let mut i: usize = 0;
        proof {
            reveal(Seq::filter);
        }
        while i < ids.len()
            invariant
                self.wf(),
                forall|id: u64| #[trigger] self.scopes@.dom().contains(id) <==> ids@.contains(id),
                pick == left_scopes(self.scopes@, self.scopes.root),
                i <= ids@.len(),
                left@ == ids@.take(i as int).filter(pick),
            decreases ids@.len() - i,
        {
            let id = ids[i];
            proof {
                assert(ids@.contains(id));
                lemma_next_pick(ids@, i as int, pick);
            }
            if let Some(record) = self.scopes.get(ScopeId { raw: id }) {
                if id != self.scopes.root.raw && record.state != ScopeState::Disposed {
                    left.push(id);
                }
            }
            i += 1;
        }
        proof {
            assert(ids@.take(i as int) =~= ids@);
        }
        left
    }

    /// The fibers that are not disposed.
    fn residue_fibers(&self) -> (left: Vec<u64>)
        requires
            self.wf(),
        ensures
            left@ == self.fibers.order().filter(left_fibers(self.fibers@)),
    {
        let ids = self.fibers.ids();
        let ghost pick = left_fibers(self.fibers@);
        let mut left: Vec<u64> = Vec::new();
        let mut i: usize = 0;
        proof {
            reveal(Seq::filter);
        }
        while i < ids.len()
            invariant
                self.wf(),
                forall|id: u64| #[trigger] self.fibers@.dom().contains(id) <==> ids@.contains(id),
                pick == left_fibers(self.fibers@),
                i <= ids@.len(),
                left@ == ids@.take(i as int).filter(pick),
            decreases ids@.len() - i,
        {
            let id = ids[i];
            proof {
                assert(ids@.contains(id));
                lemma_next_pick(ids@, i as int, pick);
            }
            if let Some(record) = self.fibers.get(id) {
                if record.state != FiberState::Disposed {
                    left.push(id);
                }
            }
            i += 1;
        }
        proof {
            assert(ids@.take(i as int) =~= ids@);
        }
        left
    }

    /// What the fibers keep from being over.
    fn fibers_left(&self) -> (blockers: Vec<ShutdownBlocker>)
        requires
            self.wf(),
        ensures
            blockers@ == fibers_blockers(self.fibers.order(), self.fibers@, self.gates),
    {
        let ids = self.fibers.ids();
        let mut blockers: Vec<ShutdownBlocker> = Vec::new();
        let mut i: usize = 0;
        while i < ids.len()
            invariant
                self.wf(),
                forall|id: u64| #[trigger] self.fibers@.dom().contains(id) <==> ids@.contains(id),
                i <= ids@.len(),
                blockers@ == fibers_blockers(ids@.take(i as int), self.fibers@, self.gates),
            decreases ids@.len() - i,
        {
            let id = ids[i];
            proof {
                assert(ids@.contains(id));
                lemma_next_fiber(ids@, i as int, self.fibers@, self.gates);
            }
            if let Some(record) = self.fibers.get(id) {
                add_fiber_blockers(&mut blockers, id, record, self.gates.get(record.generation));
            }
            i += 1;
        }
        proof {
            assert(ids@.take(i as int) =~= ids@);
        }
        blockers
    }

    /// Everything that keeps a shutdown from being complete.
    pub fn shutdown_blockers(&self) -> (blockers: Vec<ShutdownBlocker>)
        requires
            self.wf(),
            self.active_reloads + self.reload_cleanup_pending <= usize::MAX,
        ensures
            blockers@ == blockers_of(*self),
    {
        let mut blockers = self.fibers_left();
        let ghost first = blockers@;
        let scopes = self.residue_scopes();
        let mut i: usize = 0;
        while i < scopes.len()
            invariant
                i <= scopes@.len(),
                blockers@ == first + scope_blockers(scopes@).take(i as int),
            decreases scopes@.len() - i,
        {
            blockers.push(ShutdownBlocker::Scope(ScopeId { raw: scopes[i] }));
            i += 1;
            proof {
                assert(blockers@ =~= first + scope_blockers(scopes@).take(i as int));
            }
        }
        proof {
            assert(scope_blockers(scopes@).take(i as int) =~= scope_blockers(scopes@));
        }
        let workers = self.workers.live();
        add_if(&mut blockers, workers != 0, ShutdownBlocker::RuntimeWorkers(workers));
        let tasks = self.tasks.live_fiber_tasks();
        add_if(&mut blockers, tasks != 0, ShutdownBlocker::Tasks(tasks));
        let reloads = self.active_reloads + self.reload_cleanup_pending;
        add_if(&mut blockers, reloads != 0, ShutdownBlocker::ReloadTransactions(reloads));
        let fibers = self.count_staging_fibers();
        let staged_scopes = self.count_staging_scopes();
        add_if(
            &mut blockers,
            fibers != 0 || staged_scopes != 0,
            ShutdownBlocker::Staging { fibers, scopes: staged_scopes },
        );
        blockers
    }
}

/// What a shutdown attempt asks for next.
#[derive(Clone, Copy, Debug, PartialEq, Eq, Structural)]
pub enum ShutdownAction {
    /// Stop the workers of the runtime.
    StopWorkers,
    /// Dispose a scope that is left.
    DisposeScope(ScopeId),
    /// Dispose a fiber that is left.
    DisposeFiber(FiberId),
    /// Let others run, then begin the next round.
    Pause,
    /// End the attempt.
    Conclude,
}

/// A shutdown attempt between two of its steps.
pub struct ShutdownAttempt {
    pub issues: Vec<CleanupIssue>,
    /// Rounds that began.
    pub rounds: usize,
    /// The scopes of this round.
    pub scopes: Vec<u64>,
    /// The fibers of this round, once its scopes are through.
    pub fibers: Option<Vec<u64>>,
    /// How many of the scopes, or of the fibers, are through.
    pub at: usize,
}

/// The issues after the disposal of a scope ended, or did not end in time.
pub open spec fn notes_disposal(
    before: Seq<CleanupIssue>,
    after: Seq<CleanupIssue>,
    disposed: Option<Result<Arc<DisposalObservation>, CordisError>>,
) -> bool {
    match disposed {
        None => after == before,
        Some(Ok(observation)) => after == before + observation.issues@,
        Some(Err(error)) => {
            &&& after.len() == before.len() + 1
            &&& after.drop_last() == before
            &&& after.last().records(CleanupPhase::ChildScopeCleanup, error)
        },
    }
}

/// What an attempt asks for, and how it goes on to the fibers of a round.
pub open spec fn steps(
    runtime: Runtime,
    before: ShutdownAttempt,
    after: ShutdownAttempt,
    action: ShutdownAction,
) -> bool {
    let residue = runtime.fibers.order().filter(left_fibers(runtime.fibers@));
    let rest = match before.fibers {
        Some(fibers) => fibers@,
        None => residue,
    };
    let at = if before.fibers is None {
        0
    } else {
        before.at
    };
    &&& after.issues == before.issues
    &&& after.rounds == before.rounds
    &&& after.scopes == before.scopes
    &&& if before.fibers is None && before.at < before.scopes@.len() {
        &&& after == before
        &&& action == ShutdownAction::DisposeScope(
            ScopeId { raw: before.scopes@[before.at as int] },
        )
    } else {
        &&& after.fibers matches Some(fibers)
        &&& fibers@ == rest
        &&& after.at == at
        &&& action == if at < rest.len() {
            ShutdownAction::DisposeFiber(FiberId { raw: rest[at as int] })
        } else if (before.scopes@.len() == 0 && rest.len() == 0) || before.rounds
            >= RESIDUE_ROUNDS {
            ShutdownAction::Conclude
        } else {
            ShutdownAction::Pause
        }
    }
}

/// Notes how the disposal of a scope ended.
fn note_disposal(
    issues: &mut Vec<CleanupIssue>,
    disposed: &Option<Result<Arc<DisposalObservation>, CordisError>>,
)
    ensures
        notes_disposal(old(issues)@, final(issues)@, *disposed),
{
    match disposed {
        None => {},
        Some(Ok(observation)) => append_issues(issues, &observation.issues),
        Some(Err(error)) => {
            issues.push(CleanupIssue::of(CleanupPhase::ChildScopeCleanup, error.clone()));
            proof {
                assert(issues@.drop_last() =~= old(issues)@);
            }
        },
    }
}

/// What can be read of the last shutdown.
pub open spec fn tells_outcome(
    runtime: Runtime,
    outcome: Option<ShutdownOutcome>,
) -> bool {
    match runtime.shutdown.last_outcome() {
        None => outcome is None,
        Some(published) => outcome matches Some(told) && told.same(*published),
    }
}

/// An attempt goes on after the root scope.
pub open spec fn hears_of_root(
    before: ShutdownAttempt,
    after: ShutdownAttempt,
    disposed: Option<Result<Arc<DisposalObservation>, CordisError>>,
    action: ShutdownAction,
) -> bool {
    &&& after == (ShutdownAttempt { issues: after.issues, ..before })
    &&& notes_disposal(before.issues@, after.issues@, disposed)
    &&& action == if disposed is Some && disposed->0 is Ok {
        ShutdownAction::StopWorkers
    } else {
        ShutdownAction::Conclude
    }
}

/// An attempt begins a round through what is left.
pub open spec fn begins_round(
    runtime: Runtime,
    before: ShutdownAttempt,
    after: ShutdownAttempt,
    action: ShutdownAction,
) -> bool {
    exists|begun: ShutdownAttempt|
        {
            &&& begun.issues == before.issues
            &&& begun.rounds == before.rounds + 1
            &&& begun.scopes@ == runtime.scopes.scopes.order().filter(
                left_scopes(runtime.scopes@, runtime.scopes.root),
            )
            &&& begun.fibers is None
            &&& begun.at == 0
            &&& #[trigger] steps(runtime, begun, after, action)
        }
}

/// An attempt goes on after a scope.
pub open spec fn hears_of_scope(
    runtime: Runtime,
    before: ShutdownAttempt,
    after: ShutdownAttempt,
    disposed: Option<Result<Arc<DisposalObservation>, CordisError>>,
    action: ShutdownAction,
) -> bool {
    if disposed is None {
        &&& after == (ShutdownAttempt { issues: after.issues, ..before })
        &&& after.issues@ == before.issues@
        &&& action is Conclude
    } else {
        exists|noted: ShutdownAttempt|
            {
                &&& noted == (ShutdownAttempt {
                    issues: noted.issues,
                    at: (before.at + 1) as usize,
                    ..before
                })
                &&& notes_disposal(before.issues@, noted.issues@, disposed)
                &&& #[trigger] steps(runtime, noted, after, action)
            }
    }
}

/// An attempt goes on after a fiber.
pub open spec fn hears_of_fiber(
    runtime: Runtime,
    before: ShutdownAttempt,
    after: ShutdownAttempt,
    in_time: bool,
    action: ShutdownAction,
) -> bool {
    if !in_time {
        after == before && action is Conclude
    } else {
        steps(
            runtime,
            ShutdownAttempt { at: (before.at + 1) as usize, ..before },
            after,
            action,
        )
    }
}

/// An attempt ends: garbage is collected, and what is left decides.
pub open spec fn ends_attempt(
    before: Runtime,
    after: Runtime,
    attempt: ShutdownAttempt,
    outcome: ShutdownOutcome,
) -> bool {
    &&& exists|report: GarbageReport| #[trigger] collects(before, after, report)
    &&& concludes(blockers_of(after), attempt.issues@, outcome)
}

/// The outcome of an attempt that panicked.
pub open spec fn breaks_off(
    runtime: Runtime,
    payload: PanicPayload,
    outcome: ShutdownOutcome,
) -> bool {
    outcome matches ShutdownOutcome::Incomplete { blockers, issues } && {
        &&& blockers@ == blockers_of(runtime)
        &&& issues@.len() == 1
        &&& issues@[0].cause matches Some(CordisError::ShutdownWorkerPanicked(message))
        &&& message@ == payload.message_or("non-string panic payload"@)
        &&& issues@[0].records(CleanupPhase::Worker, issues@[0].cause->0)
    }
}

/// The outcome of a shutdown as callers know it who only ask whether it is complete and
/// clean.
pub open spec fn is_legacy_shutdown(
    outcome: ShutdownOutcome,
    result: Result<(), CordisError>,
) -> bool {
    match outcome {
        ShutdownOutcome::Complete => result is Ok,
        ShutdownOutcome::CompleteWithIssues { issues } => {
            &&& result matches Err(CordisError::CleanupFailed(message))
            &&& message@ == issues_text(issues@)
        },
        ShutdownOutcome::Incomplete { blockers, issues } => {
            &&& result matches Err(CordisError::CleanupFailed(message))
            &&& message@ == "shutdown incomplete: "@ + blockers_text(blockers@)
        },
    }
}

impl ShutdownAttempt {
    /// An attempt that went through nothing yet.
    pub open spec fn is_new(self) -> bool {
        &&& self.issues@.len() == 0
        &&& self.rounds == 0
        &&& self.scopes@.len() == 0
        &&& self.fibers is None
        &&& self.at == 0
    }

    pub fn new() -> (attempt: Self)
        ensures
            attempt.is_new(),
    {
        ShutdownAttempt {
            issues: Vec::new(),
            rounds: 0,
            scopes: Vec::new(),
            fibers: None,
            at: 0,
        }
    }

    /// Goes on after the root scope was disposed; `None` where time ran out. The
    /// workers are stopped only where the root converged.
    pub fn root_disposed(
        &mut self,
        disposed: Option<Result<Arc<DisposalObservation>, CordisError>>,
    ) -> (action: ShutdownAction)
        ensures
            hears_of_root(*old(self), *final(self), disposed, action),
    {
        note_disposal(&mut self.issues, &disposed);
        match disposed {
            Some(Ok(_)) => ShutdownAction::StopWorkers,
            _ => ShutdownAction::Conclude,
        }
    }

    /// Begins a round through what is left.
    pub fn begin_round(&mut self, runtime: &Runtime) -> (action: ShutdownAction)
        requires
            runtime.wf(),
            old(self).rounds < RESIDUE_ROUNDS,
        ensures
            begins_round(*runtime, *old(self), *final(self), action),
    {
        self.rounds = self.rounds + 1;
        self.scopes = runtime.residue_scopes();
        self.fibers = None;
        self.at = 0;
        let ghost begun = *self;
        let action = self.step(runtime);
        proof {
            assert(steps(*runtime, begun, *self, action));
        }
        action
    }

    /// What the round asks for.
    pub fn step(&mut self, runtime: &Runtime) -> (action: ShutdownAction)
        requires
            runtime.wf(),
        ensures
            steps(*runtime, *old(self), *final(self), action),
    {
        if self.fibers.is_none() {
            if self.at < self.scopes.len() {
                return ShutdownAction::DisposeScope(ScopeId { raw: self.scopes[self.at] });
            }
            self.fibers = Some(runtime.residue_fibers());
            self.at = 0;
        }
        match &self.fibers {
            Some(fibers) => {
                if self.at < fibers.len() {
                    ShutdownAction::DisposeFiber(FiberId { raw: fibers[self.at] })
                } else if (self.scopes.len() == 0 && fibers.len() == 0) || self.rounds
                    >= RESIDUE_ROUNDS {
                    ShutdownAction::Conclude
                } else {
                    ShutdownAction::Pause
                }
            },
            None => ShutdownAction::Conclude,
        }
    }

    /// Goes on after a scope was disposed; `None` where time ran out.
    pub fn scope_disposed(
        &mut self,
        runtime: &Runtime,
        disposed: Option<Result<Arc<DisposalObservation>, CordisError>>,
    ) -> (action: ShutdownAction)
        requires
            runtime.wf(),
            old(self).fibers is None,
            old(self).at < old(self).scopes@.len(),
        ensures
            hears_of_scope(*runtime, *old(self), *final(self), disposed, action),
    {
        note_disposal(&mut self.issues, &disposed);
        if disposed.is_none() {
            return ShutdownAction::Conclude;
        }
        if self.at < self.scopes.len() {
            self.at = self.at + 1;
        }
        let ghost noted = *self;
        let action = self.step(runtime);
        proof {
            assert(steps(*runtime, noted, *self, action));
        }
        action
    }

    /// Goes on after a fiber was disposed, in time or not. What its disposal has to
    /// say is told by the blockers that stay.
    pub fn fiber_disposed(&mut self, runtime: &Runtime, in_time: bool) -> (action: ShutdownAction)
        requires
            runtime.wf(),
            old(self).fibers is Some,
            old(self).at < old(self).fibers->0@.len(),
        ensures
            hears_of_fiber(*runtime, *old(self), *final(self), in_time, action),
    {
        if !in_time {
            return ShutdownAction::Conclude;
        }
        let more: bool = match &self.fibers {
            Some(fibers) => self.at < fibers.len(),
            None => false,
        };
        if more {
            self.at = self.at + 1;
        }
        self.step(runtime)
    }

    /// Ends the attempt: garbage is collected, and what is left decides.
    pub fn conclude(self, runtime: &mut Runtime) -> (outcome: ShutdownOutcome)
        requires
            old(runtime).wf(),
            old(runtime).active_reloads + old(runtime).reload_cleanup_pending <= usize::MAX,
        ensures
            final(runtime).wf(),
            ends_attempt(*old(runtime), *final(runtime), self, outcome),
    {
        let _report = runtime.collect_garbage();
        let blockers = runtime.shutdown_blockers();
        let issues = self.issues;
        if blockers.len() == 0 {
            if issues.len() == 0 {
                ShutdownOutcome::Complete
            } else {
                ShutdownOutcome::CompleteWithIssues { issues }
            }
        } else {
            ShutdownOutcome::Incomplete { blockers, issues }
        }
    }
}

/// A request to shut down: the first closes admission for good.
pub open spec fn asks_shutdown(before: Runtime, after: Runtime, start: ShutdownStart) -> bool {
    &&& starts_attempt(before.shutdown, after.shutdown, start)
    &&& after == (Runtime { shutdown: after.shutdown, admission: after.admission, ..before })
    &&& after.admission == if start is Started {
        AdmissionGate { closed: true, ..before.admission }
    } else {
        before.admission
    }
}

/// The end of an attempt.
pub open spec fn settles_shutdown(
    before: Runtime,
    after: Runtime,
    outcome: ShutdownOutcome,
) -> bool {
    &&& after == (Runtime { shutdown: after.shutdown, admission: after.admission, ..before })
    &&& after.shutdown.lifecycle == outcome.lifecycle()
    &&& after.shutdown.attempts == before.shutdown.attempts
    &&& after.shutdown.last_outcome() matches Some(published)
    &&& *published == outcome
    &&& after.admission == if outcome is Incomplete {
        before.admission
    } else {
        AdmissionGate { closed: true, complete: true }
    }
}

impl Runtime {
    /// Starts a shutdown attempt, or joins the one that runs or completed.
    pub fn begin_shutdown(&mut self) -> (start: ShutdownStart)
        requires
            old(self).wf(),
        ensures
            final(self).wf(),
            asks_shutdown(*old(self), *final(self), start),
    {
        let start = self.shutdown.start_or_observe();
        if let ShutdownStart::Started(_attempt) = start {
            self.admission.begin_shutdown();
        }
        start
    }

    /// Publishes the outcome of the attempt that runs.
    pub fn finalize_shutdown(&mut self, outcome: ShutdownOutcome)
        requires
            old(self).wf(),
            old(self).shutdown.lifecycle is ShuttingDown,
        ensures
            final(self).wf(),
            settles_shutdown(*old(self), *final(self), outcome),
    {
        let complete = !outcome.is_incomplete();
        self.shutdown.finish(outcome);
        if complete {
            self.admission.complete_shutdown();
        }
    }

    /// The outcome of an attempt that panicked.
    pub fn shutdown_panicked(&self, payload: &PanicPayload) -> (outcome: ShutdownOutcome)
        requires
            self.wf(),
            self.active_reloads + self.reload_cleanup_pending <= usize::MAX,
        ensures
            breaks_off(*self, *payload, outcome),
    {
        let error = CordisError::ShutdownWorkerPanicked(panic_message(payload));
        let mut issues: Vec<CleanupIssue> = Vec::new();
        issues.push(CleanupIssue::of(CleanupPhase::Worker, error));
        ShutdownOutcome::Incomplete { blockers: self.shutdown_blockers(), issues }
    }

    /// The outcome of the last attempt, once it ended.
    pub fn shutdown_detailed(&self) -> (outcome: Option<ShutdownOutcome>)
        ensures
            tells_outcome(*self, outcome),
    {
        match self.shutdown.snapshot().1 {
            Some(published) => Some((*published).clone()),
            None => None,
        }
    }

    /// The outcome of a shutdown as callers know it who only ask whether it is
    /// complete and clean.
    pub fn shutdown(outcome: &ShutdownOutcome) -> (result: Result<(), CordisError>)
        ensures
            is_legacy_shutdown(*outcome, result),
    {
        match outcome {
            ShutdownOutcome::Complete => Ok(()),
            ShutdownOutcome::CompleteWithIssues { issues } => Err(
                CordisError::CleanupFailed(report(issues)),
            ),
            ShutdownOutcome::Incomplete { blockers, issues: _ } => Err(
                CordisError::CleanupFailed(
                    concat("shutdown incomplete: ", &show_blockers(blockers)),
                ),
            ),
        }
    }

    /// Returns the detailed shutdown lifecycle.
    pub fn shutdown_state(&self) -> (state: RuntimeShutdownState)
        ensures
            state == self.shutdown.lifecycle,
    {
        self.shutdown.state()
    }
}

proof fn lemma_no_fiber_left(ids: Seq<u64>, fibers: Fibers, gates: GateTable, k: int)
    requires
        fibers_blockers(ids, fibers, gates).len() == 0,
        0 <= k < ids.len(),
    ensures
        fiber_blockers(ids[k], fibers[ids[k]], gates.at(fibers[ids[k]].generation)).len() == 0,
    decreases ids.len(),
{
    if k < ids.len() - 1 {
        lemma_no_fiber_left(ids.drop_last(), fibers, gates, k);
    }
}

proof fn lemma_none_picked(ids: Seq<u64>, pick: spec_fn(u64) -> bool, k: int)
    requires
        ids.filter(pick).len() == 0,
        0 <= k < ids.len(),
    ensures
        !pick(ids[k]),
    decreases ids.len(),
{
    reveal(Seq::filter);
    if k < ids.len() - 1 {
        lemma_none_picked(ids.drop_last(), pick, k);
    }
}

/// A shutdown that is complete left nothing: every fiber is disposed, no hosted
/// process lives, no generation is in use, no scope but the root remains, and no
/// worker, task or reload runs.
pub proof fn law_complete_shutdown_leaves_nothing(
    runtime: Runtime,
    issues: Seq<CleanupIssue>,
    outcome: ShutdownOutcome,
)
    requires
        runtime.wf(),
        concludes(blockers_of(runtime), issues, outcome),
        !(outcome is Incomplete),
    ensures
        forall|id: u64| #[trigger]
            runtime.fibers@.dom().contains(id) ==> {
                &&& runtime.fibers@[id].state is Disposed
                &&& runtime.fibers@[id].hosted_live == 0
                &&& runtime.gates.at(runtime.fibers@[id].generation).inflight == 0
            },
        forall|id: u64| #[trigger]
            runtime.scopes@.dom().contains(id) ==> id == runtime.scopes.root.raw
                || runtime.scopes@[id].state is Disposed,
        runtime.workers.workers@.dom().len() == 0,
        runtime.tasks.arena@.dom().len() == 0,
        runtime.active_reloads == 0,
        runtime.reload_cleanup_pending == 0,
{
    let ids = runtime.fibers.order();
    let scopes = runtime.scopes.scopes.order();
    let pick = left_scopes(runtime.scopes@, runtime.scopes.root);
    runtime.fibers.lemma_order();
    runtime.scopes.scopes.lemma_order();
    assert(scope_blockers(scopes.filter(pick)).len() == scopes.filter(pick).len());
    assert forall|id: u64| #[trigger] runtime.fibers@.dom().contains(id) implies {
        &&& runtime.fibers@[id].state is Disposed
        &&& runtime.fibers@[id].hosted_live == 0
        &&& runtime.gates.at(runtime.fibers@[id].generation).inflight == 0
    } by {
        let k = choose|k: int| 0 <= k < ids.len() && ids[k] == id;
        lemma_no_fiber_left(ids, runtime.fibers@, runtime.gates, k);
    }
    assert forall|id: u64| #[trigger] runtime.scopes@.dom().contains(id) implies id
        == runtime.scopes.root.raw || runtime.scopes@[id].state is Disposed by {
        let k = choose|k: int| 0 <= k < scopes.len() && scopes[k] == id;
        lemma_none_picked(scopes, pick, k);
    }
}

/// Admission closes once and for all: neither another request nor the end of an
/// attempt, whatever its outcome, takes new work again.
pub proof fn law_admission_stays_closed(
    before: Runtime,
    asked: Runtime,
    settled: Runtime,
    start: ShutdownStart,
    outcome: ShutdownOutcome,
)
    requires
        before.wf(),
        asks_shutdown(before, asked, start),
        settles_shutdown(asked, settled, outcome),
    ensures
        asked.admission.closed,
        settled.admission.closed,
{
}

/// Only an incomplete shutdown can be tried again; a complete one is observed as it
/// was published.
pub proof fn law_complete_shutdown_is_final(before: Runtime, after: Runtime, start: ShutdownStart)
    requires
        before.wf(),
        asks_shutdown(before, after, start),
    ensures
        before.shutdown.lifecycle is Complete ==> after == before && start is Observing,
        before.shutdown.lifecycle is ShuttingDown ==> after == before && start is Observing,
        before.shutdown.lifecycle is Incomplete ==> start is Started,
        before.shutdown.lifecycle is Running ==> start is Started,
{
}

} // verus!
