//! Scopes: creation and disposal.
#[allow(unused_imports)]
use super::garbage::{collects, requests_gc};
#[allow(unused_imports)]
use super::invariants::{lemma_coherence_extended, lemma_coherence_kept, same_tree};
use super::Runtime;
#[allow(unused_imports)]
use super::{fiber_fits, is_issued, quota_rejected};
#[allow(unused_imports)]
use crate::arena::law_retired_ids_stay_retired;
#[allow(unused_imports)]
use crate::disposal::issues_text;
use crate::disposal::{
    clone_issues, report, CleanupIssue, DisposalObservation, DisposalTerminal, ScopeDisposal,
    ScopeDisposeOutcome,
};
use crate::error::{clone_result, is_terminal_cleanup_error, panic_message};
use crate::error::{CordisError, PanicPayload};
#[allow(unused_imports)]
use crate::id_list::except;
use crate::ids::{FiberId, ScopeId};
#[allow(unused_imports)]
use crate::runtime::garbage::GarbageReport;
#[allow(unused_imports)]
use crate::scope_registry::{adds_scope, ScopeRecord, ScopeRegistry};
#[allow(unused_imports)]
use crate::service_registry::slot_scope;
use crate::state::{CleanupPhase, FiberState, ResourceKind, ScopeState};
use crate::text::concat;
use std::sync::Arc;
use vstd::prelude::*;

verus! {

/// A scope is asked for: garbage is collected first where no scope fits.
pub open spec fn creates_scope(
    before: Runtime,
    after: Runtime,
    parent: ScopeId,
    name: Arc<String>,
    hidden: bool,
    result: Result<ScopeId, CordisError>,
) -> bool {
    if before.admission.closed {
        after == before && result == Err::<ScopeId, CordisError>(CordisError::RuntimeShuttingDown)
    } else {
        exists|swept: Runtime|
            {
                &&& sweeps_if(before, swept, before.scopes@.dom().len() >= before.config.max_scopes)
                &&& swept.wf()
                &&& #[trigger] makes_scope(swept, after, parent, name, hidden, result)
            }
    }
}

/// What a request for a scope comes to, once there is as much room as there can
/// be.
pub open spec fn makes_scope(
    before: Runtime,
    after: Runtime,
    parent: ScopeId,
    name: Arc<String>,
    hidden: bool,
    result: Result<ScopeId, CordisError>,
) -> bool {
    if before.scopes@.dom().len() >= before.config.max_scopes {
        &&& result == Err::<ScopeId, CordisError>(
            CordisError::ResourceLimitExceeded {
                resource: ResourceKind::Scopes,
                limit: before.config.max_scopes,
            },
        )
        &&& quota_rejected(before, after, Some(parent), None)
    } else if before.scopes.child_depth(parent) > before.config.max_scope_depth {
        &&& result == Err::<ScopeId, CordisError>(
            CordisError::ResourceLimitExceeded {
                resource: ResourceKind::ScopeDepth,
                limit: before.config.max_scope_depth,
            },
        )
        &&& quota_rejected(before, after, Some(parent), None)
    } else if !before.scopes@.dom().contains(parent.raw) {
        after == before && result == Err::<ScopeId, CordisError>(CordisError::ScopeNotFound)
    } else if !(before.scopes@[parent.raw].state is Active) {
        after == before && result == Err::<ScopeId, CordisError>(
            CordisError::ScopeDisposed(parent),
        )
    } else {
        &&& result matches Ok(id)
        &&& after == (Runtime { scopes: after.scopes, ..before })
        &&& adds_scope(before.scopes, after.scopes, parent, name, hidden, id)
    }
}

/// Whether `swept` is `before`, after a collection of garbage where `full` holds.
pub open spec fn sweeps_if(before: Runtime, swept: Runtime, full: bool) -> bool {
    if full {
        exists|report: GarbageReport| #[trigger] collects(before, swept, report)
    } else {
        swept == before
    }
}

/// Whether a disposal begins with this request, or an earlier one answers it.
#[derive(Clone, Copy, Debug, PartialEq, Eq, Structural)]
pub enum DisposalStart {
    /// Run the disposal.
    Started,
    /// Wait for, or read, its observation.
    Joined,
}

/// How the worker of a disposal ended.
#[derive(Debug)]
pub enum WorkerExit<T> {
    Returned(T),
    Cancelled,
    Panicked(PanicPayload),
}

/// What to do next for a scope disposal.
#[derive(Clone, Copy, Debug, PartialEq, Eq, Structural)]
pub enum ScopeStep {
    /// Dispose the child scope and report how it went.
    DisposeChild { child: ScopeId, persistent: bool },
    /// Dispose the fiber and report how it went.
    DisposeFiber { fiber: FiberId, persistent: bool },
    /// Nothing is left to dispose.
    Finish,
}

/// The disposal of a scope: its children from the last to the first, then its
/// fibers in the same order. One failure does not stop the others.
pub struct ScopeDisposalJob {
    pub scope: ScopeId,
    /// Children that are left.
    pub children: Vec<u64>,
    /// Fibers that are left.
    pub fibers: Vec<u64>,
    pub persistent: bool,
    pub errors: Vec<CleanupIssue>,
    pub terminated: bool,
}

/// The result that a list of cleanup issues stands for.
pub open spec fn stands_for_issues(
    result: Result<(), CordisError>,
    issues: Seq<CleanupIssue>,
) -> bool {
    if issues.len() == 0 {
        result is Ok
    } else {
        result matches Err(CordisError::CleanupFailed(message)) && message@ == issues_text(issues)
    }
}

/// Whether `error` says that a scope disposal ended early.
pub open spec fn is_scope_terminal(result: Result<(), CordisError>) -> bool {
    match result {
        Ok(()) => false,
        Err(error) => error is ScopeDisposalPanicked || error is ScopeDisposalCancelled
            || error is ScopeDisposalTerminated,
    }
}

/// The result of a scope disposal as it is published: one that ended early says
/// so.
pub open spec fn published_scope_result(
    result: Result<(), CordisError>,
    terminated: bool,
    published: Result<(), CordisError>,
) -> bool {
    if terminated && !is_scope_terminal(result) {
        &&& published matches Err(CordisError::ScopeDisposalTerminated(message))
        &&& message@ == match result {
            Ok(()) => "descendant cleanup terminated"@,
            Err(error) => error.text(),
        }
    } else {
        published == result
    }
}

/// The observation of a disposal with this result.
pub open spec fn observes(
    observation: DisposalObservation,
    result: Result<(), CordisError>,
    terminated: bool,
    issues: Seq<CleanupIssue>,
) -> bool {
    &&& observation.legacy_result == result
    &&& observation.issues@ == issues
    &&& if terminated {
        &&& observation.terminal matches DisposalTerminal::Incomplete(error)
        &&& result matches Err(reason) && error == reason
    } else {
        observation.terminal is Committed
    }
}

/// A finished scope disposal: the record says how it ended, the observation is
/// there for everybody, and the parent of a disposed scope lets go of it.
pub open spec fn scope_settles(
    before: ScopeRegistry,
    after: ScopeRegistry,
    scope: ScopeId,
    result: Result<(), CordisError>,
    terminated: bool,
) -> bool {
    let record = before@[scope.raw];
    let settled = after@[scope.raw];
    &&& after.root == before.root
    &&& after.rank == before.rank
    &&& after.scopes.versions() == before.scopes.versions()
    &&& after.scopes.order() == before.scopes.order()
    &&& after@.dom() == before@.dom()
    &&& settled == (ScopeRecord {
        state: if terminated {
            ScopeState::Terminated
        } else {
            ScopeState::Disposed
        },
        disposal: ScopeDisposal {
            result: Some(result),
            observation: settled.disposal.observation,
            ..record.disposal
        },
        ..record
    })
    &&& match record.disposal.observation {
        Some(earlier) => settled.disposal.observation == Some(earlier),
        None => settled.disposal.observation matches Some(observation) && observes(
            *observation,
            result,
            terminated,
            record.disposal.issues@,
        ),
    }
    &&& forall|id: u64| #[trigger]
        before@.dom().contains(id) && id != scope.raw ==> if !terminated && record.parent == Some(
            ScopeId { raw: id },
        ) {
            &&& after@[id] == (ScopeRecord { children: after@[id].children, ..before@[id] })
            &&& after@[id].children@ == except(before@[id].children@, seq![scope.raw])
        } else {
            after@[id] == before@[id]
        }
}

impl Runtime {
    /// Creates a child scope.
    pub fn create_scope(&mut self, parent: ScopeId, name: &str) -> (result: Result<
        ScopeId,
        CordisError,
    >)
        requires
            old(self).wf(),
        ensures
            final(self).wf(),
            exists|label: Arc<String>|
                label@ == name@ && #[trigger] creates_scope(
                    *old(self),
                    *final(self),
                    parent,
                    label,
                    false,
                    result,
                ),
    {
        let label = Arc::new(name.to_owned());
        self.create_scope_internal(parent, label, false)
    }

    /// Creates a child scope, which may be hidden.
    pub fn create_scope_internal(
        &mut self,
        parent: ScopeId,
        name: Arc<String>,
        hidden: bool,
    ) -> (result: Result<ScopeId, CordisError>)
        requires
            old(self).wf(),
        ensures
            final(self).wf(),
            creates_scope(*old(self), *final(self), parent, name, hidden, result),
    {
        if let Err(error) = self.admission.enter() {
            return Err(error);
        }
        if self.scopes.len() >= self.config.max_scopes {
            let report = self.collect_garbage();
            assert(collects(*old(self), *self, report));
        }
        let ghost swept = *self;
        assert(sweeps_if(
            *old(self),
            swept,
            old(self).scopes@.dom().len() >= old(self).config.max_scopes,
        ));
        if self.scopes.len() >= self.config.max_scopes {
            let limit: usize = self.config.max_scopes;
            let error = self.quota_error(ResourceKind::Scopes, limit, Some(parent), None);
            let result = Err(error);
            assert(makes_scope(swept, *self, parent, name, hidden, result));
            return result;
        }
        if self.scopes.depth_below(parent) > self.config.max_scope_depth {
            let limit: usize = self.config.max_scope_depth;
            let error = self.quota_error(ResourceKind::ScopeDepth, limit, Some(parent), None);
            let result = Err(error);
            assert(makes_scope(swept, *self, parent, name, hidden, result));
            return result;
        }
        match self.scopes.get(parent) {
            None => {
                let result = Err(CordisError::ScopeNotFound);
                assert(makes_scope(swept, *self, parent, name, hidden, result));
                return result;
            },
            Some(record) => {
                if record.state != ScopeState::Active {
                    let result = Err(CordisError::ScopeDisposed(parent));
                    assert(makes_scope(swept, *self, parent, name, hidden, result));
                    return result;
                }
            },
        }
        let id = self.scopes.create(parent, name, hidden);
        proof {
            self.lemma_scope_added(swept, parent, name, hidden, id);
            assert(makes_scope(swept, *self, parent, name, hidden, Ok(id)));
        }
        Ok(id)
    }

    /// A new scope disturbs nothing.
    proof fn lemma_scope_added(
        &self,
        before: Runtime,
        parent: ScopeId,
        name: Arc<String>,
        hidden: bool,
        id: ScopeId,
    )
        requires
            before.wf(),
            *self == (Runtime { scopes: self.scopes, ..before }),
            self.scopes.wf(),
            before.scopes@.dom().contains(parent.raw),
            adds_scope(before.scopes, self.scopes, parent, name, hidden, id),
            before.scopes@.dom().len() < before.config.max_scopes,
        ensures
            self.wf(),
    {
        before.scopes.scopes.lemma_order();
        assert(self.scopes@.dom() =~= before.scopes@.dom().insert(id.raw));
        assert forall|scope: ScopeId| #[trigger] is_issued(before.scopes, scope) implies is_issued(
            self.scopes,
            scope,
        ) by {
            if before.scopes.scopes.retired(scope.raw) {
                law_retired_ids_stay_retired(
                    before.scopes.scopes,
                    self.scopes.scopes,
                    scope.raw,
                    id.raw,
                );
            }
        }
        assert forall|fiber: u64| #[trigger] self.fibers@.dom().contains(fiber) implies fiber_fits(
            self.scopes,
            self.services,
            self.plugins.next_generation,
            self.fibers@[fiber],
        ) by {
            assert(is_issued(before.scopes, before.fibers@[fiber].scope));
        }
        assert forall|slot: u128| #[trigger]
            self.services.cache@.dom().contains(slot) implies is_issued(
            self.scopes,
            slot_scope(slot),
        ) by {
            assert(is_issued(before.scopes, slot_scope(slot)));
        }
        lemma_coherence_extended(self.services, before.scopes, self.scopes, self.gates, id);
    }

    /// Changing scopes without moving them disturbs nothing.
    pub(crate) proof fn lemma_scopes_edited(&self, before: Runtime)
        requires
            before.wf(),
            *self == (Runtime { scopes: self.scopes, ..before }),
            self.scopes.wf(),
            same_tree(before.scopes, self.scopes),
            self.scopes.scopes.versions() == before.scopes.scopes.versions(),
        ensures
            self.wf(),
    {
        assert forall|scope: ScopeId| #[trigger] is_issued(before.scopes, scope) implies is_issued(
            self.scopes,
            scope,
        ) by {}
        assert forall|fiber: u64| #[trigger] self.fibers@.dom().contains(fiber) implies fiber_fits(
            self.scopes,
            self.services,
            self.plugins.next_generation,
            self.fibers@[fiber],
        ) by {
            assert(is_issued(before.scopes, before.fibers@[fiber].scope));
        }
        assert forall|slot: u128| #[trigger]
            self.services.cache@.dom().contains(slot) implies is_issued(
            self.scopes,
            slot_scope(slot),
        ) by {
            assert(is_issued(before.scopes, slot_scope(slot)));
        }
        lemma_coherence_kept(
            self.services,
            before.scopes,
            self.scopes,
            before.gates,
            self.gates,
        );
    }

    /// Begins the disposal of a scope, or joins the one that began before.
    pub fn begin_scope_disposal(&mut self, scope: ScopeId, persistent: bool) -> (start: Result<
        DisposalStart,
        CordisError,
    >)
        requires
            old(self).wf(),
        ensures
            final(self).wf(),
            asks_scope_to_go(*old(self), *final(self), scope, persistent, start),
    {
        let ghost before = *self;
        let start = match self.scopes.get_mut(scope) {
            None => return Err(CordisError::ScopeNotFound),
            Some(record) => {
                record.disposal.persistent = record.disposal.persistent || persistent;
                if record.state == ScopeState::Active {
                    record.state = ScopeState::Disposing;
                    DisposalStart::Started
                } else {
                    DisposalStart::Joined
                }
            },
        };
        proof {
            assert(self.scopes@.dom() =~= before.scopes@.dom());
            self.lemma_scopes_edited(before);
        }
        Ok(start)
    }

    /// The observation of a scope's disposal, once there is one.
    pub fn scope_observation(&self, scope: ScopeId) -> (observation: Option<
        Arc<DisposalObservation>,
    >)
        requires
            self.wf(),
        ensures
            observes_scope_disposal(*self, scope, observation),
    {
        match self.scopes.get(scope) {
            Some(record) => match &record.disposal.observation {
                Some(observation) => Some(observation.clone()),
                None => None,
            },
            None => None,
        }
    }

    /// Begins the traversal of a scope that is being disposed.
    pub fn scope_disposal_job(&self, scope: ScopeId) -> (job: Result<
        ScopeDisposalJob,
        CordisError,
    >)
        requires
            self.wf(),
        ensures
            takes_up_scope(*self, scope, job),
    {
        match self.scopes.get(scope) {
            Some(record) => Ok(
                ScopeDisposalJob {
                    scope,
                    children: record.children.to_vec(),
                    fibers: record.fibers.to_vec(),
                    persistent: record.disposal.persistent,
                    errors: Vec::new(),
                    terminated: false,
                },
            ),
            None => Err(
                CordisError::ScopeDisposalTerminated(
                    "scope disappeared during traversal".to_owned(),
                ),
            ),
        }
    }

    /// What a scope disposal worker came to, however it ended.
    pub fn scope_worker_result(
        exit: WorkerExit<(Result<(), CordisError>, bool)>,
    ) -> (outcome: (Result<(), CordisError>, bool))
        ensures
            ends_scope_worker(exit, outcome),
    {
        match exit {
            WorkerExit::Returned(returned) => returned,
            WorkerExit::Cancelled => (Err(CordisError::ScopeDisposalCancelled), true),
            WorkerExit::Panicked(payload) => (
                Err(CordisError::ScopeDisposalPanicked(panic_message(&payload))),
                true,
            ),
        }
    }

    /// Ends a scope disposal: records how it ended, lets the parent go of a
    /// disposed scope, publishes the observation and asks for a collection of
    /// garbage. The worker of the collection comes back where one is to be run.
    pub fn finalize_scope_disposal(
        &mut self,
        scope: ScopeId,
        result: Result<(), CordisError>,
        terminated: bool,
    ) -> (ended: (Result<(), CordisError>, Option<u64>))
        requires
            old(self).wf(),
        ensures
            final(self).wf(),
            finalizes_scope(*old(self), *final(self), scope, result, terminated, ended),
    {
        let ghost given = result;
        let result = if terminated && !matches!(
            &result,
            Err(CordisError::ScopeDisposalPanicked(_)) | Err(CordisError::ScopeDisposalCancelled)
                | Err(CordisError::ScopeDisposalTerminated(_))
        ) {
            match &result {
                Ok(()) => Err(
                    CordisError::ScopeDisposalTerminated(
                        "descendant cleanup terminated".to_owned(),
                    ),
                ),
                Err(error) => Err(CordisError::ScopeDisposalTerminated(error.to_string())),
            }
        } else {
            result
        };
        let ghost before = *self;
        let mut parent: Option<ScopeId> = None;
        let mut fresh: bool = false;
        match self.scopes.get_mut(scope) {
            None => return (Err(CordisError::ScopeNotFound), None),
            Some(record) => {
                record.state = if terminated {
                    ScopeState::Terminated
                } else {
                    ScopeState::Disposed
                };
                record.disposal.result = Some(clone_result(&result));
                parent = record.parent;
                fresh = record.disposal.observation.is_none();
                if fresh {
                    let observation = DisposalObservation {
                        legacy_result: clone_result(&result),
                        terminal: terminal_of(&result, terminated),
                        issues: clone_issues(&record.disposal.issues),
                    };
                    record.disposal.observation = Some(Arc::new(observation));
                }
            },
        }
        let ghost marked = self.scopes;
        if !terminated {
            if let Some(up) = parent {
                if let Some(record) = self.scopes.get_mut(up) {
                    record.children.discard(scope.raw);
                }
            }
        }
        proof {
            assert(self.scopes@.dom() =~= before.scopes@.dom());
            if parent is Some && before.scopes@.dom().contains(parent->0.raw) {
                assert(crate::scope_registry::has_parent(before.scopes@, scope.raw));
            }
            self.lemma_scopes_edited(before);
        }
        let ghost settled = *self;
        assert(published_scope_result(given, terminated, result));
        assert(scope_settles(before.scopes, settled.scopes, scope, result, terminated));
        if !fresh {
            return (
                Err(CordisError::Invariant("disposal outcome is already published".to_owned())),
                None,
            );
        }
        let worker = self.request_gc();
        (result, worker)
    }

    /// The plain result of a disposal that was asked for.
    pub fn legacy_result(observed: &Result<Arc<DisposalObservation>, CordisError>) -> (result: Result<
        (),
        CordisError,
    >)
        ensures
            is_legacy_disposal(*observed, result),
    {
        match observed {
            Ok(observation) => clone_result(&observation.legacy_result),
            Err(error) => Err(error.clone()),
        }
    }

    /// The detailed outcome of a scope disposal that was asked for.
    pub fn dispose_scope_detailed(
        observed: &Result<Arc<DisposalObservation>, CordisError>,
    ) -> (outcome: ScopeDisposeOutcome)
        ensures
            is_scope_outcome(*observed, outcome),
    {
        match observed {
            Ok(observation) => observation.scope_outcome(),
            Err(error) => ScopeDisposeOutcome::Incomplete {
                primary: error.clone(),
                issues: Vec::new(),
            },
        }
    }
}

/// Whether a disposal with this result reached its end.
pub(crate) fn terminal_of(result: &Result<(), CordisError>, terminated: bool) -> (terminal:
    DisposalTerminal)
    requires
        terminated ==> result is Err,
    ensures
        if terminated {
            terminal == DisposalTerminal::Incomplete(result->Err_0)
        } else {
            terminal is Committed
        },
{
    if terminated {
        match result {
            Err(error) => DisposalTerminal::Incomplete(error.clone()),
            Ok(()) => DisposalTerminal::Committed,
        }
    } else {
        DisposalTerminal::Committed
    }
}

/// What can be read of the disposal of a scope.
pub open spec fn observes_scope_disposal(
    runtime: Runtime,
    scope: ScopeId,
    observation: Option<Arc<DisposalObservation>>,
) -> bool {
    observation == if runtime.scopes@.dom().contains(scope.raw) {
        runtime.scopes@[scope.raw].disposal.observation
    } else {
        None
    }
}

/// The work on the disposal of a scope begins.
pub open spec fn takes_up_scope(
    runtime: Runtime,
    scope: ScopeId,
    job: Result<ScopeDisposalJob, CordisError>,
) -> bool {
    match job {
        Ok(job) => {
            &&& runtime.scopes@.dom().contains(scope.raw)
            &&& job.begins(scope, runtime.scopes@[scope.raw])
        },
        Err(error) => {
            &&& !runtime.scopes@.dom().contains(scope.raw)
            &&& error matches CordisError::ScopeDisposalTerminated(message)
            &&& message@ == "scope disappeared during traversal"@
        },
    }
}

/// The result of a disposal as callers know it who only ask whether it succeeded.
pub open spec fn is_legacy_disposal(
    observed: Result<Arc<DisposalObservation>, CordisError>,
    result: Result<(), CordisError>,
) -> bool {
    result == match observed {
        Ok(observation) => observation.legacy_result,
        Err(error) => Err(error),
    }
}

/// What a request to dispose of a scope comes to.
pub open spec fn asks_scope_to_go(
    before: Runtime,
    after: Runtime,
    scope: ScopeId,
    persistent: bool,
    start: Result<DisposalStart, CordisError>,
) -> bool {
    match start {
        Err(error) => {
            &&& error is ScopeNotFound
            &&& !before.scopes@.dom().contains(scope.raw)
            &&& after == before
        },
        Ok(start) => {
            let record = before.scopes@[scope.raw];
            &&& before.scopes@.dom().contains(scope.raw)
            &&& start is Started == (record.state is Active)
            &&& after == (Runtime { scopes: after.scopes, ..before })
            &&& after.scopes.root == before.scopes.root
            &&& after.scopes.scopes.order() == before.scopes.scopes.order()
            &&& after.scopes.scopes.versions() == before.scopes.scopes.versions()
            &&& after.scopes@ == before.scopes@.insert(
                scope.raw,
                ScopeRecord {
                    state: if record.state is Active {
                        ScopeState::Disposing
                    } else {
                        record.state
                    },
                    disposal: ScopeDisposal {
                        persistent: record.disposal.persistent || persistent,
                        ..record.disposal
                    },
                    ..record
                },
            )
        },
    }
}

/// How the disposal of a scope ended, by how its worker did.
pub open spec fn ends_scope_worker(
    exit: WorkerExit<(Result<(), CordisError>, bool)>,
    outcome: (Result<(), CordisError>, bool),
) -> bool {
    match exit {
        WorkerExit::Returned(returned) => outcome == returned,
        WorkerExit::Cancelled => outcome.1 && outcome.0 == Err::<(), CordisError>(
            CordisError::ScopeDisposalCancelled,
        ),
        WorkerExit::Panicked(payload) => {
            &&& outcome.1
            &&& outcome.0 matches Err(CordisError::ScopeDisposalPanicked(message))
            &&& message@ == payload.message_or("non-string panic payload"@)
        },
    }
}

/// The end of the disposal of a scope is recorded and published, and a collection of garbage
/// is asked for.
pub open spec fn finalizes_scope(
    before: Runtime,
    after: Runtime,
    scope: ScopeId,
    result: Result<(), CordisError>,
    terminated: bool,
    ended: (Result<(), CordisError>, Option<u64>),
) -> bool {
    if !before.scopes@.dom().contains(scope.raw) {
        &&& after == before
        &&& ended.0 == Err::<(), CordisError>(CordisError::ScopeNotFound)
        &&& ended.1 is None
    } else {
        exists|settled: Runtime, published: Result<(), CordisError>|
            {
                &&& #[trigger] published_scope_result(result, terminated, published)
                &&& settled == (Runtime { scopes: settled.scopes, ..before })
                &&& #[trigger] scope_settles(
                    before.scopes,
                    settled.scopes,
                    scope,
                    published,
                    terminated,
                )
                &&& if before.scopes@[scope.raw].disposal.observation is Some {
                    &&& after == settled
                    &&& ended.0 matches Err(CordisError::Invariant(message))
                    &&& message@ == "disposal outcome is already published"@
                    &&& ended.1 is None
                } else {
                    &&& ended.0 == published
                    &&& requests_gc(settled, after, ended.1)
                }
            }
    }
}

/// What the disposal of a scope came to in detail.
pub open spec fn is_scope_outcome(
    observed: Result<Arc<DisposalObservation>, CordisError>,
    outcome: ScopeDisposeOutcome,
) -> bool {
    match observed {
        Err(error) => outcome matches ScopeDisposeOutcome::Incomplete { primary, issues }
            && primary == error && issues@ == Seq::<CleanupIssue>::empty(),
        Ok(observation) => match observation.terminal {
            DisposalTerminal::Incomplete(error) => outcome matches
                ScopeDisposeOutcome::Incomplete { primary, issues } && primary == error
                && issues@ == observation.issues@,
            DisposalTerminal::Committed => if observation.issues@.len() == 0 {
                outcome is Disposed
            } else {
                outcome matches ScopeDisposeOutcome::CommittedWithCleanupIssues { issues }
                    && issues@ == observation.issues@
            },
        },
    }
}

/// A job that is through hands its issues to the scope.
pub open spec fn ends_scope_job(
    before: Runtime,
    after: Runtime,
    job: ScopeDisposalJob,
    outcome: (Result<(), CordisError>, bool),
) -> bool {
    &&& outcome.1 == job.terminated
    &&& stands_for_issues(outcome.0, job.errors@)
    &&& if before.scopes@.dom().contains(job.scope.raw) {
        let record = before.scopes@[job.scope.raw];
        &&& after == (Runtime { scopes: after.scopes, ..before })
        &&& after.scopes.root == before.scopes.root
        &&& after.scopes.scopes.order() == before.scopes.scopes.order()
        &&& after.scopes.scopes.versions()
            == before.scopes.scopes.versions()
        &&& after.scopes@ == before.scopes@.insert(
            job.scope.raw,
            ScopeRecord {
                disposal: ScopeDisposal { issues: job.errors, ..record.disposal },
                ..record
            },
        )
    } else {
        after == before
    }
}

/// Whether nothing of the fiber is left to dispose.
pub open spec fn is_settled(runtime: Runtime, fiber: u64) -> bool {
    !runtime.fibers@.dom().contains(fiber) || runtime.fibers@[fiber].state is Disposed
}

/// The issue that stands for a failed disposal of `what`.
pub open spec fn descendant_issue(
    issue: CleanupIssue,
    phase: CleanupPhase,
    what: Seq<char>,
    error: CordisError,
) -> bool {
    &&& issue.phase == phase
    &&& issue.message@ == what + ": "@ + error.text()
    &&& issue.cause == Some(error)
}

fn describe(phase: CleanupPhase, what: String, error: CordisError) -> (issue: CleanupIssue)
    ensures
        descendant_issue(issue, phase, what@, error),
{
    let mut message = concat(what.as_str(), ": ");
    message.append(error.to_string().as_str());
    CleanupIssue { phase, message, cause: Some(error) }
}

/// A job goes on to its next step: its children come first, from the last to the
/// first, and then its fibers in the same order.
pub open spec fn goes_on(
    before: ScopeDisposalJob,
    after: ScopeDisposalJob,
    runtime: Runtime,
    step: ScopeStep,
) -> bool {
    &&& after == (ScopeDisposalJob { children: after.children, fibers: after.fibers, ..before })
    &&& match step {
        ScopeStep::DisposeChild { child, persistent } => {
            &&& before.children@.len() > 0
            &&& child.raw == before.children@.last()
            &&& persistent == before.persistent
            &&& after.children@ == before.children@.drop_last()
            &&& after.fibers == before.fibers
        },
        ScopeStep::DisposeFiber { fiber, persistent } => {
            let k = after.fibers@.len() as int;
            &&& before.children@.len() == 0
            &&& after.children == before.children
            &&& persistent == before.persistent
            &&& k < before.fibers@.len()
            &&& after.fibers@ == before.fibers@.take(k)
            &&& fiber.raw == before.fibers@[k]
            &&& !is_settled(runtime, fiber.raw)
            &&& forall|j: int|
                k < j < before.fibers@.len() ==> is_settled(runtime, #[trigger] before.fibers@[j])
        },
        ScopeStep::Finish => {
            &&& before.children@.len() == 0
            &&& after.children == before.children
            &&& after.fibers@.len() == 0
            &&& forall|j: int|
                0 <= j < before.fibers@.len() ==> is_settled(runtime, #[trigger] before.fibers@[j])
        },
    }
}

/// A job hears how the disposal of a child scope went.
pub open spec fn hears_of_child(
    before: ScopeDisposalJob,
    after: ScopeDisposalJob,
    runtime: Runtime,
    child: ScopeId,
    result: Result<(), CordisError>,
) -> bool {
    match result {
        Ok(()) => after == before,
        Err(error) => after.notes(
            &before,
            CleanupPhase::ChildScopeCleanup,
            "child scope "@ + child.text(),
            error,
            runtime.scopes@.dom().contains(child.raw)
                && runtime.scopes@[child.raw].state is Disposed,
        ),
    }
}

/// A job hears how the disposal of a fiber went.
pub open spec fn hears_of_fiber(
    before: ScopeDisposalJob,
    after: ScopeDisposalJob,
    runtime: Runtime,
    fiber: FiberId,
    result: Result<(), CordisError>,
) -> bool {
    match result {
        Ok(()) => after == before,
        Err(error) => after.notes(
            &before,
            CleanupPhase::FiberDetach,
            "fiber "@ + fiber.text(),
            error,
            runtime.fibers@.dom().contains(fiber.raw) && (
            runtime.fibers@[fiber.raw].state is Disposed
                || runtime.fibers@[fiber.raw].state is WaitingDependencies),
        ),
    }
}

impl ScopeDisposalJob {
    /// A job that has everything of the scope before it.
    pub open spec fn begins(self, scope: ScopeId, record: ScopeRecord) -> bool {
        &&& self.scope == scope
        &&& self.children@ == record.children@
        &&& self.fibers@ == record.fibers@
        &&& self.persistent == record.disposal.persistent
        &&& self.errors@ == Seq::<CleanupIssue>::empty()
        &&& !self.terminated
    }

    /// `self` is `before` with the failure `error` of `what` noted.
    pub open spec fn notes(
        &self,
        before: &Self,
        phase: CleanupPhase,
        what: Seq<char>,
        error: CordisError,
        committed: bool,
    ) -> bool {
        &&& *self == (ScopeDisposalJob {
            errors: self.errors,
            terminated: before.terminated || !committed || error.is_terminal(),
            ..*before
        })
        &&& self.errors@.len() == before.errors@.len() + 1
        &&& self.errors@.drop_last() == before.errors@
        &&& descendant_issue(self.errors@.last(), phase, what, error)
    }

    /// What to do next. Fibers that are gone or disposed are passed over.
    pub fn next(&mut self, runtime: &Runtime) -> (step: ScopeStep)
        requires
            runtime.wf(),
        ensures
            goes_on(*old(self), *final(self), *runtime, step),
    {
        if self.children.len() > 0 {
            let last = self.children.len() - 1;
            let raw = self.children[last];
            self.children.truncate(last);
            assert(self.children@ =~= old(self).children@.drop_last());
            return ScopeStep::DisposeChild {
                child: ScopeId { raw },
                persistent: self.persistent,
            };
        }
        while self.fibers.len() > 0
            invariant
                runtime.wf(),
                self.scope == old(self).scope,
                self.persistent == old(self).persistent,
                self.errors == old(self).errors,
                self.terminated == old(self).terminated,
                self.children == old(self).children,
                self.children@.len() == 0,
                self.fibers@.len() <= old(self).fibers@.len(),
                self.fibers@ == old(self).fibers@.take(self.fibers@.len() as int),
                forall|j: int|
                    self.fibers@.len() <= j < old(self).fibers@.len() ==> is_settled(
                        *runtime,
                        #[trigger] old(self).fibers@[j],
                    ),
            decreases self.fibers@.len(),
        {
            let last = self.fibers.len() - 1;
            let raw = self.fibers[last];
            self.fibers.truncate(last);
            assert(self.fibers@ =~= old(self).fibers@.take(last as int));
            let settled: bool = match runtime.fibers.get(raw) {
                Some(record) => record.state == FiberState::Disposed,
                None => true,
            };
            if !settled {
                return ScopeStep::DisposeFiber {
                    fiber: FiberId { raw },
                    persistent: self.persistent,
                };
            }
        }
        ScopeStep::Finish
    }

    /// Takes note of how the disposal of a child scope went.
    pub fn child_disposed(
        &mut self,
        runtime: &Runtime,
        child: ScopeId,
        result: Result<(), CordisError>,
    )
        requires
            runtime.wf(),
        ensures
            hears_of_child(*old(self), *final(self), *runtime, child, result),
    {
        if let Err(error) = result {
            let committed: bool = match runtime.scopes.get(child) {
                Some(record) => record.state == ScopeState::Disposed,
                None => false,
            };
            self.terminated = self.terminated || !committed || is_terminal_cleanup_error(&error);
            let what = concat("child scope ", child.debug_text().as_str());
            self.errors.push(describe(CleanupPhase::ChildScopeCleanup, what, error));
            assert(self.errors@.drop_last() =~= old(self).errors@);
        }
    }

    /// Takes note of how the disposal of a fiber went.
    pub fn fiber_disposed(
        &mut self,
        runtime: &Runtime,
        fiber: FiberId,
        result: Result<(), CordisError>,
    )
        requires
            runtime.wf(),
        ensures
            hears_of_fiber(*old(self), *final(self), *runtime, fiber, result),
    {
        if let Err(error) = result {
            let committed: bool = match runtime.fibers.get(fiber.raw) {
                Some(record) => matches!(
                    record.state,
                    FiberState::Disposed | FiberState::WaitingDependencies
                ),
                None => false,
            };
            self.terminated = self.terminated || !committed || is_terminal_cleanup_error(&error);
            let what = concat("fiber ", fiber.debug_text().as_str());
            self.errors.push(describe(CleanupPhase::FiberDetach, what, error));
            assert(self.errors@.drop_last() =~= old(self).errors@);
        }
    }

    /// Ends the traversal: the scope keeps the issues, and the result reports
    /// them.
    pub fn finish(self, runtime: &mut Runtime) -> (outcome: (Result<(), CordisError>, bool))
        requires
            old(runtime).wf(),
        ensures
            final(runtime).wf(),
            ends_scope_job(*old(runtime), *final(runtime), self, outcome),
    {
        let result = if self.errors.len() == 0 {
            Ok(())
        } else {
            Err(CordisError::CleanupFailed(report(&self.errors)))
        };
        let ghost before = *runtime;
        if let Some(record) = runtime.scopes.get_mut(self.scope) {
            record.disposal.issues = self.errors;
        }
        proof {
            assert(runtime.scopes@.dom() =~= before.scopes@.dom());
            runtime.lemma_scopes_edited(before);
        }
        (result, self.terminated)
    }
}

/// A scope is reported as disposed only where no descendant stopped half-way: a
/// failure that left its descendant uncommitted, or that says so, makes the
/// disposal end early.
pub proof fn law_uncommitted_descendants_terminate(
    before: ScopeDisposalJob,
    after: ScopeDisposalJob,
    phase: CleanupPhase,
    what: Seq<char>,
    error: CordisError,
    committed: bool,
)
    requires
        after.notes(&before, phase, what, error, committed),
    ensures
        before.terminated ==> after.terminated,
        !committed ==> after.terminated,
        error.is_terminal() ==> after.terminated,
        after.errors@.len() > 0,
{
}

} // verus!
