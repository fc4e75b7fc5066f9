//! Lifecycle states and phases.
use vstd::prelude::*;

verus! {

/// Lifecycle of a fiber.
#[derive(Clone, Copy, Debug, PartialEq, Eq, Structural)]
pub enum FiberState {
    Created,
    WaitingDependencies,
    Starting,
    Active,
    Reloading,
    Failed,
    Disposing,
    Disposed,
}

/// Lifecycle of a scope.
#[derive(Clone, Copy, Debug, PartialEq, Eq, Structural)]
pub enum ScopeState {
    Active,
    Disposing,
    Disposed,
    Terminated,
}

/// Durable progress of a fiber disposal.
#[derive(Clone, Copy, Debug, PartialEq, Eq, Structural)]
pub enum DisposalPhase {
    Idle,
    Tasks,
    Draining,
    ChildScopes,
    Handlers,
    Services,
    Effects,
    Reconciling,
    Finalizing,
    Complete,
    Terminated,
}

/// The cleanup step that a diagnostic belongs to.
#[derive(Clone, Copy, Debug, PartialEq, Eq, Structural)]
pub enum CleanupPhase {
    TaskDrain,
    ChildScopeCleanup,
    EffectCleanup,
    DependencyCleanup,
    FiberDetach,
    Worker,
}

/// What happens to a fiber whose dependencies are lost.
#[derive(Clone, Copy, Debug, PartialEq, Eq, Structural)]
pub enum DependencyPolicy {
    /// Wait for the dependencies and start again.
    Restart,
    /// Dispose for good.
    Dispose,
}

/// A bounded resource.
#[derive(Clone, Copy, Debug, PartialEq, Eq, Structural)]
pub enum ResourceKind {
    Scopes,
    ScopeDepth,
    Fibers,
    ServiceSymbols,
    TasksPerFiber,
}

impl FiberState {
    /// The lifecycle: which state may follow which.
    pub open spec fn allows(self, next: FiberState) -> bool {
        match self {
            FiberState::Created => next is WaitingDependencies || next is Starting
                || next is Disposing,
            FiberState::WaitingDependencies => next is Starting || next is Disposing,
            FiberState::Starting => next is Active || next is Failed || next is Disposing,
            FiberState::Active => next is Reloading || next is Failed || next is Disposing,
            FiberState::Reloading => next is Active || next is Failed || next is Disposing,
            FiberState::Failed => next is Disposing,
            FiberState::Disposing => next is Disposed || next is WaitingDependencies,
            FiberState::Disposed => false,
        }
    }

    /// Whether the lifecycle lets `next` follow.
    pub fn can_transition_to(&self, next: FiberState) -> (allowed: bool)
        ensures
            allowed == self.allows(next),
    {
        match self {
            FiberState::Created => matches!(
                next,
                FiberState::WaitingDependencies | FiberState::Starting | FiberState::Disposing
            ),
            FiberState::WaitingDependencies => matches!(
                next,
                FiberState::Starting | FiberState::Disposing
            ),
            FiberState::Starting => matches!(
                next,
                FiberState::Active | FiberState::Failed | FiberState::Disposing
            ),
            FiberState::Active => matches!(
                next,
                FiberState::Reloading | FiberState::Failed | FiberState::Disposing
            ),
            FiberState::Reloading => matches!(
                next,
                FiberState::Active | FiberState::Failed | FiberState::Disposing
            ),
            FiberState::Failed => matches!(next, FiberState::Disposing),
            FiberState::Disposing => matches!(
                next,
                FiberState::Disposed | FiberState::WaitingDependencies
            ),
            FiberState::Disposed => false,
        }
    }

    pub open spec fn text(self) -> Seq<char> {
        match self {
            FiberState::Created => "Created"@,
            FiberState::WaitingDependencies => "WaitingDependencies"@,
            FiberState::Starting => "Starting"@,
            FiberState::Active => "Active"@,
            FiberState::Reloading => "Reloading"@,
            FiberState::Failed => "Failed"@,
            FiberState::Disposing => "Disposing"@,
            FiberState::Disposed => "Disposed"@,
        }
    }

    /// How the state reads in messages.
    pub fn debug_text(&self) -> (text: &'static str)
        ensures
            text@ == self.text(),
    {
        match self {
            FiberState::Created => "Created",
            FiberState::WaitingDependencies => "WaitingDependencies",
            FiberState::Starting => "Starting",
            FiberState::Active => "Active",
            FiberState::Reloading => "Reloading",
            FiberState::Failed => "Failed",
            FiberState::Disposing => "Disposing",
            FiberState::Disposed => "Disposed",
        }
    }
}

impl CleanupPhase {
    pub open spec fn text(self) -> Seq<char> {
        match self {
            CleanupPhase::TaskDrain => "TaskDrain"@,
            CleanupPhase::ChildScopeCleanup => "ChildScopeCleanup"@,
            CleanupPhase::EffectCleanup => "EffectCleanup"@,
            CleanupPhase::DependencyCleanup => "DependencyCleanup"@,
            CleanupPhase::FiberDetach => "FiberDetach"@,
            CleanupPhase::Worker => "Worker"@,
        }
    }

    /// How the phase reads in messages.
    pub fn debug_text(&self) -> (text: &'static str)
        ensures
            text@ == self.text(),
    {
        match self {
            CleanupPhase::TaskDrain => "TaskDrain",
            CleanupPhase::ChildScopeCleanup => "ChildScopeCleanup",
            CleanupPhase::EffectCleanup => "EffectCleanup",
            CleanupPhase::DependencyCleanup => "DependencyCleanup",
            CleanupPhase::FiberDetach => "FiberDetach",
            CleanupPhase::Worker => "Worker",
        }
    }
}

impl ResourceKind {
    pub open spec fn text(self) -> Seq<char> {
        match self {
            ResourceKind::Scopes => "Scopes"@,
            ResourceKind::ScopeDepth => "ScopeDepth"@,
            ResourceKind::Fibers => "Fibers"@,
            ResourceKind::ServiceSymbols => "ServiceSymbols"@,
            ResourceKind::TasksPerFiber => "TasksPerFiber"@,
        }
    }

    /// How the resource reads in messages.
    pub fn debug_text(&self) -> (text: &'static str)
        ensures
            text@ == self.text(),
    {
        match self {
            ResourceKind::Scopes => "Scopes",
            ResourceKind::ScopeDepth => "ScopeDepth",
            ResourceKind::Fibers => "Fibers",
            ResourceKind::ServiceSymbols => "ServiceSymbols",
            ResourceKind::TasksPerFiber => "TasksPerFiber",
        }
    }
}

/// A disposed fiber never leaves that state.
pub proof fn law_disposed_is_final(next: FiberState)
    ensures
        !FiberState::Disposed.allows(next),
{
}

/// Every state but the last can be left towards disposal.
pub proof fn law_disposal_is_reachable(state: FiberState)
    requires
        !(state is Disposing),
        !(state is Disposed),
    ensures
        state.allows(FiberState::Disposing),
{
}

/// Where a fiber can come from, and where it can go: it begins, and nothing leads back to the
/// beginning; it starts when it begins or after it waited; it works only after it started or
/// was replaced in vain; it fails only where it started, works or is replaced; everything but a
/// disposal, and what it leads to, can be disposed; and only a disposal leads to its end or to
/// waiting again. A disposed fiber stays disposed.
pub proof fn law_states_follow_one_another(from: FiberState, to: FiberState)
    ensures
        from is Disposed ==> !from.allows(to),
        to is Created ==> !from.allows(to),
        to is Starting ==> (from.allows(to) <==> from is Created || from is WaitingDependencies),
        to is Active ==> (from.allows(to) <==> from is Starting || from is Reloading),
        to is Reloading ==> (from.allows(to) <==> from is Active),
        to is Failed ==> (from.allows(to) <==> from is Starting || from is Active || from
            is Reloading),
        to is Disposing ==> (from.allows(to) <==> !(from is Disposing) && !(from is Disposed)),
        to is Disposed ==> (from.allows(to) <==> from is Disposing),
        to is WaitingDependencies ==> (from.allows(to) <==> from is Created || from is Disposing),
        !from.allows(from),
{
}

} // verus!
