//! What can go wrong, and how it reads.
use crate::ids::{FiberId, GenerationId, ScopeId};
use crate::key::{InvocationKey, ServiceKey};
use crate::state::{FiberState, ResourceKind};
#[allow(unused_imports)]
use crate::text::decimal;
use crate::text::{concat, decimal_text};
use std::sync::Arc;
use vstd::prelude::*;

verus! {

/// Every failure the runtime reports.
#[allow(inconsistent_fields)]
#[derive(Debug, PartialEq, Eq)]
pub enum CordisError {
    /// The scope does not exist.
    ScopeNotFound,
    /// The scope no longer accepts work.
    ScopeDisposed(ScopeId),
    /// The fiber does not exist.
    FiberNotFound,
    /// The logical plugin does not exist.
    PluginNotFound,
    /// A reload transaction owns the fiber's lifecycle.
    FiberLifecycleOwned(FiberId),
    /// The configuration is not usable.
    InvalidRuntimeConfig(String),
    /// A staged revision does not fit the committed state.
    RevisionValidationFailed(String),
    /// The fiber's capabilities could not be published.
    CapabilityPublicationFailed(FiberId),
    /// The fiber's activation takes no more registrations.
    ActivationSealed(FiberId),
    /// Another fiber provides the service in this scope.
    DuplicateService(ServiceKey),
    /// Another handler serves the invocation in this scope.
    DuplicateInvocationHandler(InvocationKey),
    /// The declared dependencies form a cycle.
    DependencyCycle,
    /// An internal invariant does not hold.
    Invariant(String),
    /// Cleanup ended with diagnostics.
    CleanupFailed(String),
    /// A plugin panicked.
    PluginPanicked(String),
    /// A plugin refused to start.
    PluginStartFailed(String),
    /// A plugin's cleanup failed.
    PluginDisposeFailed(String),
    /// An owned task panicked.
    TaskPanicked(String),
    /// The work was cancelled.
    TaskCancelled,
    /// The runtime no longer admits work.
    RuntimeShuttingDown,
    /// A fiber disposal worker panicked.
    DisposalWorkerPanicked(String),
    /// A fiber disposal worker was cancelled.
    DisposalWorkerCancelled,
    /// A fiber disposal worker ended early.
    DisposalWorkerTerminated(String),
    /// A scope disposal worker panicked.
    ScopeDisposalPanicked(String),
    /// A scope disposal worker was cancelled.
    ScopeDisposalCancelled,
    /// A scope disposal ended before convergence.
    ScopeDisposalTerminated(String),
    /// The shutdown worker panicked.
    ShutdownWorkerPanicked(String),
    /// A plugin host reported a failure.
    Host(String),
    /// A remote domain reported a failure.
    RemoteDomain(String),
    /// The lifecycle does not allow the transition.
    InvalidFiberState { fiber: FiberId, from: FiberState, to: FiberState },
    /// A configured limit is reached.
    ResourceLimitExceeded { resource: ResourceKind, limit: usize },
    /// The context belongs to another generation of its fiber.
    StaleContextGeneration { fiber: FiberId, expected: GenerationId, actual: GenerationId },
    /// The reload committed, but cleanup of the old generation failed.
    ReloadCommitted { new_fiber: FiberId, cleanup: Arc<CordisError> },
    /// The reload did not commit.
    ReloadFailed { primary: Arc<CordisError>, cleanup: Arc<Vec<CordisError>> },
    /// The activation did not commit.
    ActivationFailed { primary: Arc<CordisError>, cleanup: Arc<Vec<CordisError>> },
}

impl Clone for CordisError {
    fn clone(&self) -> (error: Self)
        ensures
            error == *self,
    {
        match self {
            CordisError::ScopeNotFound => CordisError::ScopeNotFound,
            CordisError::ScopeDisposed(id) => CordisError::ScopeDisposed(*id),
            CordisError::FiberNotFound => CordisError::FiberNotFound,
            CordisError::PluginNotFound => CordisError::PluginNotFound,
            CordisError::FiberLifecycleOwned(id) => CordisError::FiberLifecycleOwned(*id),
            CordisError::InvalidRuntimeConfig(message) => CordisError::InvalidRuntimeConfig(message.clone()),
            CordisError::RevisionValidationFailed(message) => CordisError::RevisionValidationFailed(message.clone()),
            CordisError::CapabilityPublicationFailed(id) => CordisError::CapabilityPublicationFailed(*id),
            CordisError::ActivationSealed(id) => CordisError::ActivationSealed(*id),
            CordisError::DuplicateService(key) => CordisError::DuplicateService(key.clone()),
            CordisError::DuplicateInvocationHandler(key) => CordisError::DuplicateInvocationHandler(key.clone()),
            CordisError::DependencyCycle => CordisError::DependencyCycle,
            CordisError::Invariant(message) => CordisError::Invariant(message.clone()),
            CordisError::CleanupFailed(message) => CordisError::CleanupFailed(message.clone()),
            CordisError::PluginPanicked(message) => CordisError::PluginPanicked(message.clone()),
            CordisError::PluginStartFailed(message) => CordisError::PluginStartFailed(message.clone()),
            CordisError::PluginDisposeFailed(message) => CordisError::PluginDisposeFailed(message.clone()),
            CordisError::TaskPanicked(message) => CordisError::TaskPanicked(message.clone()),
            CordisError::TaskCancelled => CordisError::TaskCancelled,
            CordisError::RuntimeShuttingDown => CordisError::RuntimeShuttingDown,
            CordisError::DisposalWorkerPanicked(message) => CordisError::DisposalWorkerPanicked(message.clone()),
            CordisError::DisposalWorkerCancelled => CordisError::DisposalWorkerCancelled,
            CordisError::DisposalWorkerTerminated(message) => CordisError::DisposalWorkerTerminated(message.clone()),
            CordisError::ScopeDisposalPanicked(message) => CordisError::ScopeDisposalPanicked(message.clone()),
            CordisError::ScopeDisposalCancelled => CordisError::ScopeDisposalCancelled,
            CordisError::ScopeDisposalTerminated(message) => CordisError::ScopeDisposalTerminated(message.clone()),
            CordisError::ShutdownWorkerPanicked(message) => CordisError::ShutdownWorkerPanicked(message.clone()),
            CordisError::Host(message) => CordisError::Host(message.clone()),
            CordisError::RemoteDomain(message) => CordisError::RemoteDomain(message.clone()),
            CordisError::InvalidFiberState { fiber, from, to } => CordisError::InvalidFiberState {
                fiber: *fiber,
                from: *from,
                to: *to,
            },
            CordisError::ResourceLimitExceeded { resource, limit } => {
                CordisError::ResourceLimitExceeded { resource: *resource, limit: *limit }
            },
            CordisError::StaleContextGeneration { fiber, expected, actual } => {
                CordisError::StaleContextGeneration {
                    fiber: *fiber,
                    expected: *expected,
                    actual: *actual,
                }
            },
            CordisError::ReloadCommitted { new_fiber, cleanup } => CordisError::ReloadCommitted {
                new_fiber: *new_fiber,
                cleanup: cleanup.clone(),
            },
            CordisError::ReloadFailed { primary, cleanup } => CordisError::ReloadFailed {
                primary: primary.clone(),
                cleanup: cleanup.clone(),
            },
            CordisError::ActivationFailed { primary, cleanup } => CordisError::ActivationFailed {
                primary: primary.clone(),
                cleanup: cleanup.clone(),
            },
        }
    }
}

impl CordisError {
    /// How the error reads.
    pub open spec fn text(self) -> Seq<char>
        decreases self,
    {
        match self {
            CordisError::ScopeNotFound => "scope not found"@,
            CordisError::ScopeDisposed(id) => "scope is not active: "@ + id.text(),
            CordisError::FiberNotFound => "fiber not found"@,
            CordisError::PluginNotFound => "plugin not found"@,
            CordisError::FiberLifecycleOwned(id) => "fiber lifecycle is owned by a reload: "@ + id.text(),
            CordisError::InvalidRuntimeConfig(message) => "invalid runtime configuration: "@ + message@,
            CordisError::RevisionValidationFailed(message) => "revision validation failed: "@ + message@,
            CordisError::CapabilityPublicationFailed(id) => "capability publication failed: "@ + id.text(),
            CordisError::ActivationSealed(id) => "activation is sealed: "@ + id.text(),
            CordisError::DuplicateService(key) => "service is already provided: "@ + key@.text(),
            CordisError::DuplicateInvocationHandler(key) => "invocation is already handled: "@ + key@.text(),
            CordisError::DependencyCycle => "dependency cycle"@,
            CordisError::Invariant(message) => "invariant violated: "@ + message@,
            CordisError::CleanupFailed(message) => "cleanup failed: "@ + message@,
            CordisError::PluginPanicked(message) => "plugin panicked: "@ + message@,
            CordisError::PluginStartFailed(message) => "plugin start failed: "@ + message@,
            CordisError::PluginDisposeFailed(message) => "plugin dispose failed: "@ + message@,
            CordisError::TaskPanicked(message) => "task panicked: "@ + message@,
            CordisError::TaskCancelled => "task cancelled"@,
            CordisError::RuntimeShuttingDown => "runtime is shutting down"@,
            CordisError::DisposalWorkerPanicked(message) => "disposal worker panicked: "@ + message@,
            CordisError::DisposalWorkerCancelled => "disposal worker cancelled"@,
            CordisError::DisposalWorkerTerminated(message) => "disposal worker terminated: "@ + message@,
            CordisError::ScopeDisposalPanicked(message) => "scope disposal panicked: "@ + message@,
            CordisError::ScopeDisposalCancelled => "scope disposal cancelled"@,
            CordisError::ScopeDisposalTerminated(message) => "scope disposal terminated: "@ + message@,
            CordisError::ShutdownWorkerPanicked(message) => "shutdown worker panicked: "@ + message@,
            CordisError::Host(message) => "host error: "@ + message@,
            CordisError::RemoteDomain(message) => "remote domain error: "@ + message@,
            CordisError::InvalidFiberState { fiber, from, to } => "invalid fiber state: "@
                + fiber.text() + " "@ + from.text() + " -> "@ + to.text(),
            CordisError::ResourceLimitExceeded { resource, limit } => "resource limit exceeded: "@
                + resource.text() + " "@ + decimal(limit as nat),
            CordisError::StaleContextGeneration { fiber, expected, actual } => {
                "stale context generation: "@ + fiber.text() + " "@ + decimal(expected.raw as nat)
                    + " is now "@ + decimal(actual.raw as nat)
            },
            CordisError::ReloadCommitted { new_fiber, cleanup } => {
                "reload committed with failed cleanup: "@ + cleanup.text()
            },
            CordisError::ReloadFailed { primary, cleanup } => "reload failed: "@ + primary.text(),
            CordisError::ActivationFailed { primary, cleanup } => "activation failed: "@
                + primary.text(),
        }
    }

    /// How the error reads.
    pub fn to_string(&self) -> (text: String)
        ensures
            text@ == self.text(),
        decreases self,
    {
        match self {
            CordisError::ScopeNotFound => "scope not found".to_owned(),
            CordisError::ScopeDisposed(id) => concat(
                "scope is not active: ",
                id.debug_text().as_str(),
            ),
            CordisError::FiberNotFound => "fiber not found".to_owned(),
            CordisError::PluginNotFound => "plugin not found".to_owned(),
            CordisError::FiberLifecycleOwned(id) => concat(
                "fiber lifecycle is owned by a reload: ",
                id.debug_text().as_str(),
            ),
            CordisError::InvalidRuntimeConfig(message) => concat(
                "invalid runtime configuration: ",
                message.as_str(),
            ),
            CordisError::RevisionValidationFailed(message) => concat(
                "revision validation failed: ",
                message.as_str(),
            ),
            CordisError::ActivationSealed(id) => concat(
                "activation is sealed: ",
                &id.debug_text(),
            ),
            CordisError::CapabilityPublicationFailed(id) => concat(
                "capability publication failed: ",
                id.debug_text().as_str(),
            ),
            CordisError::DuplicateService(key) => concat(
                "service is already provided: ",
                key.to_string().as_str(),
            ),
            CordisError::DuplicateInvocationHandler(key) => concat(
                "invocation is already handled: ",
                key.to_string().as_str(),
            ),
            CordisError::DependencyCycle => "dependency cycle".to_owned(),
            CordisError::Invariant(message) => concat(
                "invariant violated: ",
                message.as_str(),
            ),
            CordisError::CleanupFailed(message) => concat(
                "cleanup failed: ",
                message.as_str(),
            ),
            CordisError::PluginPanicked(message) => concat(
                "plugin panicked: ",
                message.as_str(),
            ),
            CordisError::PluginStartFailed(message) => concat(
                "plugin start failed: ",
                message.as_str(),
            ),
            CordisError::PluginDisposeFailed(message) => concat(
                "plugin dispose failed: ",
                message.as_str(),
            ),
            CordisError::TaskPanicked(message) => concat(
                "task panicked: ",
                message.as_str(),
            ),
            CordisError::TaskCancelled => "task cancelled".to_owned(),
            CordisError::RuntimeShuttingDown => "runtime is shutting down".to_owned(),
            CordisError::DisposalWorkerPanicked(message) => concat(
                "disposal worker panicked: ",
                message.as_str(),
            ),
            CordisError::DisposalWorkerCancelled => "disposal worker cancelled".to_owned(),
            CordisError::DisposalWorkerTerminated(message) => concat(
                "disposal worker terminated: ",
                message.as_str(),
            ),
            CordisError::ScopeDisposalPanicked(message) => concat(
                "scope disposal panicked: ",
                message.as_str(),
            ),
            CordisError::ScopeDisposalCancelled => "scope disposal cancelled".to_owned(),
            CordisError::ScopeDisposalTerminated(message) => concat(
                "scope disposal terminated: ",
                message.as_str(),
            ),
            CordisError::ShutdownWorkerPanicked(message) => concat(
                "shutdown worker panicked: ",
                message.as_str(),
            ),
            CordisError::Host(message) => concat(
                "host error: ",
                message.as_str(),
            ),
            CordisError::RemoteDomain(message) => concat(
                "remote domain error: ",
                message.as_str(),
            ),
            CordisError::InvalidFiberState { fiber, from, to } => {
                let mut text = concat("invalid fiber state: ", fiber.debug_text().as_str());
                text.append(" ");
                text.append(from.debug_text());
                text.append(" -> ");
                text.append(to.debug_text());
                text
            },
            CordisError::ResourceLimitExceeded { resource, limit } => {
                let mut text = concat("resource limit exceeded: ", resource.debug_text());
                text.append(" ");
                text.append(decimal_text(*limit as u64).as_str());
                text
            },
            CordisError::StaleContextGeneration { fiber, expected, actual } => {
                let mut text = concat("stale context generation: ", fiber.debug_text().as_str());
                text.append(" ");
                text.append(decimal_text(expected.raw).as_str());
                text.append(" is now ");
                text.append(decimal_text(actual.raw).as_str());
                text
            },
            CordisError::ReloadCommitted { new_fiber: _, cleanup } => concat(
                "reload committed with failed cleanup: ",
                cleanup.to_string().as_str(),
            ),
            CordisError::ReloadFailed { primary, cleanup: _ } => concat(
                "reload failed: ",
                primary.to_string().as_str(),
            ),
            CordisError::ActivationFailed { primary, cleanup: _ } => concat(
                "activation failed: ",
                primary.to_string().as_str(),
            ),
        }
    }

    /// Whether the error says that a disposal ended before convergence.
    pub open spec fn is_terminal(self) -> bool {
        ||| self is DisposalWorkerPanicked
        ||| self is DisposalWorkerCancelled
        ||| self is DisposalWorkerTerminated
        ||| self is ScopeDisposalPanicked
        ||| self is ScopeDisposalCancelled
        ||| self is ScopeDisposalTerminated
    }

    /// Whether the error comes from a plugin host or a remote domain, whose own
    /// type callers rely on.
    pub open spec fn is_hosted(self) -> bool {
        self is Host || self is RemoteDomain
    }
}

/// Whether the error says that a disposal ended before convergence.
pub fn is_terminal_cleanup_error(error: &CordisError) -> (terminal: bool)
    ensures
        terminal == error.is_terminal(),
{
    matches!(
        error,
        CordisError::DisposalWorkerPanicked(_) | CordisError::DisposalWorkerCancelled
            | CordisError::DisposalWorkerTerminated(_) | CordisError::ScopeDisposalPanicked(_)
            | CordisError::ScopeDisposalCancelled | CordisError::ScopeDisposalTerminated(_)
    )
}

/// A copy of `result`.
pub fn clone_result(result: &Result<(), CordisError>) -> (copy: Result<(), CordisError>)
    ensures
        copy == *result,
{
    match result {
        Ok(done) => Ok(*done),
        Err(error) => Err(error.clone()),
    }
}

/// What a panic carried.
#[derive(Debug, PartialEq, Eq)]
pub enum PanicPayload {
    /// A message.
    Text(String),
    /// Something that is no message.
    Opaque,
}

impl PanicPayload {
    /// The message, or `fallback` where there is none.
    pub open spec fn message_or(self, fallback: Seq<char>) -> Seq<char> {
        match self {
            PanicPayload::Text(message) => message@,
            PanicPayload::Opaque => fallback,
        }
    }
}

/// The message of a panic.
pub fn panic_message(payload: &PanicPayload) -> (message: String)
    ensures
        message@ == payload.message_or("non-string panic payload"@),
{
    match payload {
        PanicPayload::Text(message) => message.clone(),
        PanicPayload::Opaque => "non-string panic payload".to_owned(),
    }
}

/// The errors that say that a cleanup was cut off are those of its workers, and those of hosts
/// are no such errors. The words of a panic are its own, where it has any.
pub proof fn law_errors_are_told_apart(error: CordisError, payload: PanicPayload, words: Seq<char>)
    ensures
        error.is_terminal() <==> (error is DisposalWorkerPanicked || error
            is DisposalWorkerCancelled || error is DisposalWorkerTerminated || error
            is ScopeDisposalPanicked || error is ScopeDisposalCancelled || error
            is ScopeDisposalTerminated),
        error.is_hosted() <==> (error is Host || error is RemoteDomain),
        !(error.is_terminal() && error.is_hosted()),
        payload matches PanicPayload::Text(message) ==> payload.message_or(words) == message@,
        payload is Opaque ==> payload.message_or(words) == words,
{
}

} // verus!
