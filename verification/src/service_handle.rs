//! A generation-tracked reference to a service.
use crate::ids::{FiberId, GenerationId, ScopeId, ServiceSymbol};
use crate::service_registry::ServiceEntry;
use vstd::prelude::*;

verus! {

/// One admitted use of the service of one provider generation.
///
/// Whoever holds the handle holds a lease of the generation; giving the handle
/// back ends the lease.
#[derive(Debug)]
pub struct ServiceHandle {
    service: u64,
    provider: FiberId,
    generation: u64,
    scope: ScopeId,
    symbol: ServiceSymbol,
}

impl ServiceHandle {
    pub closed spec fn service_of(&self) -> u64 {
        self.service
    }

    pub closed spec fn provider_of(&self) -> FiberId {
        self.provider
    }

    pub closed spec fn generation_of(&self) -> u64 {
        self.generation
    }

    pub closed spec fn scope_of(&self) -> ScopeId {
        self.scope
    }

    pub closed spec fn symbol_of(&self) -> ServiceSymbol {
        self.symbol
    }

    /// Whether the handle stands for the service `symbol` registered as `entry`.
    pub open spec fn stands_for(&self, entry: ServiceEntry, symbol: ServiceSymbol) -> bool {
        &&& self.service_of() == entry.value
        &&& self.provider_of() == entry.owner
        &&& self.generation_of() == entry.gate.raw
        &&& self.scope_of() == entry.scope
        &&& self.symbol_of() == symbol
    }

    /// The handle of a use that was admitted.
    pub fn new(
        service: u64,
        provider: FiberId,
        generation: GenerationId,
        scope: ScopeId,
        symbol: ServiceSymbol,
    ) -> (handle: Self)
        ensures
            handle.service_of() == service,
            handle.provider_of() == provider,
            handle.generation_of() == generation.raw,
            handle.scope_of() == scope,
            handle.symbol_of() == symbol,
    {
        ServiceHandle { service, provider, generation: generation.raw, scope, symbol }
    }

    /// Names the service value.
    pub fn service(&self) -> (service: u64)
        ensures
            service == self.service_of(),
    {
        self.service
    }

    /// Provider Fiber owning this immutable service binding.
    pub fn provider_fiber(&self) -> (provider: FiberId)
        ensures
            provider == self.provider_of(),
    {
        self.provider
    }

    /// Provider generation captured by this handle.
    pub fn generation(&self) -> (generation: u64)
        ensures
            generation == self.generation_of(),
    {
        self.generation
    }

    /// Scope where this service entry was resolved.
    pub fn scope(&self) -> (scope: ScopeId)
        ensures
            scope == self.scope_of(),
    {
        self.scope
    }

    /// Interned service symbol used for this lookup.
    pub fn symbol(&self) -> (symbol: ServiceSymbol)
        ensures
            symbol == self.symbol_of(),
    {
        self.symbol
    }
}

} // verus!
