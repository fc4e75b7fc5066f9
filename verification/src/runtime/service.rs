//! Services: interning, resolution and leases.
use super::Runtime;
#[allow(unused_imports)]
use super::{all_interned, fiber_fits, is_issued, line_of, scope_handles};
use crate::error::CordisError;
use crate::ids::{FiberId, GenerationId, ScopeId, ServiceSymbol};
use crate::key::ServiceKey;
#[allow(unused_imports)]
use crate::key::KeyView;
#[allow(unused_imports)]
use crate::scope_registry::raw_scopes;
use crate::service_handle::ServiceHandle;
use crate::service_registry::ServiceEntry;
#[allow(unused_imports)]
use crate::service_registry::{
    law_resolution_is_nearest, law_resolution_keeps_cache_sound, lemma_slot, nearest,
    nearest_owned, slot_of, slot_scope, ServiceRegistry,
};
use vstd::prelude::*;

verus! {

/// The interned keys of `after` are those of `before` and maybe more.
pub open spec fn interns_more(before: ServiceRegistry, after: ServiceRegistry) -> bool {
    forall|key: KeyView| #[trigger]
        before.symbol_of(key) is Some ==> after.symbol_of(key) == before.symbol_of(key)
}

/// The symbol of a key is found, or the key gets one where there is room.
pub open spec fn interns_service(
    before: Runtime,
    after: Runtime,
    key: ServiceKey,
    symbol: Result<ServiceSymbol, CordisError>,
) -> bool {
    &&& after == (Runtime { services: after.services, ..before })
    &&& after.services == (ServiceRegistry {
        keys: after.services.keys,
        ..before.services
    })
    &&& interns_more(before.services, after.services)
    &&& match before.services.symbol_of(key@) {
        Some(known) => {
            &&& symbol == Ok::<ServiceSymbol, CordisError>(known)
            &&& after == before
        },
        None => if before.services.keys@.len() >= before.config.max_interned_symbols {
            &&& symbol == Err::<ServiceSymbol, CordisError>(
                CordisError::ResourceLimitExceeded {
                    resource: crate::state::ResourceKind::ServiceSymbols,
                    limit: before.config.max_interned_symbols,
                },
            )
            &&& after == before
        } else {
            &&& symbol == Ok::<ServiceSymbol, CordisError>(
                ServiceSymbol { index: before.services.keys@.len() as u32 },
            )
            &&& after.services.keys@ == before.services.keys@.push(key)
            &&& after.services.symbol_of(key@) == Some(symbol->Ok_0)
        },
    }
}

/// A service is looked up from a scope.
pub open spec fn resolves(
    before: Runtime,
    after: Runtime,
    scope: ScopeId,
    symbol: ServiceSymbol,
    entry: Option<ServiceEntry>,
) -> bool {
    &&& after == (Runtime { services: after.services, ..before })
    &&& after.services.same_but_cache(&before.services)
    &&& entry == before.services.resolved(
        scope,
        line_of(before.scopes, scope),
        symbol,
        before.gates,
    )
    &&& after.services.remembers(
        &before.services,
        scope,
        line_of(before.scopes, scope),
        symbol,
        before.gates,
    )
    &&& before.scopes.rooted(scope) ==> entry == nearest(
        before.services@,
        before.gates,
        line_of(before.scopes, scope),
        symbol,
    )
}

/// A service is looked up from a scope by a fiber that also sees what it hides itself.
pub open spec fn resolves_owned(
    before: Runtime,
    after: Runtime,
    scope: ScopeId,
    symbol: ServiceSymbol,
    owner: FiberId,
    entry: Option<ServiceEntry>,
) -> bool {
    &&& after == (Runtime { services: after.services, ..before })
    &&& after.services.same_but_cache(&before.services)
    &&& ({
        let line = line_of(before.scopes, scope);
        let own = nearest_owned(
            before.services@,
            before.gates,
            line,
            symbol,
            owner,
        );
        if own is Some {
            entry == own && after == before
        } else {
            &&& after.services.remembers(
                &before.services,
                scope,
                line,
                symbol,
                before.gates,
            )
            &&& entry == before.services.resolved(
                scope,
                line,
                symbol,
                before.gates,
            )
            &&& before.scopes.rooted(scope) ==> entry == nearest(
                before.services@,
                before.gates,
                line,
                symbol,
            )
        }
    })
}

/// A handle of a service is lent to a fiber.
pub open spec fn leases(
    before: Runtime,
    after: Runtime,
    scope: ScopeId,
    symbol: ServiceSymbol,
    owner: FiberId,
    handle: Option<ServiceHandle>,
) -> bool {
    &&& after == (Runtime {
        services: after.services,
        gates: after.gates,
        ..before
    })
    &&& after.services.same_but_cache(&before.services)
    &&& ({
        let line = line_of(before.scopes, scope);
        let own = nearest_owned(
            before.services@,
            before.gates,
            line,
            symbol,
            owner,
        );
        let found = if own is Some {
            own
        } else {
            before.services.resolved(scope, line, symbol, before.gates)
        };
        &&& if own is Some {
            after.services == before.services
        } else {
            after.services.remembers(
                &before.services,
                scope,
                line,
                symbol,
                before.gates,
            )
        }
        &&& match handle {
            Some(handle) => {
                &&& found matches Some(entry)
                &&& before.gates.at(entry.gate).admits_handle()
                &&& handle.stands_for(entry, symbol)
                &&& after.gates@ == before.gates@.insert(
                    entry.gate.raw,
                    crate::gate::CapabilityGate {
                        inflight: (before.gates.at(entry.gate).inflight + 1) as usize,
                        service_handles: (before.gates.at(entry.gate).service_handles
                            + 1) as usize,
                        ..before.gates.at(entry.gate)
                    },
                )
            },
            None => {
                &&& after.gates@ == before.gates@
                &&& found is None || !before.gates.at(found->0.gate).admits_handle()
            },
        }
    })
}

/// A handle of a service is given back.
pub open spec fn takes_handle_back(
    before: Runtime,
    after: Runtime,
    handle: ServiceHandle,
) -> bool {
    &&& after == (Runtime { gates: after.gates, ..before })
    &&& ({
        let gate = before.gates@[handle.generation_of()];
        after.gates@ == before.gates@.insert(
            handle.generation_of(),
            crate::gate::CapabilityGate {
                inflight: (gate.inflight - 1) as usize,
                service_handles: (gate.service_handles - 1) as usize,
                ..gate
            },
        )
    })
}

impl Runtime {
    /// Interning keys disturbs nothing.
    pub(crate) proof fn lemma_keys_added(&self, before: Runtime)
        requires
            before.wf(),
            *self == (Runtime { services: self.services, ..before }),
            self.services == (ServiceRegistry { keys: self.services.keys, ..before.services }),
            self.services.wf(),
            interns_more(before.services, self.services),
        ensures
            self.wf(),
    {
        assert forall|fiber: u64| #[trigger] self.fibers@.dom().contains(fiber) implies fiber_fits(
            self.scopes,
            self.services,
            self.plugins.next_generation,
            self.fibers@[fiber],
        ) by {
            let record = before.fibers@[fiber];
            assert(fiber_fits(
                before.scopes,
                before.services,
                before.plugins.next_generation,
                record,
            ));
            lemma_still_interned(before.services, self.services, record.descriptor.dependencies@);
            lemma_still_interned(before.services, self.services, record.descriptor.provisions@);
            lemma_still_interned(before.services, self.services, record.provided@);
        }
        assert forall|scope: ScopeId, symbol: ServiceSymbol| self.scopes.rooted(scope) implies
            #[trigger] self.services.sound_at(
            scope,
            symbol,
            line_of(self.scopes, scope),
            self.gates,
        ) by {
            assert(before.services.sound_at(
                scope,
                symbol,
                line_of(before.scopes, scope),
                before.gates,
            ));
        }
    }

    /// Interns a stable service key for allocation-free hot-path lookup.
    pub fn intern_service(&mut self, key: &ServiceKey) -> (symbol: Result<
        ServiceSymbol,
        CordisError,
    >)
        requires
            old(self).wf(),
        ensures
            final(self).wf(),
            interns_service(*old(self), *final(self), *key, symbol),
    {
        let ghost before = *self;
        let symbol = self.services.try_intern(key);
        proof {
            self.lemma_keys_added(before);
        }
        symbol
    }

    /// The scopes from `scope` to the root, or none where one is missing.
    pub fn scope_ancestry(&self, scope: ScopeId) -> (ancestry: Vec<ScopeId>)
        requires
            self.wf(),
        ensures
            ancestry@ == line_of(self.scopes, scope),
    {
        match self.scopes.ancestry(scope) {
            Ok(ancestry) => {
                proof {
                    assert(ancestry@ =~= scope_handles(raw_scopes(ancestry@)));
                }
                ancestry
            },
            Err(_) => {
                let none: Vec<ScopeId> = Vec::new();
                assert(none@ =~= line_of(self.scopes, scope));
                none
            },
        }
    }

    /// Resolves a service as seen from `scope`: the visible one in the nearest
    /// scope.
    pub fn resolve_symbol(&mut self, scope: ScopeId, symbol: ServiceSymbol) -> (entry: Option<
        ServiceEntry,
    >)
        requires
            old(self).wf(),
            is_issued(old(self).scopes, scope),
        ensures
            final(self).wf(),
            resolves(*old(self), *final(self), scope, symbol, entry),
    {
        let ghost before = *self;
        let ancestry = self.scope_ancestry(scope);
        let entry = self.services.resolve(scope, &ancestry, symbol, &self.gates);
        proof {
            self.lemma_looked_up(before, scope, symbol);
        }
        entry
    }

    /// A lookup disturbs nothing, and it finds the nearest where the line is
    /// whole.
    proof fn lemma_looked_up(&self, before: Runtime, scope: ScopeId, symbol: ServiceSymbol)
        requires
            before.wf(),
            is_issued(before.scopes, scope),
            *self == (Runtime { services: self.services, ..before }),
            self.services.wf(),
            self.services.same_but_cache(&before.services),
            self.services.remembers(
                &before.services,
                scope,
                line_of(before.scopes, scope),
                symbol,
                before.gates,
            ),
        ensures
            self.wf(),
            before.scopes.rooted(scope) ==> before.services.resolved(
                scope,
                line_of(before.scopes, scope),
                symbol,
                before.gates,
            ) == nearest(
                before.services@,
                before.gates,
                line_of(before.scopes, scope),
                symbol,
            ),
    {
        broadcast use lemma_slot;

        let line = line_of(before.scopes, scope);
        if before.scopes.rooted(scope) {
            assert(before.services.sound_at(scope, symbol, line, before.gates));
            law_resolution_is_nearest(
                before.services,
                self.services,
                before.gates,
                scope,
                line,
                symbol,
            );
        }
        assert forall|other: ScopeId, wanted: ServiceSymbol| self.scopes.rooted(other) implies
            #[trigger] self.services.sound_at(
            other,
            wanted,
            line_of(self.scopes, other),
            self.gates,
        ) by {
            assert(before.services.sound_at(
                other,
                wanted,
                line_of(before.scopes, other),
                before.gates,
            ));
            if slot_of(other, wanted) == slot_of(scope, symbol) {
                assert(slot_scope(slot_of(other, wanted)) == other);
                assert(other == scope && wanted == symbol);
            } else {
                law_resolution_keeps_cache_sound(
                    before.services,
                    self.services,
                    before.gates,
                    scope,
                    line,
                    symbol,
                    other,
                    line_of(before.scopes, other),
                    wanted,
                );
            }
        }
        assert forall|slot: u128| #[trigger]
            self.services.cache@.dom().contains(slot) implies is_issued(
            self.scopes,
            slot_scope(slot),
        ) by {
            if slot != slot_of(scope, symbol) {
                assert(self.services.cache@[slot] == self.services.cache@[slot]);
                assert(before.services.cache@.dom().contains(slot));
            }
        }
        assert forall|fiber: u64| #[trigger] self.fibers@.dom().contains(fiber) implies fiber_fits(
            self.scopes,
            self.services,
            self.plugins.next_generation,
            self.fibers@[fiber],
        ) by {
            let record = before.fibers@[fiber];
            assert(fiber_fits(
                before.scopes,
                before.services,
                before.plugins.next_generation,
                record,
            ));
            assert(interns_more(before.services, self.services));
            lemma_still_interned(before.services, self.services, record.descriptor.dependencies@);
            lemma_still_interned(before.services, self.services, record.descriptor.provisions@);
            lemma_still_interned(before.services, self.services, record.provided@);
        }
    }

    /// Resolves a service for `owner`, who sees its own services before they are
    /// visible.
    pub fn resolve_owned(
        &mut self,
        scope: ScopeId,
        symbol: ServiceSymbol,
        owner: FiberId,
    ) -> (entry: Option<ServiceEntry>)
        requires
            old(self).wf(),
            is_issued(old(self).scopes, scope),
        ensures
            final(self).wf(),
            resolves_owned(*old(self), *final(self), scope, symbol, owner, entry),
    {
        let ancestry = self.scope_ancestry(scope);
        match self.services.resolve_owned(&ancestry, symbol, owner, &self.gates) {
            Some(entry) => Some(entry),
            None => self.resolve_symbol(scope, symbol),
        }
    }

    /// Resolves a service and admits one use of it. The handle ends with
    /// `release_service`.
    pub fn acquire_service(
        &mut self,
        scope: ScopeId,
        symbol: ServiceSymbol,
        owner: FiberId,
    ) -> (handle: Option<ServiceHandle>)
        requires
            old(self).wf(),
            is_issued(old(self).scopes, scope),
        ensures
            final(self).wf(),
            leases(*old(self), *final(self), scope, symbol, owner, handle),
    {
        let entry = match self.resolve_owned(scope, symbol, owner) {
            Some(entry) => entry,
            None => return None,
        };
        let ghost before = *self;
        if !self.gates.try_acquire_service(entry.gate) {
            proof {
                self.lemma_gates_turned(before);
            }
            return None;
        }
        proof {
            self.lemma_gates_turned(before);
        }
        Some(ServiceHandle::new(entry.value, entry.owner, entry.gate, entry.scope, symbol))
    }

    /// Ends the use that `handle` stands for.
    pub fn release_service(&mut self, handle: ServiceHandle)
        requires
            old(self).wf(),
            ({
                let generation = GenerationId { raw: handle.generation_of() };
                &&& old(self).gates@.dom().contains(generation.raw)
                &&& old(self).gates.at(generation).inflight > 0
                &&& old(self).gates.at(generation).service_handles > 0
            }),
        ensures
            final(self).wf(),
            takes_handle_back(*old(self), *final(self), handle),
    {
        let ghost before = *self;
        self.gates.release_service(GenerationId { raw: handle.generation() });
        proof {
            self.lemma_gates_turned(before);
        }
    }

    /// Changing gates disturbs nothing as long as no more becomes visible and no
    /// generation is made up.
    pub(crate) proof fn lemma_gates_turned(&self, before: Runtime)
        requires
            before.wf(),
            *self == (Runtime { gates: self.gates, ..before }),
            forall|generation: GenerationId| #[trigger]
                self.gates.visible(generation) ==> before.gates.visible(generation),
            forall|generation: u64| #[trigger]
                self.gates@.dom().contains(generation) ==> generation
                    < self.plugins.next_generation,
        ensures
            self.wf(),
    {
        super::invariants::lemma_coherence_kept(
            self.services,
            before.scopes,
            self.scopes,
            before.gates,
            self.gates,
        );
    }
}

/// What was interned stays interned.
pub(crate) proof fn lemma_still_interned(
    before: ServiceRegistry,
    after: ServiceRegistry,
    keys: Seq<ServiceKey>,
)
    requires
        interns_more(before, after),
        all_interned(before, keys),
    ensures
        all_interned(after, keys),
{
    assert forall|i: int| 0 <= i < keys.len() implies after.symbol_of(
        (#[trigger] keys[i])@,
    ) is Some by {
        assert(before.symbol_of(keys[i]@) is Some);
    }
}

} // verus!
