//! Activating fibers.
#[allow(unused_imports)]
use super::dependency::{is_shut_out, symbols_of};
#[allow(unused_imports)]
use super::disposal::edits_fiber;
#[allow(unused_imports)]
use super::invariants::lemma_coherence_empty;
use super::Runtime;
#[allow(unused_imports)]
use super::{all_interned, fiber_fits};
use crate::disposal::{CleanupIssue, DisposalObservation, DisposalTerminal, FiberDisposal};
use crate::error::{panic_message, CordisError, PanicPayload};
#[allow(unused_imports)]
use crate::fiber_registry::FiberRecord;
#[allow(unused_imports)]
use crate::gate::{CapabilityGate, GateState};
use crate::ids::{FiberId, GenerationId, ScopeId, ServiceSymbol};
use crate::key::{names, set_string, ServiceKey};
#[allow(unused_imports)]
use crate::key::{key_views, set_text};
#[allow(unused_imports)]
use crate::service_registry::{owned_in, slot_of, Entries};
use crate::state::{DisposalPhase, FiberState, ScopeState};
use crate::text::concat;
use std::sync::Arc;
use vstd::prelude::*;

verus! {

/// What an activation runs with.
#[derive(Debug)]
pub struct ActivationTicket {
    pub fiber: FiberId,
    pub scope: ScopeId,
    pub generation: GenerationId,
    pub name: Arc<String>,
}

/// How the start of a plugin ended.
#[derive(Debug)]
pub enum StartEnd {
    Started,
    Failed(CordisError),
    Panicked(PanicPayload),
    /// The fiber was told to stop first.
    Cancelled,
}

/// What an activation comes to.
#[derive(Debug)]
pub enum ActivationStep {
    /// It failed for this reason: dispose the fiber and report.
    Converge(CordisError),
    /// It is committed; the fibers that depend on the symbols may act.
    Done(Vec<ServiceSymbol>),
}

/// Whether an activation starts over after a finished disposal.
pub open spec fn starts_over(record: FiberRecord) -> bool {
    record.state is WaitingDependencies && record.disposal.phase is Complete
}

/// The record of a fiber that forgot its disposal.
pub open spec fn renewed(before: FiberRecord, after: FiberRecord) -> bool {
    &&& after == (FiberRecord { disposal: after.disposal, cancelled: false, ..before })
    &&& after.disposal.is_idle()
}

/// The gates after a fiber goes on to a new generation: the new one is staged,
/// and the old one is forgotten once it is drained.
pub open spec fn gates_renewed(
    gates: Map<u64, CapabilityGate>,
    old_generation: GenerationId,
    generation: GenerationId,
) -> Map<u64, CapabilityGate> {
    let kept = if gates.dom().contains(old_generation.raw) && gates[old_generation.raw].inflight
        == 0 {
        gates.remove(old_generation.raw)
    } else {
        gates
    };
    kept.insert(generation.raw, CapabilityGate::untouched(GateState::Staged))
}

/// The beginning of an activation.
pub open spec fn begins_activation(
    before: Runtime,
    after: Runtime,
    fiber: FiberId,
    result: Result<ActivationTicket, CordisError>,
) -> bool {
    let record = before.fibers@[fiber.raw];
    let next = after.fibers@[fiber.raw];
    if !before.fibers@.dom().contains(fiber.raw) {
        after == before && result == Err::<ActivationTicket, CordisError>(
            CordisError::FiberNotFound,
        )
    } else if before.admission.closed {
        after == before && result == Err::<ActivationTicket, CordisError>(
            CordisError::RuntimeShuttingDown,
        )
    } else if is_shut_out(before.scopes, record) {
        after == before && result == Err::<ActivationTicket, CordisError>(
            CordisError::ScopeDisposed(record.scope),
        )
    } else if !(record.state is Created || record.state is WaitingDependencies) {
        after == before && result == Err::<ActivationTicket, CordisError>(
            CordisError::InvalidFiberState {
                fiber,
                from: record.state,
                to: FiberState::Starting,
            },
        )
    } else if !starts_over(record) {
        &&& result matches Ok(ticket)
        &&& ticket.tells(fiber, next)
        &&& edits_fiber(
            before,
            after,
            fiber,
            FiberRecord {
                state: FiberState::Starting,
                activation_sealed: false,
                activation: true,
                ..record
            },
        )
    } else if !before.plugins@.dom().contains(record.plugin_id.raw) {
        &&& result == Err::<ActivationTicket, CordisError>(CordisError::PluginNotFound)
        &&& edits_fiber(before, after, fiber, next)
        &&& renewed(record, next)
    } else if before.plugins.next_generation == u64::MAX {
        &&& result matches Err(CordisError::Invariant(message))
        &&& message@ == "generations are used up"@
        &&& edits_fiber(before, after, fiber, next)
        &&& renewed(record, next)
    } else {
        let generation = GenerationId { raw: before.plugins.next_generation };
        &&& result matches Ok(ticket)
        &&& ticket.tells(fiber, next)
        &&& after == (Runtime {
            fibers: after.fibers,
            plugins: after.plugins,
            gates: after.gates,
            ..before
        })
        &&& after.fibers@ == before.fibers@.insert(fiber.raw, next)
        &&& after.fibers.order() == before.fibers.order()
        &&& after.fibers.versions() == before.fibers.versions()
        &&& next == (FiberRecord {
            state: FiberState::Starting,
            activation_sealed: false,
            activation: true,
            cancelled: false,
            generation,
            disposal: next.disposal,
            ..record
        })
        &&& next.disposal.is_idle()
        &&& after.plugins@ == before.plugins@
        &&& after.plugins.next_plugin == before.plugins.next_plugin
        &&& after.plugins.next_generation == before.plugins.next_generation + 1
        &&& after.gates@ == gates_renewed(before.gates@, record.generation, generation)
    }
}

impl ActivationTicket {
    pub open spec fn tells(self, fiber: FiberId, record: FiberRecord) -> bool {
        &&& self.fiber == fiber
        &&& self.scope == record.scope
        &&& self.generation == record.generation
        &&& self.name == record.descriptor.name
    }
}

/// Whether a fiber provides exactly what it declares.
pub open spec fn keeps_promise(record: FiberRecord) -> bool {
    key_views(record.descriptor.provisions@).to_set() == key_views(record.provided@).to_set()
}

/// How a fiber that provides other services than it declares is told of: both sets are
/// named, the keys of each in the order in which they came.
pub open spec fn mismatch_text(record: FiberRecord) -> Seq<char> {
    "declared provisions "@ + set_text(key_views(record.descriptor.provisions@))
        + " do not match actual services "@ + set_text(key_views(record.provided@))
}

/// Whether the fiber holds each of the services in its scope.
pub open spec fn holds_all(
    entries: Entries,
    scope: ScopeId,
    symbols: Seq<ServiceSymbol>,
    fiber: FiberId,
) -> bool {
    forall|k: int|
        0 <= k < symbols.len() ==> owned_in(entries, scope, #[trigger] symbols[k], fiber)
}

/// What is wrong with the first service that the fiber does not hold.
pub open spec fn first_missing(
    entries: Entries,
    scope: ScopeId,
    symbols: Seq<ServiceSymbol>,
    fiber: FiberId,
    message: Seq<char>,
) -> bool {
    exists|k: int|
        #![trigger symbols[k]]
        {
            &&& 0 <= k < symbols.len()
            &&& holds_all(entries, scope, symbols.take(k), fiber)
            &&& !owned_in(entries, scope, symbols[k], fiber)
            &&& message == if entries.dom().contains(slot_of(scope, symbols[k])) {
                "activation service owner changed"@
            } else {
                "activation service disappeared"@
            }
        }
}

/// The commit of an activation: every check comes before the publication, and
/// what follows it cannot fail.
pub open spec fn commits_activation(
    before: Runtime,
    after: Runtime,
    fiber: FiberId,
    invocations: Result<(), CordisError>,
    result: Result<Vec<ServiceSymbol>, CordisError>,
) -> bool {
    let record = before.fibers@[fiber.raw];
    let symbols = symbols_of(before.services, record.provided@);
    if !before.fibers@.dom().contains(fiber.raw) {
        after == before && result == Err::<Vec<ServiceSymbol>, CordisError>(
            CordisError::FiberNotFound,
        )
    } else if before.admission.closed {
        after == before && result == Err::<Vec<ServiceSymbol>, CordisError>(
            CordisError::RuntimeShuttingDown,
        )
    } else if !holds_all(before.services@, record.scope, symbols, fiber) {
        &&& after == before
        &&& result matches Err(CordisError::Invariant(message))
        &&& first_missing(before.services@, record.scope, symbols, fiber, message@)
    } else if invocations is Err {
        after == before && result == Err::<Vec<ServiceSymbol>, CordisError>(invocations->Err_0)
    } else if !(record.state is Starting) || !record.activation_sealed {
        after == before && result == Err::<Vec<ServiceSymbol>, CordisError>(
            CordisError::InvalidFiberState {
                fiber,
                from: record.state,
                to: FiberState::Active,
            },
        )
    } else if !before.gates.staged(record.generation) {
        after == before && result == Err::<Vec<ServiceSymbol>, CordisError>(
            CordisError::CapabilityPublicationFailed(fiber),
        )
    } else {
        &&& result matches Ok(published)
        &&& published@ == symbols
        &&& publishes(before, after, fiber)
    }
}

/// The fiber becomes active and its generation visible at once.
pub open spec fn publishes(before: Runtime, after: Runtime, fiber: FiberId) -> bool {
    let record = before.fibers@[fiber.raw];
    &&& after == (Runtime {
        fibers: after.fibers,
        gates: after.gates,
        services: after.services,
        ..before
    })
    &&& after.fibers@ == before.fibers@.insert(
        fiber.raw,
        FiberRecord {
            staged: false,
            state: FiberState::Active,
            activation_sealed: false,
            activation: false,
            ..record
        },
    )
    &&& after.fibers.order() == before.fibers.order()
    &&& after.fibers.versions() == before.fibers.versions()
    &&& after.gates@ == before.gates@.insert(
        record.generation.raw,
        CapabilityGate { state: GateState::Published, ..before.gates.at(record.generation) },
    )
    &&& after.services.entries == before.services.entries
    &&& after.services.bumped_from(&before.services)
}

impl Runtime {
    /// Whether fibers of the scope may start.
    pub(crate) fn is_open_to(&self, scope: ScopeId) -> (result: bool)
        requires
            self.wf(),
        ensures
            result == (self.scopes@.dom().contains(scope.raw)
                ==> self.scopes@[scope.raw].state is Active),
    {
        match self.scopes.get(scope) {
            Some(record) => record.state == ScopeState::Active,
            None => true,
        }
    }

    /// Begins an activation. A fiber whose scope is being disposed, or is disposed,
    /// does not start any more.
    pub fn begin_activation(&mut self, fiber: FiberId) -> (result: Result<
        ActivationTicket,
        CordisError,
    >)
        requires
            old(self).wf(),
        ensures
            final(self).wf(),
            begins_activation(*old(self), *final(self), fiber, result),
    {
        let restart: bool = match self.fibers.get(fiber.raw) {
            None => return Err(CordisError::FiberNotFound),
            Some(record) => {
                if let Err(error) = self.admission.enter() {
                    return Err(error);
                }
                if !self.is_open_to(record.scope) {
                    return Err(CordisError::ScopeDisposed(record.scope));
                }
                if !matches!(record.state, FiberState::Created | FiberState::WaitingDependencies) {
                    return Err(
                        CordisError::InvalidFiberState {
                            fiber,
                            from: record.state,
                            to: FiberState::Starting,
                        },
                    );
                }
                record.state == FiberState::WaitingDependencies && record.disposal.phase
                    == DisposalPhase::Complete
            },
        };
        let ghost before = *self;
        if restart {
            if let Err(error) = self.renew_generation(fiber) {
                return Err(error);
            }
        }
        let ghost renewed_runtime = *self;
        let ticket = match self.fibers.get_mut(fiber.raw) {
            None => return Err(CordisError::FiberNotFound),
            Some(record) => {
                record.state = FiberState::Starting;
                record.activation_sealed = false;
                record.activation = true;
                ActivationTicket {
                    fiber,
                    scope: record.scope,
                    generation: record.generation,
                    name: record.descriptor.name.clone(),
                }
            },
        };
        proof {
            self.lemma_fiber_edited(renewed_runtime, fiber.raw);
            assert(self.fibers@ =~= before.fibers@.insert(
                fiber.raw,
                self.fibers@[fiber.raw],
            ));
        }
        Ok(ticket)
    }

    /// Lets a fiber forget its disposal and go on to a new generation.
    fn renew_generation(&mut self, fiber: FiberId) -> (result: Result<(), CordisError>)
        requires
            old(self).wf(),
            old(self).fibers@.dom().contains(fiber.raw),
        ensures
            final(self).wf(),
            ({
                let record = old(self).fibers@[fiber.raw];
                let next = final(self).fibers@[fiber.raw];
                let generation = GenerationId { raw: old(self).plugins.next_generation };
                match result {
                    Err(error) => {
                        &&& edits_fiber(*old(self), *final(self), fiber, next)
                        &&& renewed(record, next)
                        &&& if !old(self).plugins@.dom().contains(record.plugin_id.raw) {
                            error is PluginNotFound
                        } else {
                            &&& old(self).plugins.next_generation == u64::MAX
                            &&& error matches CordisError::Invariant(message)
                            &&& message@ == "generations are used up"@
                        }
                    },
                    Ok(()) => {
                        &&& old(self).plugins@.dom().contains(record.plugin_id.raw)
                        &&& old(self).plugins.next_generation < u64::MAX
                        &&& *final(self) == (Runtime {
                            fibers: final(self).fibers,
                            plugins: final(self).plugins,
                            gates: final(self).gates,
                            ..*old(self)
                        })
                        &&& final(self).fibers@ == old(self).fibers@.insert(fiber.raw, next)
                        &&& final(self).fibers.order() == old(self).fibers.order()
                        &&& final(self).fibers.versions() == old(self).fibers.versions()
                        &&& next == (FiberRecord {
                            cancelled: false,
                            generation,
                            disposal: next.disposal,
                            ..record
                        })
                        &&& next.disposal.is_idle()
                        &&& final(self).plugins@ == old(self).plugins@
                        &&& final(self).plugins.next_plugin == old(self).plugins.next_plugin
                        &&& final(self).plugins.next_generation
                            == old(self).plugins.next_generation + 1
                        &&& final(self).gates@ == gates_renewed(
                            old(self).gates@,
                            record.generation,
                            generation,
                        )
                    },
                }
            }),
    {
        let ghost before = *self;
        let mut plugin = crate::ids::PluginId { raw: 0 };
        let mut old_generation = GenerationId { raw: 0 };
        if let Some(record) = self.fibers.get_mut(fiber.raw) {
            record.disposal = FiberDisposal::idle();
            record.cancelled = false;
            plugin = record.plugin_id;
            old_generation = record.generation;
        }
        proof {
            self.lemma_fiber_edited(before, fiber.raw);
        }
        let ghost idle = *self;
        let generation = match self.plugins.allocate_generation(plugin) {
            Ok(generation) => generation,
            Err(error) => return Err(error),
        };
        proof {
            self.lemma_plugins_grown(idle);
        }
        let ghost counted = *self;
        if self.gates.get(old_generation).inflight == 0 {
            self.gates.retire(old_generation);
        }
        proof {
            self.lemma_gates_turned(counted);
        }
        let ghost retired = *self;
        self.gates.stage(generation);
        proof {
            assert(!counted.gates@.dom().contains(generation.raw)) by {
                if before.gates@.dom().contains(generation.raw) {
                    assert(generation.raw < before.plugins.next_generation);
                }
            }
            assert forall|other: GenerationId| #[trigger]
                self.gates.visible(other) implies retired.gates.visible(other) by {}
            self.lemma_gates_turned(retired);
            assert(self.gates@ =~= gates_renewed(before.gates@, old_generation, generation));
        }
        let ghost staged = *self;
        if let Some(record) = self.fibers.get_mut(fiber.raw) {
            record.generation = generation;
        }
        proof {
            assert(fiber_fits(
                staged.scopes,
                staged.services,
                staged.plugins.next_generation,
                staged.fibers@[fiber.raw],
            ));
            self.lemma_fiber_edited(staged, fiber.raw);
            assert(self.fibers@ =~= before.fibers@.insert(fiber.raw, self.fibers@[fiber.raw]));
        }
        Ok(())
    }

    /// Checks that a fiber provides exactly what it declares.
    pub fn validate_staged_revision(&self, fiber: FiberId) -> (result: Result<(), CordisError>)
        requires
            self.wf(),
        ensures
            validates(*self, fiber, result),
    {
        match self.fibers.get(fiber.raw) {
            None => Err(CordisError::FiberNotFound),
            Some(record) => {
                let declared = all_named(&record.descriptor.provisions, &record.provided);
                let actual = all_named(&record.provided, &record.descriptor.provisions);
                proof {
                    lemma_same_names(record.descriptor.provisions@, record.provided@);
                }
                if declared && actual {
                    Ok(())
                } else {
                    let declared = set_string(&record.descriptor.provisions);
                    let actual = set_string(&record.provided);
                    let mut message = concat("declared provisions ", declared.as_str());
                    message.append(" do not match actual services ");
                    message.append(actual.as_str());
                    Err(CordisError::RevisionValidationFailed(message))
                }
            },
        }
    }

    /// Whether the fiber holds each of the services in its scope.
    fn check_services(&self, scope: ScopeId, symbols: &Vec<ServiceSymbol>, fiber: FiberId) -> (result:
        Result<(), CordisError>)
        ensures
            match result {
                Ok(()) => holds_all(self.services@, scope, symbols@, fiber),
                Err(error) => {
                    &&& !holds_all(self.services@, scope, symbols@, fiber)
                    &&& error matches CordisError::Invariant(message)
                    &&& first_missing(self.services@, scope, symbols@, fiber, message@)
                },
            },
    {
        let mut i: usize = 0;
        while i < symbols.len()
            invariant
                i <= symbols@.len(),
                holds_all(self.services@, scope, symbols@.take(i as int), fiber),
            decreases symbols@.len() - i,
        {
            let symbol = symbols[i];
            match self.services.get(scope, symbol) {
                None => {
                    assert(!owned_in(self.services@, scope, symbols@[i as int], fiber));
                    return Err(
                        CordisError::Invariant("activation service disappeared".to_owned()),
                    );
                },
                Some(entry) => {
                    if entry.owner != fiber {
                        assert(!owned_in(self.services@, scope, symbols@[i as int], fiber));
                        return Err(
                            CordisError::Invariant("activation service owner changed".to_owned()),
                        );
                    }
                },
            }
            proof {
                assert(symbols@.take(i + 1) =~= symbols@.take(i as int).push(symbol));
                assert(holds_all(self.services@, scope, symbols@.take(i + 1), fiber)) by {
                    assert forall|k: int| 0 <= k < i + 1 implies owned_in(
                        self.services@,
                        scope,
                        #[trigger] symbols@.take(i + 1)[k],
                        fiber,
                    ) by {
                        if k < i {
                            assert(symbols@.take(i as int)[k] == symbols@[k]);
                        }
                    }
                }
            }
            i += 1;
        }
        proof {
            assert(symbols@.take(i as int) =~= symbols@);
        }
        Ok(())
    }

    /// The symbols of interned keys.
    pub(crate) fn intern_keys(&self, keys: &Vec<ServiceKey>) -> (symbols: Vec<ServiceSymbol>)
        requires
            self.wf(),
            all_interned(self.services, keys@),
        ensures
            symbols@ == symbols_of(self.services, keys@),
    {
        let mut symbols: Vec<ServiceSymbol> = Vec::new();
        let mut i: usize = 0;
        while i < keys.len()
            invariant
                self.wf(),
                all_interned(self.services, keys@),
                i <= keys@.len(),
                symbols@.len() == i,
                forall|k: int|
                    0 <= k < i ==> #[trigger] symbols@[k] == self.services.symbol_of(keys@[k]@)->0,
            decreases keys@.len() - i,
        {
            proof {
                assert(self.services.symbol_of(keys@[i as int]@) is Some);
            }
            symbols.push(self.services.intern(&keys[i]));
            i += 1;
        }
        proof {
            assert(symbols@ =~= symbols_of(self.services, keys@));
        }
        symbols
    }

    /// Commits an activation. `invocations` tells whether the registrations for
    /// invocations fit the others.
    pub fn commit_activation(
        &mut self,
        fiber: FiberId,
        invocations: Result<(), CordisError>,
    ) -> (result: Result<Vec<ServiceSymbol>, CordisError>)
        requires
            old(self).wf(),
        ensures
            final(self).wf(),
            commits_activation(*old(self), *final(self), fiber, invocations, result),
    {
        let (symbols, scope, generation, ready, state) = match self.fibers.get(fiber.raw) {
            None => return Err(CordisError::FiberNotFound),
            Some(record) => {
                proof {
                    assert(fiber_fits(
                        self.scopes,
                        self.services,
                        self.plugins.next_generation,
                        self.fibers@[fiber.raw],
                    ));
                }
                (
                    self.intern_keys(&record.provided),
                    record.scope,
                    record.generation,
                    record.state == FiberState::Starting && record.activation_sealed,
                    record.state,
                )
            },
        };
        if let Err(error) = self.admission.enter() {
            return Err(error);
        }
        if let Err(error) = self.check_services(scope, &symbols, fiber) {
            return Err(error);
        }
        if let Err(error) = invocations {
            return Err(error);
        }
        if !ready {
            return Err(
                CordisError::InvalidFiberState { fiber, from: state, to: FiberState::Active },
            );
        }
        if !self.gates.is_staged(generation) {
            return Err(CordisError::CapabilityPublicationFailed(fiber));
        }
        self.publish_activation(fiber, generation);
        Ok(symbols)
    }

    /// Makes a staged generation visible and its fiber active.
    fn publish_activation(&mut self, fiber: FiberId, generation: GenerationId)
        requires
            old(self).wf(),
            old(self).fibers@.dom().contains(fiber.raw),
            old(self).fibers@[fiber.raw].generation == generation,
            old(self).gates.staged(generation),
        ensures
            final(self).wf(),
            publishes(*old(self), *final(self), fiber),
    {
        let ghost before = *self;
        let _published = self.gates.publish(generation);
        self.services.bump_epoch();
        proof {
            lemma_coherence_empty(self.services, self.scopes, self.gates);
            assert forall|other: u64| #[trigger]
                self.fibers@.dom().contains(other) implies fiber_fits(
                self.scopes,
                self.services,
                self.plugins.next_generation,
                self.fibers@[other],
            ) by {
                let record = before.fibers@[other];
                assert(fiber_fits(
                    before.scopes,
                    before.services,
                    before.plugins.next_generation,
                    record,
                ));
                assert(super::service::interns_more(before.services, self.services));
                super::service::lemma_still_interned(
                    before.services,
                    self.services,
                    record.descriptor.dependencies@,
                );
                super::service::lemma_still_interned(
                    before.services,
                    self.services,
                    record.descriptor.provisions@,
                );
                super::service::lemma_still_interned(
                    before.services,
                    self.services,
                    record.provided@,
                );
            }
        }
        let ghost visible = *self;
        if let Some(record) = self.fibers.get_mut(fiber.raw) {
            record.staged = false;
            record.state = FiberState::Active;
            record.activation_sealed = false;
            record.activation = false;
        }
        proof {
            self.lemma_fiber_edited(visible, fiber.raw);
        }
    }
}

/// Whether `keys` names each of `wanted`.
fn all_named(wanted: &Vec<ServiceKey>, keys: &Vec<ServiceKey>) -> (all: bool)
    ensures
        all == forall|k: int|
            0 <= k < wanted@.len() ==> key_views(keys@).contains(
                #[trigger] key_views(wanted@)[k],
            ),
{
    let mut i: usize = 0;
    while i < wanted.len()
        invariant
            i <= wanted@.len(),
            forall|k: int|
                0 <= k < i ==> key_views(keys@).contains(#[trigger] key_views(wanted@)[k]),
        decreases wanted@.len() - i,
    {
        if !names(keys, &wanted[i]) {
            assert(!key_views(keys@).contains(key_views(wanted@)[i as int]));
            return false;
        }
        i += 1;
    }
    true
}

proof fn lemma_same_names(a: Seq<ServiceKey>, b: Seq<ServiceKey>)
    ensures
        (key_views(a).to_set() == key_views(b).to_set()) <==> ((forall|k: int|
            0 <= k < a.len() ==> key_views(b).contains(#[trigger] key_views(a)[k])) && (forall|
            k: int,
        |
            0 <= k < b.len() ==> key_views(a).contains(#[trigger] key_views(b)[k]))),
{
    let left = key_views(a);
    let right = key_views(b);
    if left.to_set() == right.to_set() {
        assert forall|k: int| 0 <= k < a.len() implies right.contains(#[trigger] left[k]) by {
            assert(left.to_set().contains(left[k]));
        }
        assert forall|k: int| 0 <= k < b.len() implies left.contains(#[trigger] right[k]) by {
            assert(right.to_set().contains(right[k]));
        }
    }
    if (forall|k: int| 0 <= k < a.len() ==> right.contains(#[trigger] left[k])) && (forall|k: int|
        0 <= k < b.len() ==> left.contains(#[trigger] right[k])) {
        assert(left.to_set() =~= right.to_set());
    }
}

/// The reason that a start which did not succeed gives.
pub open spec fn start_failure(end: StartEnd, primary: CordisError) -> bool {
    match end {
        StartEnd::Started => false,
        StartEnd::Failed(error) => if error.is_hosted() {
            primary == error
        } else {
            primary matches CordisError::PluginStartFailed(message) && message@ == error.text()
        },
        StartEnd::Panicked(payload) => primary matches CordisError::PluginStartFailed(message)
            && message@ == "plugin panicked: "@ + payload.message_or("non-string panic payload"@),
        StartEnd::Cancelled => primary matches CordisError::PluginStartFailed(message) && message@
            == "task cancelled"@,
    }
}

/// What follows the end of a start. The fiber takes no more registrations, must
/// provide what it declares, and becomes active; its generation is published but
/// where a reload prepares it.
pub open spec fn completes_start(
    before: Runtime,
    after: Runtime,
    fiber: FiberId,
    end: StartEnd,
    invocations: Result<(), CordisError>,
    step: ActivationStep,
) -> bool {
    let record = before.fibers@[fiber.raw];
    let sealed = FiberRecord { activation_sealed: true, ..record };
    if !(end is Started) {
        &&& after == before
        &&& step matches ActivationStep::Converge(primary)
        &&& start_failure(end, primary)
    } else if !before.fibers@.dom().contains(fiber.raw) || before.admission.closed || !(
    record.state is Starting) {
        after == before && step == ActivationStep::Converge(CordisError::RuntimeShuttingDown)
    } else if !keeps_promise(record) {
        &&& edits_fiber(before, after, fiber, sealed)
        &&& step matches ActivationStep::Converge(CordisError::RevisionValidationFailed(message))
        &&& message@ == mismatch_text(record)
    } else if record.staged {
        &&& edits_fiber(
            before,
            after,
            fiber,
            FiberRecord { state: FiberState::Active, ..sealed },
        )
        &&& step matches ActivationStep::Done(symbols)
        &&& symbols@.len() == 0
    } else {
        exists|middle: Runtime|
            {
                &&& #[trigger] edits_fiber(before, middle, fiber, sealed)
                &&& match step {
                    ActivationStep::Converge(error) => commits_activation(
                        middle,
                        after,
                        fiber,
                        invocations,
                        Err(error),
                    ),
                    ActivationStep::Done(symbols) => commits_activation(
                        middle,
                        after,
                        fiber,
                        invocations,
                        Ok(symbols),
                    ),
                }
            }
    }
}

impl Runtime {
    /// Goes on after the start of a plugin ended. `invocations` tells whether the
    /// registrations for invocations fit the others.
    pub fn complete_start(
        &mut self,
        fiber: FiberId,
        end: StartEnd,
        invocations: Result<(), CordisError>,
    ) -> (step: ActivationStep)
        requires
            old(self).wf(),
        ensures
            final(self).wf(),
            completes_start(*old(self), *final(self), fiber, end, invocations, step),
    {
        match end {
            StartEnd::Started => {},
            StartEnd::Failed(error) => {
                return ActivationStep::Converge(
                    match error {
                        CordisError::Host(message) => CordisError::Host(message),
                        CordisError::RemoteDomain(message) => CordisError::RemoteDomain(message),
                        error => CordisError::PluginStartFailed(error.to_string()),
                    },
                );
            },
            StartEnd::Panicked(payload) => {
                let error = CordisError::PluginPanicked(panic_message(&payload));
                return ActivationStep::Converge(CordisError::PluginStartFailed(error.to_string()));
            },
            StartEnd::Cancelled => {
                let error = CordisError::TaskCancelled;
                return ActivationStep::Converge(CordisError::PluginStartFailed(error.to_string()));
            },
        }
        if !self.seal_activation(fiber) {
            return ActivationStep::Converge(CordisError::RuntimeShuttingDown);
        }
        let ghost middle = *self;
        if let Err(error) = self.validate_staged_revision(fiber) {
            return ActivationStep::Converge(error);
        }
        let deferred: bool = match self.fibers.get(fiber.raw) {
            Some(record) => record.staged,
            None => false,
        };
        if deferred {
            if let Some(record) = self.fibers.get_mut(fiber.raw) {
                record.state = FiberState::Active;
            }
            proof {
                self.lemma_fiber_edited(middle, fiber.raw);
                assert(self.fibers@ =~= old(self).fibers@.insert(
                    fiber.raw,
                    self.fibers@[fiber.raw],
                ));
            }
            return ActivationStep::Done(Vec::new());
        }
        match self.commit_activation(fiber, invocations) {
            Ok(symbols) => ActivationStep::Done(symbols),
            Err(error) => ActivationStep::Converge(error),
        }
    }

    /// Ends the registrations of a starting fiber, and tells whether it did.
    fn seal_activation(&mut self, fiber: FiberId) -> (sealed: bool)
        requires
            old(self).wf(),
        ensures
            final(self).wf(),
            sealed == (old(self).fibers@.dom().contains(fiber.raw) && !old(self).admission.closed
                && old(self).fibers@[fiber.raw].state is Starting),
            sealed ==> edits_fiber(
                *old(self),
                *final(self),
                fiber,
                FiberRecord { activation_sealed: true, ..old(self).fibers@[fiber.raw] },
            ),
            !sealed ==> *final(self) == *old(self),
    {
        if let Err(_error) = self.admission.enter() {
            return false;
        }
        match self.fibers.get(fiber.raw) {
            None => return false,
            Some(record) => {
                if record.state != FiberState::Starting {
                    return false;
                }
            },
        }
        if let Some(record) = self.fibers.get_mut(fiber.raw) {
            record.activation_sealed = true;
        }
        proof {
            self.lemma_fiber_edited(*old(self), fiber.raw);
        }
        true
    }

    /// Gives an activation up: the fiber takes no more registrations and its work
    /// is told to stop.
    pub fn fail_activation(&mut self, fiber: FiberId)
        requires
            old(self).wf(),
        ensures
            final(self).wf(),
            gives_up(*old(self), *final(self), fiber),
    {
        if !self.fibers.contains(fiber.raw) {
            return;
        }
        if let Some(record) = self.fibers.get_mut(fiber.raw) {
            if record.state == FiberState::Starting {
                record.state = FiberState::Failed;
            }
            record.activation = false;
            record.activation_sealed = true;
            record.cancelled = true;
        }
        proof {
            self.lemma_fiber_edited(*old(self), fiber.raw);
        }
    }

    /// The error for an activation that panicked outside of the plugin.
    pub fn activation_panic(payload: &PanicPayload) -> (primary: CordisError)
        ensures
            primary matches CordisError::PluginPanicked(message) && message@
                == "activation worker: "@ + payload.message_or("non-string panic payload"@),
    {
        CordisError::PluginPanicked(concat("activation worker: ", &panic_message(payload)))
    }

    /// The error of an activation that failed and was cleaned up.
    pub fn activation_failure(primary: CordisError, cleanup: Vec<CordisError>) -> (error:
        CordisError)
        ensures
            fails_with(primary, cleanup, error),
    {
        if cleanup.len() == 0 {
            primary
        } else {
            CordisError::ActivationFailed {
                primary: Arc::new(primary),
                cleanup: Arc::new(cleanup),
            }
        }
    }

    /// What the disposal of a fiber whose activation failed has to say: each issue,
    /// and the error of the disposal where it ended early or no issue tells it.
    pub fn activation_cleanup(observed: Result<Arc<DisposalObservation>, CordisError>) -> (cleanup:
        Vec<CordisError>)
        ensures
            tells_cleanup(cleanup@, observed),
    {
        match observed {
            Err(error) => {
                let mut cleanup: Vec<CordisError> = Vec::new();
                cleanup.push(error);
                assert(cleanup@ =~= seq![error]);
                cleanup
            },
            Ok(observation) => {
                let mut cleanup = issue_errors(&observation.issues);
                let ghost told = cleanup@;
                let incomplete = matches!(observation.terminal, DisposalTerminal::Incomplete(_));
                if cleanup.len() == 0 || incomplete {
                    if let Err(error) = &observation.legacy_result {
                        cleanup.push(error.clone());
                    }
                }
                proof {
                    let count = observation.issues@.len() as int;
                    assert(cleanup@.take(count) =~= told);
                    assert(cleanup@ == told ==> cleanup@.skip(count) =~= Seq::empty());
                    assert(cleanup@ != told ==> cleanup@.skip(count)
                        =~= seq![observation.legacy_result->Err_0]);
                }
                cleanup
            },
        }
    }
}

/// Whether a fiber provides what it declared.
pub open spec fn validates(
    runtime: Runtime,
    fiber: FiberId,
    result: Result<(), CordisError>,
) -> bool {
    if !runtime.fibers@.dom().contains(fiber.raw) {
        result == Err::<(), CordisError>(CordisError::FiberNotFound)
    } else if keeps_promise(runtime.fibers@[fiber.raw]) {
        result is Ok
    } else {
        &&& result matches Err(CordisError::RevisionValidationFailed(message))
        &&& message@ == mismatch_text(runtime.fibers@[fiber.raw])
    }
}

/// An activation is given up.
pub open spec fn gives_up(before: Runtime, after: Runtime, fiber: FiberId) -> bool {
    let record = before.fibers@[fiber.raw];
    if !before.fibers@.dom().contains(fiber.raw) {
        after == before
    } else {
        edits_fiber(
            before,
            after,
            fiber,
            FiberRecord {
                state: if record.state is Starting {
                    FiberState::Failed
                } else {
                    record.state
                },
                activation: false,
                activation_sealed: true,
                cancelled: true,
                ..record
            },
        )
    }
}

/// The error of an activation that failed for `primary` and left `cleanup` behind.
pub open spec fn fails_with(
    primary: CordisError,
    cleanup: Vec<CordisError>,
    error: CordisError,
) -> bool {
    if cleanup@.len() == 0 {
        error == primary
    } else {
        error matches CordisError::ActivationFailed { primary: first, cleanup: rest } && *first
            == primary && *rest == cleanup
    }
}

/// Each of `issues` as an error.
pub open spec fn are_errors(errors: Seq<CordisError>, issues: Seq<CleanupIssue>) -> bool {
    &&& errors.len() == issues.len()
    &&& forall|k: int|
        0 <= k < errors.len() ==> issues[k].is_error(#[trigger] errors[k], issues[k].text())
}

/// Whether `cleanup` tells what an observed disposal has to say.
pub open spec fn tells_cleanup(
    cleanup: Seq<CordisError>,
    observed: Result<Arc<DisposalObservation>, CordisError>,
) -> bool {
    match observed {
        Err(error) => cleanup == seq![error],
        Ok(observation) => {
            let count = observation.issues@.len();
            &&& count <= cleanup.len()
            &&& are_errors(cleanup.take(count as int), observation.issues@)
            &&& cleanup.skip(count as int) == if observation.legacy_result is Err && (count == 0
                || observation.terminal is Incomplete) {
                seq![observation.legacy_result->Err_0]
            } else {
                Seq::<CordisError>::empty()
            }
        },
    }
}

/// Each of `issues` as an error.
fn issue_errors(issues: &Vec<CleanupIssue>) -> (errors: Vec<CordisError>)
    ensures
        are_errors(errors@, issues@),
{
    let mut errors: Vec<CordisError> = Vec::new();
    let mut i: usize = 0;
    while i < issues.len()
        invariant
            i <= issues@.len(),
            errors@.len() == i,
            forall|k: int|
                0 <= k < i ==> issues@[k].is_error(#[trigger] errors@[k], issues@[k].text()),
        decreases issues@.len() - i,
    {
        let issue = &issues[i];
        let error = match &issue.cause {
            Some(cause) => cause.clone(),
            None => CordisError::PluginDisposeFailed(issue.report_text()),
        };
        errors.push(error);
        i += 1;
    }
    errors
}

/// Staged work stays hidden: until its activation commits, no step of it makes a
/// generation visible.
pub proof fn law_activation_hides_until_commit(
    before: Runtime,
    after: Runtime,
    fiber: FiberId,
    end: StartEnd,
    invocations: Result<(), CordisError>,
    step: ActivationStep,
    generation: GenerationId,
)
    requires
        completes_start(before, after, fiber, end, invocations, step),
        !before.gates.visible(generation),
        step is Converge || before.fibers@[fiber.raw].staged
            || before.fibers@[fiber.raw].generation != generation,
    ensures
        !after.gates.visible(generation),
{
}

/// A fiber whose activation is done and which no reload prepares is active, and
/// its generation is visible.
pub proof fn law_done_activation_is_published(
    before: Runtime,
    after: Runtime,
    fiber: FiberId,
    end: StartEnd,
    invocations: Result<(), CordisError>,
    symbols: Vec<ServiceSymbol>,
)
    requires
        completes_start(before, after, fiber, end, invocations, ActivationStep::Done(symbols)),
    ensures
        after.fibers@.dom().contains(fiber.raw),
        after.fibers@[fiber.raw].state is Active,
        keeps_promise(before.fibers@[fiber.raw]),
        !before.fibers@[fiber.raw].staged ==> after.gates.visible(
            after.fibers@[fiber.raw].generation,
        ) && !before.admission.closed,
{
}

/// An activation that does not commit leaves the fibers, the services, the scopes
/// and what is visible as they were, but for the fiber's own seal.
pub proof fn law_failed_commit_publishes_nothing(
    before: Runtime,
    after: Runtime,
    fiber: FiberId,
    end: StartEnd,
    invocations: Result<(), CordisError>,
    error: CordisError,
)
    requires
        completes_start(before, after, fiber, end, invocations, ActivationStep::Converge(error)),
    ensures
        after.gates == before.gates,
        after.services == before.services,
        after.scopes == before.scopes,
        forall|other: u64| other != fiber.raw ==> (#[trigger] after.fibers@.dom().contains(other)
            <==> before.fibers@.dom().contains(other)),
        forall|other: u64|
            other != fiber.raw && #[trigger] after.fibers@.dom().contains(other)
                ==> after.fibers@[other] == before.fibers@[other],
        after.fibers@[fiber.raw].state == before.fibers@[fiber.raw].state,
{
}

} // verus!
