//! Replacing a fiber by a new revision of its plugin.
#[allow(unused_imports)]
use super::dependency::symbols_of;
#[allow(unused_imports)]
use super::activation::{keeps_promise, mismatch_text};
#[allow(unused_imports)]
use super::disposal::edits_fiber;
#[allow(unused_imports)]
use super::garbage::enters_worker;
#[allow(unused_imports)]
use super::invariants::{
    lemma_coherence_empty, lemma_coherence_kept, lemma_owned_edited, same_tree,
};
#[allow(unused_imports)]
use super::scope::{creates_scope, makes_scope, sweeps_if};
#[allow(unused_imports)]
use super::service::{interns_more, lemma_still_interned};
use super::Runtime;
#[allow(unused_imports)]
use super::{all_interned, fiber_fits, is_issued};
#[allow(unused_imports)]
use crate::dependency_graph::{law_providers_move_back, provisions, DependencyGraph, Edge};
use crate::error::CordisError;
#[allow(unused_imports)]
use crate::fiber_registry::FiberRecord;
#[allow(unused_imports)]
use crate::gate::cut_over;
use crate::ids::{FiberId, GenerationId, HandlerId, PluginId, ScopeId, ServiceSymbol};
use crate::key::ServiceKey;
#[allow(unused_imports)]
use crate::key::key_views;
#[allow(unused_imports)]
use crate::scope_registry::{has_parent, lineage, raw_scopes, ScopeRegistry};
use crate::scope_revision::{raw_ids, PreparedScopeRevision};
#[allow(unused_imports)]
use crate::scope_revision::{
    all_below, law_rollback_restores_scopes, lemma_commit_fits_rollback,
};
use crate::service_registry::PreparedServiceRevision;
#[allow(unused_imports)]
use crate::service_registry::{
    law_symbols_are_distinct, relocated, replaceable, slot_of, Entries, ServiceRegistry,
};
use crate::state::FiberState;
use crate::task::RuntimeWorkerKind;
use crate::text::join;
#[allow(unused_imports)]
use crate::text::{joined, views};
use std::sync::Arc;
use vstd::prelude::*;

verus! {

/// Whether somebody but `old` holds the service in `target`.
pub open spec fn is_taken(
    entries: Entries,
    target: ScopeId,
    symbol: ServiceSymbol,
    old: FiberId,
) -> bool {
    entries.dom().contains(slot_of(target, symbol)) && entries[slot_of(target, symbol)].owner
        != old
}

/// The first key whose service somebody but `old` holds in `target`.
pub open spec fn first_taken(
    services: ServiceRegistry,
    target: ScopeId,
    keys: Seq<ServiceKey>,
    old: FiberId,
    key: ServiceKey,
) -> bool {
    exists|k: int|
        #![trigger keys[k]]
        {
            &&& 0 <= k < keys.len()
            &&& key == keys[k]
            &&& is_taken(services@, target, symbols_of(services, keys)[k], old)
            &&& none_taken(services@, target, symbols_of(services, keys).take(k), old)
        }
}

/// Whether nobody but `old` holds any of the services in `target`.
pub open spec fn none_taken(
    entries: Entries,
    target: ScopeId,
    symbols: Seq<ServiceSymbol>,
    old: FiberId,
) -> bool {
    forall|k: int| 0 <= k < symbols.len() ==> !is_taken(entries, target, #[trigger] symbols[k], old)
}

/// Whether `staged` holds each of the services in `staging`, and nobody but `old`
/// holds any in `target`.
pub open spec fn all_replaceable(
    entries: Entries,
    staging: ScopeId,
    target: ScopeId,
    symbols: Seq<ServiceSymbol>,
    old: FiberId,
    staged: FiberId,
) -> bool {
    forall|k: int|
        0 <= k < symbols.len() ==> replaceable(
            entries,
            staging,
            target,
            #[trigger] symbols[k],
            old,
            staged,
        )
}

/// The declarations of `staged` moved from one scope to another.
pub open spec fn declared_in(
    providers: Set<Edge>,
    from: ScopeId,
    to: ScopeId,
    symbols: Seq<ServiceSymbol>,
    staged: FiberId,
) -> Set<Edge> {
    providers.difference(provisions(from, symbols, staged)).union(provisions(to, symbols, staged))
}

/// What a commit of `staged` in the place of `old` moves.
pub open spec fn scope_revision(
    record: FiberRecord,
    old: FiberId,
    staged: FiberId,
    staging: ScopeId,
    target: ScopeId,
    revision: PreparedScopeRevision,
) -> bool {
    &&& revision.staging == staging
    &&& revision.target == target
    &&& revision.staged == staged
    &&& revision.old == old
    &&& revision.children@ == raw_scopes(record.child_scopes@)
}

/// The new generation takes the place of the old one: its services, its
/// declarations, its child scopes and itself move into the target scope, and the
/// old generation is closed in the same step.
pub open spec fn switches(
    before: Runtime,
    after: Runtime,
    old: FiberId,
    staged: FiberId,
    revision: PreparedScopeRevision,
) -> bool {
    let record = before.fibers@[staged.raw];
    let declared = symbols_of(before.services, record.descriptor.provisions@);
    &&& after == (Runtime {
        fibers: after.fibers,
        gates: after.gates,
        scopes: after.scopes,
        services: after.services,
        dependencies: after.dependencies,
        ..before
    })
    &&& after.fibers@ == before.fibers@.insert(
        staged.raw,
        FiberRecord {
            scope: revision.target,
            staged: false,
            reload_owned: false,
            activation_sealed: false,
            activation: false,
            ..record
        },
    )
    &&& after.fibers.order() == before.fibers.order()
    &&& after.fibers.versions() == before.fibers.versions()
    &&& after.gates@ == cut_over(
        before.gates@,
        record.generation,
        before.fibers@[old.raw].generation,
    )
    &&& after.services.bumped_from(&before.services)
    &&& after.services@ == relocated(
        before.services@,
        revision.staging,
        revision.target,
        symbols_of(before.services, record.provided@),
    )
    &&& revision.shifts(before.scopes@, after.scopes@, revision.staging, revision.target)
    &&& after.scopes.root == before.scopes.root
    &&& after.scopes.scopes.order() == before.scopes.scopes.order()
    &&& after.dependencies.dependents == before.dependencies.dependents
    &&& after.dependencies.providers@ == declared_in(
        before.dependencies.providers@,
        revision.staging,
        revision.target,
        declared,
        staged,
    )
}

/// A commit that failed and was taken back: every fiber, service and generation is
/// what it was; the scopes are restored and the declarations moved back.
pub open spec fn takes_back(
    before: Runtime,
    after: Runtime,
    staged: FiberId,
    revision: PreparedScopeRevision,
) -> bool {
    let record = before.fibers@[staged.raw];
    let declared = symbols_of(before.services, record.descriptor.provisions@);
    &&& after == (Runtime {
        gates: after.gates,
        scopes: after.scopes,
        dependencies: after.dependencies,
        ..before
    })
    &&& after.gates@ == before.gates@
    &&& after.scopes == before.scopes || revision.restores(before.scopes@, after.scopes@)
    &&& after.scopes.root == before.scopes.root
    &&& after.scopes.scopes.order() == before.scopes.scopes.order()
    &&& after.dependencies.dependents == before.dependencies.dependents
    &&& after.dependencies.providers@ == declared_in(
        declared_in(
            before.dependencies.providers@,
            revision.staging,
            revision.target,
            declared,
            staged,
        ),
        revision.target,
        revision.staging,
        declared,
        staged,
    )
}

/// The failure of a commit that was taken back without trouble.
pub open spec fn fails_clean(error: CordisError, primary: CordisError) -> bool {
    &&& error matches CordisError::ReloadFailed { primary: first, cleanup }
    &&& *first == primary
    &&& cleanup@.len() == 0
}

/// The commit of the staged fiber in the place of the old one.
pub open spec fn commits_revision(
    before: Runtime,
    after: Runtime,
    old: FiberId,
    staged: FiberId,
    revision: PreparedScopeRevision,
    invocations: Result<(), CordisError>,
    result: Result<Vec<HandlerId>, CordisError>,
) -> bool {
    let old_record = before.fibers@[old.raw];
    let record = before.fibers@[staged.raw];
    let symbols = symbols_of(before.services, record.provided@);
    let declared = symbols_of(before.services, record.descriptor.provisions@);
    let staging = revision.staging;
    let target = revision.target;
    if before.admission.closed {
        after == before && result == Err::<Vec<HandlerId>, CordisError>(
            CordisError::RuntimeShuttingDown,
        )
    } else if !before.fibers@.dom().contains(old.raw) || !before.fibers@.dom().contains(
        staged.raw,
    ) {
        after == before && result == Err::<Vec<HandlerId>, CordisError>(CordisError::FiberNotFound)
    } else if !(old_record.state is Reloading) {
        after == before && result == Err::<Vec<HandlerId>, CordisError>(
            CordisError::InvalidFiberState {
                fiber: old,
                from: old_record.state,
                to: FiberState::Active,
            },
        )
    } else if !(record.state is Active) || !before.gates.staged(record.generation) {
        after == before && result == Err::<Vec<HandlerId>, CordisError>(
            CordisError::CapabilityPublicationFailed(staged),
        )
    } else if invocations is Err {
        after == before && result == Err::<Vec<HandlerId>, CordisError>(invocations->Err_0)
    } else if !none_taken(before.services@, target, symbols, old) {
        &&& after == before
        &&& result matches Err(CordisError::DuplicateService(key))
        &&& first_taken(before.services, target, record.provided@, old, key)
    } else if !all_replaceable(before.services@, staging, target, symbols, old, staged) {
        &&& after == before
        &&& result matches Err(CordisError::RevisionValidationFailed(message))
        &&& message@ == "staged service disappeared or changed owner"@
    } else if !before.scopes@.dom().contains(staging.raw) || !before.scopes@.dom().contains(
        target.raw,
    ) {
        after == before && result == Err::<Vec<HandlerId>, CordisError>(CordisError::ScopeNotFound)
    } else if !revision.prepares_on(before.scopes@) {
        &&& after == before
        &&& result matches Err(CordisError::RevisionValidationFailed(message))
        &&& message@ == "prepared scope topology changed before reload commit"@
    } else if !before.dependencies.provides_all(staging, declared, staged) {
        &&& after == before
        &&& result matches Err(CordisError::RevisionValidationFailed(message))
        &&& message@ == "declared providers changed before reload commit"@
    } else if !revision.fits(before.scopes@, staging, target) {
        &&& takes_back(before, after, staged, revision)
        &&& result matches Err(error)
        &&& error matches CordisError::ReloadFailed { primary, cleanup }
        &&& cleanup@.len() == 0
        &&& *primary matches CordisError::RevisionValidationFailed(message)
        &&& message@ == "scope topology changed before reload commit"@
    } else if !before.gates.visible(old_record.generation) {
        &&& takes_back(before, after, staged, revision)
        &&& result matches Err(error)
        &&& fails_clean(error, CordisError::CapabilityPublicationFailed(staged))
    } else {
        &&& result matches Ok(handlers)
        &&& handlers@ == record.handlers@
        &&& switches(before, after, old, staged, revision)
    }
}

/// The children of the staging scope lie neither at nor above the scope above it.
proof fn lemma_not_above(scopes: ScopeRegistry, children: Seq<u64>, staging: ScopeId, target: ScopeId)
    requires
        scopes.wf(),
        scopes@.dom().contains(staging.raw),
        scopes@.dom().contains(target.raw),
        scopes@[staging.raw].parent == Some(target),
        all_below(scopes@, children, staging),
    ensures
        !scopes.under(children, target.raw),
{
    scopes.lemma_line(target);
    assert(has_parent(scopes@, staging.raw));
    assert forall|k: int| 0 <= k < children.len() implies scopes.rank@[target.raw]
        < scopes.rank@[#[trigger] children[k]] by {
        assert(has_parent(scopes@, children[k]));
    }
    if scopes.under(children, target.raw) {
        let line = lineage(scopes@, scopes.rank@, target.raw);
        let k = choose|k: int| 0 <= k < line.len() && children.contains(#[trigger] line[k]);
        let j = choose|j: int| 0 <= j < children.len() && children[j] == line[k];
        assert(scopes.rank@[children[j]] <= scopes.rank@[target.raw]);
    }
}

/// Different keys have different symbols.
proof fn lemma_distinct_symbols(services: ServiceRegistry, keys: Seq<ServiceKey>)
    requires
        services.wf(),
        all_interned(services, keys),
        key_views(keys).no_duplicates(),
    ensures
        symbols_of(services, keys).no_duplicates(),
{
    let symbols = symbols_of(services, keys);
    assert forall|i: int, j: int|
        0 <= i < symbols.len() && 0 <= j < symbols.len() && i != j implies symbols[i]
        != symbols[j] by {
        assert(services.symbol_of(keys[i]@) is Some);
        assert(services.symbol_of(keys[j]@) is Some);
        assert(key_views(keys)[i] != key_views(keys)[j]);
        if symbols[i] == symbols[j] {
            law_symbols_are_distinct(services, keys[i]@, keys[j]@);
        }
    }
}

impl Runtime {
    /// Refuses services that somebody but `old` holds in `target`.
    fn check_targets(
        &self,
        target: ScopeId,
        keys: &Vec<ServiceKey>,
        symbols: &Vec<ServiceSymbol>,
        old: FiberId,
    ) -> (result: Result<(), CordisError>)
        requires
            symbols@ == symbols_of(self.services, keys@),
        ensures
            match result {
                Ok(()) => none_taken(self.services@, target, symbols@, old),
                Err(error) => {
                    &&& !none_taken(self.services@, target, symbols@, old)
                    &&& error matches CordisError::DuplicateService(key)
                    &&& first_taken(self.services, target, keys@, old, key)
                },
            },
    {
        let mut i: usize = 0;
        while i < keys.len()
            invariant
                symbols@ == symbols_of(self.services, keys@),
                i <= keys@.len(),
                none_taken(self.services@, target, symbols@.take(i as int), old),
            decreases keys@.len() - i,
        {
            if let Some(entry) = self.services.get(target, symbols[i]) {
                if entry.owner != old {
                    proof {
                        assert(is_taken(self.services@, target, symbols@[i as int], old));
                        assert(keys@[i as int] == keys@[i as int]);
                    }
                    return Err(CordisError::DuplicateService(keys[i].clone()));
                }
            }
            proof {
                let next = symbols@.take(i + 1);
                assert forall|k: int| 0 <= k < next.len() implies !is_taken(
                    self.services@,
                    target,
                    #[trigger] next[k],
                    old,
                ) by {
                    if k < i {
                        assert(next[k] == symbols@.take(i as int)[k]);
                    }
                }
            }
            i += 1;
        }
        proof {
            assert(symbols@.take(i as int) =~= symbols@);
        }
        Ok(())
    }

    /// Carries a checked revision out. Everything before the publication is taken
    /// back where a later part fails; the publication is the last that can.
    fn apply_revision(
        &mut self,
        revision: &PreparedScopeRevision,
        prepared: &PreparedServiceRevision,
        declared: &Vec<ServiceSymbol>,
    ) -> (result: Result<(), CordisError>)
        requires
            old(self).wf(),
            old(self).fibers@.dom().contains(revision.old.raw),
            old(self).fibers@.dom().contains(revision.staged.raw),
            revision.old != revision.staged,
            old(self).gates.staged(old(self).fibers@[revision.staged.raw].generation),
            prepared.from == revision.staging,
            prepared.to == revision.target,
            prepared.old_owner == revision.old,
            prepared.staged_owner == revision.staged,
            prepared.symbols@ == symbols_of(
                old(self).services,
                old(self).fibers@[revision.staged.raw].provided@,
            ),
            prepared.applies_to(old(self).services@),
            declared@ == symbols_of(
                old(self).services,
                old(self).fibers@[revision.staged.raw].descriptor.provisions@,
            ),
            old(self).scopes@.dom().contains(revision.staging.raw),
            old(self).scopes@.dom().contains(revision.target.raw),
            old(self).scopes@[revision.staging.raw].parent == Some(revision.target),
            revision.prepares_on(old(self).scopes@),
        ensures
            final(self).wf(),
            ({
                let before = *old(self);
                let after = *final(self);
                if !before.dependencies.provides_all(
                    revision.staging,
                    declared@,
                    revision.staged,
                ) {
                    &&& after == before
                    &&& result matches Err(CordisError::RevisionValidationFailed(message))
                    &&& message@ == "declared providers changed before reload commit"@
                } else if !revision.fits(before.scopes@, revision.staging, revision.target) {
                    &&& takes_back(before, after, revision.staged, *revision)
                    &&& result matches Err(error)
                    &&& error matches CordisError::ReloadFailed { primary, cleanup }
                    &&& cleanup@.len() == 0
                    &&& *primary matches CordisError::RevisionValidationFailed(message)
                    &&& message@ == "scope topology changed before reload commit"@
                } else if !before.gates.visible(before.fibers@[revision.old.raw].generation) {
                    &&& takes_back(before, after, revision.staged, *revision)
                    &&& result matches Err(error)
                    &&& fails_clean(
                        error,
                        CordisError::CapabilityPublicationFailed(revision.staged),
                    )
                } else {
                    &&& result is Ok
                    &&& switches(before, after, revision.old, revision.staged, *revision)
                }
            }),
    {
        let ghost before = *self;
        let staging = revision.staging;
        let target = revision.target;
        let staged = revision.staged;
        let mut staged_gate = GenerationId { raw: 0 };
        let mut old_gate = GenerationId { raw: 0 };
        if let Some(record) = self.fibers.get(staged.raw) {
            staged_gate = record.generation;
        }
        if let Some(record) = self.fibers.get(revision.old.raw) {
            old_gate = record.generation;
        }
        if let Err(error) = self.dependencies.move_providers(staging, target, declared, staged) {
            return Err(error);
        }
        let ghost declared_now = *self;
        proof {
            lemma_not_above(before.scopes, revision.children@, staging, target);
            lemma_provides_moved(before.dependencies, self.dependencies, staging, target, declared@, staged);
        }
        if let Err(error) = revision.commit_locked(&mut self.scopes) {
            let cleanup = self.undeclare(target, staging, declared, staged);
            proof {
                assert(takes_back(before, *self, staged, *revision));
            }
            return Err(CordisError::ReloadFailed {
                primary: Arc::new(error),
                cleanup: Arc::new(cleanup),
            });
        }
        let ghost moved = *self;
        proof {
            revision.lemma_apart(before.scopes, staging, target);
            lemma_commit_fits_rollback(*revision, before.scopes@, moved.scopes@);
            assert(fiber_fits(
                before.scopes,
                before.services,
                before.plugins.next_generation,
                before.fibers@[staged.raw],
            ));
            lemma_distinct_symbols(before.services, before.fibers@[staged.raw].provided@);
        }
        if let Err(error) = self.services.commit_revision_and_publish(
            prepared,
            staged_gate,
            old_gate,
            &mut self.gates,
        ) {
            let mut cleanup: Vec<CordisError> = Vec::new();
            if let Err(issue) = revision.rollback_locked(&mut self.scopes) {
                cleanup.push(issue);
            }
            let ghost put_back = *self;
            let mut issues = self.undeclare(target, staging, declared, staged);
            cleanup.append(&mut issues);
            proof {
                law_rollback_restores_scopes(
                    *revision,
                    before.scopes@,
                    moved.scopes@,
                    put_back.scopes@,
                );
                assert(takes_back(before, *self, staged, *revision));
                self.lemma_taken_back(before, *revision);
            }
            return Err(CordisError::ReloadFailed {
                primary: Arc::new(error),
                cleanup: Arc::new(cleanup),
            });
        }
        let ghost published = *self;
        if let Some(record) = self.fibers.get_mut(staged.raw) {
            record.scope = target;
            record.staged = false;
            record.reload_owned = false;
            record.activation_sealed = false;
            record.activation = false;
        }
        proof {
            assert(switches(before, *self, revision.old, staged, *revision));
            self.lemma_switched(before, *revision);
        }
        Ok(())
    }

    /// Moves the declarations of a fiber back, and tells what went wrong.
    fn undeclare(
        &mut self,
        from: ScopeId,
        to: ScopeId,
        symbols: &Vec<ServiceSymbol>,
        staged: FiberId,
    ) -> (issues: Vec<CordisError>)
        requires
            old(self).dependencies.wf(),
            old(self).dependencies.provides_all(from, symbols@, staged),
        ensures
            *final(self) == (Runtime { dependencies: final(self).dependencies, ..*old(self) }),
            final(self).dependencies.wf(),
            final(self).dependencies.dependents == old(self).dependencies.dependents,
            final(self).dependencies.providers@ == declared_in(
                old(self).dependencies.providers@,
                from,
                to,
                symbols@,
                staged,
            ),
            issues@.len() == 0,
    {
        let mut issues: Vec<CordisError> = Vec::new();
        if let Err(error) = self.dependencies.move_providers(from, to, symbols, staged) {
            issues.push(error);
        }
        issues
    }

    /// A runtime whose commit was taken back is as well formed as it was.
    proof fn lemma_taken_back(&self, before: Runtime, revision: PreparedScopeRevision)
        requires
            before.wf(),
            takes_back(before, *self, revision.staged, revision),
            revision.restores(before.scopes@, self.scopes@),
            self.scopes.wf(),
            self.scopes.scopes.versions() == before.scopes.scopes.versions(),
            self.dependencies.wf(),
            before.scopes@.dom().contains(revision.staging.raw),
            before.scopes@.dom().contains(revision.target.raw),
        ensures
            self.wf(),
    {
        assert(same_tree(before.scopes, self.scopes)) by {
            assert forall|id: u64| #[trigger] before.scopes@.dom().contains(id) implies
                before.scopes@[id].parent == self.scopes@[id].parent by {
                assert(self.scopes@[id] == self.scopes@[id]);
            }
        }
        assert forall|generation: GenerationId| #[trigger] self.gates.visible(generation) implies
            before.gates.visible(generation) by {}
        lemma_coherence_kept(
            before.services,
            before.scopes,
            self.scopes,
            before.gates,
            self.gates,
        );
        assert forall|fiber: u64| #[trigger] self.fibers@.dom().contains(fiber) implies fiber_fits(
            self.scopes,
            self.services,
            self.plugins.next_generation,
            self.fibers@[fiber],
        ) by {
            assert(before.fibers@.dom().contains(fiber));
        }
        assert forall|slot: u128| #[trigger] self.services.cache@.dom().contains(slot) implies
            is_issued(self.scopes, crate::service_registry::slot_scope(slot)) by {
            assert(before.services.cache@.dom().contains(slot));
        }
    }

    /// A runtime that switched generations is well formed.
    proof fn lemma_switched(&self, before: Runtime, revision: PreparedScopeRevision)
        requires
            before.wf(),
            switches(before, *self, revision.old, revision.staged, revision),
            before.fibers@.dom().contains(revision.staged.raw),
            before.fibers@.dom().contains(revision.old.raw),
            before.scopes@.dom().contains(revision.staging.raw),
            before.scopes@.dom().contains(revision.target.raw),
            self.fibers.wf(),
            self.services.wf(),
            self.scopes.wf(),
            self.scopes.scopes.versions() == before.scopes.scopes.versions(),
            self.dependencies.wf(),
        ensures
            self.wf(),
    {
        lemma_coherence_empty(self.services, self.scopes, self.gates);
        assert(self.fibers@.dom() =~= before.fibers@.dom());
        lemma_owned_edited(before, *self, revision.staged.raw);
        assert(interns_more(before.services, self.services));
        assert forall|fiber: u64| #[trigger] self.fibers@.dom().contains(fiber) implies fiber_fits(
            self.scopes,
            self.services,
            self.plugins.next_generation,
            self.fibers@[fiber],
        ) by {
            let record = before.fibers@[fiber];
            assert(fiber_fits(
                before.scopes,
                before.services,
                before.plugins.next_generation,
                record,
            ));
            lemma_still_interned(before.services, self.services, record.descriptor.dependencies@);
            lemma_still_interned(before.services, self.services, record.descriptor.provisions@);
            lemma_still_interned(before.services, self.services, record.provided@);
        }
        assert(before.fibers@[revision.old.raw].generation.raw < before.plugins.next_generation);
        assert(before.fibers@[revision.staged.raw].generation.raw < before.plugins.next_generation);
        assert forall|generation: u64| #[trigger] self.gates@.dom().contains(generation) implies
            generation < self.plugins.next_generation by {
            if generation != before.fibers@[revision.old.raw].generation.raw && generation
                != before.fibers@[revision.staged.raw].generation.raw {
                assert(before.gates@.dom().contains(generation));
            }
        }
    }
}

impl Runtime {
    /// Commits the staged fiber in the place of the old one. `invocations` tells
    /// whether the registrations for invocations can be replaced. The staging scope
    /// lies directly below the target scope.
    pub fn commit_staged_revision(
        &mut self,
        old_fiber: FiberId,
        staged: FiberId,
        staging: ScopeId,
        target: ScopeId,
        invocations: Result<(), CordisError>,
    ) -> (result: Result<Vec<HandlerId>, CordisError>)
        requires
            old(self).wf(),
            old(self).scopes@.dom().contains(staging.raw)
                ==> old(self).scopes@[staging.raw].parent == Some(target),
        ensures
            final(self).wf(),
            exists|revision: PreparedScopeRevision|
                {
                    &&& scope_revision(
                        old(self).fibers@[staged.raw],
                        old_fiber,
                        staged,
                        staging,
                        target,
                        revision,
                    ) || !old(self).fibers@.dom().contains(staged.raw)
                    &&& #[trigger] commits_revision(
                        *old(self),
                        *final(self),
                        old_fiber,
                        staged,
                        revision,
                        invocations,
                        result,
                    )
                },
    {
        let children = match self.fibers.get(staged.raw) {
            Some(record) => raw_ids(&record.child_scopes),
            None => Vec::new(),
        };
        let ghost revision = PreparedScopeRevision {
            staging,
            target,
            staged,
            old: old_fiber,
            children,
        };
        let result = self.commit_children(
            old_fiber,
            staged,
            staging,
            target,
            children,
            invocations,
        );
        proof {
            assert(commits_revision(
                *old(self),
                *self,
                old_fiber,
                staged,
                revision,
                invocations,
                result,
            ));
        }
        result
    }

    /// Commits the staged fiber, whose child scopes are `children`.
    fn commit_children(
        &mut self,
        old_fiber: FiberId,
        staged: FiberId,
        staging: ScopeId,
        target: ScopeId,
        children: Vec<u64>,
        invocations: Result<(), CordisError>,
    ) -> (result: Result<Vec<HandlerId>, CordisError>)
        requires
            old(self).wf(),
            old(self).scopes@.dom().contains(staging.raw)
                ==> old(self).scopes@[staging.raw].parent == Some(target),
            old(self).fibers@.dom().contains(staged.raw) ==> children@ == raw_scopes(
                old(self).fibers@[staged.raw].child_scopes@,
            ),
        ensures
            final(self).wf(),
            commits_revision(
                *old(self),
                *final(self),
                old_fiber,
                staged,
                PreparedScopeRevision { staging, target, staged, old: old_fiber, children },
                invocations,
                result,
            ),
    {
        if let Err(error) = self.admission.enter() {
            return Err(error);
        }
        let old_state = match self.fibers.get(old_fiber.raw) {
            Some(record) => record.state,
            None => return Err(CordisError::FiberNotFound),
        };
        let record = match self.fibers.get(staged.raw) {
            Some(record) => record,
            None => return Err(CordisError::FiberNotFound),
        };
        if old_state != FiberState::Reloading {
            return Err(
                CordisError::InvalidFiberState {
                    fiber: old_fiber,
                    from: old_state,
                    to: FiberState::Active,
                },
            );
        }
        if record.state != FiberState::Active || !self.gates.is_staged(record.generation) {
            return Err(CordisError::CapabilityPublicationFailed(staged));
        }
        if let Err(error) = invocations {
            return Err(error);
        }
        proof {
            assert(fiber_fits(
                self.scopes,
                self.services,
                self.plugins.next_generation,
                self.fibers@[staged.raw],
            ));
        }
        let symbols = self.intern_keys(&record.provided);
        if let Err(error) = self.check_targets(target, &record.provided, &symbols, old_fiber) {
            return Err(error);
        }
        let ghost wanted = symbols@;
        let prepared = match self.services.prepare_revision(
            staging,
            target,
            symbols,
            old_fiber,
            staged,
        ) {
            Ok(prepared) => prepared,
            Err(error) => {
                proof {
                    assert forall|k: int|
                        0 <= k < wanted.len() && crate::service_registry::owned_in(
                            self.services@,
                            staging,
                            #[trigger] wanted[k],
                            staged,
                        ) implies replaceable(
                        self.services@,
                        staging,
                        target,
                        wanted[k],
                        old_fiber,
                        staged,
                    ) by {
                        assert(!is_taken(self.services@, target, wanted[k], old_fiber));
                    }
                }
                return Err(error);
            },
        };
        proof {
            assert forall|k: int| 0 <= k < wanted.len() implies replaceable(
                self.services@,
                staging,
                target,
                #[trigger] wanted[k],
                old_fiber,
                staged,
            ) by {
                assert(prepared.symbols@[k] == wanted[k]);
            }
            assert(all_replaceable(
                self.services@,
                staging,
                target,
                wanted,
                old_fiber,
                staged,
            ));
        }
        let declared = self.intern_keys(&record.descriptor.provisions);
        let handlers = record.handlers.clone();
        proof {
            assert(handlers@ =~= record.handlers@);
        }
        let revision = match PreparedScopeRevision::prepare(
            &self.scopes,
            staging,
            target,
            staged,
            old_fiber,
            children,
        ) {
            Ok(revision) => revision,
            Err(error) => return Err(error),
        };
        match self.apply_revision(&revision, &prepared, &declared) {
            Ok(()) => Ok(handlers),
            Err(error) => Err(error),
        }
    }
}

/// What was moved can be moved back.
proof fn lemma_provides_moved(
    before: DependencyGraph,
    after: DependencyGraph,
    from: ScopeId,
    to: ScopeId,
    symbols: Seq<ServiceSymbol>,
    staged: FiberId,
)
    requires
        after.providers@ == declared_in(before.providers@, from, to, symbols, staged),
    ensures
        after.provides_all(to, symbols, staged),
{
    assert forall|k: int| 0 <= k < symbols.len() implies after.provides(
        to,
        #[trigger] symbols[k],
        staged,
    ) by {
        let edge = Edge { scope: Some(to), symbol: symbols[k], fiber: staged };
        assert(symbols.contains(edge.symbol));
        assert(provisions(to, symbols, staged).contains(edge));
    }
}

/// A committed reload switches at one point: the old generation was visible and is
/// closed, the new one was hidden and is visible, and no other generation changes.
pub proof fn law_reload_switches_at_one_point(
    before: Runtime,
    after: Runtime,
    old: FiberId,
    staged: FiberId,
    revision: PreparedScopeRevision,
    invocations: Result<(), CordisError>,
    handlers: Vec<HandlerId>,
    other: GenerationId,
)
    requires
        commits_revision(before, after, old, staged, revision, invocations, Ok(handlers)),
        other != before.fibers@[old.raw].generation,
        other != before.fibers@[staged.raw].generation,
    ensures
        before.gates.visible(before.fibers@[old.raw].generation),
        !before.gates.visible(before.fibers@[staged.raw].generation),
        !after.gates.visible(before.fibers@[old.raw].generation),
        after.gates.visible(before.fibers@[staged.raw].generation),
        after.gates.at(other) == before.gates.at(other),
        after.fibers@[staged.raw].scope == revision.target,
{
}

/// A reload that does not commit keeps the old generation: fibers, services and
/// what is visible are as they were, every scope has its members and its place, and
/// the declarations are the same where the staged fiber declared nothing in the
/// target scope before.
pub proof fn law_failed_reload_keeps_the_old(
    before: Runtime,
    after: Runtime,
    old: FiberId,
    staged: FiberId,
    revision: PreparedScopeRevision,
    invocations: Result<(), CordisError>,
    error: CordisError,
)
    requires
        commits_revision(before, after, old, staged, revision, invocations, Err(error)),
        revision.staging != revision.target,
        before.dependencies.providers@.disjoint(
            provisions(
                revision.target,
                symbols_of(
                    before.services,
                    before.fibers@[staged.raw].descriptor.provisions@,
                ),
                staged,
            ),
        ),
    ensures
        after.fibers == before.fibers,
        after.services == before.services,
        after.gates@ == before.gates@,
        after.scopes == before.scopes || revision.restores(before.scopes@, after.scopes@),
        after.dependencies.providers@ == before.dependencies.providers@,
        after.dependencies.dependents == before.dependencies.dependents,
{
    let declared = symbols_of(
        before.services,
        before.fibers@[staged.raw].descriptor.provisions@,
    );
    let staging = revision.staging;
    let target = revision.target;
    if before.dependencies.provides_all(staging, declared, staged) {
        assert(provisions(staging, declared, staged).subset_of(before.dependencies.providers@)) by {
            assert forall|edge: Edge| #[trigger]
                provisions(staging, declared, staged).contains(edge) implies
                before.dependencies.providers@.contains(edge) by {
                let k = choose|k: int| 0 <= k < declared.len() && declared[k] == edge.symbol;
                assert(before.dependencies.provides(staging, declared[k], staged));
                assert(edge == Edge { scope: Some(staging), symbol: declared[k], fiber: staged });
            }
        }
        law_providers_move_back(
            before.dependencies.providers@,
            staging,
            target,
            declared,
            staged,
        );
    }
}

/// How a reload that committed went on.
#[derive(Clone, Copy, Debug, PartialEq, Eq, Structural)]
pub enum ReloadOutcome {
    /// The old generation is gone.
    Completed { new_fiber: FiberId },
    /// The new generation is published, and the old one is still cleaned up.
    CommittedWithCleanupPending { new_fiber: FiberId, old_fiber: FiberId },
}

/// What a reload asks for next.
#[derive(Debug)]
pub enum ReloadAction {
    /// Install the new revision of `plugin` in `scope`, staged.
    Install { scope: ScopeId, plugin: PluginId },
    /// Dispose the staged fiber.
    DisposeStaged(FiberId),
    /// Dispose the old fiber; report it as pending after the grace period.
    DisposeOld(FiberId),
    /// Dispose the staging scope.
    DisposeStaging(ScopeId),
}

/// How a reload ended.
#[derive(Debug)]
pub struct ReloadEnd {
    /// What the caller who waits is told, if it was not told before.
    pub report: Option<Result<ReloadOutcome, CordisError>>,
    /// What the worker returns.
    pub result: Result<(), CordisError>,
}

/// A reload between two of its steps.
pub struct ReloadJob {
    pub old: FiberId,
    pub plugin: PluginId,
    pub target: ScopeId,
    pub staging: ScopeId,
    pub staged: Option<FiberId>,
    /// Why the reload is rolled back.
    pub primary: Option<CordisError>,
    /// What went wrong while it was rolled back.
    pub cleanup: Vec<CordisError>,
    /// How the disposal of the old fiber ended.
    pub disposal: Result<(), CordisError>,
    /// Whether the caller was told before the cleanup ended.
    pub pending: bool,
}

/// What a reload asks for first.
pub open spec fn sets_out(job: ReloadJob, action: ReloadAction) -> bool {
    action == (ReloadAction::Install { scope: job.staging, plugin: job.plugin })
}

/// A request to reload a fiber is accepted, or refused.
pub open spec fn accepts_reload(
    before: Runtime,
    after: Runtime,
    old: FiberId,
    result: Result<u64, CordisError>,
) -> bool {
    if before.admission.closed {
        after == before && result == Err::<u64, CordisError>(CordisError::RuntimeShuttingDown)
    } else if !before.fibers@.dom().contains(old.raw) {
        after == before && result == Err::<u64, CordisError>(CordisError::FiberNotFound)
    } else if before.fibers@[old.raw].reload_owned {
        after == before && result == Err::<u64, CordisError>(CordisError::FiberLifecycleOwned(old))
    } else {
        &&& result == Ok::<u64, CordisError>(before.workers.next)
        &&& after == (Runtime {
            active_reloads: (before.active_reloads + 1) as usize,
            workers: after.workers,
            ..before
        })
        &&& enters_worker(
            before.workers,
            after.workers,
            RuntimeWorkerKind::ReloadTransaction,
            true,
        )
    }
}

/// Whether a reload that was accepted can still begin.
pub open spec fn checks_reload(
    runtime: Runtime,
    old_fiber: FiberId,
    result: Result<(), CordisError>,
) -> bool {
    result == if runtime.admission.closed {
        Err::<(), CordisError>(CordisError::RuntimeShuttingDown)
    } else if !runtime.fibers@.dom().contains(old_fiber.raw) {
        Err(CordisError::FiberNotFound)
    } else {
        Ok(())
    }
}

/// A reload that was accepted is over.
pub open spec fn lets_reload_go(before: Runtime, after: Runtime) -> bool {
    after == (Runtime { active_reloads: (before.active_reloads - 1) as usize, ..before })
}

/// A cleanup that went on after its reload is over.
pub open spec fn lets_cleanup_go(before: Runtime, after: Runtime) -> bool {
    after == (Runtime {
        reload_cleanup_pending: (before.reload_cleanup_pending - 1) as usize,
        ..before
    })
}

/// What a reload comes to for a caller that waits for the old generation to go.
pub open spec fn is_legacy_result(
    outcome: ReloadOutcome,
    result: Result<FiberId, CordisError>,
) -> bool {
    match outcome {
        ReloadOutcome::Completed { new_fiber } => result == Ok::<FiberId, CordisError>(new_fiber),
        ReloadOutcome::CommittedWithCleanupPending { new_fiber, old_fiber } => {
            &&& result matches Err(CordisError::ReloadCommitted { new_fiber: told, cleanup })
            &&& told == new_fiber
            &&& *cleanup matches CordisError::CleanupFailed(message)
            &&& message@ == "old-generation cleanup continues in a Runtime-owned worker"@
        },
    }
}

/// The new revision is installed, or was tried to.
pub open spec fn hears_of_install(
    before: Runtime,
    after: Runtime,
    job: ReloadJob,
    later: ReloadJob,
    installed: Result<FiberId, CordisError>,
    invocations: Result<(), CordisError>,
    action: ReloadAction,
) -> bool {
    &&& later.keeps(job)
    &&& later.cleanup == job.cleanup
    &&& later.disposal == job.disposal
    &&& later.pending == job.pending
    &&& match installed {
        Err(error) => {
            &&& after == before
            &&& later.primary == Some(error)
            &&& later.staged == job.staged
            &&& action == ReloadAction::DisposeStaging(job.staging)
        },
        Ok(staged) => {
            &&& later.staged == Some(staged)
            &&& adopts(before, after, job, staged, invocations, later.primary)
            &&& action == if later.primary is None {
                ReloadAction::DisposeOld(job.old)
            } else {
                ReloadAction::DisposeStaged(staged)
            }
        },
    }
}

/// The staged fiber of a reload that is rolled back is disposed, or was tried to.
pub open spec fn hears_of_staged(
    job: ReloadJob,
    later: ReloadJob,
    result: Result<(), CordisError>,
    action: ReloadAction,
) -> bool {
    &&& later == (ReloadJob { cleanup: later.cleanup, ..job })
    &&& later.cleanup@ == with_error(job.cleanup@, result)
    &&& action == ReloadAction::DisposeStaging(job.staging)
}

/// The caller is told of a reload whose cleanup takes longer.
pub open spec fn tells_early(
    before: Runtime,
    after: Runtime,
    job: ReloadJob,
    later: ReloadJob,
    new_fiber: FiberId,
    outcome: ReloadOutcome,
) -> bool {
    &&& after == (Runtime {
        reload_cleanup_pending: (before.reload_cleanup_pending + 1) as usize,
        ..before
    })
    &&& later == (ReloadJob { pending: true, ..job })
    &&& outcome == (ReloadOutcome::CommittedWithCleanupPending { new_fiber, old_fiber: job.old })
}

/// The old fiber of a reload is disposed, or was tried to.
pub open spec fn hears_of_old(
    job: ReloadJob,
    later: ReloadJob,
    result: Result<(), CordisError>,
    action: ReloadAction,
) -> bool {
    &&& later == (ReloadJob { disposal: result, ..job })
    &&& action == ReloadAction::DisposeStaging(job.staging)
}

/// A reload of `old` that asked for nothing yet.
pub open spec fn is_new_job(
    job: ReloadJob,
    old: FiberId,
    record: FiberRecord,
    staging: ScopeId,
) -> bool {
    &&& job.old == old
    &&& job.plugin == record.plugin_id
    &&& job.target == record.scope
    &&& job.staging == staging
    &&& job.staged is None
    &&& job.primary is None
    &&& job.cleanup@.len() == 0
    &&& job.disposal is Ok
    &&& !job.pending
}

/// The beginning of a reload: the old fiber is marked, and a hidden scope is made
/// below its scope. Where that fails, the old fiber is active again.
pub open spec fn begins_reload(
    before: Runtime,
    after: Runtime,
    old: FiberId,
    result: Result<ReloadJob, CordisError>,
) -> bool {
    let record = before.fibers@[old.raw];
    if !before.fibers@.dom().contains(old.raw) {
        after == before && result == Err::<ReloadJob, CordisError>(CordisError::FiberNotFound)
    } else if !(record.state is Active) {
        after == before && result == Err::<ReloadJob, CordisError>(
            CordisError::InvalidFiberState {
                fiber: old,
                from: record.state,
                to: FiberState::Reloading,
            },
        )
    } else {
        exists|marked: Runtime, made: Runtime, name: Arc<String>, scope: Result<ScopeId, CordisError>|
            {
                &&& edits_fiber(
                    before,
                    marked,
                    old,
                    FiberRecord { state: FiberState::Reloading, ..record },
                )
                &&& name@ == "hmr-staging"@
                &&& #[trigger] creates_scope(marked, made, record.scope, name, true, scope)
                &&& match scope {
                    Ok(staging) => {
                        &&& after == made
                        &&& result matches Ok(job)
                        &&& is_new_job(job, old, record, staging)
                    },
                    Err(primary) => {
                        &&& result matches Err(error)
                        &&& fails_clean(error, primary)
                        &&& edits_fiber(made, after, old, record)
                    },
                }
            }
    }
}

/// The errors among the two results, in their order.
pub open spec fn failures(
    disposal: Result<(), CordisError>,
    scope: Result<(), CordisError>,
) -> Seq<CordisError> {
    match (disposal, scope) {
        (Ok(()), Ok(())) => Seq::empty(),
        (Err(first), Ok(())) => seq![first],
        (Ok(()), Err(second)) => seq![second],
        (Err(first), Err(second)) => seq![first, second],
    }
}

/// The texts of errors.
pub open spec fn error_texts(errors: Seq<CordisError>) -> Seq<Seq<char>> {
    Seq::new(errors.len(), |i: int| errors[i].text())
}

/// Two results of a cleanup in one. A single error of a host keeps its type.
pub open spec fn combines(
    disposal: Result<(), CordisError>,
    scope: Result<(), CordisError>,
    result: Result<(), CordisError>,
) -> bool {
    let issues = failures(disposal, scope);
    if issues.len() == 0 {
        result is Ok
    } else if issues.len() == 1 && issues[0].is_hosted() {
        result == Err::<(), CordisError>(issues[0])
    } else {
        &&& result matches Err(CordisError::CleanupFailed(message))
        &&& message@ == joined(error_texts(issues), "; "@)
    }
}

impl Runtime {
    /// Accepts a reload of `old_fiber`: from here on a worker, whose id is returned,
    /// carries it out, whoever waits for it.
    pub fn accept_reload(&mut self, old_fiber: FiberId) -> (result: Result<u64, CordisError>)
        requires
            old(self).wf(),
            old(self).active_reloads < usize::MAX,
        ensures
            final(self).wf(),
            accepts_reload(*old(self), *final(self), old_fiber, result),
    {
        if let Err(error) = self.admission.enter() {
            return Err(error);
        }
        match self.fibers.get(old_fiber.raw) {
            None => return Err(CordisError::FiberNotFound),
            Some(record) => {
                if record.reload_owned {
                    return Err(CordisError::FiberLifecycleOwned(old_fiber));
                }
            },
        }
        self.active_reloads = self.active_reloads + 1;
        Ok(self.workers.spawn(RuntimeWorkerKind::ReloadTransaction, true))
    }

    /// Counts the end of an accepted reload.
    pub fn reload_ended(&mut self)
        requires
            old(self).wf(),
            old(self).active_reloads > 0,
        ensures
            final(self).wf(),
            lets_reload_go(*old(self), *final(self)),
    {
        self.active_reloads = self.active_reloads - 1;
    }

    /// Counts the end of a cleanup that a committed reload left pending.
    pub fn reload_cleanup_ended(&mut self)
        requires
            old(self).wf(),
            old(self).reload_cleanup_pending > 0,
        ensures
            final(self).wf(),
            lets_cleanup_go(*old(self), *final(self)),
    {
        self.reload_cleanup_pending = self.reload_cleanup_pending - 1;
    }

    /// Refuses to wait for a fiber that cannot be reloaded any more.
    pub fn check_reload(&self, old_fiber: FiberId) -> (result: Result<(), CordisError>)
        requires
            self.wf(),
        ensures
            checks_reload(*self, old_fiber, result),
    {
        if let Err(error) = self.admission.enter() {
            return Err(error);
        }
        if self.fibers.contains(old_fiber.raw) {
            Ok(())
        } else {
            Err(CordisError::FiberNotFound)
        }
    }

    /// Begins a reload once nobody else changes the fiber.
    pub fn begin_reload(&mut self, old_fiber: FiberId) -> (result: Result<ReloadJob, CordisError>)
        requires
            old(self).wf(),
        ensures
            final(self).wf(),
            begins_reload(*old(self), *final(self), old_fiber, result),
    {
        let (target, plugin) = match self.fibers.get(old_fiber.raw) {
            None => return Err(CordisError::FiberNotFound),
            Some(record) => {
                if record.state != FiberState::Active {
                    return Err(
                        CordisError::InvalidFiberState {
                            fiber: old_fiber,
                            from: record.state,
                            to: FiberState::Reloading,
                        },
                    );
                }
                (record.scope, record.plugin_id)
            },
        };
        if let Err(error) = self.transition(old_fiber, FiberState::Reloading) {
            return Err(error);
        }
        let ghost marked = *self;
        let name = Arc::new("hmr-staging".to_owned());
        let ghost named = name;
        let scope = self.create_scope_internal(target, name, true);
        let ghost given = scope;
        let ghost made = *self;
        proof {
            assert(creates_scope(marked, made, target, named, true, given));
            lemma_scope_keeps_fiber(marked, made, target, named, true, given, old_fiber);
        }
        match scope {
            Ok(staging) => Ok(
                ReloadJob {
                    old: old_fiber,
                    plugin,
                    target,
                    staging,
                    staged: None,
                    primary: None,
                    cleanup: Vec::new(),
                    disposal: Ok(()),
                    pending: false,
                },
            ),
            Err(primary) => {
                let mut cleanup: Vec<CordisError> = Vec::new();
                if let Err(error) = self.transition(old_fiber, FiberState::Active) {
                    cleanup.push(error);
                }
                Err(
                    CordisError::ReloadFailed {
                        primary: Arc::new(primary),
                        cleanup: Arc::new(cleanup),
                    },
                )
            },
        }
    }

    /// Two results of a cleanup in one.
    pub fn combine_reload_cleanup(
        disposal: Result<(), CordisError>,
        scope: Result<(), CordisError>,
    ) -> (result: Result<(), CordisError>)
        ensures
            combines(disposal, scope, result),
    {
        match (disposal, scope) {
            (Ok(()), Ok(())) => Ok(()),
            (Err(error), Ok(())) => Err(Self::single_issue(error)),
            (Ok(()), Err(error)) => Err(Self::single_issue(error)),
            (Err(first), Err(second)) => {
                let mut parts: Vec<String> = Vec::new();
                parts.push(first.to_string());
                parts.push(second.to_string());
                proof {
                    assert(views(parts@) =~= error_texts(seq![first, second]));
                }
                Err(CordisError::CleanupFailed(join(&parts, "; ")))
            },
        }
    }

    /// The error for a cleanup in which one thing failed.
    fn single_issue(error: CordisError) -> (issue: CordisError)
        ensures
            if error.is_hosted() {
                issue == error
            } else {
                issue matches CordisError::CleanupFailed(message) && message@ == joined(
                    error_texts(seq![error]),
                    "; "@,
                )
            },
    {
        let hosted = matches!(&error, CordisError::Host(_) | CordisError::RemoteDomain(_));
        if hosted {
            return error;
        }
        let mut parts: Vec<String> = Vec::new();
        parts.push(error.to_string());
        proof {
            assert(views(parts@) =~= error_texts(seq![error]));
        }
        CordisError::CleanupFailed(join(&parts, "; "))
    }

    /// A structured outcome as callers know it who only ask for the new fiber.
    pub fn legacy_reload_result(outcome: ReloadOutcome) -> (result: Result<FiberId, CordisError>)
        ensures
            is_legacy_result(outcome, result),
    {
        match outcome {
            ReloadOutcome::Completed { new_fiber } => Ok(new_fiber),
            ReloadOutcome::CommittedWithCleanupPending { new_fiber, old_fiber: _ } => Err(
                CordisError::ReloadCommitted {
                    new_fiber,
                    cleanup: Arc::new(
                        CordisError::CleanupFailed(
                            "old-generation cleanup continues in a Runtime-owned worker".to_owned(),
                        ),
                    ),
                },
            ),
        }
    }
}

/// Making a scope leaves a fiber that is not disposed alone.
proof fn lemma_scope_keeps_fiber(
    before: Runtime,
    after: Runtime,
    parent: ScopeId,
    name: Arc<String>,
    hidden: bool,
    result: Result<ScopeId, CordisError>,
    fiber: FiberId,
)
    requires
        before.wf(),
        creates_scope(before, after, parent, name, hidden, result),
        before.fibers@.dom().contains(fiber.raw),
        !(before.fibers@[fiber.raw].state is Disposed),
    ensures
        after.fibers@.dom().contains(fiber.raw),
        after.fibers@[fiber.raw] == before.fibers@[fiber.raw],
{
    if !before.admission.closed {
        let swept = choose|swept: Runtime|
            sweeps_if(before, swept, before.scopes@.dom().len() >= before.config.max_scopes)
                && #[trigger] makes_scope(swept, after, parent, name, hidden, result);
        assert(swept.fibers@.dom().contains(fiber.raw));
        assert(swept.fibers@[fiber.raw] == before.fibers@[fiber.raw]);
    }
}

impl ReloadJob {
    /// What the reload asks for first.
    pub fn first_action(&self) -> (action: ReloadAction)
        ensures
            sets_out(*self, action),
    {
        ReloadAction::Install { scope: self.staging, plugin: self.plugin }
    }

    /// Goes on after the new revision was installed: it is committed where it
    /// provides what it declares. `invocations` tells whether the registrations for
    /// invocations can be replaced.
    pub fn installed(
        &mut self,
        runtime: &mut Runtime,
        installed: Result<FiberId, CordisError>,
        invocations: Result<(), CordisError>,
    ) -> (action: ReloadAction)
        requires
            old(runtime).wf(),
            old(self).primary is None,
        ensures
            final(runtime).wf(),
            hears_of_install(
                *old(runtime),
                *final(runtime),
                *old(self),
                *final(self),
                installed,
                invocations,
                action,
            ),
    {
        match installed {
            Err(error) => {
                self.primary = Some(error);
                ReloadAction::DisposeStaging(self.staging)
            },
            Ok(staged) => {
                self.staged = Some(staged);
                match self.adopt(runtime, staged, invocations) {
                    Ok(()) => ReloadAction::DisposeOld(self.old),
                    Err(error) => {
                        self.primary = Some(error);
                        ReloadAction::DisposeStaged(staged)
                    },
                }
            },
        }
    }

    /// Checks the staged fiber and commits it.
    fn adopt(
        &self,
        runtime: &mut Runtime,
        staged: FiberId,
        invocations: Result<(), CordisError>,
    ) -> (result: Result<(), CordisError>)
        requires
            old(runtime).wf(),
        ensures
            final(runtime).wf(),
            adopts(
                *old(runtime),
                *final(runtime),
                *self,
                staged,
                invocations,
                match result {
                    Ok(()) => None,
                    Err(error) => Some(error),
                },
            ),
    {
        if let Err(error) = runtime.validate_staged_revision(staged) {
            return Err(error);
        }
        let moved: bool = match runtime.scopes.get(self.staging) {
            Some(record) => match record.parent {
                Some(parent) => parent != self.target,
                None => true,
            },
            None => false,
        };
        if moved {
            return Err(
                CordisError::RevisionValidationFailed(
                    "prepared scope topology changed before reload commit".to_owned(),
                ),
            );
        }
        match runtime.commit_staged_revision(
            self.old,
            staged,
            self.staging,
            self.target,
            invocations,
        ) {
            Ok(_handlers) => Ok(()),
            Err(error) => Err(error),
        }
    }

    /// Goes on after the staged fiber of a failed reload was disposed.
    pub fn staged_disposed(&mut self, result: Result<(), CordisError>) -> (action: ReloadAction)
        ensures
            hears_of_staged(*old(self), *final(self), result, action),
    {
        if let Err(error) = result {
            self.cleanup.push(error);
        }
        ReloadAction::DisposeStaging(self.staging)
    }

    /// Tells the caller that the reload committed while the old fiber is still
    /// cleaned up.
    pub fn cleanup_pending(&mut self, runtime: &mut Runtime, new_fiber: FiberId) -> (outcome:
        ReloadOutcome)
        requires
            old(runtime).wf(),
            old(runtime).reload_cleanup_pending < usize::MAX,
            old(self).staged == Some(new_fiber),
        ensures
            final(runtime).wf(),
            tells_early(*old(runtime), *final(runtime), *old(self), *final(self), new_fiber, outcome),
    {
        self.pending = true;
        runtime.reload_cleanup_pending = runtime.reload_cleanup_pending + 1;
        ReloadOutcome::CommittedWithCleanupPending { new_fiber, old_fiber: self.old }
    }

    /// Goes on after the old fiber was disposed.
    pub fn old_disposed(&mut self, result: Result<(), CordisError>) -> (action: ReloadAction)
        ensures
            hears_of_old(*old(self), *final(self), result, action),
    {
        self.disposal = result;
        ReloadAction::DisposeStaging(self.staging)
    }

    /// Ends a reload after its staging scope was disposed. A reload that is rolled
    /// back makes the old fiber active again.
    pub fn staging_disposed(self, runtime: &mut Runtime, result: Result<(), CordisError>) -> (end:
        ReloadEnd)
        requires
            old(runtime).wf(),
            self.primary is None ==> self.staged is Some,
            self.primary is None && self.pending ==> old(runtime).reload_cleanup_pending > 0,
        ensures
            final(runtime).wf(),
            ends_reload(*old(runtime), *final(runtime), self, result, end),
    {
        let ReloadJob { old: old_fiber, staged, primary, cleanup, disposal, pending, .. } = self;
        if let Some(primary) = primary {
            let mut cleanup = cleanup;
            if let Err(error) = result {
                cleanup.push(error);
            }
            if let Err(error) = runtime.transition(old_fiber, FiberState::Active) {
                cleanup.push(error);
            }
            let error = CordisError::ReloadFailed {
                primary: Arc::new(primary),
                cleanup: Arc::new(cleanup),
            };
            return ReloadEnd { report: Some(Err(error.clone())), result: Err(error) };
        }
        let combined = Runtime::combine_reload_cleanup(disposal, result);
        if pending {
            runtime.reload_cleanup_ended();
            return ReloadEnd { report: None, result: combined };
        }
        match (combined, staged) {
            (Ok(()), Some(new_fiber)) => ReloadEnd {
                report: Some(Ok(ReloadOutcome::Completed { new_fiber })),
                result: Ok(()),
            },
            (Err(error), Some(new_fiber)) => {
                let committed = CordisError::ReloadCommitted {
                    new_fiber,
                    cleanup: Arc::new(error),
                };
                ReloadEnd { report: Some(Err(committed.clone())), result: Err(committed) }
            },
            (combined, None) => ReloadEnd { report: None, result: combined },
        }
    }

    /// What a reload does not change once it began.
    pub open spec fn keeps(self, before: ReloadJob) -> bool {
        &&& self.old == before.old
        &&& self.plugin == before.plugin
        &&& self.target == before.target
        &&& self.staging == before.staging
    }
}

/// `errors` and one more, if there is one.
pub open spec fn with_error(
    errors: Seq<CordisError>,
    result: Result<(), CordisError>,
) -> Seq<CordisError> {
    match result {
        Ok(()) => errors,
        Err(error) => errors.push(error),
    }
}

/// The staged fiber is checked and committed, or `primary` tells why not.
pub open spec fn adopts(
    before: Runtime,
    after: Runtime,
    job: ReloadJob,
    staged: FiberId,
    invocations: Result<(), CordisError>,
    primary: Option<CordisError>,
) -> bool {
    if !before.fibers@.dom().contains(staged.raw) {
        after == before && primary == Some(CordisError::FiberNotFound)
    } else if !keeps_promise(before.fibers@[staged.raw]) {
        &&& after == before
        &&& primary matches Some(CordisError::RevisionValidationFailed(message))
        &&& message@ == mismatch_text(before.fibers@[staged.raw])
    } else if before.scopes@.dom().contains(job.staging.raw)
        && before.scopes@[job.staging.raw].parent != Some(job.target) {
        &&& after == before
        &&& primary matches Some(CordisError::RevisionValidationFailed(message))
        &&& message@ == "prepared scope topology changed before reload commit"@
    } else {
        exists|revision: PreparedScopeRevision, result: Result<Vec<HandlerId>, CordisError>|
            {
                &&& scope_revision(
                    before.fibers@[staged.raw],
                    job.old,
                    staged,
                    job.staging,
                    job.target,
                    revision,
                )
                &&& #[trigger] commits_revision(
                    before,
                    after,
                    job.old,
                    staged,
                    revision,
                    invocations,
                    result,
                )
                &&& primary == match result {
                    Ok(handlers) => None,
                    Err(error) => Some(error),
                }
            }
    }
}

/// The end of a reload.
pub open spec fn ends_reload(
    before: Runtime,
    after: Runtime,
    job: ReloadJob,
    result: Result<(), CordisError>,
    end: ReloadEnd,
) -> bool {
    match job.primary {
        Some(primary) => {
            let restored = if !before.fibers@.dom().contains(job.old.raw) {
                Err::<(), CordisError>(CordisError::FiberNotFound)
            } else if !before.fibers@[job.old.raw].state.allows(FiberState::Active) {
                Err(
                    CordisError::InvalidFiberState {
                        fiber: job.old,
                        from: before.fibers@[job.old.raw].state,
                        to: FiberState::Active,
                    },
                )
            } else {
                Ok(())
            };
            &&& end.result matches Err(error)
            &&& end.report == Some(Err::<ReloadOutcome, CordisError>(error))
            &&& error matches CordisError::ReloadFailed { primary: first, cleanup }
            &&& *first == primary
            &&& cleanup@ == with_error(with_error(job.cleanup@, result), restored)
            &&& if restored is Ok {
                edits_fiber(
                    before,
                    after,
                    job.old,
                    FiberRecord { state: FiberState::Active, ..before.fibers@[job.old.raw] },
                )
            } else {
                after == before
            }
        },
        None => exists|combined: Result<(), CordisError>|
            {
                &&& #[trigger] combines(job.disposal, result, combined)
                &&& if job.pending {
                    &&& end.report is None
                    &&& end.result == combined
                    &&& after == (Runtime {
                        reload_cleanup_pending: (before.reload_cleanup_pending - 1) as usize,
                        ..before
                    })
                } else {
                    &&& after == before
                    &&& match combined {
                        Ok(()) => {
                            &&& end.result is Ok
                            &&& end.report == Some(
                                Ok::<ReloadOutcome, CordisError>(
                                    ReloadOutcome::Completed { new_fiber: job.staged->0 },
                                ),
                            )
                        },
                        Err(error) => {
                            &&& end.result matches Err(committed)
                            &&& end.report == Some(Err::<ReloadOutcome, CordisError>(committed))
                            &&& committed matches CordisError::ReloadCommitted {
                                new_fiber,
                                cleanup,
                            }
                            &&& new_fiber == job.staged->0
                            &&& *cleanup == error
                        },
                    }
                }
            },
    }
}

/// What a reload reports tells whether the new generation is published: a reload
/// that was rolled back reports that it failed, and one that committed reports the
/// new fiber, even where cleaning the old one up failed.
pub proof fn law_reload_reports_what_happened(
    before: Runtime,
    after: Runtime,
    job: ReloadJob,
    result: Result<(), CordisError>,
    end: ReloadEnd,
)
    requires
        ends_reload(before, after, job, result, end),
        job.primary is Some || !job.pending,
    ensures
        job.primary is Some ==> end.report matches Some(Err(
            CordisError::ReloadFailed { primary, cleanup },
        )),
        job.primary is None ==> match end.report {
            Some(Ok(ReloadOutcome::Completed { new_fiber })) => new_fiber == job.staged->0,
            Some(Err(CordisError::ReloadCommitted { new_fiber, cleanup })) => new_fiber
                == job.staged->0,
            _ => false,
        },
{
}

} // verus!
