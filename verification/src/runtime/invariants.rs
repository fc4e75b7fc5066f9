//! What keeps the cache, the scope tree and the owners in agreement.
#[allow(unused_imports)]
use super::{is_coherent, is_issued, line_of, lists_no_more, owns_apart, Runtime};
#[allow(unused_imports)]
use crate::gate::GateTable;
#[allow(unused_imports)]
use crate::ids::{EffectId, GenerationId, ScopeId, ServiceSymbol, TaskId};
#[allow(unused_imports)]
use crate::scope_registry::{has_parent, ScopeRegistry};
#[allow(unused_imports)]
use crate::service_registry::{
    is_sound, lemma_slot, none_before, slot_of, slot_scope, visible_at, CacheEntry, Entries,
    ServiceRegistry,
};
use vstd::prelude::*;

verus! {

/// Both registries have the same scopes with the same parents.
pub open spec fn same_tree(a: ScopeRegistry, b: ScopeRegistry) -> bool {
    &&& a@.dom() == b@.dom()
    &&& forall|id: u64| #[trigger]
        a@.dom().contains(id) ==> a@[id].parent == b@[id].parent
}

/// The same parents give the same lines.
pub proof fn lemma_same_lines(a: ScopeRegistry, b: ScopeRegistry, scope: ScopeId)
    requires
        a.wf(),
        b.wf(),
        same_tree(a, b),
    ensures
        a.above(scope) == b.above(scope),
        a.rooted(scope) == b.rooted(scope),
        line_of(a, scope) == line_of(b, scope),
    decreases a.rank@[scope.raw],
{
    assert(has_parent(a@, scope.raw) == has_parent(b@, scope.raw)) by {
        assert(a@.dom().contains(scope.raw) || !a@.dom().contains(scope.raw));
    }
    if has_parent(a@, scope.raw) {
        lemma_same_lines(a, b, a@[scope.raw].parent->0);
    }
}

/// A generation that is visible in `after` is visible in `before`.
pub open spec fn shows_no_more(before: GateTable, after: GateTable) -> bool {
    forall|generation: GenerationId| #[trigger]
        after.visible(generation) ==> before.visible(generation)
}

/// What was sound stays sound while services disappear from view.
pub proof fn lemma_sound_shrinks(
    location: Option<(ScopeId, crate::ids::FiberId)>,
    entries: Entries,
    before: GateTable,
    after: GateTable,
    line: Seq<ScopeId>,
    symbol: ServiceSymbol,
)
    requires
        shows_no_more(before, after),
        is_sound(location, entries, before, line, symbol),
    ensures
        is_sound(location, entries, after, line, symbol),
{
    assert forall|k: int| none_before(entries, before, line, symbol, k) implies none_before(
        entries,
        after,
        line,
        symbol,
        k,
    ) by {
        assert forall|j: int| 0 <= j < k implies !visible_at(
            entries,
            after,
            #[trigger] line[j],
            symbol,
        ) by {
            assert(!visible_at(entries, before, line[j], symbol));
        }
    }
    match location {
        None => {
            assert(none_before(entries, before, line, symbol, line.len() as int));
        },
        Some(place) => {
            let k = choose|k: int|
                0 <= k < line.len() && #[trigger] line[k] == place.0 && none_before(
                    entries,
                    before,
                    line,
                    symbol,
                    k,
                );
            assert(line[k] == place.0 && none_before(entries, after, line, symbol, k));
        },
    }
}

/// Hiding services and changing scopes without moving them keeps the cache right.
pub proof fn lemma_coherence_kept(
    services: ServiceRegistry,
    before: ScopeRegistry,
    after: ScopeRegistry,
    gates: GateTable,
    new_gates: GateTable,
)
    requires
        before.wf(),
        after.wf(),
        same_tree(before, after),
        shows_no_more(gates, new_gates),
        is_coherent(services, before, gates),
    ensures
        is_coherent(services, after, new_gates),
{
    assert forall|scope: ScopeId, symbol: ServiceSymbol| after.rooted(scope) implies
        #[trigger] services.sound_at(scope, symbol, line_of(after, scope), new_gates) by {
        lemma_same_lines(before, after, scope);
        assert(services.sound_at(scope, symbol, line_of(before, scope), gates));
        let slot = slot_of(scope, symbol);
        if services.cache@.dom().contains(slot) && services.cache@[slot].epoch == services.epoch {
            lemma_sound_shrinks(
                services.cache@[slot].location,
                services@,
                gates,
                new_gates,
                line_of(after, scope),
                symbol,
            );
        }
    }
}

/// An empty cache is right about everything.
pub proof fn lemma_coherence_empty(
    services: ServiceRegistry,
    scopes: ScopeRegistry,
    gates: GateTable,
)
    requires
        services.cache@ == Map::<u128, CacheEntry>::empty(),
    ensures
        is_coherent(services, scopes, gates),
{
    assert forall|scope: ScopeId, symbol: ServiceSymbol| scopes.rooted(scope) implies
        #[trigger] services.sound_at(scope, symbol, line_of(scopes, scope), gates) by {
        assert(!services.cache@.dom().contains(slot_of(scope, symbol)));
    }
}

/// The scopes that exist in both have the same parents, and the other scopes of
/// `after` are new.
pub open spec fn extends_tree(before: ScopeRegistry, after: ScopeRegistry) -> bool {
    forall|id: u64| #[trigger]
        before@.dom().contains(id) ==> after@.dom().contains(id) && after@[id].parent
            == before@[id].parent
}

/// Adding scopes does not change the lines of the others.
proof fn lemma_extended_lines(before: ScopeRegistry, after: ScopeRegistry, scope: ScopeId)
    requires
        before.wf(),
        after.wf(),
        extends_tree(before, after),
        before.rooted(scope),
    ensures
        after.rooted(scope),
        after.above(scope) == before.above(scope),
    decreases before.rank@[scope.raw],
{
    assert(before@.dom().contains(scope.raw));
    if has_parent(before@, scope.raw) {
        assert(before@.dom().contains(before@[scope.raw].parent->0.raw));
        assert(has_parent(after@, scope.raw));
        lemma_extended_lines(before, after, before@[scope.raw].parent->0);
    } else {
        assert(!has_parent(after@, scope.raw));
    }
}

/// A new scope leaves the cache right: nothing is remembered of it.
pub proof fn lemma_coherence_extended(
    services: ServiceRegistry,
    before: ScopeRegistry,
    after: ScopeRegistry,
    gates: GateTable,
    id: ScopeId,
)
    requires
        before.wf(),
        after.wf(),
        extends_tree(before, after),
        after@.dom() == before@.dom().insert(id.raw),
        !is_issued(before, id),
        forall|slot: u128| #[trigger]
            services.cache@.dom().contains(slot) ==> is_issued(before, slot_scope(slot)),
        is_coherent(services, before, gates),
    ensures
        is_coherent(services, after, gates),
{
    broadcast use lemma_slot;

    assert forall|scope: ScopeId, symbol: ServiceSymbol| after.rooted(scope) implies
        #[trigger] services.sound_at(scope, symbol, line_of(after, scope), gates) by {
        let slot = slot_of(scope, symbol);
        if services.cache@.dom().contains(slot) {
            assert(is_issued(before, slot_scope(slot)));
            assert(scope != id);
            lemma_rooted_before(before, after, id, scope);
            lemma_extended_lines(before, after, scope);
            assert(services.sound_at(scope, symbol, line_of(before, scope), gates));
        }
    }
}

/// A scope whose line is whole after an addition, and that was there before, had
/// a whole line before.
proof fn lemma_rooted_before(
    before: ScopeRegistry,
    after: ScopeRegistry,
    id: ScopeId,
    scope: ScopeId,
)
    requires
        before.wf(),
        after.wf(),
        extends_tree(before, after),
        after@.dom() == before@.dom().insert(id.raw),
        !is_issued(before, id),
        scope != id,
        after.rooted(scope),
    ensures
        before.rooted(scope),
    decreases after.rank@[scope.raw],
{
    assert(after@.dom().contains(scope.raw));
    assert(before@.dom().contains(scope.raw));
    if has_parent(after@, scope.raw) {
        let up = after@[scope.raw].parent->0;
        if up == id {
            assert(before.scopes.retired(up.raw));
        }
        assert(has_parent(before@, scope.raw));
        lemma_rooted_before(before, after, id, up);
    } else {
        assert(!has_parent(before@, scope.raw));
    }
}

/// The scopes of `after` are scopes of `before` with the same parents.
pub open spec fn shrinks_tree(before: ScopeRegistry, after: ScopeRegistry) -> bool {
    forall|id: u64| #[trigger]
        after@.dom().contains(id) ==> before@.dom().contains(id) && after@[id].parent
            == before@[id].parent
}

/// Removing scopes does not change the lines that stay whole.
proof fn lemma_shrunk_lines(before: ScopeRegistry, after: ScopeRegistry, scope: ScopeId)
    requires
        before.wf(),
        after.wf(),
        shrinks_tree(before, after),
        after.rooted(scope),
    ensures
        before.rooted(scope),
        after.above(scope) == before.above(scope),
    decreases after.rank@[scope.raw],
{
    assert(after@.dom().contains(scope.raw));
    if has_parent(after@, scope.raw) {
        assert(after@.dom().contains(after@[scope.raw].parent->0.raw));
        assert(has_parent(before@, scope.raw));
        lemma_shrunk_lines(before, after, after@[scope.raw].parent->0);
    } else {
        assert(!has_parent(before@, scope.raw));
    }
}

/// Removing scopes and hiding services leaves the cache right about the lines
/// that stay whole.
pub proof fn lemma_coherence_shrunk(
    services: ServiceRegistry,
    before: ScopeRegistry,
    after: ScopeRegistry,
    gates: GateTable,
    new_gates: GateTable,
)
    requires
        before.wf(),
        after.wf(),
        shrinks_tree(before, after),
        shows_no_more(gates, new_gates),
        is_coherent(services, before, gates),
    ensures
        is_coherent(services, after, new_gates),
{
    assert forall|scope: ScopeId, symbol: ServiceSymbol| after.rooted(scope) implies
        #[trigger] services.sound_at(scope, symbol, line_of(after, scope), new_gates) by {
        lemma_shrunk_lines(before, after, scope);
        assert(services.sound_at(scope, symbol, line_of(before, scope), gates));
        let slot = slot_of(scope, symbol);
        if services.cache@.dom().contains(slot) && services.cache@[slot].epoch == services.epoch {
            lemma_sound_shrinks(
                services.cache@[slot].location,
                services@,
                gates,
                new_gates,
                line_of(after, scope),
                symbol,
            );
        }
    }
}

/// A fiber that lists no more than before leaves every task and effect its owner.
pub proof fn lemma_owned_edited(before: Runtime, after: Runtime, fiber: u64)
    requires
        before.wf(),
        before.fibers@.dom().contains(fiber),
        after.fibers@ == before.fibers@.insert(fiber, after.fibers@[fiber]),
        after.tasks == before.tasks,
        after.next_effect == before.next_effect,
        after.effect_owners == before.effect_owners,
        lists_no_more(before.fibers@[fiber], after.fibers@[fiber]),
    ensures
        owns_apart(
            after.fibers@,
            after.tasks.arena@,
            after.effect_owners@,
            after.next_effect,
        ),
{
    assert forall|other: u64, task: TaskId|
        after.fibers@.dom().contains(other) && #[trigger] after.fibers@[other].tasks@.contains(
            task,
        ) implies after.tasks.arena@.dom().contains(task.raw)
        && after.tasks.arena@[task.raw].owner.raw == other by {
        assert(before.fibers@[other].tasks@.contains(task));
    }
    assert forall|other: u64, effect: EffectId|
        after.fibers@.dom().contains(other) && #[trigger] after.fibers@[other].effects@.contains(
            effect,
        ) implies effect.raw < after.next_effect && after.effect_owners@[effect.raw] == other by {
        assert(before.fibers@[other].effects@.contains(effect));
    }
    assert forall|other: u64| #[trigger] after.fibers@.dom().contains(other) implies
        after.fibers@[other].tasks@.no_duplicates()
        && after.fibers@[other].effects@.no_duplicates() by {
        assert(before.fibers@.dom().contains(other));
    }
}

/// Fewer fibers leave every task and effect its owner.
pub proof fn lemma_owned_shrunk(before: Runtime, after: Runtime)
    requires
        before.wf(),
        forall|id: u64| #[trigger]
            after.fibers@.dom().contains(id) ==> before.fibers@.dom().contains(id)
                && after.fibers@[id] == before.fibers@[id],
        after.tasks == before.tasks,
        after.next_effect == before.next_effect,
        after.effect_owners == before.effect_owners,
    ensures
        owns_apart(
            after.fibers@,
            after.tasks.arena@,
            after.effect_owners@,
            after.next_effect,
        ),
        after.fibers@.dom().len() <= before.fibers@.dom().len(),
{
    before.fibers.lemma_order();
    vstd::set_lib::lemma_len_subset(after.fibers@.dom(), before.fibers@.dom());
    assert forall|other: u64, task: TaskId|
        after.fibers@.dom().contains(other) && #[trigger] after.fibers@[other].tasks@.contains(
            task,
        ) implies after.tasks.arena@.dom().contains(task.raw)
        && after.tasks.arena@[task.raw].owner.raw == other by {
        assert(before.fibers@[other].tasks@.contains(task));
    }
    assert forall|other: u64, effect: EffectId|
        after.fibers@.dom().contains(other) && #[trigger] after.fibers@[other].effects@.contains(
            effect,
        ) implies effect.raw < after.next_effect && after.effect_owners@[effect.raw] == other by {
        assert(before.fibers@[other].effects@.contains(effect));
    }
}

} // verus!
