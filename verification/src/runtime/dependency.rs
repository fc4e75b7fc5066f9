//! Dependencies: whether they are met, whether they can be, and who has to act
//! when services come and go.
#[allow(unused_imports)]
use super::invariants::lemma_owned_shrunk;
use super::Runtime;
#[allow(unused_imports)]
use crate::arena::{id_index, id_version, next_version};
#[allow(unused_imports)]
use super::{all_interned, fiber_fits, is_issued, line_of};
use crate::dependency_graph::{DependencyGraph, Need};
#[allow(unused_imports)]
use crate::dependency_graph::{fibers_of, is_acyclic, need_views, Edge, NeedView};
use crate::error::CordisError;
#[allow(unused_imports)]
use crate::fiber_registry::FiberRecord;
#[allow(unused_imports)]
use crate::gate::GateTable;
#[allow(unused_imports)]
use crate::id_list::{except, holds};
use crate::ids::{FiberId, ScopeId, ServiceSymbol};
use crate::key::ServiceKey;
#[allow(unused_imports)]
use crate::plugin_registry::PluginRegistry;
#[allow(unused_imports)]
use crate::scope_registry::{has_parent, ScopeRecord, ScopeRegistry};
#[allow(unused_imports)]
use crate::service_registry::{nearest, slot_of, visible_at, ServiceRegistry};
use crate::state::{DependencyPolicy, FiberState};
use vstd::prelude::*;

verus! {

/// The fibers that a dependency on `symbol` as seen from `scope` leads to: the
/// owner of the nearest visible service, or the fibers that declare to provide
/// it, whichever comes first on the way up.
pub open spec fn providers_above(
    runtime: Runtime,
    scope: ScopeId,
    symbol: ServiceSymbol,
) -> Seq<u64>
    decreases runtime.scopes.height(scope),
    when runtime.scopes.wf()
{
    let declared = fibers_of(runtime.dependencies.providers.edges@, Some(scope), symbol);
    if visible_at(runtime.services@, runtime.gates, scope, symbol) {
        seq![runtime.services@[slot_of(scope, symbol)].owner.raw]
    } else if declared.len() > 0 {
        declared
    } else if runtime.scopes@.dom().contains(scope.raw)
        && runtime.scopes@[scope.raw].parent is Some {
        let parent = runtime.scopes@[scope.raw].parent->0;
        proof {
            assert(has_parent(runtime.scopes@, scope.raw)
                || !runtime.scopes@.dom().contains(parent.raw));
        }
        providers_above(runtime, parent, symbol)
    } else {
        Seq::empty()
    }
}

/// The fibers that the dependencies `keys` as seen from `scope` lead to.
pub open spec fn providers_for(runtime: Runtime, scope: ScopeId, keys: Seq<ServiceKey>) -> Seq<u64>
    decreases keys.len(),
{
    if keys.len() == 0 {
        Seq::empty()
    } else {
        providers_for(runtime, scope, keys.drop_last()) + providers_above(
            runtime,
            scope,
            runtime.services.symbol_of(keys.last()@)->0,
        )
    }
}

/// What the fibers among `order` that are not disposed need.
pub open spec fn needs_of(runtime: Runtime, order: Seq<u64>) -> Seq<NeedView>
    decreases order.len(),
{
    if order.len() == 0 {
        Seq::empty()
    } else {
        let before = needs_of(runtime, order.drop_last());
        let record = runtime.fibers@[order.last()];
        if record.state is Disposed || record.descriptor.dependencies@.len() == 0 {
            before
        } else {
            before.push(
                NeedView {
                    fiber: order.last(),
                    providers: providers_for(
                        runtime,
                        record.scope,
                        record.descriptor.dependencies@,
                    ),
                },
            )
        }
    }
}

/// Whether every dependency in `keys` is met as seen from `scope`.
pub open spec fn all_met(runtime: Runtime, scope: ScopeId, keys: Seq<ServiceKey>) -> bool {
    forall|i: int|
        0 <= i < keys.len() ==> nearest(
            runtime.services@,
            runtime.gates,
            line_of(runtime.scopes, scope),
            runtime.services.symbol_of((#[trigger] keys[i])@)->0,
        ) is Some
}

/// The symbols of `keys`.
pub open spec fn symbols_of(services: ServiceRegistry, keys: Seq<ServiceKey>) -> Seq<ServiceSymbol> {
    Seq::new(keys.len(), |i: int| services.symbol_of(keys[i]@)->0)
}

/// The graph without what the fiber `fiber` in `scope` declares.
pub open spec fn forgets_fiber(
    before: DependencyGraph,
    after: DependencyGraph,
    fiber: FiberId,
    scope: ScopeId,
    dependencies: Seq<ServiceSymbol>,
    provisions: Seq<ServiceSymbol>,
) -> bool {
    &&& forall|edge: Edge| #[trigger]
        after.dependents@.contains(edge) <==> before.dependents@.contains(edge) && !(
        edge.fiber == fiber && edge.scope is None && dependencies.contains(edge.symbol))
    &&& forall|edge: Edge| #[trigger]
        after.providers@.contains(edge) <==> before.providers@.contains(edge) && !(edge.fiber
            == fiber && edge.scope == Some(scope) && provisions.contains(edge.symbol))
}

/// The graph with what the fiber `fiber` in `scope` declares.
pub open spec fn learns_fiber(
    before: DependencyGraph,
    after: DependencyGraph,
    fiber: FiberId,
    scope: ScopeId,
    dependencies: Seq<ServiceSymbol>,
    provisions: Seq<ServiceSymbol>,
) -> bool {
    &&& forall|edge: Edge| #[trigger]
        after.dependents@.contains(edge) <==> before.dependents@.contains(edge) || (edge.fiber
            == fiber && edge.scope is None && dependencies.contains(edge.symbol))
    &&& forall|edge: Edge| #[trigger]
        after.providers@.contains(edge) <==> before.providers@.contains(edge) || (edge.fiber
            == fiber && edge.scope == Some(scope) && provisions.contains(edge.symbol))
}

proof fn lemma_symbols_prefix(services: ServiceRegistry, keys: Seq<ServiceKey>, i: int)
    requires
        0 <= i < keys.len(),
    ensures
        forall|other: ServiceSymbol| #[trigger]
            symbols_of(services, keys.take(i + 1)).contains(other) <==> symbols_of(
                services,
                keys.take(i),
            ).contains(other) || other == services.symbol_of(keys[i]@)->0,
{
    let shorter = symbols_of(services, keys.take(i));
    let symbol = services.symbol_of(keys[i]@)->0;
    assert(symbols_of(services, keys.take(i + 1)) =~= shorter.push(symbol));
    assert forall|other: ServiceSymbol| #[trigger]
        symbols_of(services, keys.take(i + 1)).contains(other) <==> shorter.contains(other) || other
            == symbol by {
        vstd::seq_lib::lemma_seq_contains_after_push(shorter, symbol, other);
    }
}

/// Takes what `fiber` declares out of `graph`.
pub(crate) fn forget_declarations(
    graph: &mut DependencyGraph,
    services: &ServiceRegistry,
    fiber: FiberId,
    scope: ScopeId,
    dependencies: &Vec<ServiceKey>,
    provisions: &Vec<ServiceKey>,
)
    requires
        old(graph).wf(),
        services.wf(),
        all_interned(*services, dependencies@),
        all_interned(*services, provisions@),
    ensures
        final(graph).wf(),
        forgets_fiber(
            *old(graph),
            *final(graph),
            fiber,
            scope,
            symbols_of(*services, dependencies@),
            symbols_of(*services, provisions@),
        ),
{
    let mut i: usize = 0;
    while i < dependencies.len()
        invariant
            graph.wf(),
            services.wf(),
            all_interned(*services, dependencies@),
            i <= dependencies@.len(),
            graph.providers == old(graph).providers,
            forall|edge: Edge| #[trigger]
                graph.dependents@.contains(edge) <==> old(graph).dependents@.contains(edge) && !(
                edge.fiber == fiber && edge.scope is None && symbols_of(
                    *services,
                    dependencies@.take(i as int),
                ).contains(edge.symbol)),
        decreases dependencies@.len() - i,
    {
        proof {
            assert(services.symbol_of(dependencies@[i as int]@) is Some);
            lemma_symbols_prefix(*services, dependencies@, i as int);
        }
        let symbol = services.intern(&dependencies[i]);
        graph.remove_dependency(symbol, fiber);
        i += 1;
    }
    let mut i: usize = 0;
    proof {
        assert(dependencies@.take(dependencies@.len() as int) =~= dependencies@);
    }
    while i < provisions.len()
        invariant
            graph.wf(),
            services.wf(),
            all_interned(*services, provisions@),
            i <= provisions@.len(),
            forall|edge: Edge| #[trigger]
                graph.dependents@.contains(edge) <==> old(graph).dependents@.contains(edge) && !(
                edge.fiber == fiber && edge.scope is None && symbols_of(
                    *services,
                    dependencies@,
                ).contains(edge.symbol)),
            forall|edge: Edge| #[trigger]
                graph.providers@.contains(edge) <==> old(graph).providers@.contains(edge) && !(
                edge.fiber == fiber && edge.scope == Some(scope) && symbols_of(
                    *services,
                    provisions@.take(i as int),
                ).contains(edge.symbol)),
        decreases provisions@.len() - i,
    {
        proof {
            assert(services.symbol_of(provisions@[i as int]@) is Some);
            lemma_symbols_prefix(*services, provisions@, i as int);
        }
        let symbol = services.intern(&provisions[i]);
        graph.remove_provider(scope, symbol, fiber);
        i += 1;
    }
    proof {
        assert(provisions@.take(provisions@.len() as int) =~= provisions@);
    }
}

/// Puts what `fiber` declares into `graph`.
pub(crate) fn learn_declarations(
    graph: &mut DependencyGraph,
    services: &ServiceRegistry,
    fiber: FiberId,
    scope: ScopeId,
    dependencies: &Vec<ServiceKey>,
    provisions: &Vec<ServiceKey>,
)
    requires
        old(graph).wf(),
        services.wf(),
        all_interned(*services, dependencies@),
        all_interned(*services, provisions@),
    ensures
        final(graph).wf(),
        learns_fiber(
            *old(graph),
            *final(graph),
            fiber,
            scope,
            symbols_of(*services, dependencies@),
            symbols_of(*services, provisions@),
        ),
{
    let mut i: usize = 0;
    while i < dependencies.len()
        invariant
            graph.wf(),
            services.wf(),
            all_interned(*services, dependencies@),
            i <= dependencies@.len(),
            graph.providers == old(graph).providers,
            forall|edge: Edge| #[trigger]
                graph.dependents@.contains(edge) <==> old(graph).dependents@.contains(edge) || (
                edge.fiber == fiber && edge.scope is None && symbols_of(
                    *services,
                    dependencies@.take(i as int),
                ).contains(edge.symbol)),
        decreases dependencies@.len() - i,
    {
        proof {
            assert(services.symbol_of(dependencies@[i as int]@) is Some);
            lemma_symbols_prefix(*services, dependencies@, i as int);
        }
        let symbol = services.intern(&dependencies[i]);
        graph.add_dependency(symbol, fiber);
        i += 1;
    }
    let mut i: usize = 0;
    proof {
        assert(dependencies@.take(dependencies@.len() as int) =~= dependencies@);
    }
    while i < provisions.len()
        invariant
            graph.wf(),
            services.wf(),
            all_interned(*services, provisions@),
            i <= provisions@.len(),
            forall|edge: Edge| #[trigger]
                graph.dependents@.contains(edge) <==> old(graph).dependents@.contains(edge) || (
                edge.fiber == fiber && edge.scope is None && symbols_of(
                    *services,
                    dependencies@,
                ).contains(edge.symbol)),
            forall|edge: Edge| #[trigger]
                graph.providers@.contains(edge) <==> old(graph).providers@.contains(edge) || (
                edge.fiber == fiber && edge.scope == Some(scope) && symbols_of(
                    *services,
                    provisions@.take(i as int),
                ).contains(edge.symbol)),
        decreases provisions@.len() - i,
    {
        proof {
            assert(services.symbol_of(provisions@[i as int]@) is Some);
            lemma_symbols_prefix(*services, provisions@, i as int);
        }
        let symbol = services.intern(&provisions[i]);
        graph.add_provider(scope, symbol, fiber);
        i += 1;
    }
    proof {
        assert(provisions@.take(provisions@.len() as int) =~= provisions@);
    }
}

/// One lookup, which finds a service or not and may leave a trace in the cache.
pub open spec fn looks_up(
    before: ServiceRegistry,
    after: ServiceRegistry,
    scope: ScopeId,
    line: Seq<ScopeId>,
    symbol: ServiceSymbol,
    gates: GateTable,
    found: bool,
) -> bool {
    &&& after.same_but_cache(&before)
    &&& after.remembers(&before, scope, line, symbol, gates)
    &&& found == (before.resolved(scope, line, symbol, gates) is Some)
}

/// Lookups of `symbols` one after the other, each of which finds a service.
pub open spec fn finds_all(
    before: ServiceRegistry,
    after: ServiceRegistry,
    scope: ScopeId,
    line: Seq<ScopeId>,
    symbols: Seq<ServiceSymbol>,
    gates: GateTable,
) -> bool
    decreases symbols.len(),
{
    if symbols.len() == 0 {
        after == before
    } else {
        exists|middle: ServiceRegistry|
            finds_all(before, middle, scope, line, symbols.drop_last(), gates)
                && #[trigger] looks_up(middle, after, scope, line, symbols.last(), gates, true)
    }
}

/// Lookups of `symbols` one after the other, up to the first that finds nothing.
pub open spec fn meets(
    before: ServiceRegistry,
    after: ServiceRegistry,
    scope: ScopeId,
    line: Seq<ScopeId>,
    symbols: Seq<ServiceSymbol>,
    gates: GateTable,
    met: bool,
) -> bool {
    if met {
        finds_all(before, after, scope, line, symbols, gates)
    } else {
        exists|k: int, middle: ServiceRegistry|
            #![trigger symbols[k], looks_up(middle, after, scope, line, symbols[k], gates, false)]
            {
                &&& 0 <= k < symbols.len()
                &&& finds_all(before, middle, scope, line, symbols.take(k), gates)
                &&& looks_up(middle, after, scope, line, symbols[k], gates, false)
            }
    }
}

impl Runtime {
    /// Whether every dependency is met as seen from `scope`.
    pub fn dependencies_met(&mut self, scope: ScopeId, dependencies: &Vec<ServiceKey>) -> (met: bool)
        requires
            old(self).wf(),
            is_issued(old(self).scopes, scope),
            all_interned(old(self).services, dependencies@),
        ensures
            final(self).wf(),
            *final(self) == (Runtime { services: final(self).services, ..*old(self) }),
            final(self).services.same_but_cache(&old(self).services),
            meets(
                old(self).services,
                final(self).services,
                scope,
                line_of(old(self).scopes, scope),
                symbols_of(old(self).services, dependencies@),
                old(self).gates,
                met,
            ),
            old(self).scopes.rooted(scope) ==> met == all_met(
                *old(self),
                scope,
                dependencies@,
            ),
    {
        let ghost line = line_of(self.scopes, scope);
        let ghost symbols = symbols_of(self.services, dependencies@);
        let mut i: usize = 0;
        proof {
            assert(symbols.take(0) =~= Seq::empty());
        }
        while i < dependencies.len()
            invariant
                self.wf(),
                *self == (Runtime { services: self.services, ..*old(self) }),
                self.services.same_but_cache(&old(self).services),
                is_issued(old(self).scopes, scope),
                all_interned(old(self).services, dependencies@),
                line == line_of(old(self).scopes, scope),
                symbols == symbols_of(old(self).services, dependencies@),
                i <= dependencies@.len(),
                finds_all(
                    old(self).services,
                    self.services,
                    scope,
                    line,
                    symbols.take(i as int),
                    old(self).gates,
                ),
                old(self).scopes.rooted(scope) ==> forall|k: int|
                    0 <= k < i ==> nearest(
                        old(self).services@,
                        old(self).gates,
                        line_of(old(self).scopes, scope),
                        old(self).services.symbol_of((#[trigger] dependencies@[k])@)->0,
                    ) is Some,
            decreases dependencies@.len() - i,
        {
            proof {
                assert(old(self).services.symbol_of(dependencies@[i as int]@) is Some);
            }
            let symbol = self.services.intern(&dependencies[i]);
            let ghost middle = self.services;
            let found = self.resolve_symbol(scope, symbol).is_some();
            proof {
                assert(symbol == symbols[i as int]);
                assert(looks_up(
                    middle,
                    self.services,
                    scope,
                    line,
                    symbols[i as int],
                    old(self).gates,
                    found,
                ));
                assert(symbols.take(i + 1).drop_last() =~= symbols.take(i as int));
                assert(symbols.take(i + 1).last() == symbols[i as int]);
            }
            if !found {
                return false;
            }
            i += 1;
        }
        proof {
            assert(symbols.take(i as int) =~= symbols);
        }
        true
    }

    /// The fibers that a dependency on `symbol` as seen from `scope` leads to.
    fn find_providers(&self, scope: ScopeId, symbol: ServiceSymbol) -> (providers: Vec<u64>)
        requires
            self.wf(),
        ensures
            providers@ == providers_above(*self, scope, symbol),
    {
        let mut cursor: ScopeId = scope;
        loop
            invariant
                self.wf(),
                providers_above(*self, cursor, symbol) == providers_above(*self, scope, symbol),
            decreases self.scopes.height(cursor),
        {
            if let Some(entry) = self.services.get(cursor, symbol) {
                if self.gates.is_visible(entry.gate) {
                    let mut providers: Vec<u64> = Vec::new();
                    providers.push(entry.owner.raw);
                    assert(providers@ =~= seq![entry.owner.raw]);
                    return providers;
                }
            }
            let declared = self.dependencies.providers(cursor, symbol);
            if declared.len() > 0 {
                return declared;
            }
            match self.scopes.get(cursor) {
                Some(record) => match record.parent {
                    Some(parent) => {
                        proof {
                            assert(has_parent(self.scopes@, cursor.raw)
                                || !self.scopes@.dom().contains(parent.raw));
                        }
                        cursor = parent;
                    },
                    None => return declared,
                },
                None => return declared,
            }
        }
    }

    /// Refuses dependencies that lead back to where they start.
    pub fn validate_dependency_graph(&self) -> (result: Result<(), CordisError>)
        requires
            self.wf(),
        ensures
            match result {
                Ok(()) => is_acyclic(needs_of(*self, self.fibers.order())),
                Err(error) => error is DependencyCycle && !is_acyclic(
                    needs_of(*self, self.fibers.order()),
                ),
            },
    {
        let ids = self.fibers.ids();
        let mut needs: Vec<Need> = Vec::new();
        let mut i: usize = 0;
        while i < ids.len()
            invariant
                self.wf(),
                i <= ids@.len(),
                ids@ == self.fibers.order(),
                ids@.no_duplicates(),
                forall|id: u64| #[trigger] self.fibers@.dom().contains(id) <==> ids@.contains(id),
                need_views(needs@) == needs_of(*self, ids@.take(i as int)),
                forall|k: int|
                    0 <= k < needs@.len() ==> ids@.take(i as int).contains(
                        (#[trigger] needs@[k]).fiber,
                    ),
                forall|j: int, k: int|
                    0 <= j < k < needs@.len() ==> (#[trigger] needs@[j]).fiber != (
                    #[trigger] needs@[k]).fiber,
            decreases ids@.len() - i,
        {
            let id = ids[i];
            proof {
                assert(ids@.contains(ids@[i as int]));
                assert(self.fibers@.dom().contains(id));
                assert(ids@.take(i + 1) =~= ids@.take(i as int).push(id));
                assert(ids@.take(i + 1).drop_last() =~= ids@.take(i as int));
                assert(!ids@.take(i as int).contains(id));
                assert forall|other: u64| ids@.take(i as int).contains(other) implies
                    #[trigger] ids@.take(i + 1).contains(other) by {
                    vstd::seq_lib::lemma_seq_contains_after_push(ids@.take(i as int), id, other);
                }
                vstd::seq_lib::lemma_seq_contains_after_push(ids@.take(i as int), id, id);
            }
            let ghost before = needs@;
            if let Some(record) = self.fibers.get(id) {
                if record.state != FiberState::Disposed && record.descriptor.dependencies.len()
                    > 0 {
                    let providers = self.find_all_providers(
                        record.scope,
                        &record.descriptor.dependencies,
                    );
                    needs.push(Need { fiber: id, providers });
                    proof {
                        assert(need_views(needs@) =~= need_views(before).push(
                            NeedView { fiber: id, providers: providers@ },
                        ));
                    }
                }
            }
            i += 1;
        }
        proof {
            assert(ids@.take(i as int) =~= ids@);
        }
        DependencyGraph::validate_cycles(&needs)
    }

    /// The fibers that the dependencies `keys` as seen from `scope` lead to.
    fn find_all_providers(&self, scope: ScopeId, keys: &Vec<ServiceKey>) -> (providers: Vec<u64>)
        requires
            self.wf(),
            all_interned(self.services, keys@),
        ensures
            providers@ == providers_for(*self, scope, keys@),
    {
        let mut providers: Vec<u64> = Vec::new();
        let mut i: usize = 0;
        while i < keys.len()
            invariant
                self.wf(),
                all_interned(self.services, keys@),
                i <= keys@.len(),
                providers@ == providers_for(*self, scope, keys@.take(i as int)),
            decreases keys@.len() - i,
        {
            proof {
                assert(self.services.symbol_of(keys@[i as int]@) is Some);
                assert(keys@.take(i + 1).drop_last() =~= keys@.take(i as int));
            }
            let symbol = self.services.intern(&keys[i]);
            let mut more = self.find_providers(scope, symbol);
            providers.append(&mut more);
            i += 1;
        }
        proof {
            assert(keys@.take(i as int) =~= keys@);
        }
        providers
    }
}

/// `scopes` without `fiber` in `scope`.
pub open spec fn leaves_scope(
    before: ScopeRegistry,
    after: ScopeRegistry,
    scope: ScopeId,
    fiber: FiberId,
) -> bool {
    &&& after.root == before.root
    &&& after.rank == before.rank
    &&& after.scopes.versions() == before.scopes.versions()
    &&& after.scopes.order() == before.scopes.order()
    &&& if before@.dom().contains(scope.raw) {
        let record = after@[scope.raw];
        &&& after@ == before@.insert(scope.raw, record)
        &&& record == (ScopeRecord { fibers: record.fibers, ..before@[scope.raw] })
        &&& record.fibers@ == except(before@[scope.raw].fibers@, seq![fiber.raw])
    } else {
        after@ == before@
    }
}

/// `after` is `before` without the fiber and everything that was noted of it.
pub open spec fn drops_fiber(before: Runtime, after: Runtime, fiber: FiberId) -> bool {
    let record = before.fibers@[fiber.raw];
    &&& after == (Runtime {
        fibers: after.fibers,
        scopes: after.scopes,
        dependencies: after.dependencies,
        plugins: after.plugins,
        gates: after.gates,
        ..before
    })
    &&& after.fibers@ == before.fibers@.remove(fiber.raw)
    &&& after.fibers.versions() == before.fibers.versions().update(
        id_index(fiber.raw),
        next_version(id_version(fiber.raw) as u32),
    )
    &&& leaves_scope(before.scopes, after.scopes, record.scope, fiber)
    &&& forgets_fiber(
        before.dependencies,
        after.dependencies,
        fiber,
        record.scope,
        symbols_of(before.services, record.descriptor.dependencies@),
        symbols_of(before.services, record.descriptor.provisions@),
    )
    &&& after.plugins@ == PluginRegistry::after_detach(before.plugins@, record.plugin_id)
    &&& after.plugins.next_plugin == before.plugins.next_plugin
    &&& after.plugins.next_generation == before.plugins.next_generation
    &&& after.gates@ == before.gates@.remove(record.generation.raw)
}

impl Runtime {
    /// Takes `fiber` out of the list of `scope`.
    pub(crate) fn leave_scope(&mut self, scope: ScopeId, fiber: FiberId)
        requires
            old(self).wf(),
        ensures
            final(self).wf(),
            *final(self) == (Runtime { scopes: final(self).scopes, ..*old(self) }),
            leaves_scope(old(self).scopes, final(self).scopes, scope, fiber),
    {
        let ghost before = *self;
        if let Some(record) = self.scopes.get_mut(scope) {
            record.fibers.discard(fiber.raw);
        }
        proof {
            assert(self.scopes@.dom() =~= before.scopes@.dom());
            self.lemma_scopes_edited(before);
        }
    }

    /// Takes a fiber that never started out of the runtime.
    pub fn remove_unstarted_fiber(&mut self, fiber: FiberId)
        requires
            old(self).wf(),
        ensures
            final(self).wf(),
            if old(self).fibers@.dom().contains(fiber.raw) {
                drops_fiber(*old(self), *final(self), fiber)
            } else {
                *final(self) == *old(self)
            },
    {
        let record = match self.fibers.remove(fiber.raw) {
            Some(record) => record,
            None => return,
        };
        proof {
            assert(fiber_fits(
                old(self).scopes,
                old(self).services,
                old(self).plugins.next_generation,
                old(self).fibers@[fiber.raw],
            ));
            lemma_owned_shrunk(*old(self), *self);
            assert(self.wf());
        }
        self.leave_scope(record.scope, fiber);
        forget_declarations(
            &mut self.dependencies,
            &self.services,
            fiber,
            record.scope,
            &record.descriptor.dependencies,
            &record.descriptor.provisions,
        );
        self.plugins.detach(record.plugin_id);
        let ghost before = *self;
        self.gates.retire(record.generation);
        proof {
            self.lemma_gates_turned(before);
        }
    }

    /// Whether `fiber` depends on one of `symbols`.
    pub open spec fn depends_on_any(&self, symbols: Seq<ServiceSymbol>, fiber: u64) -> bool {
        exists|k: int|
            0 <= k < symbols.len() && self.dependencies.depends(
                #[trigger] symbols[k],
                FiberId { raw: fiber },
            )
    }

    /// The fibers that depend on one of `symbols`, each once.
    pub fn reconcile_candidates(&self, symbols: &Vec<ServiceSymbol>) -> (candidates: Vec<u64>)
        ensures
            takes_up_change(*self, symbols@, candidates@),
    {
        let mut candidates: Vec<u64> = Vec::new();
        let mut i: usize = 0;
        while i < symbols.len()
            invariant
                i <= symbols@.len(),
                candidates@.no_duplicates(),
                forall|fiber: u64| #[trigger]
                    candidates@.contains(fiber) <==> exists|k: int|
                        0 <= k < i && self.dependencies.depends(
                            #[trigger] symbols@[k],
                            FiberId { raw: fiber },
                        ),
            decreases symbols@.len() - i,
        {
            let found = self.dependencies.dependents(symbols[i]);
            let ghost start = candidates@;
            let mut j: usize = 0;
            while j < found.len()
                invariant
                    j <= found@.len(),
                    candidates@.no_duplicates(),
                    forall|fiber: u64| #[trigger]
                        candidates@.contains(fiber) <==> start.contains(fiber) || found@.take(
                            j as int,
                        ).contains(fiber),
                decreases found@.len() - j,
            {
                let fiber = found[j];
                let ghost before = candidates@;
                proof {
                    assert(found@.take(j + 1) =~= found@.take(j as int).push(fiber));
                    assert forall|other: u64| #[trigger]
                        found@.take(j + 1).contains(other) <==> found@.take(j as int).contains(
                            other,
                        ) || other == fiber by {
                        vstd::seq_lib::lemma_seq_contains_after_push(
                            found@.take(j as int),
                            fiber,
                            other,
                        );
                    }
                }
                if !holds(candidates.as_slice(), fiber) {
                    candidates.push(fiber);
                    proof {
                        assert forall|other: u64| #[trigger]
                            candidates@.contains(other) <==> before.contains(other) || other
                                == fiber by {
                            vstd::seq_lib::lemma_seq_contains_after_push(before, fiber, other);
                        }
                    }
                }
                j += 1;
            }
            proof {
                assert(found@.take(j as int) =~= found@);
                assert forall|fiber: u64| #[trigger]
                    candidates@.contains(fiber) <==> exists|k: int|
                        0 <= k < i + 1 && self.dependencies.depends(
                            #[trigger] symbols@[k],
                            FiberId { raw: fiber },
                        ) by {
                    assert(found@.contains(fiber) <==> self.dependencies.depends(
                        symbols@[i as int],
                        FiberId { raw: fiber },
                    ));
                    if candidates@.contains(fiber) {
                        if start.contains(fiber) {
                            let k = choose|k: int|
                                0 <= k < i && self.dependencies.depends(
                                    #[trigger] symbols@[k],
                                    FiberId { raw: fiber },
                                );
                            assert(self.dependencies.depends(
                                symbols@[k],
                                FiberId { raw: fiber },
                            ));
                        } else {
                            assert(self.dependencies.depends(
                                symbols@[i as int],
                                FiberId { raw: fiber },
                            ));
                        }
                    }
                }
            }
            i += 1;
        }
        candidates
    }
}

/// What a change of services asks of one fiber.
#[derive(Debug)]
pub enum ReconcileStep {
    /// Dispose the fiber; it waits for its dependencies where `restart` is set.
    Dispose { fiber: FiberId, restart: bool },
    /// Activate the fiber.
    Activate(FiberId),
    /// All fibers have acted, or one failed.
    Done(Result<(), CordisError>),
}

/// Fibers that have to be looked at because services came or went.
pub struct ReconcileJob {
    /// Fibers that are left.
    pub pending: Vec<u64>,
}

/// Whether the scope of the fiber takes in nothing any more.
pub open spec fn is_shut_out(scopes: ScopeRegistry, record: FiberRecord) -> bool {
    scopes@.dom().contains(record.scope.raw) && !(scopes@[record.scope.raw].state is Active)
}

/// What a fiber has to do: a fiber that is active loses its place where a
/// dependency is lost, and one that waits gets its turn where all are met, unless its
/// scope is being disposed.
pub open spec fn reconciles(scopes: ScopeRegistry, record: FiberRecord, met: bool) -> Option<
    bool,
> {
    if record.state is Active && !met {
        Some(false)
    } else if record.state is WaitingDependencies && met && !is_shut_out(scopes, record) {
        Some(true)
    } else {
        None
    }
}

/// What looking at one fiber leaves in the cache, and whether its dependencies are
/// met.
pub open spec fn looks_at(
    runtime: Runtime,
    before: ServiceRegistry,
    after: ServiceRegistry,
    fiber: u64,
    met: bool,
) -> bool {
    let record = runtime.fibers@[fiber];
    meets(
        before,
        after,
        record.scope,
        line_of(runtime.scopes, record.scope),
        symbols_of(runtime.services, record.descriptor.dependencies@),
        runtime.gates,
        met,
    )
}

/// Looking at `fibers` one after the other, none of which has to act.
pub open spec fn passes_over(
    runtime: Runtime,
    after: ServiceRegistry,
    fibers: Seq<u64>,
) -> bool
    decreases fibers.len(),
{
    if fibers.len() == 0 {
        after == runtime.services
    } else if !runtime.fibers@.dom().contains(fibers.last()) {
        passes_over(runtime, after, fibers.drop_last())
    } else {
        exists|middle: ServiceRegistry, met: bool|
            {
                &&& passes_over(runtime, middle, fibers.drop_last())
                &&& #[trigger] looks_at(runtime, middle, after, fibers.last(), met)
                &&& reconciles(runtime.scopes, runtime.fibers@[fibers.last()], met) is None
            }
    }
}

/// The fibers before the next one that acts ask for nothing, and it does.
pub open spec fn stops_at(
    runtime: Runtime,
    after: ServiceRegistry,
    fibers: Seq<u64>,
    fiber: u64,
    met: bool,
) -> bool {
    exists|middle: ServiceRegistry|
        {
            &&& passes_over(runtime, middle, fibers)
            &&& #[trigger] looks_at(runtime, middle, after, fiber, met)
        }
}

/// The fibers that a change of `symbols` concerns, each once.
pub open spec fn takes_up_change(
    runtime: Runtime,
    symbols: Seq<ServiceSymbol>,
    pending: Seq<u64>,
) -> bool {
    &&& pending.no_duplicates()
    &&& forall|fiber: u64| #[trigger]
        pending.contains(fiber) <==> runtime.depends_on_any(symbols, fiber)
}

/// One step of a reconciliation: the fibers that need not act are passed over, up to the
/// first that has to.
pub open spec fn goes_through(
    before: Runtime,
    after: Runtime,
    job: ReconcileJob,
    later: ReconcileJob,
    last: Result<(), CordisError>,
    step: ReconcileStep,
) -> bool {
    &&& after == (Runtime {
        services: after.services,
        ..before
    })
    &&& after.services.same_but_cache(&before.services)
    &&& later.pending@.len() <= job.pending@.len()
    &&& later.pending@ == job.pending@.skip(
        job.pending@.len() - later.pending@.len(),
    )
    &&& match last {
        Err(error) => step == ReconcileStep::Done(Err(error))
            && later == job && after == before,
        Ok(()) => match step {
            ReconcileStep::Done(result) => {
                &&& result is Ok
                &&& later.pending@.len() == 0
                &&& passes_over(
                    before,
                    after.services,
                    job.pending@,
                )
                &&& forall|k: int|
                    0 <= k < job.pending@.len() ==> passed_over(
                        before,
                        #[trigger] job.pending@[k],
                    )
            },
            ReconcileStep::Dispose { fiber, restart } => {
                &&& job.pending@.len() > later.pending@.len()
                &&& fiber.raw == job.pending@[job.pending@.len()
                    - later.pending@.len() - 1]
                &&& before.fibers@.dom().contains(fiber.raw)
                &&& ({
                    let record = before.fibers@[fiber.raw];
                    &&& record.state is Active
                    &&& stops_at(
                        before,
                        after.services,
                        job.pending@.take(
                            job.pending@.len() - later.pending@.len() - 1,
                        ),
                        fiber.raw,
                        false,
                    )
                    &&& restart == (record.descriptor.dependency_policy is Restart)
                    &&& before.scopes.rooted(record.scope) ==> !all_met(
                        before,
                        record.scope,
                        record.descriptor.dependencies@,
                    )
                })
            },
            ReconcileStep::Activate(fiber) => {
                &&& job.pending@.len() > later.pending@.len()
                &&& fiber.raw == job.pending@[job.pending@.len()
                    - later.pending@.len() - 1]
                &&& before.fibers@.dom().contains(fiber.raw)
                &&& ({
                    let record = before.fibers@[fiber.raw];
                    &&& record.state is WaitingDependencies
                    &&& !is_shut_out(before.scopes, record)
                    &&& stops_at(
                        before,
                        after.services,
                        job.pending@.take(
                            job.pending@.len() - later.pending@.len() - 1,
                        ),
                        fiber.raw,
                        true,
                    )
                    &&& before.scopes.rooted(record.scope) ==> all_met(
                        before,
                        record.scope,
                        record.descriptor.dependencies@,
                    )
                })
            },
        },
    }
    &&& last is Ok ==> forall|k: int|
        0 <= k < job.pending@.len() - later.pending@.len() - 1 ==> passed_over(
            before,
            #[trigger] job.pending@[k],
        )
}

impl ReconcileJob {
    /// The job that a change of `symbols` asks for.
    pub fn new(runtime: &Runtime, symbols: &Vec<ServiceSymbol>) -> (job: Self)
        ensures
            takes_up_change(*runtime, symbols@, job.pending@),
    {
        ReconcileJob { pending: runtime.reconcile_candidates(symbols) }
    }

    /// What to do next, after what was done last came to `last`. A failure ends
    /// the job.
    pub fn step(
        &mut self,
        runtime: &mut Runtime,
        last: Result<(), CordisError>,
    ) -> (step: ReconcileStep)
        requires
            old(runtime).wf(),
        ensures
            final(runtime).wf(),
            goes_through(*old(runtime), *final(runtime), *old(self), *final(self), last, step),
    {
        if last.is_err() {
            assert(self.pending@ =~= self.pending@.skip(0));
            return ReconcileStep::Done(last);
        }
        let ghost all = self.pending@;
        assert(all =~= all.skip(0));
        assert(all.take(0) =~= Seq::empty());
        while self.pending.len() > 0
            invariant
                runtime.wf(),
                *runtime == (Runtime { services: runtime.services, ..*old(runtime) }),
                runtime.services.same_but_cache(&old(runtime).services),
                last is Ok,
                all == old(self).pending@,
                self.pending@.len() <= all.len(),
                self.pending@ == all.skip(all.len() - self.pending@.len()),
                passes_over(
                    *old(runtime),
                    runtime.services,
                    all.take(all.len() - self.pending@.len()),
                ),
                forall|k: int|
                    0 <= k < all.len() - self.pending@.len() ==> passed_over(
                        *old(runtime),
                        #[trigger] all[k],
                    ),
            decreases self.pending@.len(),
        {
            let ghost done = all.len() - self.pending@.len();
            let raw = self.pending.remove(0);
            proof {
                assert(raw == all[done]);
                assert(self.pending@ =~= all.skip(done + 1));
                assert(all.take(done + 1).drop_last() =~= all.take(done));
                assert(all.take(done + 1).last() == raw);
            }
            let (state, scope, dependencies, policy) = match runtime.fibers.get(raw) {
                Some(record) => (
                    record.state,
                    record.scope,
                    record.descriptor.dependencies.clone(),
                    record.descriptor.dependency_policy,
                ),
                None => continue ,
            };
            proof {
                assert(fiber_fits(
                    runtime.scopes,
                    runtime.services,
                    runtime.plugins.next_generation,
                    runtime.fibers@[raw],
                ));
            }
            proof {
                lemma_met_same(*old(runtime), *runtime, scope, dependencies@);
            }
            let ghost middle = runtime.services;
            let met = runtime.dependencies_met(scope, &dependencies);
            proof {
                assert(symbols_of(middle, dependencies@) =~= symbols_of(
                    old(runtime).services,
                    dependencies@,
                ));
                assert(looks_at(*old(runtime), middle, runtime.services, raw, met));
            }
            let fiber = FiberId { raw };
            let open = runtime.is_open_to(scope);
            match state {
                FiberState::Active => {
                    if !met {
                        return ReconcileStep::Dispose {
                            fiber,
                            restart: policy == DependencyPolicy::Restart,
                        };
                    }
                },
                FiberState::WaitingDependencies => {
                    if met && open {
                        return ReconcileStep::Activate(fiber);
                    }
                },
                _ => {},
            }
        }
        proof {
            assert(all.take(all.len() as int) =~= all);
        }
        ReconcileStep::Done(Ok(()))
    }
}

/// Whether a change of services asks nothing of the fiber.
pub open spec fn passed_over(runtime: Runtime, fiber: u64) -> bool {
    runtime.fibers@.dom().contains(fiber) && runtime.scopes.rooted(
        runtime.fibers@[fiber].scope,
    ) ==> reconciles(
        runtime.scopes,
        runtime.fibers@[fiber],
        all_met(
            runtime,
            runtime.fibers@[fiber].scope,
            runtime.fibers@[fiber].descriptor.dependencies@,
        ),
    ) is None
}

/// What is met does not depend on the cache.
proof fn lemma_met_same(before: Runtime, after: Runtime, scope: ScopeId, keys: Seq<ServiceKey>)
    requires
        after == (Runtime { services: after.services, ..before }),
        after.services.same_but_cache(&before.services),
    ensures
        all_met(after, scope, keys) == all_met(before, scope, keys),
{
    if all_met(before, scope, keys) {
        assert forall|i: int| 0 <= i < keys.len() implies nearest(
            after.services@,
            after.gates,
            line_of(after.scopes, scope),
            after.services.symbol_of((#[trigger] keys[i])@)->0,
        ) is Some by {
            assert(before.services.symbol_of(keys[i]@) == after.services.symbol_of(keys[i]@));
        }
    }
    if all_met(after, scope, keys) {
        assert forall|i: int| 0 <= i < keys.len() implies nearest(
            before.services@,
            before.gates,
            line_of(before.scopes, scope),
            before.services.symbol_of((#[trigger] keys[i])@)->0,
        ) is Some by {
            assert(before.services.symbol_of(keys[i]@) == after.services.symbol_of(keys[i]@));
        }
    }
}

} // verus!
