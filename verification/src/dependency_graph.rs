//! Who provides what, who wants what, and whether that can work out.
use crate::error::CordisError;
use crate::id_list::holds;
use crate::ids::{FiberId, ScopeId, ServiceSymbol};
use vstd::prelude::*;

verus! {

/// A declared service of a fiber: provided in a scope, or wanted.
#[derive(Clone, Copy, Debug, PartialEq, Eq, Structural)]
pub struct Edge {
    pub scope: Option<ScopeId>,
    pub symbol: ServiceSymbol,
    pub fiber: FiberId,
}

/// A set of edges, listed in the order in which they came.
pub struct EdgeSet {
    pub edges: Vec<Edge>,
}

impl View for EdgeSet {
    type V = Set<Edge>;

    open spec fn view(&self) -> Set<Edge> {
        self.edges@.to_set()
    }
}

/// The fibers of the edges at `scope` and `symbol`, in order.
pub open spec fn fibers_of(
    edges: Seq<Edge>,
    scope: Option<ScopeId>,
    symbol: ServiceSymbol,
) -> Seq<u64>
    decreases edges.len(),
{
    if edges.len() == 0 {
        Seq::empty()
    } else {
        let before = fibers_of(edges.drop_last(), scope, symbol);
        let edge = edges.last();
        if edge.scope == scope && edge.symbol == symbol {
            before.push(edge.fiber.raw)
        } else {
            before
        }
    }
}

pub(crate) proof fn lemma_fibers_of(
    edges: Seq<Edge>,
    scope: Option<ScopeId>,
    symbol: ServiceSymbol,
    fiber: FiberId,
)
    ensures
        fibers_of(edges, scope, symbol).contains(fiber.raw) <==> edges.contains(
            Edge { scope, symbol, fiber },
        ),
    decreases edges.len(),
{
    let wanted = Edge { scope, symbol, fiber };
    if edges.len() > 0 {
        lemma_fibers_of(edges.drop_last(), scope, symbol, fiber);
        let before = fibers_of(edges.drop_last(), scope, symbol);
        let edge = edges.last();
        vstd::seq_lib::lemma_seq_contains_after_push(before, edge.fiber.raw, fiber.raw);
        assert(edges =~= edges.drop_last().push(edge));
        vstd::seq_lib::lemma_seq_contains_after_push(edges.drop_last(), edge, wanted);
    }
}

impl EdgeSet {
    /// No edge is listed twice.
    pub open spec fn wf(&self) -> bool {
        self.edges@.no_duplicates()
    }

    pub fn new() -> (set: Self)
        ensures
            set.wf(),
            set@ == Set::<Edge>::empty(),
            set.edges@ == Seq::<Edge>::empty(),
    {
        let set = EdgeSet { edges: Vec::new() };
        assert(set@ =~= Set::<Edge>::empty());
        set
    }

    pub fn contains(&self, edge: Edge) -> (found: bool)
        ensures
            found == self@.contains(edge),
    {
        let mut i: usize = 0;
        while i < self.edges.len()
            invariant
                i <= self.edges@.len(),
                forall|k: int| 0 <= k < i ==> self.edges@[k] != edge,
            decreases self.edges@.len() - i,
        {
            if self.edges[i] == edge {
                assert(self.edges@[i as int] == edge);
                return true;
            }
            i += 1;
        }
        false
    }

    pub fn insert(&mut self, edge: Edge)
        requires
            old(self).wf(),
        ensures
            final(self).wf(),
            final(self)@ == old(self)@.insert(edge),
    {
        if self.contains(edge) {
            assert(self@ =~= old(self)@.insert(edge));
            return;
        }
        self.edges.push(edge);
        proof {
            assert(!old(self).edges@.contains(edge));
            assert forall|other: Edge| #[trigger] self@.contains(other) <==> old(self)@.insert(
                edge,
            ).contains(other) by {
                vstd::seq_lib::lemma_seq_contains_after_push(old(self).edges@, edge, other);
            }
            assert(self@ =~= old(self)@.insert(edge));
        }
    }

    /// Keeps the edges that are not `edge`, in order.
    pub fn remove(&mut self, edge: Edge)
        requires
            old(self).wf(),
        ensures
            final(self).wf(),
            final(self)@ == old(self)@.remove(edge),
    {
        let mut kept: Vec<Edge> = Vec::new();
        let mut i: usize = 0;
        while i < self.edges.len()
            invariant
                self.wf(),
                i <= self.edges@.len(),
                kept@.no_duplicates(),
                forall|other: Edge| #[trigger]
                    kept@.contains(other) <==> self.edges@.take(i as int).contains(other) && other
                        != edge,
            decreases self.edges@.len() - i,
        {
            let next = self.edges[i];
            proof {
                lemma_take_contains(self.edges@, i as int);
            }
            if next != edge {
                let ghost before = kept@;
                proof {
                    assert(!before.contains(next));
                }
                kept.push(next);
                proof {
                    assert forall|other: Edge| #[trigger] kept@.contains(other) <==> before.contains(
                        other,
                    ) || other == next by {
                        vstd::seq_lib::lemma_seq_contains_after_push(before, next, other);
                    }
                }
            }
            i += 1;
        }
        proof {
            assert(self.edges@.take(i as int) =~= self.edges@);
        }
        self.edges = kept;
        assert(self@ =~= old(self)@.remove(edge));
    }

    /// Drops the edges of the fibers in `removed`.
    pub fn discard_fibers(&mut self, removed: &Vec<u64>)
        requires
            old(self).wf(),
        ensures
            final(self).wf(),
            forall|edge: Edge| #[trigger]
                final(self)@.contains(edge) <==> old(self)@.contains(edge) && !removed@.contains(
                    edge.fiber.raw,
                ),
    {
        let mut kept: Vec<Edge> = Vec::new();
        let mut i: usize = 0;
        while i < self.edges.len()
            invariant
                self.wf(),
                i <= self.edges@.len(),
                kept@.no_duplicates(),
                forall|other: Edge| #[trigger]
                    kept@.contains(other) <==> self.edges@.take(i as int).contains(other)
                        && !removed@.contains(other.fiber.raw),
            decreases self.edges@.len() - i,
        {
            let next = self.edges[i];
            proof {
                lemma_take_contains(self.edges@, i as int);
            }
            if !holds(removed.as_slice(), next.fiber.raw) {
                let ghost before = kept@;
                proof {
                    assert(!before.contains(next));
                }
                kept.push(next);
                proof {
                    assert forall|other: Edge| #[trigger] kept@.contains(other) <==> before.contains(
                        other,
                    ) || other == next by {
                        vstd::seq_lib::lemma_seq_contains_after_push(before, next, other);
                    }
                }
            }
            i += 1;
        }
        proof {
            assert(self.edges@.take(i as int) =~= self.edges@);
        }
        self.edges = kept;
    }

    /// The fibers with an edge at `scope` and `symbol`, in order.
    pub fn fibers_at(&self, scope: Option<ScopeId>, symbol: ServiceSymbol) -> (fibers: Vec<u64>)
        ensures
            fibers@ == fibers_of(self.edges@, scope, symbol),
            forall|fiber: FiberId|
                fibers@.contains(fiber.raw) <==> #[trigger] self@.contains(
                    Edge { scope, symbol, fiber },
                ),
    {
        let mut fibers: Vec<u64> = Vec::new();
        let mut i: usize = 0;
        while i < self.edges.len()
            invariant
                i <= self.edges@.len(),
                fibers@ == fibers_of(self.edges@.take(i as int), scope, symbol),
            decreases self.edges@.len() - i,
        {
            proof {
                assert(self.edges@.take(i + 1).drop_last() =~= self.edges@.take(i as int));
            }
            let edge = self.edges[i];
            if edge.scope == scope && edge.symbol == symbol {
                fibers.push(edge.fiber.raw);
            }
            i += 1;
        }
        proof {
            assert(self.edges@.take(i as int) =~= self.edges@);
            assert forall|fiber: FiberId|
                fibers@.contains(fiber.raw) <==> #[trigger] self@.contains(
                    Edge { scope, symbol, fiber },
                ) by {
                lemma_fibers_of(self.edges@, scope, symbol, fiber);
            }
        }
        fibers
    }
}

proof fn lemma_take_contains(edges: Seq<Edge>, i: int)
    requires
        0 <= i < edges.len(),
        edges.no_duplicates(),
    ensures
        forall|other: Edge| #[trigger]
            edges.take(i + 1).contains(other) <==> edges.take(i).contains(other) || other
                == edges[i],
        !edges.take(i).contains(edges[i]),
{
    assert(edges.take(i + 1) =~= edges.take(i).push(edges[i]));
    assert forall|other: Edge| #[trigger]
        edges.take(i + 1).contains(other) <==> edges.take(i).contains(other) || other
            == edges[i] by {
        vstd::seq_lib::lemma_seq_contains_after_push(edges.take(i), edges[i], other);
    }
}

/// The declared provisions and dependencies of all fibers.
pub struct DependencyGraph {
    pub providers: EdgeSet,
    pub dependents: EdgeSet,
}

/// The edges of `fiber` that provide `symbols` in `scope`.
pub open spec fn provisions(
    scope: ScopeId,
    symbols: Seq<ServiceSymbol>,
    fiber: FiberId,
) -> Set<Edge> {
    Set::new(
        |edge: Edge|
            edge.scope == Some(scope) && edge.fiber == fiber && symbols.contains(edge.symbol),
    )
}

impl DependencyGraph {
    pub open spec fn wf(&self) -> bool {
        self.providers.wf() && self.dependents.wf()
    }

    /// Whether `fiber` declares to provide `symbol` in `scope`.
    pub open spec fn provides(&self, scope: ScopeId, symbol: ServiceSymbol, fiber: FiberId) -> bool {
        self.providers@.contains(Edge { scope: Some(scope), symbol, fiber })
    }

    /// Whether `fiber` declares to depend on `symbol`.
    pub open spec fn depends(&self, symbol: ServiceSymbol, fiber: FiberId) -> bool {
        self.dependents@.contains(Edge { scope: None, symbol, fiber })
    }

    pub fn new() -> (graph: Self)
        ensures
            graph.wf(),
            graph.providers@ == Set::<Edge>::empty(),
            graph.dependents@ == Set::<Edge>::empty(),
    {
        DependencyGraph { providers: EdgeSet::new(), dependents: EdgeSet::new() }
    }

    pub fn add_dependency(&mut self, symbol: ServiceSymbol, fiber: FiberId)
        requires
            old(self).wf(),
        ensures
            final(self).wf(),
            final(self).providers == old(self).providers,
            final(self).dependents@ == old(self).dependents@.insert(
                Edge { scope: None, symbol, fiber },
            ),
    {
        self.dependents.insert(Edge { scope: None, symbol, fiber });
    }

    pub fn remove_dependency(&mut self, symbol: ServiceSymbol, fiber: FiberId)
        requires
            old(self).wf(),
        ensures
            final(self).wf(),
            final(self).providers == old(self).providers,
            final(self).dependents@ == old(self).dependents@.remove(
                Edge { scope: None, symbol, fiber },
            ),
    {
        self.dependents.remove(Edge { scope: None, symbol, fiber });
    }

    pub fn add_provider(&mut self, scope: ScopeId, symbol: ServiceSymbol, fiber: FiberId)
        requires
            old(self).wf(),
        ensures
            final(self).wf(),
            final(self).dependents == old(self).dependents,
            final(self).providers@ == old(self).providers@.insert(
                Edge { scope: Some(scope), symbol, fiber },
            ),
    {
        self.providers.insert(Edge { scope: Some(scope), symbol, fiber });
    }

    pub fn remove_provider(&mut self, scope: ScopeId, symbol: ServiceSymbol, fiber: FiberId)
        requires
            old(self).wf(),
        ensures
            final(self).wf(),
            final(self).dependents == old(self).dependents,
            final(self).providers@ == old(self).providers@.remove(
                Edge { scope: Some(scope), symbol, fiber },
            ),
    {
        self.providers.remove(Edge { scope: Some(scope), symbol, fiber });
    }

    /// The fibers that declare to provide `symbol` in `scope`.
    pub fn providers(&self, scope: ScopeId, symbol: ServiceSymbol) -> (fibers: Vec<u64>)
        ensures
            fibers@ == fibers_of(self.providers.edges@, Some(scope), symbol),
            forall|fiber: FiberId|
                fibers@.contains(fiber.raw) <==> #[trigger] self.provides(scope, symbol, fiber),
    {
        self.providers.fibers_at(Some(scope), symbol)
    }

    /// The fibers that declare to depend on `symbol`.
    pub fn dependents(&self, symbol: ServiceSymbol) -> (fibers: Vec<u64>)
        ensures
            fibers@ == fibers_of(self.dependents.edges@, None, symbol),
            forall|fiber: FiberId|
                fibers@.contains(fiber.raw) <==> #[trigger] self.depends(symbol, fiber),
    {
        self.dependents.fibers_at(None, symbol)
    }

    /// Forgets the fibers in `removed`.
    pub fn discard_fibers(&mut self, removed: &Vec<u64>)
        requires
            old(self).wf(),
        ensures
            final(self).wf(),
            forall|edge: Edge| #[trigger]
                final(self).providers@.contains(edge) <==> old(self).providers@.contains(edge)
                    && !removed@.contains(edge.fiber.raw),
            forall|edge: Edge| #[trigger]
                final(self).dependents@.contains(edge) <==> old(self).dependents@.contains(edge)
                    && !removed@.contains(edge.fiber.raw),
    {
        self.providers.discard_fibers(removed);
        self.dependents.discard_fibers(removed);
    }

    /// Whether `staged` declares to provide each of `symbols` in `scope`.
    pub open spec fn provides_all(
        &self,
        scope: ScopeId,
        symbols: Seq<ServiceSymbol>,
        staged: FiberId,
    ) -> bool {
        forall|k: int|
            0 <= k < symbols.len() ==> self.provides(scope, #[trigger] symbols[k], staged)
    }

    /// Moves the provisions `symbols` of `staged` from one scope to another: all
    /// of them, or none where one is missing.
    pub fn move_providers(
        &mut self,
        from: ScopeId,
        to: ScopeId,
        symbols: &Vec<ServiceSymbol>,
        staged: FiberId,
    ) -> (result: Result<(), CordisError>)
        requires
            old(self).wf(),
        ensures
            final(self).wf(),
            final(self).dependents == old(self).dependents,
            match result {
                Ok(()) => {
                    &&& old(self).provides_all(from, symbols@, staged)
                    &&& final(self).providers@ == old(self).providers@.difference(
                        provisions(from, symbols@, staged),
                    ).union(provisions(to, symbols@, staged))
                },
                Err(error) => {
                    &&& !old(self).provides_all(from, symbols@, staged)
                    &&& error matches CordisError::RevisionValidationFailed(message)
                    &&& message@ == "declared providers changed before reload commit"@
                    &&& *final(self) == *old(self)
                },
            },
    {
        let mut i: usize = 0;
        while i < symbols.len()
            invariant
                *self == *old(self),
                self.wf(),
                i <= symbols@.len(),
                forall|k: int|
                    0 <= k < i ==> self.provides(from, #[trigger] symbols@[k], staged),
            decreases symbols@.len() - i,
        {
            let edge = Edge { scope: Some(from), symbol: symbols[i], fiber: staged };
            if !self.providers.contains(edge) {
                assert(!self.provides(from, symbols@[i as int], staged));
                return Err(
                    CordisError::RevisionValidationFailed(
                        "declared providers changed before reload commit".to_owned(),
                    ),
                );
            }
            i += 1;
        }
        let ghost before = self.providers@;
        let mut j: usize = 0;
        while j < symbols.len()
            invariant
                self.wf(),
                self.dependents == old(self).dependents,
                j <= symbols@.len(),
                self.providers@ == before.difference(
                    provisions(from, symbols@.take(j as int), staged),
                ),
            decreases symbols@.len() - j,
        {
            let edge = Edge { scope: Some(from), symbol: symbols[j], fiber: staged };
            proof {
                lemma_take_symbols(symbols@, j as int);
            }
            self.providers.remove(edge);
            j += 1;
            proof {
                assert(self.providers@ =~= before.difference(
                    provisions(from, symbols@.take(j as int), staged),
                ));
            }
        }
        let mut j: usize = 0;
        proof {
            assert(symbols@.take(symbols@.len() as int) =~= symbols@);
            assert(self.providers@ =~= before.difference(
                provisions(from, symbols@, staged),
            ).union(provisions(to, symbols@.take(0), staged)));
        }
        while j < symbols.len()
            invariant
                self.wf(),
                self.dependents == old(self).dependents,
                j <= symbols@.len(),
                self.providers@ == before.difference(provisions(from, symbols@, staged)).union(
                    provisions(to, symbols@.take(j as int), staged),
                ),
            decreases symbols@.len() - j,
        {
            let edge = Edge { scope: Some(to), symbol: symbols[j], fiber: staged };
            proof {
                lemma_take_symbols(symbols@, j as int);
            }
            self.providers.insert(edge);
            j += 1;
            proof {
                assert(self.providers@ =~= before.difference(
                    provisions(from, symbols@, staged),
                ).union(provisions(to, symbols@.take(j as int), staged)));
            }
        }
        proof {
            assert(symbols@.take(j as int) =~= symbols@);
        }
        Ok(())
    }

    /// For each of `symbols`: whether `staged` declares to provide it in `from`,
    /// and whether in `to`.
    pub fn provider_revision_snapshot(
        &self,
        from: ScopeId,
        to: ScopeId,
        symbols: &Vec<ServiceSymbol>,
        staged: FiberId,
    ) -> (snapshot: Vec<(bool, bool)>)
        ensures
            snapshot@.len() == symbols@.len(),
            forall|k: int|
                0 <= k < symbols@.len() ==> #[trigger] snapshot@[k] == (
                    self.provides(from, symbols@[k], staged),
                    self.provides(to, symbols@[k], staged),
                ),
    {
        let mut snapshot: Vec<(bool, bool)> = Vec::new();
        let mut i: usize = 0;
        while i < symbols.len()
            invariant
                i <= symbols@.len(),
                snapshot@.len() == i,
                forall|k: int|
                    0 <= k < i ==> #[trigger] snapshot@[k] == (
                        self.provides(from, symbols@[k], staged),
                        self.provides(to, symbols@[k], staged),
                    ),
            decreases symbols@.len() - i,
        {
            let symbol = symbols[i];
            let here = self.providers.contains(Edge { scope: Some(from), symbol, fiber: staged });
            let there = self.providers.contains(Edge { scope: Some(to), symbol, fiber: staged });
            snapshot.push((here, there));
            i += 1;
        }
        snapshot
    }
}

proof fn lemma_take_symbols(symbols: Seq<ServiceSymbol>, j: int)
    requires
        0 <= j < symbols.len(),
    ensures
        forall|other: ServiceSymbol| #[trigger]
            symbols.take(j + 1).contains(other) <==> symbols.take(j).contains(other) || other
                == symbols[j],
{
    assert(symbols.take(j + 1) =~= symbols.take(j).push(symbols[j]));
    assert forall|other: ServiceSymbol| #[trigger]
        symbols.take(j + 1).contains(other) <==> symbols.take(j).contains(other) || other
            == symbols[j] by {
        vstd::seq_lib::lemma_seq_contains_after_push(symbols.take(j), symbols[j], other);
    }
}

/// Moving provisions there and back restores them, where none was in the other
/// scope before.
pub proof fn law_providers_move_back(
    before: Set<Edge>,
    from: ScopeId,
    to: ScopeId,
    symbols: Seq<ServiceSymbol>,
    staged: FiberId,
)
    requires
        provisions(from, symbols, staged).subset_of(before),
        from != to,
        before.disjoint(provisions(to, symbols, staged)),
    ensures
        ({
            let moved = before.difference(provisions(from, symbols, staged)).union(
                provisions(to, symbols, staged),
            );
            moved.difference(provisions(to, symbols, staged)).union(
                provisions(from, symbols, staged),
            ) == before
        }),
{
    let moved = before.difference(provisions(from, symbols, staged)).union(
        provisions(to, symbols, staged),
    );
    assert(moved.difference(provisions(to, symbols, staged)).union(
        provisions(from, symbols, staged),
    ) =~= before);
}

/// What a fiber needs: the fibers that provide its dependencies.
pub struct Need {
    pub fiber: u64,
    pub providers: Vec<u64>,
}

/// What a need says.
pub struct NeedView {
    pub fiber: u64,
    pub providers: Seq<u64>,
}

/// What each need says.
pub open spec fn need_views(needs: Seq<Need>) -> Seq<NeedView> {
    Seq::new(
        needs.len(),
        |i: int| NeedView { fiber: needs[i].fiber, providers: needs[i].providers@ },
    )
}

/// Whether `rank` puts each provider before the fibers that need it.
pub open spec fn puts_providers_first(needs: Seq<NeedView>, rank: Map<u64, nat>) -> bool {
    forall|i: int, k: int|
        #![trigger needs[i].providers[k]]
        0 <= i < needs.len() && 0 <= k < needs[i].providers.len()
            ==> rank[needs[i].providers[k]] < rank[needs[i].fiber]
}

/// Whether the fibers can be put in an order in which each comes after those it
/// needs.
pub open spec fn is_acyclic(needs: Seq<NeedView>) -> bool {
    exists|rank: Map<u64, nat>| puts_providers_first(needs, rank)
}

/// Whether the fiber of `needs[i]` waits for one that is itself waiting.
spec fn is_stuck(needs: Seq<Need>, waiting: Seq<bool>, i: int) -> bool {
    exists|k: int, j: int|
        #![trigger needs[i].providers@[k], needs[j]]
        0 <= k < needs[i].providers@.len() && 0 <= j < needs.len() && waiting[j]
            && needs[j].fiber == needs[i].providers@[k]
}

/// A set of fibers that wait for each other cannot be put in order.
proof fn lemma_stuck(needs: Seq<Need>, waiting: Seq<bool>, rank: Map<u64, nat>, i: int)
    requires
        waiting.len() == needs.len(),
        0 <= i < needs.len(),
        waiting[i],
        forall|i: int| 0 <= i < needs.len() && #[trigger] waiting[i] ==> is_stuck(
            needs,
            waiting,
            i,
        ),
    ensures
        !puts_providers_first(need_views(needs), rank),
    decreases rank[needs[i].fiber],
{
    if puts_providers_first(need_views(needs), rank) {
        assert(is_stuck(needs, waiting, i));
        let (k, j) = choose|k: int, j: int|
            #![trigger needs[i].providers@[k], needs[j]]
            0 <= k < needs[i].providers@.len() && 0 <= j < needs.len() && waiting[j]
                && needs[j].fiber == needs[i].providers@[k];
        assert(need_views(needs)[i].providers[k] == needs[i].providers@[k]);
        assert(rank[needs[i].providers@[k]] < rank[needs[i].fiber]);
        lemma_stuck(needs, waiting, rank, j);
    }
}

/// Whether `needs[i]` waits for one that is itself waiting.
fn waits(needs: &Vec<Need>, waiting: &Vec<bool>, i: usize) -> (stuck: bool)
    requires
        waiting@.len() == needs@.len(),
        i < needs@.len(),
    ensures
        stuck == is_stuck(needs@, waiting@, i as int),
{
    let mut j: usize = 0;
    while j < needs.len()
        invariant
            waiting@.len() == needs@.len(),
            i < needs@.len(),
            j <= needs@.len(),
            forall|h: int, k: int|
                #![trigger needs@[i as int].providers@[k], needs@[h]]
                0 <= h < j && waiting@[h] && 0 <= k < needs@[i as int].providers@.len()
                    ==> needs@[h].fiber != needs@[i as int].providers@[k],
        decreases needs@.len() - j,
    {
        if waiting[j] && holds(needs[i].providers.as_slice(), needs[j].fiber) {
            proof {
                let k = choose|k: int|
                    0 <= k < needs@[i as int].providers@.len() && needs@[i as int].providers@[k]
                        == needs@[j as int].fiber;
                assert(needs@[i as int].providers@[k] == needs@[j as int].fiber);
            }
            return true;
        }
        proof {
            assert forall|k: int|
                #![trigger needs@[i as int].providers@[k]]
                waiting@[j as int] && 0 <= k
                    < needs@[i as int].providers@.len() implies needs@[j as int].fiber
                != needs@[i as int].providers@[k] by {
                assert(needs@[i as int].providers@.contains(needs@[i as int].providers@[k]));
            }
        }
        j += 1;
    }
    false
}

impl DependencyGraph {
    /// Reports whether the fibers can be put in an order in which each comes
    /// after those it needs.
    pub fn validate_cycles(needs: &Vec<Need>) -> (result: Result<(), CordisError>)
        requires
            forall|i: int, j: int|
                0 <= i < j < needs@.len() ==> (#[trigger] needs@[i]).fiber != (
                #[trigger] needs@[j]).fiber,
        ensures
            match result {
                Ok(()) => is_acyclic(need_views(needs@)),
                Err(error) => error is DependencyCycle && !is_acyclic(need_views(needs@)),
            },
    {
        let mut waiting: Vec<bool> = Vec::new();
        let mut left: usize = 0;
        while left < needs.len()
            invariant
                left <= needs@.len(),
                waiting@.len() == left,
                forall|k: int| 0 <= k < left ==> waiting@[k],
            decreases needs@.len() - left,
        {
            waiting.push(true);
            left += 1;
        }
        proof {
            lemma_count_all(waiting@);
        }
        let ghost mut rank: Map<u64, nat> = Map::total(|fiber: u64| 0nat);
        let ghost mut step: nat = 1;
        loop
            invariant
                waiting@.len() == needs@.len(),
                forall|i: int, j: int|
                    0 <= i < j < needs@.len() ==> (#[trigger] needs@[i]).fiber != (
                    #[trigger] needs@[j]).fiber,
                step >= 1,
                left == count(waiting@),
                forall|fiber: u64| #[trigger] rank[fiber] < step,
                forall|i: int, k: int|
                    #![trigger needs@[i].providers@[k]]
                    0 <= i < needs@.len() && !waiting@[i] && 0 <= k < needs@[i].providers@.len()
                        ==> rank[needs@[i].providers@[k]] < rank[needs@[i].fiber],
                forall|i: int, k: int, j: int|
                    #![trigger needs@[i].providers@[k], needs@[j]]
                    0 <= i < needs@.len() && !waiting@[i] && 0 <= k < needs@[i].providers@.len()
                        && 0 <= j < needs@.len() && needs@[j].fiber == needs@[i].providers@[k]
                        ==> !waiting@[j],
            decreases left,
        {
            let ghost before = waiting@;
            let mut free: Option<usize> = None;
            let mut i: usize = 0;
            while i < needs.len() && free.is_none()
                invariant
                    waiting@ == before,
                    waiting@.len() == needs@.len(),
                    i <= needs@.len(),
                    free is None ==> forall|h: int|
                        0 <= h < i && #[trigger] waiting@[h] ==> is_stuck(needs@, waiting@, h),
                    free matches Some(f) ==> f < needs@.len() && waiting@[f as int] && !is_stuck(
                        needs@,
                        waiting@,
                        f as int,
                    ),
                decreases needs@.len() - i,
            {
                if waiting[i] && !waits(needs, &waiting, i) {
                    free = Some(i);
                }
                i += 1;
            }
            match free {
                Some(f) => {
                    proof {
                        let done = needs@[f as int].fiber;
                        assert forall|k: int|
                            #![trigger needs@[f as int].providers@[k]]
                            0 <= k < needs@[f as int].providers@.len() implies
                            needs@[f as int].providers@[k] != done by {
                            if needs@[f as int].providers@[k] == done {
                                assert(needs@[f as int].fiber == needs@[f as int].providers@[k]);
                                assert(is_stuck(needs@, waiting@, f as int));
                            }
                        }
                        assert forall|i: int, k: int|
                            #![trigger needs@[i].providers@[k]]
                            0 <= i < needs@.len() && !before[i] && 0 <= k
                                < needs@[i].providers@.len() implies needs@[i].providers@[k]
                            != done by {
                            if needs@[i].providers@[k] == done {
                                assert(needs@[f as int].fiber == needs@[i].providers@[k]);
                            }
                        }
                        rank = rank.insert(done, step);
                        step = step + 1;
                        lemma_count_update(before, f as int);
                    }
                    waiting.set(f, false);
                    left -= 1;
                    proof {
                        assert forall|i: int, k: int, j: int|
                            #![trigger needs@[i].providers@[k], needs@[j]]
                            0 <= i < needs@.len() && !waiting@[i] && 0 <= k
                                < needs@[i].providers@.len() && 0 <= j < needs@.len()
                                && needs@[j].fiber == needs@[i].providers@[k] implies
                            !waiting@[j] by {
                            if i == f && before[j] {
                                assert(is_stuck(needs@, before, f as int));
                            }
                        }
                    }
                },
                None => {
                    if left == 0 {
                        proof {
                            assert forall|i: int| 0 <= i < needs@.len() implies !(
                            #[trigger] waiting@[i]) by {
                                lemma_count_zero(waiting@, i);
                            }
                            assert(puts_providers_first(need_views(needs@), rank)) by {
                                assert forall|i: int, k: int|
                                    #![trigger need_views(needs@)[i].providers[k]]
                                    0 <= i < needs@.len() && 0 <= k < need_views(
                                        needs@,
                                    )[i].providers.len() implies rank[need_views(
                                    needs@,
                                )[i].providers[k]] < rank[need_views(needs@)[i].fiber] by {
                                    assert(!waiting@[i]);
                                    assert(rank[needs@[i].providers@[k]] < rank[needs@[i].fiber]);
                                }
                            }
                        }
                        return Ok(());
                    }
                    proof {
                        let first = lemma_count_positive(waiting@);
                        assert forall|rank: Map<u64, nat>|
                            !puts_providers_first(need_views(needs@), rank) by {
                            lemma_stuck(needs@, waiting@, rank, first);
                        }
                    }
                    return Err(CordisError::DependencyCycle);
                },
            }
        }
    }
}

/// Number of flags that are set.
spec fn count(flags: Seq<bool>) -> nat
    decreases flags.len(),
{
    if flags.len() == 0 {
        0
    } else {
        count(flags.drop_last()) + (if flags.last() {
            1nat
        } else {
            0nat
        })
    }
}

proof fn lemma_count_update(flags: Seq<bool>, i: int)
    requires
        0 <= i < flags.len(),
        flags[i],
    ensures
        count(flags) > 0,
        count(flags.update(i, false)) == count(flags) - 1,
    decreases flags.len(),
{
    let after = flags.update(i, false);
    if i == flags.len() - 1 {
        assert(after.drop_last() =~= flags.drop_last());
    } else {
        lemma_count_update(flags.drop_last(), i);
        assert(after.drop_last() =~= flags.drop_last().update(i, false));
    }
}

proof fn lemma_count_zero(flags: Seq<bool>, i: int)
    requires
        0 <= i < flags.len(),
        count(flags) == 0,
    ensures
        !flags[i],
    decreases flags.len(),
{
    if i < flags.len() - 1 {
        lemma_count_zero(flags.drop_last(), i);
    }
}

proof fn lemma_count_positive(flags: Seq<bool>) -> (i: int)
    requires
        count(flags) > 0,
    ensures
        0 <= i < flags.len(),
        flags[i],
    decreases flags.len(),
{
    if flags.last() {
        flags.len() - 1
    } else {
        lemma_count_positive(flags.drop_last())
    }
}

proof fn lemma_count_all(flags: Seq<bool>)
    requires
        forall|k: int| 0 <= k < flags.len() ==> flags[k],
    ensures
        count(flags) == flags.len(),
    decreases flags.len(),
{
    if flags.len() > 0 {
        lemma_count_all(flags.drop_last());
    }
}

/// Whether each fiber of the circle needs the next one, and the last one the first.
pub open spec fn is_circle(needs: Seq<NeedView>, circle: Seq<int>) -> bool {
    &&& circle.len() > 0
    &&& forall|i: int|
        0 <= i < circle.len() ==> 0 <= #[trigger] circle[i] < needs.len()
    &&& forall|i: int, j: int|
        #![trigger circle[i], circle[j]]
        0 <= i < circle.len() && 0 <= j < circle.len() && (j == i + 1 || (i == circle.len() - 1
            && j == 0)) ==> needs[circle[i]].providers.contains(needs[circle[j]].fiber)
}

/// Along a circle the rank falls.
proof fn lemma_falls(needs: Seq<NeedView>, circle: Seq<int>, rank: Map<u64, nat>, n: int)
    requires
        is_circle(needs, circle),
        puts_providers_first(needs, rank),
        0 <= n < circle.len(),
    ensures
        rank[needs[circle[n]].fiber] + n <= rank[needs[circle[0]].fiber],
    decreases n,
{
    if n > 0 {
        lemma_falls(needs, circle, rank, n - 1);
        let need = needs[circle[n - 1]];
        assert(need.providers.contains(needs[circle[n]].fiber));
        let k = need.providers.index_of(needs[circle[n]].fiber);
        assert(rank[needs[circle[n - 1]].providers[k]] < rank[needs[circle[n - 1]].fiber]);
    }
}

/// Fibers that need each other in a circle, however long, cannot be put in order; fibers that
/// need only such as need nothing can.
pub proof fn law_circles_cannot_be_ordered(needs: Seq<NeedView>, circle: Seq<int>)
    ensures
        is_circle(needs, circle) ==> !is_acyclic(needs),
        (forall|i: int, k: int, j: int|
            #![trigger needs[i].providers[k], needs[j]]
            0 <= i < needs.len() && 0 <= k < needs[i].providers.len() && 0 <= j < needs.len()
                ==> needs[j].fiber != needs[i].providers[k]) ==> is_acyclic(needs),
{
    if is_circle(needs, circle) && is_acyclic(needs) {
        let rank = choose|rank: Map<u64, nat>| puts_providers_first(needs, rank);
        let n = circle.len() - 1;
        lemma_falls(needs, circle, rank, n);
        let need = needs[circle[n]];
        assert(need.providers.contains(needs[circle[0]].fiber));
        let k = need.providers.index_of(needs[circle[0]].fiber);
        assert(rank[needs[circle[n]].providers[k]] < rank[needs[circle[n]].fiber]);
    }
    if forall|i: int, k: int, j: int|
        #![trigger needs[i].providers[k], needs[j]]
        0 <= i < needs.len() && 0 <= k < needs[i].providers.len() && 0 <= j < needs.len()
            ==> needs[j].fiber != needs[i].providers[k] {
        let rank = Map::<u64, nat>::new(
            |fiber: u64| true,
            |fiber: u64|
                if exists|j: int| 0 <= j < needs.len() && (#[trigger] needs[j]).fiber == fiber {
                    1nat
                } else {
                    0nat
                },
        );
        assert forall|i: int, k: int|
            #![trigger needs[i].providers[k]]
            0 <= i < needs.len() && 0 <= k < needs[i].providers.len() implies rank[needs[i].providers[k]]
            < rank[needs[i].fiber] by {
            assert(needs[i].fiber == needs[i].fiber);
        }
        assert(puts_providers_first(needs, rank));
    }
}

} // verus!
