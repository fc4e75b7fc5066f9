//! The tree of scopes.
use crate::arena::Arena;
#[allow(unused_imports)]
use crate::arena::{
    id_index, id_version, issues, law_retired_ids_stay_retired, next_version,
};
use crate::disposal::ScopeDisposal;
use crate::error::CordisError;
#[allow(unused_imports)]
use crate::id_list::except;
use crate::id_list::IdList;
use crate::ids::ScopeId;
use crate::state::ScopeState;
use std::sync::Arc;
use vstd::prelude::*;

verus! {

/// One scope.
pub struct ScopeRecord {
    pub name: Arc<String>,
    pub parent: Option<ScopeId>,
    pub children: IdList,
    pub fibers: IdList,
    pub state: ScopeState,
    pub hidden: bool,
    pub disposal: ScopeDisposal,
}

impl ScopeRecord {
    /// An active scope without contents.
    pub open spec fn is_fresh(self, parent: Option<ScopeId>, hidden: bool) -> bool {
        &&& self.parent == parent
        &&& self.children@ == Seq::<u64>::empty()
        &&& self.fibers@ == Seq::<u64>::empty()
        &&& self.state is Active
        &&& self.hidden == hidden
        &&& self.disposal.is_idle()
    }

    fn fresh(name: Arc<String>, parent: Option<ScopeId>, hidden: bool) -> (record: Self)
        ensures
            record.is_fresh(parent, hidden),
            record.name == name,
    {
        ScopeRecord {
            name,
            parent,
            children: IdList::new(),
            fibers: IdList::new(),
            state: ScopeState::Active,
            hidden,
            disposal: ScopeDisposal::idle(),
        }
    }
}

/// The scopes by id.
pub type Scopes = Map<u64, ScopeRecord>;

/// Whether `id` has a parent among `scopes`.
pub open spec fn has_parent(scopes: Scopes, id: u64) -> bool {
    &&& scopes.dom().contains(id)
    &&& scopes[id].parent is Some
    &&& scopes.dom().contains(scopes[id].parent->0.raw)
}

/// Whether `rank` grows from each parent to its children.
pub open spec fn is_ranked(scopes: Scopes, rank: Map<u64, nat>) -> bool {
    forall|id: u64| #[trigger]
        has_parent(scopes, id) ==> rank[scopes[id].parent->0.raw] < rank[id]
}

/// `id` and the scopes above it, as far up as they exist.
pub open spec fn lineage(scopes: Scopes, rank: Map<u64, nat>, id: u64) -> Seq<u64>
    decreases rank[id],
    when is_ranked(scopes, rank)
{
    if has_parent(scopes, id) {
        seq![id] + lineage(scopes, rank, scopes[id].parent->0.raw)
    } else if scopes.dom().contains(id) {
        seq![id]
    } else {
        Seq::empty()
    }
}

/// Whether the scopes above `id` all exist, up to one without a parent.
pub open spec fn is_rooted(scopes: Scopes, rank: Map<u64, nat>, id: u64) -> bool
    decreases rank[id],
    when is_ranked(scopes, rank)
{
    if has_parent(scopes, id) {
        is_rooted(scopes, rank, scopes[id].parent->0.raw)
    } else {
        scopes.dom().contains(id) && scopes[id].parent is None
    }
}

/// The handles as raw ids.
pub open spec fn raw_scopes(scopes: Seq<ScopeId>) -> Seq<u64> {
    Seq::new(scopes.len(), |i: int| scopes[i].raw)
}

/// `scopes` from the last to the first.
fn reversed(scopes: &Vec<ScopeId>) -> (reversed: Vec<ScopeId>)
    ensures
        raw_scopes(reversed@) == raw_scopes(scopes@).reverse(),
{
    let mut reversed: Vec<ScopeId> = Vec::new();
    let mut left: usize = scopes.len();
    while left > 0
        invariant
            left <= scopes@.len(),
            reversed@.len() == scopes@.len() - left,
            forall|k: int|
                0 <= k < reversed@.len() ==> #[trigger] reversed@[k] == scopes@[scopes@.len() - 1
                    - k],
        decreases left,
    {
        left -= 1;
        reversed.push(scopes[left]);
    }
    proof {
        assert(raw_scopes(reversed@) =~= raw_scopes(scopes@).reverse());
    }
    reversed
}

/// Every scope of a runtime.
pub struct ScopeRegistry {
    pub scopes: Arena<ScopeRecord>,
    pub root: ScopeId,
    /// Grows from each scope to its children.
    pub rank: Ghost<Map<u64, nat>>,
}

impl View for ScopeRegistry {
    type V = Scopes;

    open spec fn view(&self) -> Scopes {
        self.scopes@
    }
}

impl ScopeRegistry {
    /// The root exists, and it alone is no child; a parent exists or is gone for good;
    /// no scope lies above itself.
    pub open spec fn wf(&self) -> bool {
        &&& self.scopes.wf()
        &&& self@.dom().contains(self.root.raw)
        &&& forall|id: u64| #[trigger]
            self@.dom().contains(id) ==> (self@[id].parent is None <==> id == self.root.raw)
        &&& is_ranked(self@, self.rank@)
        &&& forall|id: u64| #[trigger]
            self@.dom().contains(id) && self@[id].parent is Some && !self@.dom().contains(
                self@[id].parent->0.raw,
            ) ==> self.scopes.retired(self@[id].parent->0.raw)
    }

    /// `scope` and the scopes above it, as far up as they exist.
    pub open spec fn above(&self, scope: ScopeId) -> Seq<u64> {
        lineage(self@, self.rank@, scope.raw)
    }

    /// Whether the scopes above `scope` all exist.
    pub open spec fn rooted(&self, scope: ScopeId) -> bool {
        is_rooted(self@, self.rank@, scope.raw)
    }

    /// A registry with the root scope alone.
    pub fn new() -> (registry: Self)
        ensures
            registry.wf(),
            registry@.dom() == set![registry.root.raw],
            registry@[registry.root.raw].is_fresh(None, false),
            registry@[registry.root.raw].name@ == "root"@,
            registry.scopes.versions() == seq![0u32, 1u32],
            registry.scopes.order() == seq![registry.root.raw],
            id_index(registry.root.raw) == 1,
            id_version(registry.root.raw) == 1,
    {
        let mut scopes: Arena<ScopeRecord> = Arena::new();
        let record = ScopeRecord::fresh(Arc::new("root".to_owned()), None, false);
        let id = scopes.insert(record);
        let registry = ScopeRegistry {
            scopes,
            root: ScopeId { raw: id },
            rank: Ghost(Map::total(|id: u64| 0nat)),
        };
        proof {
            assert(registry@.dom() =~= set![id]);
            assert(registry.scopes.versions() =~= seq![0u32, 1u32]);
            registry.scopes.lemma_order();
            let order = registry.scopes.order();
            assert(registry@.dom().contains(id));
            assert(order.contains(id));
            assert forall|k: int| 0 <= k < order.len() implies order[k] == id by {
                assert(order.contains(order[k]));
            }
            assert(order =~= seq![id]);
        }
        registry
    }

    pub fn root(&self) -> (root: ScopeId)
        ensures
            root == self.root,
    {
        self.root
    }

    /// Number of scopes.
    pub fn len(&self) -> (count: usize)
        requires
            self.wf(),
        ensures
            count == self@.dom().len(),
            self@.dom().finite(),
    {
        self.scopes.len()
    }

    pub fn get(&self, scope: ScopeId) -> (record: Option<&ScopeRecord>)
        requires
            self.wf(),
        ensures
            record is Some == self@.dom().contains(scope.raw),
            record is Some ==> *record->0 == self@[scope.raw],
    {
        self.scopes.get(scope.raw)
    }

    /// Grants access to one record. The tree stays a tree as long as the record
    /// keeps its parent.
    pub fn get_mut(&mut self, scope: ScopeId) -> (record: Option<&mut ScopeRecord>)
        requires
            old(self).wf(),
        ensures
            final(self).root == old(self).root,
            final(self).rank == old(self).rank,
            final(self).scopes.wf(),
            final(self).scopes.versions() == old(self).scopes.versions(),
            final(self).scopes.order() == old(self).scopes.order(),
            match record {
                Some(record) => {
                    &&& old(self)@.dom().contains(scope.raw)
                    &&& *record == old(self)@[scope.raw]
                    &&& final(self)@ == old(self)@.insert(scope.raw, *final(record))
                    &&& final(record).parent == old(self)@[scope.raw].parent ==> final(self).wf()
                },
                None => !old(self)@.dom().contains(scope.raw) && *final(self) == *old(self),
            },
    {
        proof {
            lemma_same_parents(self@, scope.raw);
        }
        self.scopes.get_mut(scope.raw)
    }

    pub fn parent(&self, scope: ScopeId) -> (parent: Result<Option<ScopeId>, CordisError>)
        requires
            self.wf(),
        ensures
            match parent {
                Ok(parent) => self@.dom().contains(scope.raw) && parent
                    == self@[scope.raw].parent,
                Err(error) => !self@.dom().contains(scope.raw) && error is ScopeNotFound,
            },
    {
        match self.scopes.get(scope.raw) {
            Some(record) => Ok(record.parent),
            None => Err(CordisError::ScopeNotFound),
        }
    }

    /// `scope` and the scopes above it, from the leaf to the root.
    pub fn ancestry(&self, scope: ScopeId) -> (ancestry: Result<Vec<ScopeId>, CordisError>)
        requires
            self.wf(),
        ensures
            match ancestry {
                Ok(ancestry) => self.rooted(scope) && raw_scopes(ancestry@) == self.above(scope),
                Err(error) => !self.rooted(scope) && error is ScopeNotFound,
            },
    {
        let mut result: Vec<ScopeId> = Vec::new();
        let mut cursor: ScopeId = scope;
        assert(raw_scopes(result@) + self.above(scope) =~= self.above(scope));
        loop
            invariant
                self.wf(),
                raw_scopes(result@) + self.above(cursor) == self.above(scope),
                self.rooted(cursor) == self.rooted(scope),
            decreases self.height(cursor),
        {
            let record = match self.scopes.get(cursor.raw) {
                Some(record) => record,
                None => return Err(CordisError::ScopeNotFound),
            };
            let ghost before = raw_scopes(result@);
            result.push(cursor);
            proof {
                assert(raw_scopes(result@) =~= before + seq![cursor.raw]);
                self.lemma_step(cursor, before);
            }
            match record.parent {
                Some(parent) => cursor = parent,
                None => return Ok(result),
            }
        }
    }

    /// Bounds the number of scopes from `scope` upwards.
    pub open spec fn height(&self, scope: ScopeId) -> nat {
        if self@.dom().contains(scope.raw) {
            1 + self.rank@[scope.raw]
        } else {
            0
        }
    }

    /// One step of a walk up from an existing scope.
    proof fn lemma_step(&self, cursor: ScopeId, before: Seq<u64>)
        requires
            self.wf(),
            self@.dom().contains(cursor.raw),
        ensures
            self@[cursor.raw].parent is None ==> self.above(cursor) == seq![cursor.raw]
                && self.rooted(cursor),
            self@[cursor.raw].parent matches Some(parent) ==> {
                &&& (before + seq![cursor.raw]) + self.above(parent) == before + self.above(cursor)
                &&& self.rooted(parent) == self.rooted(cursor)
                &&& 0 <= self.height(parent) < self.height(cursor)
            },
    {
        match self@[cursor.raw].parent {
            Some(parent) => {
                if self@.dom().contains(parent.raw) {
                    assert(has_parent(self@, cursor.raw));
                    assert((before + seq![cursor.raw]) + self.above(parent) =~= before + (
                    seq![cursor.raw] + self.above(parent)));
                } else {
                    assert(!has_parent(self@, cursor.raw));
                    assert(!has_parent(self@, parent.raw));
                    assert((before + seq![cursor.raw]) + self.above(parent) =~= before
                        + self.above(cursor));
                }
            },
            None => {
                assert(!has_parent(self@, cursor.raw));
            },
        }
    }

    /// Position of the first scope in `line` that is not active.
    pub open spec fn is_first_inactive(&self, line: Seq<u64>, k: int) -> bool {
        &&& 0 <= k < line.len()
        &&& !(self@[line[k]].state is Active)
        &&& forall|j: int| 0 <= j < k ==> self@[#[trigger] line[j]].state is Active
    }

    /// Whether every scope in `line` is active.
    pub open spec fn all_active(&self, line: Seq<u64>) -> bool {
        forall|j: int| 0 <= j < line.len() ==> self@[#[trigger] line[j]].state is Active
    }

    /// The scopes from the root to `scope`. Where `require_active` is set, the
    /// lowest scope that is not active is reported.
    pub fn ancestry_root_to_leaf(
        &self,
        scope: ScopeId,
        require_active: bool,
    ) -> (ancestry: Result<Vec<ScopeId>, CordisError>)
        requires
            self.wf(),
        ensures
            match ancestry {
                Ok(ancestry) => {
                    &&& self.rooted(scope)
                    &&& require_active ==> self.all_active(self.above(scope))
                    &&& raw_scopes(ancestry@) == self.above(scope).reverse()
                },
                Err(CordisError::ScopeDisposed(id)) => require_active && exists|k: int|
                    #![trigger self.above(scope)[k]]
                    self.is_first_inactive(self.above(scope), k) && self.above(scope)[k] == id.raw,
                Err(error) => {
                    &&& error is ScopeNotFound
                    &&& !self.rooted(scope)
                    &&& require_active ==> self.all_active(self.above(scope))
                },
            },
    {
        let mut result: Vec<ScopeId> = Vec::new();
        let mut cursor: ScopeId = scope;
        assert(raw_scopes(result@) + self.above(scope) =~= self.above(scope));
        loop
            invariant
                self.wf(),
                raw_scopes(result@) + self.above(cursor) == self.above(scope),
                self.rooted(cursor) == self.rooted(scope),
                require_active ==> self.all_active(raw_scopes(result@)),
            decreases self.height(cursor),
        {
            let ghost before = raw_scopes(result@);
            let record = match self.scopes.get(cursor.raw) {
                Some(record) => record,
                None => {
                    proof {
                        assert(before =~= self.above(scope));
                    }
                    return Err(CordisError::ScopeNotFound);
                },
            };
            proof {
                self.lemma_step(cursor, before);
                assert(self.above(scope)[before.len() as int] == cursor.raw);
                assert forall|j: int| 0 <= j < before.len() implies before[j] == self.above(
                    scope,
                )[j] by {}
            }
            if require_active && record.state != ScopeState::Active {
                proof {
                    assert(self.is_first_inactive(self.above(scope), before.len() as int));
                }
                return Err(CordisError::ScopeDisposed(cursor));
            }
            result.push(cursor);
            proof {
                assert(raw_scopes(result@) =~= before + seq![cursor.raw]);
            }
            match record.parent {
                Some(parent) => cursor = parent,
                None => {
                    proof {
                        assert(raw_scopes(result@) =~= self.above(scope));
                    }
                    return Ok(reversed(&result));
                },
            }
        }
    }

    /// How deep a child of `parent` lies: the number of parent links from the
    /// child up, a link to a scope that is gone included.
    pub open spec fn child_depth(&self, parent: ScopeId) -> nat {
        let line = self.above(parent);
        if line.len() == 0 {
            1
        } else if self.rooted(parent) {
            line.len()
        } else {
            line.len() + 1
        }
    }

    /// How deep a child of `parent` lies.
    pub fn depth_below(&self, parent: ScopeId) -> (depth: usize)
        requires
            self.wf(),
        ensures
            depth == self.child_depth(parent),
    {
        proof {
            self.lemma_line(parent);
            self.scopes.lemma_order();
            self.lemma_size();
            assert(Seq::<u64>::empty() + self.above(parent) =~= self.above(parent));
        }
        let mut depth: usize = 1;
        let mut cursor: ScopeId = parent;
        let ghost mut passed: Seq<u64> = Seq::empty();
        loop
            invariant
                self.wf(),
                passed + self.above(cursor) == self.above(parent),
                self.rooted(cursor) == self.rooted(parent),
                depth == passed.len() + 1,
                self.above(parent).len() <= u32::MAX - 1,
            decreases self.height(cursor),
        {
            match self.scopes.get(cursor.raw) {
                Some(record) => {
                    proof {
                        self.lemma_step(cursor, passed);
                        passed = passed + seq![cursor.raw];
                        assert(self.above(parent).len() >= passed.len());
                    }
                    match record.parent {
                        Some(next) => {
                            depth += 1;
                            cursor = next;
                        },
                        None => return depth,
                    }
                },
                None => return depth,
            }
        }
    }

    /// The scopes from `scope` upwards exist, and none occurs twice.
    pub proof fn lemma_line(&self, scope: ScopeId)
        requires
            self.wf(),
        ensures
            self.above(scope).no_duplicates(),
            forall|k: int|
                0 <= k < self.above(scope).len() ==> self@.dom().contains(
                    #[trigger] self.above(scope)[k],
                ) && self.rank@[self.above(scope)[k]] <= self.rank@[scope.raw],
            self@.dom().contains(scope.raw) ==> self.above(scope).len() > 0 && self.above(scope)[0]
                == scope.raw,
            self.above(scope).len() <= self@.dom().len(),
        decreases self.height(scope),
    {
        if has_parent(self@, scope.raw) {
            let parent = self@[scope.raw].parent->0;
            self.lemma_line(parent);
            let rest = self.above(parent);
            assert(self.above(scope) == seq![scope.raw] + rest);
            assert forall|k: int| 0 <= k < self.above(scope).len() implies self@.dom().contains(
                #[trigger] self.above(scope)[k],
            ) && self.rank@[self.above(scope)[k]] <= self.rank@[scope.raw] && (k > 0
                ==> self.rank@[self.above(scope)[k]] < self.rank@[scope.raw]) by {
                if k > 0 {
                    assert(self.above(scope)[k] == rest[k - 1]);
                }
            }
            assert forall|i: int, j: int|
                0 <= i < self.above(scope).len() && 0 <= j < self.above(scope).len() && i
                    != j implies self.above(scope)[i] != self.above(scope)[j] by {
                if i > 0 && j > 0 {
                    assert(rest[i - 1] != rest[j - 1]);
                }
            }
        }
        let line = self.above(scope);
        self.scopes.lemma_order();
        line.unique_seq_to_set();
        assert(line.to_set().subset_of(self@.dom()));
        vstd::set_lib::lemma_len_subset(line.to_set(), self@.dom());
    }

    /// A registry leaves room for the count of its scopes.
    proof fn lemma_size(&self)
        requires
            self.wf(),
        ensures
            self@.dom().len() <= u32::MAX - 1,
    {
        self.scopes.lemma_bounded();
    }

    /// Adds an active scope below `parent`.
    pub fn create(&mut self, parent: ScopeId, name: Arc<String>, hidden: bool) -> (id: ScopeId)
        requires
            old(self).wf(),
            old(self).scopes.has_room(),
            old(self)@.dom().contains(parent.raw),
        ensures
            final(self).wf(),
            adds_scope(*old(self), *final(self), parent, name, hidden, id),
    {
        let record = ScopeRecord::fresh(name, Some(parent), hidden);
        let ghost before = *self;
        let raw = self.scopes.insert(record);
        proof {
            self.rank@ = self.rank@.insert(raw, (self.rank@[parent.raw] + 1) as nat);
        }
        if let Some(above) = self.scopes.get_mut(parent.raw) {
            above.children.push(raw);
        }
        proof {
            assert(before@.dom().contains(parent.raw));
            assert forall|id: u64| #[trigger] has_parent(self@, id) implies self.rank@[
                self@[id].parent->0.raw
            ] < self.rank@[id] by {
                if id != raw {
                    assert(before@.dom().contains(id));
                    let up = self@[id].parent->0.raw;
                    if up == raw {
                        assert(before.scopes.retired(up));
                    }
                    assert(has_parent(before@, id));
                }
            }
            assert forall|id: u64| #[trigger]
                self@.dom().contains(id) && self@[id].parent is Some && !self@.dom().contains(
                    self@[id].parent->0.raw,
                ) implies self.scopes.retired(self@[id].parent->0.raw) by {
                assert(id != raw);
                assert(before@.dom().contains(id));
            }
            assert(self@.dom() =~= before@.dom().insert(raw));
        }
        ScopeId { raw }
    }

    /// Takes a scope out for good.
    pub fn remove(&mut self, scope: ScopeId) -> (record: Option<ScopeRecord>)
        requires
            old(self).wf(),
            scope != old(self).root,
            old(self).scopes.removable(scope.raw),
        ensures
            final(self).wf(),
            final(self).root == old(self).root,
            final(self).rank == old(self).rank,
            match record {
                Some(record) => {
                    &&& old(self)@.dom().contains(scope.raw)
                    &&& record == old(self)@[scope.raw]
                    &&& final(self)@ == old(self)@.remove(scope.raw)
                    &&& final(self).scopes.retired(scope.raw)
                    &&& final(self).scopes.versions() == old(self).scopes.versions().update(
                        id_index(scope.raw),
                        next_version(id_version(scope.raw) as u32),
                    )
                },
                None => !old(self)@.dom().contains(scope.raw) && *final(self) == *old(self),
            },
    {
        let ghost before = *self;
        let record = self.scopes.remove(scope.raw);
        proof {
            assert forall|id: u64| #[trigger] has_parent(self@, id) implies self.rank@[
                self@[id].parent->0.raw
            ] < self.rank@[id] by {
                assert(has_parent(before@, id));
            }
            assert forall|id: u64| #[trigger]
                self@.dom().contains(id) && self@[id].parent is Some && !self@.dom().contains(
                    self@[id].parent->0.raw,
                ) implies self.scopes.retired(self@[id].parent->0.raw) by {
                assert(before@.dom().contains(id));
                let up = self@[id].parent->0.raw;
                if record is Some && up != scope.raw {
                    law_retired_ids_stay_retired(before.scopes, self.scopes, up, scope.raw);
                }
            }
        }
        record
    }

    /// The scopes, in slot order.
    pub fn ids(&self) -> (ids: Vec<u64>)
        requires
            self.wf(),
        ensures
            ids@ == self.scopes.order(),
            ids@.no_duplicates(),
            forall|id: u64| #[trigger] self@.dom().contains(id) <==> ids@.contains(id),
    {
        self.scopes.ids()
    }

    /// Whether one of `moved` is `scope` or lies above it.
    pub open spec fn under(&self, moved: Seq<u64>, scope: u64) -> bool {
        is_under(self@, self.rank@, moved, scope)
    }

    /// Moves each of `moved` below `to`.
    pub fn reparent(&mut self, moved: &Vec<u64>, to: ScopeId)
        requires
            old(self).wf(),
            old(self)@.dom().contains(to.raw),
            !moved@.contains(old(self).root.raw),
            forall|k: int| 0 <= k < moved@.len() ==> old(self)@.dom().contains(#[trigger] moved@[k]),
            !old(self).under(moved@, to.raw),
        ensures
            final(self).wf(),
            final(self).root == old(self).root,
            final(self).scopes.versions() == old(self).scopes.versions(),
            final(self).scopes.order() == old(self).scopes.order(),
            final(self)@ == moved_below(old(self)@, moved@, to),
            forall|id: u64| #[trigger]
                final(self).under(moved@, id) == old(self).under(moved@, id),
    {
        let ghost before = *self;
        let mut i: usize = 0;
        while i < moved.len()
            invariant
                i <= moved@.len(),
                self.scopes.wf(),
                self.root == before.root,
                self.rank == before.rank,
                self.scopes.versions() == before.scopes.versions(),
                self.scopes.order() == before.scopes.order(),
                self@ == moved_below(before@, moved@.take(i as int), to),
                forall|k: int|
                    0 <= k < moved@.len() ==> before@.dom().contains(#[trigger] moved@[k]),
            decreases moved@.len() - i,
        {
            let ghost prior = self@;
            if let Some(record) = self.scopes.get_mut(moved[i]) {
                record.parent = Some(to);
            }
            proof {
                let next = moved@.take(i + 1);
                assert(next =~= moved@.take(i as int).push(moved@[i as int]));
                assert(next[i as int] == moved@[i as int]);
                assert forall|id: u64| next.contains(id) <==> moved@.take(i as int).contains(id)
                    || id == moved@[i as int] by {
                    if next.contains(id) {
                        let k = choose|k: int| 0 <= k < next.len() && next[k] == id;
                        if k < i {
                            assert(moved@.take(i as int)[k] == id);
                        }
                    }
                    if moved@.take(i as int).contains(id) {
                        let k = choose|k: int| 0 <= k < i && moved@.take(i as int)[k] == id;
                        assert(next[k] == id);
                    }
                }
                assert(before@.dom().contains(moved@[i as int]));
                assert(self@ =~= moved_below(before@, next, to));
            }
            i += 1;
        }
        proof {
            assert(moved@.take(i as int) =~= moved@);
            let lift = before.rank@[to.raw] + 1;
            let rank = Map::total(
                |id: u64|
                    if before.under(moved@, id) {
                        (before.rank@[id] + lift) as nat
                    } else {
                        before.rank@[id]
                    },
            );
            self.rank@ = rank;
            assert forall|id: u64| #[trigger] has_parent(self@, id) implies rank[
                self@[id].parent->0.raw
            ] < rank[id] by {
                lemma_under_step(before@, before.rank@, moved@, id);
                if !moved@.contains(id) {
                    assert(has_parent(before@, id));
                }
            }
            assert forall|id: u64| #[trigger]
                self@.dom().contains(id) && self@[id].parent is Some && !self@.dom().contains(
                    self@[id].parent->0.raw,
                ) implies self.scopes.retired(self@[id].parent->0.raw) by {
                assert(before@.dom().contains(id));
            }
            assert forall|id: u64| #[trigger] self.under(moved@, id) == before.under(
                moved@,
                id,
            ) by {
                lemma_under_moved(before@, before.rank@, rank, moved@, to, id);
            }
        }
    }
}

/// Whether one of `moved` is `id` or lies above it.
pub open spec fn is_under(scopes: Scopes, rank: Map<u64, nat>, moved: Seq<u64>, id: u64) -> bool {
    exists|k: int|
        0 <= k < lineage(scopes, rank, id).len() && moved.contains(
            #[trigger] lineage(scopes, rank, id)[k],
        )
}

/// `scopes` with each of `moved` below `to`.
pub open spec fn moved_below(scopes: Scopes, moved: Seq<u64>, to: ScopeId) -> Scopes {
    Map::new(
        |id: u64| scopes.dom().contains(id),
        |id: u64|
            if moved.contains(id) {
                ScopeRecord { parent: Some(to), ..scopes[id] }
            } else {
                scopes[id]
            },
    )
}

proof fn lemma_under_step(scopes: Scopes, rank: Map<u64, nat>, moved: Seq<u64>, id: u64)
    requires
        is_ranked(scopes, rank),
        scopes.dom().contains(id),
    ensures
        is_under(scopes, rank, moved, id) <==> moved.contains(id) || (has_parent(scopes, id)
            && is_under(scopes, rank, moved, scopes[id].parent->0.raw)),
{
    let line = lineage(scopes, rank, id);
    assert(line[0] == id);
    if has_parent(scopes, id) {
        let rest = lineage(scopes, rank, scopes[id].parent->0.raw);
        assert(line == seq![id] + rest);
        if is_under(scopes, rank, moved, id) && !moved.contains(id) {
            let k = choose|k: int| 0 <= k < line.len() && moved.contains(#[trigger] line[k]);
            assert(moved.contains(rest[k - 1]));
        }
        if is_under(scopes, rank, moved, scopes[id].parent->0.raw) {
            let k = choose|k: int| 0 <= k < rest.len() && moved.contains(#[trigger] rest[k]);
            assert(moved.contains(line[k + 1]));
        }
    }
}

/// Moving scopes does not change which scopes they lie above.
proof fn lemma_under_moved(
    scopes: Scopes,
    rank: Map<u64, nat>,
    new_rank: Map<u64, nat>,
    moved: Seq<u64>,
    to: ScopeId,
    id: u64,
)
    requires
        is_ranked(scopes, rank),
        is_ranked(moved_below(scopes, moved, to), new_rank),
        scopes.dom().contains(to.raw),
        !is_under(scopes, rank, moved, to.raw),
    ensures
        is_under(moved_below(scopes, moved, to), new_rank, moved, id) == is_under(
            scopes,
            rank,
            moved,
            id,
        ),
    decreases rank[id],
{
    let after = moved_below(scopes, moved, to);
    if scopes.dom().contains(id) {
        lemma_under_step(scopes, rank, moved, id);
        lemma_under_step(after, new_rank, moved, id);
        if !moved.contains(id) && has_parent(scopes, id) {
            assert(has_parent(after, id));
            lemma_under_moved(scopes, rank, new_rank, moved, to, scopes[id].parent->0.raw);
        }
    } else {
        assert(!has_parent(scopes, id));
        assert(!has_parent(after, id));
    }
}

/// Replacing a record without moving it keeps every parent where it is.
proof fn lemma_same_parents(scopes: Scopes, at: u64)
    ensures
        forall|record: ScopeRecord, id: u64|
            scopes.dom().contains(at) && record.parent == scopes[at].parent ==> (
            #[trigger] has_parent(scopes.insert(at, record), id) == has_parent(scopes, id)),
{
}

/// `after` is `before` with the new active scope `id` below `parent`.
pub open spec fn adds_scope(
    before: ScopeRegistry,
    after: ScopeRegistry,
    parent: ScopeId,
    name: Arc<String>,
    hidden: bool,
    id: ScopeId,
) -> bool {
    &&& after.root == before.root
    &&& !before@.dom().contains(id.raw)
    &&& !before.scopes.retired(id.raw)
    &&& issues(before.scopes.versions(), after.scopes.versions(), id.raw)
    &&& after@.dom() == before@.dom().insert(id.raw)
    &&& after@[id.raw].is_fresh(Some(parent), hidden)
    &&& after@[id.raw].name == name
    &&& after@[parent.raw] == (ScopeRecord {
        children: after@[parent.raw].children,
        ..before@[parent.raw]
    })
    &&& after@[parent.raw].children@ == before@[parent.raw].children@.push(id.raw)
    &&& forall|other: u64| #[trigger]
        before@.dom().contains(other) && other != parent.raw ==> after@[other] == before@[other]
    &&& after.rank@ == before.rank@.insert(id.raw, (before.rank@[parent.raw] + 1) as nat)
}

/// Whether a scope is done with: disposed, without contents, not the root, and in
/// a slot that can be used again.
pub open spec fn is_spent(scopes: Scopes, root: ScopeId, id: u64) -> bool {
    &&& id != root.raw
    &&& scopes[id].state is Disposed
    &&& scopes[id].children@.len() == 0
    &&& scopes[id].fibers@.len() == 0
    &&& id_version(id) < u32::MAX
}

/// Accepts the scopes that are done with.
pub open spec fn spent(scopes: Scopes, root: ScopeId) -> spec_fn(u64) -> bool {
    |id: u64| is_spent(scopes, root, id)
}

/// `after` is `before` with the fibers `removed` taken out of every scope.
pub open spec fn without_fibers(before: Scopes, after: Scopes, removed: Seq<u64>) -> bool {
    &&& after.dom() == before.dom()
    &&& forall|id: u64| #[trigger]
        before.dom().contains(id) ==> after[id] == (ScopeRecord {
            fibers: after[id].fibers,
            ..before[id]
        }) && after[id].fibers@ == except(before[id].fibers@, removed)
}

impl ScopeRegistry {
    /// Takes the fibers `removed` out of every scope.
    pub fn discard_fibers(&mut self, removed: &Vec<u64>)
        requires
            old(self).wf(),
        ensures
            final(self).wf(),
            final(self).root == old(self).root,
            final(self).rank == old(self).rank,
            final(self).scopes.versions() == old(self).scopes.versions(),
            final(self).scopes.order() == old(self).scopes.order(),
            without_fibers(old(self)@, final(self)@, removed@),
    {
        let ids = self.ids();
        let ghost before = self@;
        let mut i: usize = 0;
        while i < ids.len()
            invariant
                self.wf(),
                self.root == old(self).root,
                self.rank == old(self).rank,
                self.scopes.versions() == old(self).scopes.versions(),
                self.scopes.order() == old(self).scopes.order(),
                i <= ids@.len(),
                ids@.no_duplicates(),
                forall|id: u64| #[trigger] before.dom().contains(id) <==> ids@.contains(id),
                self@.dom() == before.dom(),
                forall|k: int|
                    0 <= k < i ==> {
                        let id = #[trigger] ids@[k];
                        self@[id] == (ScopeRecord { fibers: self@[id].fibers, ..before[id] })
                            && self@[id].fibers@ == except(before[id].fibers@, removed@)
                    },
                forall|k: int| i <= k < ids@.len() ==> self@[#[trigger] ids@[k]] == before[ids@[k]],
            decreases ids@.len() - i,
        {
            proof {
                assert(ids@.contains(ids@[i as int]));
                assert(before.dom().contains(ids@[i as int]));
            }
            let ghost prior = self@;
            if let Some(record) = self.get_mut(ScopeId { raw: ids[i] }) {
                record.fibers.retain_except(removed);
            }
            proof {
                assert(self@.dom() =~= before.dom());
            }
            i += 1;
        }
        proof {
            assert forall|id: u64| #[trigger] before.dom().contains(id) implies self@[id] == (
            ScopeRecord { fibers: self@[id].fibers, ..before[id] }) && self@[id].fibers@ == except(
                before[id].fibers@,
                removed@,
            ) by {
                let k = choose|k: int| 0 <= k < ids@.len() && ids@[k] == id;
                assert(ids@[k] == id);
            }
        }
    }

    /// Removes the scopes that are done with, and tells how many.
    pub fn collect(&mut self) -> (count: usize)
        requires
            old(self).wf(),
        ensures
            final(self).wf(),
            final(self).root == old(self).root,
            final(self).rank == old(self).rank,
            count == old(self).scopes.order().filter(spent(old(self)@, old(self).root)).len(),
            forall|id: u64| #[trigger]
                final(self)@.dom().contains(id) <==> old(self)@.dom().contains(id) && !is_spent(
                    old(self)@,
                    old(self).root,
                    id,
                ),
            forall|id: u64| #[trigger]
                final(self)@.dom().contains(id) ==> final(self)@[id] == old(self)@[id],
            forall|id: u64| #[trigger]
                old(self)@.dom().contains(id) && is_spent(old(self)@, old(self).root, id)
                    ==> final(self).scopes.retired(id),
            forall|id: u64| #[trigger]
                old(self).scopes.retired(id) ==> final(self).scopes.retired(id),
    {
        let ids = self.ids();
        let ghost before = self@;
        let ghost root = self.root;
        let mut dead: Vec<u64> = Vec::new();
        let mut i: usize = 0;
        while i < ids.len()
            invariant
                *self == *old(self),
                self.wf(),
                before == self@,
                root == self.root,
                i <= ids@.len(),
                ids@ == self.scopes.order(),
                ids@.no_duplicates(),
                forall|id: u64| #[trigger] before.dom().contains(id) <==> ids@.contains(id),
                dead@ == ids@.take(i as int).filter(spent(before, root)),
                forall|id: u64| #[trigger]
                    dead@.contains(id) <==> ids@.take(i as int).contains(id) && is_spent(
                        before,
                        root,
                        id,
                    ),
            decreases ids@.len() - i,
        {
            let id = ids[i];
            proof {
                assert(ids@.contains(ids@[i as int]));
                assert(before.dom().contains(id));
                assert(ids@.take(i + 1) =~= ids@.take(i as int).push(id));
                assert(ids@.take(i + 1).drop_last() =~= ids@.take(i as int));
                reveal(Seq::filter);
            }
            let done: bool = match self.scopes.get(id) {
                Some(record) => id != self.root.raw && record.state == ScopeState::Disposed
                    && record.children.is_empty() && record.fibers.is_empty()
                    && self.scopes.is_removable(id),
                None => false,
            };
            let ghost listed = dead@;
            if done {
                dead.push(id);
            }
            proof {
                assert forall|other: u64| #[trigger]
                    dead@.contains(other) <==> ids@.take(i + 1).contains(other) && is_spent(
                        before,
                        root,
                        other,
                    ) by {
                    vstd::seq_lib::lemma_seq_contains_after_push(listed, id, other);
                    vstd::seq_lib::lemma_seq_contains_after_push(ids@.take(i as int), id, other);
                }
            }
            i += 1;
        }
        proof {
            assert(ids@.take(i as int) =~= ids@);
        }
        let mut j: usize = 0;
        while j < dead.len()
            invariant
                self.wf(),
                self.root == root,
                self.rank == old(self).rank,
                before == old(self)@,
                root == old(self).root,
                j <= dead@.len(),
                forall|id: u64| #[trigger]
                    dead@.contains(id) ==> before.dom().contains(id) && is_spent(before, root, id),
                forall|id: u64| #[trigger]
                    self@.dom().contains(id) <==> before.dom().contains(id) && !dead@.take(
                        j as int,
                    ).contains(id),
                forall|id: u64| #[trigger] self@.dom().contains(id) ==> self@[id] == before[id],
                forall|id: u64| #[trigger]
                    dead@.take(j as int).contains(id) ==> self.scopes.retired(id),
                forall|id: u64| #[trigger]
                    old(self).scopes.retired(id) ==> self.scopes.retired(id),
            decreases dead@.len() - j,
        {
            let id = dead[j];
            let ghost prior = *self;
            proof {
                assert(dead@.contains(dead@[j as int]));
                assert(dead@.take(j + 1) =~= dead@.take(j as int).push(id));
                assert forall|other: u64| #[trigger]
                    dead@.take(j + 1).contains(other) <==> dead@.take(j as int).contains(other)
                        || other == id by {
                    vstd::seq_lib::lemma_seq_contains_after_push(dead@.take(j as int), id, other);
                }
            }
            let _taken = self.remove(ScopeId { raw: id });
            proof {
                assert forall|other: u64| #[trigger]
                    prior.scopes.retired(other) implies self.scopes.retired(other) by {
                    if _taken is Some {
                        law_retired_ids_stay_retired(prior.scopes, self.scopes, other, id);
                    }
                }
                assert forall|other: u64| #[trigger]
                    dead@.take(j + 1).contains(other) implies self.scopes.retired(other) by {
                    if dead@.take(j as int).contains(other) {
                        assert(prior.scopes.retired(other));
                    } else {
                        assert(prior@.dom().contains(id));
                    }
                }
            }
            j += 1;
        }
        proof {
            assert(dead@.take(j as int) =~= dead@);
            assert forall|id: u64| #[trigger]
                old(self)@.dom().contains(id) && is_spent(old(self)@, old(self).root, id) implies
                self.scopes.retired(id) by {
                assert(dead@.contains(id));
            }
        }
        dead.len()
    }
}

} // verus!
