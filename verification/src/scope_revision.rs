//! Moving a staged fiber and its child scopes into the scope it replaces an old
//! fiber in, and back.
use crate::error::CordisError;
use crate::id_list::IdList;
#[allow(unused_imports)]
use crate::id_list::{
    except, lemma_except_added, lemma_except_contains, lemma_occurrences, lemma_occurrences_push,
    lemma_take_back, occurrences,
};
use crate::ids::{FiberId, ScopeId};
#[allow(unused_imports)]
use crate::scope_registry::{has_parent, lineage, raw_scopes, Scopes};
use crate::scope_registry::{ScopeRecord, ScopeRegistry};
use crate::state::ScopeState;
use vstd::prelude::*;

verus! {

/// A move of `staged` and of the scopes `children` between `staging` and `target`.
pub struct PreparedScopeRevision {
    pub staging: ScopeId,
    pub target: ScopeId,
    pub staged: FiberId,
    pub old: FiberId,
    pub children: Vec<u64>,
}

/// The handles as raw ids.
pub fn raw_ids(scopes: &Vec<ScopeId>) -> (ids: Vec<u64>)
    ensures
        ids@ == raw_scopes(scopes@),
{
    let mut ids: Vec<u64> = Vec::new();
    let mut i: usize = 0;
    while i < scopes.len()
        invariant
            i <= scopes@.len(),
            ids@ == raw_scopes(scopes@).take(i as int),
        decreases scopes@.len() - i,
    {
        ids.push(scopes[i].raw);
        i += 1;
        proof {
            assert(ids@ =~= raw_scopes(scopes@).take(i as int));
        }
    }
    proof {
        assert(ids@ =~= raw_scopes(scopes@));
    }
    ids
}

/// Whether `list` holds each of `ids`.
fn holds_all(list: &IdList, ids: &Vec<u64>) -> (all: bool)
    ensures
        all == forall|k: int| 0 <= k < ids@.len() ==> list@.contains(#[trigger] ids@[k]),
{
    let mut i: usize = 0;
    while i < ids.len()
        invariant
            i <= ids@.len(),
            forall|k: int| 0 <= k < i ==> list@.contains(#[trigger] ids@[k]),
        decreases ids@.len() - i,
    {
        if !list.contains(ids[i]) {
            assert(!list@.contains(ids@[i as int]));
            return false;
        }
        i += 1;
    }
    true
}

/// Whether `list` holds none of `ids`.
fn holds_none(list: &IdList, ids: &Vec<u64>) -> (none: bool)
    ensures
        none == forall|k: int| 0 <= k < ids@.len() ==> !list@.contains(#[trigger] ids@[k]),
{
    let mut i: usize = 0;
    while i < ids.len()
        invariant
            i <= ids@.len(),
            forall|k: int| 0 <= k < i ==> !list@.contains(#[trigger] ids@[k]),
        decreases ids@.len() - i,
    {
        if list.contains(ids[i]) {
            assert(list@.contains(ids@[i as int]));
            return false;
        }
        i += 1;
    }
    true
}

/// Whether each of `children` exists and lies directly below `parent`.
pub open spec fn all_below(scopes: Scopes, children: Seq<u64>, parent: ScopeId) -> bool {
    forall|k: int|
        0 <= k < children.len() ==> scopes.dom().contains(#[trigger] children[k])
            && scopes[children[k]].parent == Some(parent)
}

fn are_below(scopes: &ScopeRegistry, children: &Vec<u64>, parent: ScopeId) -> (all: bool)
    requires
        scopes.wf(),
    ensures
        all == all_below(scopes@, children@, parent),
{
    let mut i: usize = 0;
    while i < children.len()
        invariant
            scopes.wf(),
            i <= children@.len(),
            forall|k: int|
                0 <= k < i ==> scopes@.dom().contains(#[trigger] children@[k])
                    && scopes@[children@[k]].parent == Some(parent),
        decreases children@.len() - i,
    {
        let below: bool = match scopes.scopes.get(children[i]) {
            Some(record) => match record.parent {
                Some(up) => up == parent,
                None => false,
            },
            None => false,
        };
        if !below {
            assert(!(scopes@.dom().contains(children@[i as int])
                && scopes@[children@[i as int]].parent == Some(parent)));
            return false;
        }
        i += 1;
    }
    true
}

impl PreparedScopeRevision {
    /// What must hold before a revision is prepared.
    pub open spec fn prepares_on(self, scopes: Scopes) -> bool {
        &&& scopes[self.staging.raw].state is Active
        &&& scopes[self.target.raw].state is Active
        &&& scopes[self.staging.raw].fibers@.contains(self.staged.raw)
        &&& scopes[self.target.raw].fibers@.contains(self.old.raw)
        &&& all_below(scopes, self.children@, self.staging)
    }

    /// Whether `from` holds what is to move, `to` holds none of it, and the staged
    /// fiber is nowhere else.
    pub open spec fn fits(self, scopes: Scopes, from: ScopeId, to: ScopeId) -> bool {
        &&& scopes.dom().contains(from.raw)
        &&& scopes[from.raw].state is Active
        &&& occurrences(scopes[from.raw].fibers@, self.staged.raw) == 1
        &&& forall|k: int|
            0 <= k < self.children@.len() ==> scopes[from.raw].children@.contains(
                #[trigger] self.children@[k],
            )
        &&& scopes.dom().contains(to.raw)
        &&& scopes[to.raw].state is Active
        &&& !scopes[to.raw].fibers@.contains(self.staged.raw)
        &&& forall|k: int|
            0 <= k < self.children@.len() ==> !scopes[to.raw].children@.contains(
                #[trigger] self.children@[k],
            )
        &&& occurrences(scopes[self.target.raw].fibers@, self.old.raw) == 1
        &&& forall|id: u64| #[trigger]
            scopes.dom().contains(id) ==> id == from.raw || !scopes[id].fibers@.contains(
                self.staged.raw,
            )
        &&& all_below(scopes, self.children@, from)
    }

    /// The scopes `after` are the scopes `before` with the staged fiber and the
    /// child scopes taken out of `from` and put at the end of `to`.
    pub open spec fn shifts(
        self,
        before: Scopes,
        after: Scopes,
        from: ScopeId,
        to: ScopeId,
    ) -> bool {
        &&& after.dom() == before.dom()
        &&& after[from.raw] == (ScopeRecord {
            fibers: after[from.raw].fibers,
            children: after[from.raw].children,
            ..before[from.raw]
        })
        &&& after[from.raw].fibers@ == except(before[from.raw].fibers@, seq![self.staged.raw])
        &&& after[from.raw].children@ == except(before[from.raw].children@, self.children@)
        &&& after[to.raw] == (ScopeRecord {
            fibers: after[to.raw].fibers,
            children: after[to.raw].children,
            ..before[to.raw]
        })
        &&& after[to.raw].fibers@ == before[to.raw].fibers@.push(self.staged.raw)
        &&& after[to.raw].children@ == before[to.raw].children@ + self.children@
        &&& forall|id: u64|
            #![trigger after[id]]
            before.dom().contains(id) && id != from.raw && id != to.raw ==> after[id] == (
            if self.children@.contains(id) {
                ScopeRecord { parent: Some(to), ..before[id] }
            } else {
                before[id]
            })
    }

    /// The scopes `restored` are the scopes `before`, but that the staging scope may
    /// hold its members in another order.
    pub open spec fn restores(self, before: Scopes, restored: Scopes) -> bool {
        let staging = self.staging.raw;
        let target = self.target.raw;
        &&& restored.dom() == before.dom()
        &&& restored[target].fibers@ == before[target].fibers@
        &&& restored[target].children@ == before[target].children@
        &&& restored[target] == (ScopeRecord {
            fibers: restored[target].fibers,
            children: restored[target].children,
            ..before[target]
        })
        &&& restored[staging] == (ScopeRecord {
            fibers: restored[staging].fibers,
            children: restored[staging].children,
            ..before[staging]
        })
        &&& forall|id: u64| #[trigger]
            restored[staging].fibers@.contains(id) <==> before[staging].fibers@.contains(id)
        &&& forall|id: u64| #[trigger]
            restored[staging].children@.contains(id) <==> before[staging].children@.contains(id)
        &&& forall|id: u64|
            #![trigger restored[id]]
            before.dom().contains(id) && id != staging && id != target ==> restored[id]
                == before[id]
    }

    /// Checks that the revision fits the scopes as they are.
    pub fn prepare(
        scopes: &ScopeRegistry,
        staging: ScopeId,
        target: ScopeId,
        staged: FiberId,
        old: FiberId,
        children: Vec<u64>,
    ) -> (revision: Result<Self, CordisError>)
        requires
            scopes.wf(),
        ensures
            ({
                let made = PreparedScopeRevision { staging, target, staged, old, children };
                match revision {
                    Ok(revision) => {
                        &&& revision == made
                        &&& scopes@.dom().contains(staging.raw)
                        &&& scopes@.dom().contains(target.raw)
                        &&& made.prepares_on(scopes@)
                    },
                    Err(CordisError::ScopeNotFound) => !scopes@.dom().contains(staging.raw)
                        || !scopes@.dom().contains(target.raw),
                    Err(error) => {
                        &&& error matches CordisError::RevisionValidationFailed(message)
                        &&& message@ == "prepared scope topology changed before reload commit"@
                        &&& scopes@.dom().contains(staging.raw)
                        &&& scopes@.dom().contains(target.raw)
                        &&& !made.prepares_on(scopes@)
                    },
                }
            }),
    {
        let staging_record = match scopes.get(staging) {
            Some(record) => record,
            None => return Err(CordisError::ScopeNotFound),
        };
        let target_record = match scopes.get(target) {
            Some(record) => record,
            None => return Err(CordisError::ScopeNotFound),
        };
        if staging_record.state != ScopeState::Active || target_record.state != ScopeState::Active
            || !staging_record.fibers.contains(staged.raw) || !target_record.fibers.contains(
            old.raw,
        ) || !are_below(scopes, &children, staging) {
            return Err(
                CordisError::RevisionValidationFailed(
                    "prepared scope topology changed before reload commit".to_owned(),
                ),
            );
        }
        Ok(PreparedScopeRevision { staging, target, staged, old, children })
    }

    fn is_fit(&self, scopes: &ScopeRegistry, from: ScopeId, to: ScopeId) -> (fit: bool)
        requires
            scopes.wf(),
            self.target == from || self.target == to,
        ensures
            fit == self.fits(scopes@, from, to),
    {
        let from_ok: bool = match scopes.get(from) {
            Some(record) => record.state == ScopeState::Active && record.fibers.holds_once(
                self.staged.raw,
            ) && holds_all(&record.children, &self.children),
            None => false,
        };
        if !from_ok {
            return false;
        }
        let to_ok: bool = match scopes.get(to) {
            Some(record) => record.state == ScopeState::Active && !record.fibers.contains(
                self.staged.raw,
            ) && holds_none(&record.children, &self.children),
            None => false,
        };
        if !to_ok {
            return false;
        }
        let old_ok: bool = match scopes.get(self.target) {
            Some(record) => record.fibers.holds_once(self.old.raw),
            None => false,
        };
        if !old_ok {
            return false;
        }
        let ids = scopes.ids();
        let mut i: usize = 0;
        while i < ids.len()
            invariant
                scopes.wf(),
                i <= ids@.len(),
                forall|id: u64| #[trigger] scopes@.dom().contains(id) <==> ids@.contains(id),
                forall|k: int|
                    0 <= k < i ==> #[trigger] ids@[k] == from.raw
                        || !scopes@[ids@[k]].fibers@.contains(self.staged.raw),
            decreases ids@.len() - i,
        {
            let id = ids[i];
            proof {
                assert(ids@.contains(ids@[i as int]));
                assert(scopes@.dom().contains(id));
            }
            if id != from.raw {
                if let Some(record) = scopes.scopes.get(id) {
                    if record.fibers.contains(self.staged.raw) {
                        return false;
                    }
                }
            }
            i += 1;
        }
        proof {
            assert forall|id: u64| #[trigger] scopes@.dom().contains(id) implies id == from.raw
                || !scopes@[id].fibers@.contains(self.staged.raw) by {
                let k = choose|k: int| 0 <= k < ids@.len() && ids@[k] == id;
                assert(ids@[k] == from.raw || !scopes@[ids@[k]].fibers@.contains(self.staged.raw));
            }
        }
        are_below(scopes, &self.children, from)
    }

    /// Moves the staged fiber and the child scopes where everything fits, and
    /// leaves the scopes alone otherwise.
    fn shift(&self, scopes: &mut ScopeRegistry, from: ScopeId, to: ScopeId) -> (done: bool)
        requires
            old(scopes).wf(),
            self.target == from || self.target == to,
            !old(scopes).under(self.children@, to.raw),
        ensures
            final(scopes).wf(),
            final(scopes).root == old(scopes).root,
            done == self.fits(old(scopes)@, from, to),
            !done ==> *final(scopes) == *old(scopes),
            done ==> {
                &&& self.shifts(old(scopes)@, final(scopes)@, from, to)
                &&& final(scopes).scopes.versions() == old(scopes).scopes.versions()
                &&& final(scopes).scopes.order() == old(scopes).scopes.order()
                &&& !final(scopes).under(self.children@, from.raw)
            },
    {
        if !self.is_fit(scopes, from, to) {
            return false;
        }
        let ghost before = *scopes;
        proof {
            self.lemma_apart(before, from, to);
        }
        scopes.reparent(&self.children, to);
        let ghost moved = *scopes;
        if let Some(record) = scopes.get_mut(from) {
            record.fibers.discard(self.staged.raw);
            record.children.retain_except(&self.children);
        }
        if let Some(record) = scopes.get_mut(to) {
            record.fibers.push(self.staged.raw);
            record.children.extend(&self.children);
        }
        proof {
            assert(scopes@.dom() =~= before@.dom());
            assert(moved@.dom() =~= before@.dom());
            lemma_lineage_kept(moved, *scopes, from.raw);
            assert(!moved.under(self.children@, from.raw));
        }
        true
    }

    /// A scope does not lie below its own children.
    pub proof fn lemma_apart(&self, scopes: ScopeRegistry, from: ScopeId, to: ScopeId)
        requires
            scopes.wf(),
            self.fits(scopes@, from, to),
            !scopes.under(self.children@, to.raw),
        ensures
            from != to,
            !self.children@.contains(scopes.root.raw),
            !self.children@.contains(from.raw),
            !self.children@.contains(to.raw),
            !scopes.under(self.children@, from.raw),
    {
        let fibers = scopes@[from.raw].fibers@;
        lemma_occurrences(fibers, self.staged.raw);
        scopes.lemma_line(from);
        scopes.lemma_line(to);
        assert forall|k: int| 0 <= k < self.children@.len() implies scopes.rank@[from.raw]
            < scopes.rank@[#[trigger] self.children@[k]] by {
            assert(has_parent(scopes@, self.children@[k]));
        }
        if scopes.under(self.children@, from.raw) {
            let line = lineage(scopes@, scopes.rank@, from.raw);
            let k = choose|k: int|
                0 <= k < line.len() && self.children@.contains(#[trigger] line[k]);
            let j = choose|j: int| 0 <= j < self.children@.len() && self.children@[j] == line[k];
            assert(scopes.rank@[self.children@[j]] <= scopes.rank@[from.raw]);
        }
        assert(lineage(scopes@, scopes.rank@, to.raw)[0] == to.raw);
        assert(lineage(scopes@, scopes.rank@, from.raw)[0] == from.raw);
    }

    /// Puts the staged fiber and its child scopes into the target scope.
    pub fn commit_locked(&self, scopes: &mut ScopeRegistry) -> (result: Result<(), CordisError>)
        requires
            old(scopes).wf(),
            !old(scopes).under(self.children@, self.target.raw),
        ensures
            final(scopes).wf(),
            final(scopes).root == old(scopes).root,
            match result {
                Ok(()) => {
                    &&& self.fits(old(scopes)@, self.staging, self.target)
                    &&& self.shifts(old(scopes)@, final(scopes)@, self.staging, self.target)
                    &&& final(scopes).scopes.versions() == old(scopes).scopes.versions()
                    &&& final(scopes).scopes.order() == old(scopes).scopes.order()
                    &&& !final(scopes).under(self.children@, self.staging.raw)
                },
                Err(error) => {
                    &&& !self.fits(old(scopes)@, self.staging, self.target)
                    &&& error matches CordisError::RevisionValidationFailed(message)
                    &&& message@ == "scope topology changed before reload commit"@
                    &&& *final(scopes) == *old(scopes)
                },
            },
    {
        if self.shift(scopes, self.staging, self.target) {
            Ok(())
        } else {
            Err(
                CordisError::RevisionValidationFailed(
                    "scope topology changed before reload commit".to_owned(),
                ),
            )
        }
    }

    /// Takes the staged fiber and its child scopes back into the staging scope.
    pub fn rollback_locked(&self, scopes: &mut ScopeRegistry) -> (result: Result<(), CordisError>)
        requires
            old(scopes).wf(),
            !old(scopes).under(self.children@, self.staging.raw),
        ensures
            final(scopes).wf(),
            final(scopes).root == old(scopes).root,
            match result {
                Ok(()) => {
                    &&& self.fits(old(scopes)@, self.target, self.staging)
                    &&& self.shifts(old(scopes)@, final(scopes)@, self.target, self.staging)
                    &&& final(scopes).scopes.versions() == old(scopes).scopes.versions()
                    &&& final(scopes).scopes.order() == old(scopes).scopes.order()
                    &&& !final(scopes).under(self.children@, self.target.raw)
                },
                Err(error) => {
                    &&& !self.fits(old(scopes)@, self.target, self.staging)
                    &&& error matches CordisError::RevisionValidationFailed(message)
                    &&& message@ == "scope topology changed before reload rollback"@
                    &&& *final(scopes) == *old(scopes)
                },
            },
    {
        if self.shift(scopes, self.target, self.staging) {
            Ok(())
        } else {
            Err(
                CordisError::RevisionValidationFailed(
                    "scope topology changed before reload rollback".to_owned(),
                ),
            )
        }
    }
}

/// Changing what the records hold, but no parent, keeps every lineage.
proof fn lemma_lineage_kept(before: ScopeRegistry, after: ScopeRegistry, id: u64)
    requires
        before.wf(),
        after.wf(),
        after.rank == before.rank,
        after@.dom() == before@.dom(),
        forall|other: u64| #[trigger]
            before@.dom().contains(other) ==> after@[other].parent == before@[other].parent,
    ensures
        lineage(after@, after.rank@, id) == lineage(before@, before.rank@, id),
    decreases before.rank@[id],
{
    assert(has_parent(after@, id) == has_parent(before@, id)) by {
        assert(before@.dom().contains(id) || !before@.dom().contains(id));
    }
    if has_parent(before@, id) {
        lemma_lineage_kept(before, after, before@[id].parent->0.raw);
    }
}

/// A commit can be taken back: the rollback fits what the commit left, and it
/// restores every scope. The staging scope gets its members back, in an order of
/// its own.
pub proof fn law_rollback_restores_scopes(
    revision: PreparedScopeRevision,
    before: Scopes,
    committed: Scopes,
    restored: Scopes,
)
    requires
        revision.staging != revision.target,
        !revision.children@.contains(revision.staging.raw),
        !revision.children@.contains(revision.target.raw),
        revision.fits(before, revision.staging, revision.target),
        revision.shifts(before, committed, revision.staging, revision.target),
        revision.shifts(committed, restored, revision.target, revision.staging),
    ensures
        revision.fits(committed, revision.target, revision.staging),
        revision.restores(before, restored),
{
    let staging = revision.staging.raw;
    let target = revision.target.raw;
    let staged = revision.staged.raw;
    let children = revision.children@;
    lemma_commit_fits_rollback(revision, before, committed);
    lemma_take_back(before[target].fibers@, staged);
    lemma_take_back_all(before[target].children@, children);
    lemma_put_back_one(before[staging].fibers@, staged);
    lemma_put_back_all(before[staging].children@, children);
    assert forall|id: u64|
        #![trigger restored[id]]
        before.dom().contains(id) && id != staging && id != target implies restored[id]
        == before[id] by {
        assert(committed.dom().contains(id));
        assert(committed[id] == committed[id]);
        if children.contains(id) {
            let j = choose|j: int| 0 <= j < children.len() && children[j] == id;
            assert(before[children[j]].parent == Some(revision.staging));
        }
    }
}

proof fn lemma_take_back_all(ids: Seq<u64>, added: Seq<u64>)
    requires
        forall|k: int| 0 <= k < added.len() ==> !ids.contains(#[trigger] added[k]),
    ensures
        except(ids + added, added) == ids,
{
    assert forall|k: int| 0 <= k < ids.len() implies !added.contains(#[trigger] ids[k]) by {
        if added.contains(ids[k]) {
            let j = choose|j: int| 0 <= j < added.len() && added[j] == ids[k];
            assert(ids.contains(ids[k]));
            assert(!ids.contains(added[j]));
        }
    }
    lemma_except_added(ids, added);
}

proof fn lemma_put_back_one(ids: Seq<u64>, id: u64)
    requires
        occurrences(ids, id) == 1,
    ensures
        forall|other: u64| #[trigger]
            except(ids, seq![id]).push(id).contains(other) <==> ids.contains(other),
{
    let kept = except(ids, seq![id]);
    assert forall|other: u64| #[trigger] kept.push(id).contains(other) <==> ids.contains(other) by {
        lemma_except_contains(ids, seq![id], other);
        lemma_occurrences(ids, id);
        assert(seq![id].contains(other) <==> other == id) by {
            assert(seq![id][0] == id);
        }
        vstd::seq_lib::lemma_seq_contains_after_push(kept, id, other);
    }
}

proof fn lemma_put_back_all(ids: Seq<u64>, moved: Seq<u64>)
    requires
        forall|k: int| 0 <= k < moved.len() ==> ids.contains(#[trigger] moved[k]),
    ensures
        forall|other: u64| #[trigger]
            (except(ids, moved) + moved).contains(other) <==> ids.contains(other),
{
    let kept = except(ids, moved);
    assert forall|other: u64| #[trigger] (kept + moved).contains(other) <==> ids.contains(
        other,
    ) by {
        lemma_except_contains(ids, moved, other);
        vstd::seq_lib::lemma_seq_concat_contains_all_elements(kept, moved, other);
        if moved.contains(other) {
            let j = choose|j: int| 0 <= j < moved.len() && moved[j] == other;
            assert(ids.contains(moved[j]));
        }
    }
}

/// After a commit, the rollback fits.
pub proof fn lemma_commit_fits_rollback(
    revision: PreparedScopeRevision,
    before: Scopes,
    committed: Scopes,
)
    requires
        revision.staging != revision.target,
        !revision.children@.contains(revision.staging.raw),
        !revision.children@.contains(revision.target.raw),
        revision.fits(before, revision.staging, revision.target),
        revision.shifts(before, committed, revision.staging, revision.target),
    ensures
        revision.fits(committed, revision.target, revision.staging),
{
    let staging = revision.staging.raw;
    let target = revision.target.raw;
    let staged = revision.staged.raw;
    let children = revision.children@;
    lemma_occurrences(before[target].fibers@, staged);
    lemma_occurrences(before[target].fibers@, revision.old.raw);
    lemma_occurrences_push(before[target].fibers@, staged, staged);
    lemma_occurrences_push(before[target].fibers@, staged, revision.old.raw);
    lemma_except_contains(before[staging].fibers@, seq![staged], staged);
    assert(seq![staged][0] == staged);
    assert forall|k: int| 0 <= k < children.len() implies committed[target].children@.contains(
        #[trigger] children[k],
    ) && !committed[staging].children@.contains(children[k]) by {
        assert(children.contains(children[k]));
        lemma_except_contains(before[staging].children@, children, children[k]);
        vstd::seq_lib::lemma_seq_concat_contains_all_elements(
            before[target].children@,
            children,
            children[k],
        );
    }
    assert forall|id: u64| #[trigger] committed.dom().contains(id) implies id == target
        || !committed[id].fibers@.contains(staged) by {
        assert(before.dom().contains(id));
        assert(committed[id] == committed[id]);
    }
    assert forall|k: int| 0 <= k < children.len() implies committed.dom().contains(
        #[trigger] children[k],
    ) && committed[children[k]].parent == Some(revision.target) by {
        assert(children.contains(children[k]));
        assert(before.dom().contains(children[k]));
    }
}

} // verus!
