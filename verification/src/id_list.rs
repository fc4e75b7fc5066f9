//! Short lists of ids, kept inline while they are small.
use smallvec::SmallVec;
use vstd::prelude::*;

verus! {

/// `ids` without the members of `removed`, in order.
pub open spec fn except(ids: Seq<u64>, removed: Seq<u64>) -> Seq<u64> {
    ids.filter(|id: u64| !removed.contains(id))
}

/// Accepts `id` alone.
pub open spec fn just(id: u64) -> spec_fn(u64) -> bool {
    |other: u64| other == id
}

/// Number of times `id` occurs in `ids`.
pub open spec fn occurrences(ids: Seq<u64>, id: u64) -> nat {
    ids.filter(just(id)).len()
}

/// A list of raw ids.
#[verifier::external_body]
pub struct IdList {
    items: SmallVec<[u64; 4]>,
}

/// The ids in the list, in order.
pub uninterp spec fn list_items(list: IdList) -> Seq<u64>;

impl View for IdList {
    type V = Seq<u64>;

    open spec fn view(&self) -> Seq<u64> {
        list_items(*self)
    }
}

/// `SmallVec::new`: a list without items.
#[verifier::external_body]
fn list_new() -> (list: IdList)
    ensures
        list_items(list) == Seq::<u64>::empty(),
{
    IdList { items: SmallVec::new() }
}

/// `SmallVec::push`: adds the item at the end.
#[verifier::external_body]
fn list_push(list: &mut IdList, id: u64)
    ensures
        list_items(*final(list)) == list_items(*old(list)).push(id),
{
    list.items.push(id)
}

/// `SmallVec::as_slice`: the items in order.
#[verifier::external_body]
fn list_slice(list: &IdList) -> (slice: &[u64])
    ensures
        slice@ == list_items(*list),
{
    list.items.as_slice()
}

/// `SmallVec::retain`: keeps, in order, the items that the predicate accepts;
/// here those that `removed` does not hold.
#[verifier::external_body]
fn list_retain(list: &mut IdList, removed: &Vec<u64>)
    ensures
        list_items(*final(list)) == except(list_items(*old(list)), removed@),
{
    list.items.retain(|id| is_absent(removed, *id))
}

/// Whether `ids` holds `id`.
pub fn holds(ids: &[u64], id: u64) -> (found: bool)
    ensures
        found == ids@.contains(id),
{
    let mut i: usize = 0;
    while i < ids.len()
        invariant
            i <= ids@.len(),
            forall|k: int| 0 <= k < i ==> ids@[k] != id,
        decreases ids@.len() - i,
    {
        if ids[i] == id {
            assert(ids@[i as int] == id);
            return true;
        }
        i += 1;
    }
    false
}

/// Whether `removed` does not hold `id`.
fn is_absent(removed: &Vec<u64>, id: u64) -> (absent: bool)
    ensures
        absent == !removed@.contains(id),
{
    !holds(removed.as_slice(), id)
}

impl IdList {
    pub fn new() -> (list: Self)
        ensures
            list@ == Seq::<u64>::empty(),
    {
        list_new()
    }

    pub fn push(&mut self, id: u64)
        ensures
            final(self)@ == old(self)@.push(id),
    {
        list_push(self, id)
    }

    /// Adds `ids` at the end, in order.
    pub fn extend(&mut self, ids: &Vec<u64>)
        ensures
            final(self)@ == old(self)@ + ids@,
    {
        let mut i: usize = 0;
        while i < ids.len()
            invariant
                i <= ids@.len(),
                self@ == old(self)@ + ids@.take(i as int),
            decreases ids@.len() - i,
        {
            self.push(ids[i]);
            i += 1;
            proof {
                assert(ids@.take(i as int) =~= ids@.take(i - 1).push(ids@[i - 1]));
            }
        }
        proof {
            assert(ids@.take(i as int) =~= ids@);
        }
    }

    pub fn len(&self) -> (count: usize)
        ensures
            count == self@.len(),
    {
        list_slice(self).len()
    }

    pub fn is_empty(&self) -> (empty: bool)
        ensures
            empty == (self@.len() == 0),
    {
        list_slice(self).len() == 0
    }

    pub fn contains(&self, id: u64) -> (found: bool)
        ensures
            found == self@.contains(id),
    {
        holds(list_slice(self), id)
    }

    /// Whether `id` occurs exactly once.
    pub fn holds_once(&self, id: u64) -> (once: bool)
        ensures
            once == (occurrences(self@, id) == 1),
    {
        let slice = list_slice(self);
        let mut count: usize = 0;
        let mut i: usize = 0;
        while i < slice.len()
            invariant
                slice@ == self@,
                i <= slice@.len(),
                count <= i,
                count == occurrences(slice@.take(i as int), id),
            decreases slice@.len() - i,
        {
            proof {
                reveal(Seq::filter);
                assert(slice@.take(i + 1).drop_last() =~= slice@.take(i as int));
            }
            if slice[i] == id {
                count += 1;
            }
            i += 1;
        }
        proof {
            assert(slice@.take(i as int) =~= slice@);
        }
        count == 1
    }

    /// The ids as a vector, in order.
    pub fn to_vec(&self) -> (ids: Vec<u64>)
        ensures
            ids@ == self@,
    {
        let slice = list_slice(self);
        let mut ids: Vec<u64> = Vec::new();
        let mut i: usize = 0;
        while i < slice.len()
            invariant
                slice@ == self@,
                i <= slice@.len(),
                ids@ == slice@.take(i as int),
            decreases slice@.len() - i,
        {
            ids.push(slice[i]);
            i += 1;
            proof {
                assert(ids@ =~= slice@.take(i as int));
            }
        }
        proof {
            assert(slice@.take(i as int) =~= slice@);
        }
        ids
    }

    /// Drops every id that `removed` holds.
    pub fn retain_except(&mut self, removed: &Vec<u64>)
        ensures
            final(self)@ == except(old(self)@, removed@),
    {
        list_retain(self, removed)
    }

    /// Drops every occurrence of `id`.
    pub fn discard(&mut self, id: u64)
        ensures
            final(self)@ == except(old(self)@, seq![id]),
    {
        let mut removed: Vec<u64> = Vec::new();
        removed.push(id);
        assert(removed@ =~= seq![id]);
        list_retain(self, &removed)
    }
}

/// What occurs is there, and what is not there does not occur.
pub proof fn lemma_occurrences(ids: Seq<u64>, id: u64)
    ensures
        occurrences(ids, id) > 0 <==> ids.contains(id),
{
    let same = just(id);
    let found = ids.filter(same);
    if found.len() > 0 {
        ids.lemma_filter_pred(same, 0);
        assert(found.contains(found[0]));
        ids.lemma_filter_contains_rev(same, found[0]);
    }
    if ids.contains(id) {
        let k = choose|k: int| 0 <= k < ids.len() && ids[k] == id;
        ids.lemma_filter_contains(same, k);
        assert(found.contains(id));
    }
}

/// How adding an id changes the count of occurrences.
pub proof fn lemma_occurrences_push(ids: Seq<u64>, added: u64, id: u64)
    ensures
        occurrences(ids.push(added), id) == occurrences(ids, id) + (if added == id {
            1nat
        } else {
            0nat
        }),
{
    reveal(Seq::filter);
    assert(ids.push(added).drop_last() =~= ids);
}

/// Removing what is not there changes nothing.
pub proof fn lemma_except_absent(ids: Seq<u64>, removed: Seq<u64>)
    requires
        forall|k: int| 0 <= k < ids.len() ==> !removed.contains(#[trigger] ids[k]),
    ensures
        except(ids, removed) == ids,
    decreases ids.len(),
{
    reveal(Seq::filter);
    if ids.len() > 0 {
        lemma_except_absent(ids.drop_last(), removed);
        assert(!removed.contains(ids[ids.len() - 1]));
        assert(ids =~= ids.drop_last().push(ids.last()));
    }
}

/// Removing what was added at the end restores the list.
pub proof fn lemma_except_added(ids: Seq<u64>, added: Seq<u64>)
    requires
        forall|k: int| 0 <= k < ids.len() ==> !added.contains(#[trigger] ids[k]),
    ensures
        except(ids + added, added) == ids,
{
    lemma_except_suffix(ids, added, added);
}

proof fn lemma_except_suffix(ids: Seq<u64>, suffix: Seq<u64>, removed: Seq<u64>)
    requires
        forall|k: int| 0 <= k < ids.len() ==> !removed.contains(#[trigger] ids[k]),
        forall|k: int| 0 <= k < suffix.len() ==> removed.contains(#[trigger] suffix[k]),
    ensures
        except(ids + suffix, removed) == ids,
    decreases suffix.len(),
{
    if suffix.len() > 0 {
        lemma_except_suffix(ids, suffix.drop_last(), removed);
        let whole = ids + suffix;
        assert(whole.drop_last() =~= ids + suffix.drop_last());
        assert(removed.contains(suffix[suffix.len() - 1]));
        assert(whole.last() == suffix.last());
        assert(except(whole, removed) == except(whole.drop_last(), removed)) by {
            reveal(Seq::filter);
        }
    } else {
        assert(ids + suffix =~= ids);
        lemma_except_absent(ids, removed);
    }
}

/// Removing the id that was added last restores the list.
pub proof fn lemma_take_back(ids: Seq<u64>, id: u64)
    requires
        !ids.contains(id),
    ensures
        except(ids.push(id), seq![id]) == ids,
{
    assert(ids.push(id) =~= ids + seq![id]);
    assert forall|k: int| 0 <= k < ids.len() implies !seq![id].contains(#[trigger] ids[k]) by {
        assert(ids.contains(ids[k]));
    }
    lemma_except_added(ids, seq![id]);
}

/// What stays after a removal was there before and is not among the removed.
pub proof fn lemma_except_contains(ids: Seq<u64>, removed: Seq<u64>, id: u64)
    ensures
        except(ids, removed).contains(id) <==> ids.contains(id) && !removed.contains(id),
{
    let keep = |id: u64| !removed.contains(id);
    if except(ids, removed).contains(id) {
        let k = choose|k: int|
            0 <= k < except(ids, removed).len() && except(ids, removed)[k] == id;
        ids.lemma_filter_pred(keep, k);
        ids.lemma_filter_contains_rev(keep, id);
    }
    if ids.contains(id) && !removed.contains(id) {
        let k = choose|k: int| 0 <= k < ids.len() && ids[k] == id;
        ids.lemma_filter_contains(keep, k);
    }
}

} // verus!
