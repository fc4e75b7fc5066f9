//! A generation-safe arena: values addressed by ids that are never valid again
//! once their value has been removed.
//!
//! Ids are handed out by a [`SlotMap`] key allocator. An id packs the index of a
//! slot (low half) and the version of that slot (high half); a slot holds a value
//! exactly while its version is odd.
use slotmap::{DefaultKey, Key, KeyData, SlotMap};
use vstd::prelude::*;

verus! {

/// One more than the largest slot index an id can carry.
pub const INDEX_SPAN: u64 = 0x1_0000_0000;

/// Slot index carried by `id`.
pub open spec fn id_index(id: u64) -> int {
    (id % INDEX_SPAN) as int
}

/// Slot version carried by `id`.
pub open spec fn id_version(id: u64) -> int {
    (id / INDEX_SPAN) as int
}

/// The version a slot has after one more change of hands.
pub open spec fn next_version(version: u32) -> u32 {
    if version == u32::MAX {
        0
    } else {
        (version + 1) as u32
    }
}

/// Whether `id` names the value that its slot holds now.
pub open spec fn is_live(versions: Seq<u32>, id: u64) -> bool {
    &&& id_index(id) < versions.len()
    &&& versions[id_index(id)] == id_version(id)
    &&& id_version(id) % 2 == 1
}

/// Number of slots that hold a value.
pub open spec fn occupied(versions: Seq<u32>) -> nat
    decreases versions.len(),
{
    if versions.len() == 0 {
        0
    } else {
        occupied(versions.drop_last()) + (if versions.last() % 2 == 1 { 1nat } else { 0nat })
    }
}

/// Whether `id` is what the allocator hands out when its slots go from `before`
/// to `after`: a vacant slot is taken if there is one besides the first, and a
/// new slot is added otherwise.
pub open spec fn issues(before: Seq<u32>, after: Seq<u32>, id: u64) -> bool {
    let index = id_index(id);
    &&& 1 <= index <= before.len()
    &&& if index < before.len() {
        &&& before[index] % 2 == 0
        &&& id_version(id) == before[index] + 1
        &&& after == before.update(index, (before[index] + 1) as u32)
    } else {
        &&& forall|i: int| 1 <= i < before.len() ==> #[trigger] before[i] % 2 == 1
        &&& id_version(id) == 1
        &&& after == before.push(1u32)
    }
}

/// The key allocator: a slot map without values of its own.
#[verifier::external_body]
pub struct KeySlots {
    slots: SlotMap<DefaultKey, ()>,
}

/// The versions of the allocator's slots, by slot index.
pub uninterp spec fn slot_versions(slots: KeySlots) -> Seq<u32>;

/// `SlotMap::new`: a slot map with its one reserved slot, which is vacant.
#[verifier::external_body]
fn slots_new() -> (slots: KeySlots)
    ensures
        slot_versions(slots) == seq![0u32],
{
    KeySlots { slots: SlotMap::new() }
}

/// `SlotMap::insert`, with the new key as its foreign-function integer: takes a
/// vacant slot other than the reserved one, or adds a slot where there is none,
/// and makes its version odd by counting it up.
#[verifier::external_body]
fn slots_insert(slots: &mut KeySlots) -> (id: u64)
    requires
        occupied(slot_versions(*old(slots))) < u32::MAX - 1,
    ensures
        issues(slot_versions(*old(slots)), slot_versions(*final(slots)), id),
{
    slots.slots.insert(()).data().as_ffi()
}

/// `SlotMap::remove`: gives up the slot of a live key by counting its version up,
/// and leaves the map alone for any other key.
#[verifier::external_body]
fn slots_remove(slots: &mut KeySlots, id: u64) -> (removed: bool)
    requires
        id_version(id) % 2 == 1,
    ensures
        removed == is_live(slot_versions(*old(slots)), id),
        slot_versions(*final(slots)) == if removed {
            slot_versions(*old(slots)).update(
                id_index(id),
                next_version(slot_versions(*old(slots))[id_index(id)]),
            )
        } else {
            slot_versions(*old(slots))
        },
{
    slots.slots.remove(DefaultKey::from(KeyData::from_ffi(id))).is_some()
}

/// `SlotMap::len`: the number of slots that hold a value.
#[verifier::external_body]
fn slots_len(slots: &KeySlots) -> (count: usize)
    ensures
        count == occupied(slot_versions(*slots)),
{
    slots.slots.len()
}

/// A stored value with the id it is stored under.
pub struct Cell<T> {
    pub id: u64,
    pub value: T,
}

/// The ids of the stored values, in slot order.
pub open spec fn cell_ids<T>(cells: Seq<Option<Cell<T>>>) -> Seq<u64>
    decreases cells.len(),
{
    if cells.len() == 0 {
        Seq::empty()
    } else {
        let before = cell_ids(cells.drop_last());
        match cells.last() {
            Some(cell) => before.push(cell.id),
            None => before,
        }
    }
}

/// Values under generation-safe ids, walked in slot order.
pub struct Arena<T> {
    keys: KeySlots,
    cells: Vec<Option<Cell<T>>>,
}

impl<T> View for Arena<T> {
    type V = Map<u64, T>;

    closed spec fn view(&self) -> Map<u64, T> {
        Map::new(
            |id: u64| self.holds(id),
            |id: u64| self.cells@[id_index(id)]->0.value,
        )
    }
}

impl<T> Arena<T> {
    spec fn holds(&self, id: u64) -> bool {
        &&& id_index(id) < self.cells@.len()
        &&& self.cells@[id_index(id)] is Some
        &&& self.cells@[id_index(id)]->0.id == id
    }

    /// The versions of the arena's slots, by slot index.
    pub closed spec fn versions(&self) -> Seq<u32> {
        slot_versions(self.keys)
    }

    /// The allocator and the cells agree on which slots hold a value.
    pub closed spec fn wf(&self) -> bool {
        let versions = self.versions();
        &&& 1 <= versions.len() <= u32::MAX
        &&& versions[0] == 0
        &&& self.cells@.len() == versions.len()
        &&& forall|i: int|
            0 <= i < versions.len() ==> (#[trigger] self.cells@[i] is Some <==> versions[i] % 2
                == 1)
        &&& forall|i: int|
            0 <= i < versions.len() && #[trigger] self.cells@[i] is Some ==> id_index(
                self.cells@[i]->0.id,
            ) == i && id_version(self.cells@[i]->0.id) == versions[i]
    }

    /// The ids of the stored values, in slot order.
    pub closed spec fn order(&self) -> Seq<u64> {
        cell_ids(self.cells@)
    }

    /// Whether `id` named a value here once and does no longer.
    pub open spec fn retired(&self, id: u64) -> bool {
        &&& id_index(id) < self.versions().len()
        &&& id_version(id) < self.versions()[id_index(id)]
    }

    /// Whether another value can be stored.
    pub open spec fn has_room(&self) -> bool {
        self@.dom().len() < u32::MAX - 1
    }

    /// Whether the slot of `id` can be used again after a removal without
    /// repeating an id.
    pub open spec fn removable(&self, id: u64) -> bool {
        id_version(id) < u32::MAX
    }

    pub fn new() -> (arena: Self)
        ensures
            arena.wf(),
            arena@ == Map::<u64, T>::empty(),
            arena.order() == Seq::<u64>::empty(),
            arena.versions() == seq![0u32],
    {
        let mut cells: Vec<Option<Cell<T>>> = Vec::new();
        cells.push(None);
        let arena = Arena { keys: slots_new(), cells };
        proof {
            assert(arena@ =~= Map::<u64, T>::empty());
            reveal_with_fuel(cell_ids, 2);
            assert(arena.cells@.drop_last() =~= Seq::empty());
        }
        arena
    }

    /// Number of stored values.
    pub fn len(&self) -> (count: usize)
        requires
            self.wf(),
        ensures
            count == self@.dom().len(),
            self@.dom().finite(),
            count == self.order().len(),
    {
        proof {
            self.lemma_order();
            self.lemma_count();
        }
        slots_len(&self.keys)
    }

    pub fn contains(&self, id: u64) -> (found: bool)
        requires
            self.wf(),
        ensures
            found == self@.dom().contains(id),
    {
        self.get(id).is_some()
    }

    pub fn get(&self, id: u64) -> (value: Option<&T>)
        requires
            self.wf(),
        ensures
            value is Some == self@.dom().contains(id),
            value is Some ==> *value->0 == self@[id],
    {
        let index: u64 = id % INDEX_SPAN;
        if index >= self.cells.len() as u64 {
            return None;
        }
        match &self.cells[index as usize] {
            Some(cell) if cell.id == id => Some(&cell.value),
            _ => None,
        }
    }

    /// Grants access to the value under `id`; nothing else changes.
    pub fn get_mut(&mut self, id: u64) -> (value: Option<&mut T>)
        requires
            old(self).wf(),
        ensures
            final(self).wf(),
            final(self).versions() == old(self).versions(),
            final(self).order() == old(self).order(),
            match value {
                Some(value) => {
                    &&& old(self)@.dom().contains(id)
                    &&& *value == old(self)@[id]
                    &&& final(self)@ == old(self)@.insert(id, *final(value))
                },
                None => !old(self)@.dom().contains(id) && *final(self) == *old(self),
            },
    {
        let index: u64 = id % INDEX_SPAN;
        if index >= self.cells.len() as u64 {
            return None;
        }
        let found: bool = match &self.cells[index as usize] {
            Some(cell) => cell.id == id,
            None => false,
        };
        if !found {
            return None;
        }
        proof {
            let before = *old(self);
            let at = id_index(id);
            assert forall|value: T|
                cell_ids(
                    #[trigger] before.cells@.update(at, Some(Cell { id, value })),
                ) == cell_ids(before.cells@) by {
                lemma_update_ids(before.cells@, at, Cell { id, value });
            }
        }
        match &mut self.cells[index as usize] {
            Some(cell) => Some(&mut cell.value),
            None => None,
        }
    }

    /// Stores `value` under an id that names nothing else, now or later.
    pub fn insert(&mut self, value: T) -> (id: u64)
        requires
            old(self).wf(),
            old(self).has_room(),
        ensures
            final(self).wf(),
            !old(self)@.dom().contains(id),
            !old(self).retired(id),
            final(self)@ == old(self)@.insert(id, value),
            issues(old(self).versions(), final(self).versions(), id),
    {
        proof {
            self.lemma_order();
            self.lemma_count();
        }
        let id = slots_insert(&mut self.keys);
        let index: u64 = id % INDEX_SPAN;
        let cell = Cell { id, value };
        proof {
            if index as int == old(self).cells@.len() {
                lemma_full(old(self).versions());
            }
        }
        if index == self.cells.len() as u64 {
            self.cells.push(Some(cell));
        } else {
            self.cells.set(index as usize, Some(cell));
        }
        proof {
            lemma_id_parts();
            assert(self@ =~= old(self)@.insert(id, value));
        }
        id
    }

    /// Whether the slot of `id` can be used again after a removal.
    pub fn is_removable(&self, id: u64) -> (removable: bool)
        ensures
            removable == self.removable(id),
    {
        id / INDEX_SPAN < u32::MAX as u64
    }

    /// Takes the value under `id` out; the id is retired, unless its slot has no
    /// version left to go on to.
    pub fn remove(&mut self, id: u64) -> (value: Option<T>)
        requires
            old(self).wf(),
        ensures
            final(self).wf(),
            match value {
                Some(value) => {
                    &&& old(self)@.dom().contains(id)
                    &&& value == old(self)@[id]
                    &&& final(self)@ == old(self)@.remove(id)
                    &&& old(self).removable(id) ==> final(self).retired(id)
                    &&& is_live(old(self).versions(), id)
                    &&& id_version(id) <= u32::MAX
                    &&& final(self).versions() == old(self).versions().update(
                        id_index(id),
                        next_version(id_version(id) as u32),
                    )
                    &&& final(self).order() == without(old(self).order(), id)
                },
                None => !old(self)@.dom().contains(id) && *final(self) == *old(self),
            },
    {
        if !self.contains(id) {
            return None;
        }
        let index: u64 = id % INDEX_SPAN;
        let ghost before = *self;
        let removed = slots_remove(&mut self.keys, id);
        let taken = self.cells[index as usize].take();
        proof {
            lemma_id_parts();
            assert(self@ =~= before@.remove(id));
            lemma_removed_ids(before.cells@, id_index(id));
        }
        match taken {
            Some(cell) => Some(cell.value),
            None => None,
        }
    }

    /// The ids of the stored values, in slot order.
    pub fn ids(&self) -> (ids: Vec<u64>)
        requires
            self.wf(),
        ensures
            ids@ == self.order(),
            ids@.no_duplicates(),
            forall|id: u64| #[trigger] self@.dom().contains(id) <==> ids@.contains(id),
    {
        let mut ids: Vec<u64> = Vec::new();
        let mut i: usize = 0;
        while i < self.cells.len()
            invariant
                i <= self.cells@.len(),
                ids@ == cell_ids(self.cells@.take(i as int)),
            decreases self.cells@.len() - i,
        {
            proof {
                assert(self.cells@.take(i + 1).drop_last() =~= self.cells@.take(i as int));
            }
            match &self.cells[i] {
                Some(cell) => ids.push(cell.id),
                None => {},
            }
            i += 1;
        }
        proof {
            assert(self.cells@.take(i as int) =~= self.cells@);
            self.lemma_order();
        }
        ids
    }

    /// The order lists each stored id once.
    pub proof fn lemma_order(&self)
        requires
            self.wf(),
        ensures
            self.order().no_duplicates(),
            forall|id: u64| #[trigger] self@.dom().contains(id) <==> self.order().contains(id),
            self@.dom() == self.order().to_set(),
            self@.dom().finite(),
            self@.dom().len() == self.order().len(),
    {
        lemma_ids_sorted(self.cells@, self.versions());
        assert forall|id: u64| #[trigger] self@.dom().contains(id) implies self.order().contains(
            id,
        ) by {
            lemma_ids_contain(self.cells@, id_index(id));
        }
        assert forall|id: u64| #[trigger] self.order().contains(id) implies self@.dom().contains(
            id,
        ) by {
            let k = choose|k: int| 0 <= k < self.order().len() && self.order()[k] == id;
        }
        assert(self@.dom() =~= self.order().to_set());
        self.order().unique_seq_to_set();
        vstd::seq_lib::seq_to_set_is_finite(self.order());
    }

    /// The ids of an arena leave the reserved slot and one more unused.
    pub proof fn lemma_bounded(&self)
        requires
            self.wf(),
        ensures
            self@.dom().len() <= u32::MAX - 1,
    {
        self.lemma_order();
        self.lemma_count();
        lemma_occupied_bound(self.versions());
    }

    proof fn lemma_count(&self)
        requires
            self.wf(),
        ensures
            occupied(self.versions()) == self.order().len(),
    {
        lemma_ids_count(self.cells@, self.versions());
    }
}

/// `ids` without the occurrences of `id`.
pub open spec fn without(ids: Seq<u64>, id: u64) -> Seq<u64> {
    ids.filter(|other: u64| other != id)
}

/// An id is its index and its version.
proof fn lemma_id_parts()
    ensures
        forall|a: u64, b: u64|
            #![trigger id_index(a), id_index(b)]
            id_index(a) == id_index(b) && id_version(a) == id_version(b) ==> a == b,
{
}

proof fn lemma_full(versions: Seq<u32>)
    requires
        versions.len() >= 1,
        versions[0] % 2 == 0,
        forall|i: int| 1 <= i < versions.len() ==> #[trigger] versions[i] % 2 == 1,
    ensures
        occupied(versions) == versions.len() - 1,
    decreases versions.len(),
{
    if versions.len() > 1 {
        lemma_full(versions.drop_last());
    } else {
        reveal_with_fuel(occupied, 2);
    }
}

proof fn lemma_occupied_bound(versions: Seq<u32>)
    requires
        versions.len() >= 1,
        versions[0] == 0,
    ensures
        occupied(versions) <= versions.len() - 1,
    decreases versions.len(),
{
    if versions.len() > 1 {
        lemma_occupied_bound(versions.drop_last());
    } else {
        reveal_with_fuel(occupied, 2);
    }
}

proof fn lemma_update_ids<T>(cells: Seq<Option<Cell<T>>>, index: int, cell: Cell<T>)
    requires
        0 <= index < cells.len(),
        cells[index] is Some,
        cells[index]->0.id == cell.id,
    ensures
        cell_ids(cells.update(index, Some(cell))) == cell_ids(cells),
    decreases cells.len(),
{
    let after = cells.update(index, Some(cell));
    if index == cells.len() - 1 {
        assert(after.drop_last() =~= cells.drop_last());
    } else {
        lemma_update_ids(cells.drop_last(), index, cell);
        assert(after.drop_last() =~= cells.drop_last().update(index, Some(cell)));
    }
}

proof fn lemma_ids_contain<T>(cells: Seq<Option<Cell<T>>>, index: int)
    requires
        0 <= index < cells.len(),
        cells[index] is Some,
    ensures
        cell_ids(cells).contains(cells[index]->0.id),
    decreases cells.len(),
{
    let before = cell_ids(cells.drop_last());
    if index == cells.len() - 1 {
        assert(cell_ids(cells)[before.len() as int] == cells[index]->0.id);
    } else {
        lemma_ids_contain(cells.drop_last(), index);
        let k = choose|k: int| 0 <= k < before.len() && before[k] == cells[index]->0.id;
        assert(cell_ids(cells)[k] == cells[index]->0.id);
    }
}

proof fn lemma_ids_sorted<T>(cells: Seq<Option<Cell<T>>>, versions: Seq<u32>)
    requires
        cells.len() == versions.len(),
        forall|i: int|
            0 <= i < versions.len() && #[trigger] cells[i] is Some ==> id_index(cells[i]->0.id)
                == i,
    ensures
        forall|k: int|
            0 <= k < cell_ids(cells).len() ==> {
                let id = #[trigger] cell_ids(cells)[k];
                id_index(id) < cells.len() && cells[id_index(id)] is Some
                    && cells[id_index(id)]->0.id == id
            },
        forall|j: int, k: int|
            0 <= j < k < cell_ids(cells).len() ==> id_index(#[trigger] cell_ids(cells)[j])
                < id_index(#[trigger] cell_ids(cells)[k]),
    decreases cells.len(),
{
    if cells.len() > 0 {
        lemma_ids_sorted(cells.drop_last(), versions.drop_last());
    }
}

proof fn lemma_ids_count<T>(cells: Seq<Option<Cell<T>>>, versions: Seq<u32>)
    requires
        cells.len() == versions.len(),
        forall|i: int|
            0 <= i < versions.len() ==> (#[trigger] cells[i] is Some <==> versions[i] % 2 == 1),
    ensures
        occupied(versions) == cell_ids(cells).len(),
    decreases cells.len(),
{
    if cells.len() > 0 {
        assert(cells[cells.len() - 1] is Some <==> versions[cells.len() - 1] % 2 == 1);
        assert forall|i: int| 0 <= i < versions.drop_last().len() implies (
        #[trigger] cells.drop_last()[i] is Some <==> versions.drop_last()[i] % 2 == 1) by {
            assert(cells[i] is Some <==> versions[i] % 2 == 1);
        }
        lemma_ids_count(cells.drop_last(), versions.drop_last());
    }
}

proof fn lemma_removed_ids<T>(cells: Seq<Option<Cell<T>>>, index: int)
    requires
        0 <= index < cells.len(),
        cells[index] is Some,
        forall|i: int|
            0 <= i < cells.len() && #[trigger] cells[i] is Some ==> id_index(cells[i]->0.id) == i,
    ensures
        cell_ids(cells.update(index, None)) == without(cell_ids(cells), cells[index]->0.id),
    decreases cells.len(),
{
    let id = cells[index]->0.id;
    let keep = |other: u64| other != id;
    let after = cells.update(index, None::<Cell<T>>);
    let before = cell_ids(cells.drop_last());
    if index == cells.len() - 1 {
        assert(after.drop_last() =~= cells.drop_last());
        lemma_unrelated(cells.drop_last(), id);
        assert(before.push(id).drop_last() =~= before);
        reveal(Seq::filter);
    } else {
        lemma_removed_ids(cells.drop_last(), index);
        assert(after.drop_last() =~= cells.drop_last().update(index, None));
        match cells.last() {
            Some(cell) => {
                assert(cells[cells.len() - 1] is Some);
                assert(before.push(cell.id).drop_last() =~= before);
                reveal(Seq::filter);
            },
            None => {},
        }
    }
}

proof fn lemma_unrelated<T>(cells: Seq<Option<Cell<T>>>, id: u64)
    requires
        id_index(id) >= cells.len(),
        forall|i: int|
            0 <= i < cells.len() && #[trigger] cells[i] is Some ==> id_index(cells[i]->0.id) == i,
    ensures
        without(cell_ids(cells), id) == cell_ids(cells),
    decreases cells.len(),
{
    reveal(Seq::filter);
    if cells.len() > 0 {
        lemma_unrelated(cells.drop_last(), id);
        let before = cell_ids(cells.drop_last());
        match cells.last() {
            Some(cell) => {
                assert(cells[cells.len() - 1] is Some);
                assert(before.push(cell.id).drop_last() =~= before);
            },
            None => {},
        }
    }
}

/// Whether every id that was retired before is so still, but where the slot of the id was
/// at its last version.
pub open spec fn retains<T>(before: Arena<T>, after: Arena<T>) -> bool {
    forall|id: u64| #[trigger]
        before.retired(id) ==> after.retired(id) || (before.versions()[id_index(id)] == u32::MAX
            && after.versions()[id_index(id)] == 0)
}

/// A retired id names nothing.
pub proof fn law_retired_ids_name_nothing<T>(arena: Arena<T>, id: u64)
    requires
        arena.wf(),
        arena.retired(id),
    ensures
        !arena@.dom().contains(id),
{
}

/// A retired id never becomes valid again: it stays retired when another value is
/// stored and when another value is removed.
pub proof fn law_retired_ids_stay_retired<T>(
    before: Arena<T>,
    after: Arena<T>,
    id: u64,
    other: u64,
)
    requires
        before.wf(),
        after.wf(),
        before.retired(id),
        issues(before.versions(), after.versions(), other) || {
            &&& before@.dom().contains(other)
            &&& before.removable(other)
            &&& after.versions() == before.versions().update(
                id_index(other),
                next_version(id_version(other) as u32),
            )
        },
    ensures
        !before@.dom().contains(id),
        after.retired(id),
        !after@.dom().contains(id),
{
}

} // verus!
