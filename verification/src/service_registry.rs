//! Services: interned names, registrations by scope, and nearest-scope resolution
//! with a bounded cache.
use crate::error::CordisError;
use crate::gate::GateTable;
#[allow(unused_imports)]
use crate::gate::cut_over;
use crate::ids::{FiberId, GenerationId, ScopeId, ServiceSymbol};
use crate::key::ServiceKey;
#[allow(unused_imports)]
use crate::key::{key_views, KeyView};
use crate::state::ResourceKind;
use std::collections::{HashMap, VecDeque};
use vstd::prelude::*;

verus! {

broadcast use vstd::std_specs::hash::group_hash_axioms;

/// Number of symbols that a slot number tells apart.
pub const SYMBOL_SPAN: u128 = 0x1_0000_0000;

/// A registered service.
#[derive(Clone, Copy, Debug, PartialEq, Eq, Structural)]
pub struct ServiceEntry {
    pub owner: FiberId,
    pub scope: ScopeId,
    /// Names the service value, which lives with its user.
    pub value: u64,
    /// The generation that the service belongs to.
    pub gate: GenerationId,
}

/// Where a service was found last, and in which epoch.
#[derive(Clone, Copy, Debug)]
pub struct CacheEntry {
    pub epoch: u64,
    pub location: Option<(ScopeId, FiberId)>,
}

/// What the cache knows about a lookup.
#[derive(Clone, Copy, Debug)]
pub enum CacheLookup {
    Miss,
    Hit(Option<ServiceEntry>),
}

/// The number under which the service `symbol` in `scope` is registered.
pub open spec fn slot_of(scope: ScopeId, symbol: ServiceSymbol) -> u128 {
    (scope.raw * SYMBOL_SPAN + symbol.index) as u128
}

/// The scope of a registration.
pub open spec fn slot_scope(slot: u128) -> ScopeId {
    ScopeId { raw: (slot / SYMBOL_SPAN) as u64 }
}

/// The symbol of a registration.
pub open spec fn slot_symbol(slot: u128) -> ServiceSymbol {
    ServiceSymbol { index: (slot % SYMBOL_SPAN) as u32 }
}

/// A registration number tells scope and symbol.
pub broadcast proof fn lemma_slot(scope: ScopeId, symbol: ServiceSymbol)
    ensures
        slot_scope(#[trigger] slot_of(scope, symbol)) == scope,
        slot_symbol(slot_of(scope, symbol)) == symbol,
        slot_of(scope, symbol) == scope.raw * SYMBOL_SPAN + symbol.index,
{
}

fn slot(scope: ScopeId, symbol: ServiceSymbol) -> (slot: u128)
    ensures
        slot == slot_of(scope, symbol),
{
    (scope.raw as u128) * SYMBOL_SPAN + symbol.index as u128
}

/// Registrations by number.
pub type Entries = Map<u128, ServiceEntry>;

/// Whether `scope` holds a visible service `symbol`.
pub open spec fn visible_at(
    entries: Entries,
    gates: GateTable,
    scope: ScopeId,
    symbol: ServiceSymbol,
) -> bool {
    &&& entries.dom().contains(slot_of(scope, symbol))
    &&& gates.visible(entries[slot_of(scope, symbol)].gate)
}

/// The visible service `symbol` that comes first on `line`.
pub open spec fn nearest(
    entries: Entries,
    gates: GateTable,
    line: Seq<ScopeId>,
    symbol: ServiceSymbol,
) -> Option<ServiceEntry>
    decreases line.len(),
{
    if line.len() == 0 {
        None
    } else if visible_at(entries, gates, line[0], symbol) {
        Some(entries[slot_of(line[0], symbol)])
    } else {
        nearest(entries, gates, line.drop_first(), symbol)
    }
}

/// The service `symbol` of `owner` that is not visible and comes first on `line`.
pub open spec fn nearest_owned(
    entries: Entries,
    gates: GateTable,
    line: Seq<ScopeId>,
    symbol: ServiceSymbol,
    owner: FiberId,
) -> Option<ServiceEntry>
    decreases line.len(),
{
    let slot = slot_of(line[0], symbol);
    if line.len() == 0 {
        None
    } else if entries.dom().contains(slot) && entries[slot].owner == owner && !gates.visible(
        entries[slot].gate,
    ) {
        Some(entries[slot])
    } else {
        nearest_owned(entries, gates, line.drop_first(), symbol, owner)
    }
}

/// Whether `line` holds no visible service `symbol` before position `k`.
pub open spec fn none_before(
    entries: Entries,
    gates: GateTable,
    line: Seq<ScopeId>,
    symbol: ServiceSymbol,
    k: int,
) -> bool {
    forall|j: int| 0 <= j < k ==> !visible_at(entries, gates, #[trigger] line[j], symbol)
}

/// Whether a remembered location says no more than a walk along `line` would.
pub open spec fn is_sound(
    location: Option<(ScopeId, FiberId)>,
    entries: Entries,
    gates: GateTable,
    line: Seq<ScopeId>,
    symbol: ServiceSymbol,
) -> bool {
    match location {
        None => none_before(entries, gates, line, symbol, line.len() as int),
        Some(place) => exists|k: int|
            0 <= k < line.len() && #[trigger] line[k] == place.0 && none_before(
                entries,
                gates,
                line,
                symbol,
                k,
            ),
    }
}

/// The first visible service is the one before which there is none.
pub proof fn lemma_nearest(
    entries: Entries,
    gates: GateTable,
    line: Seq<ScopeId>,
    symbol: ServiceSymbol,
    k: int,
)
    requires
        0 <= k <= line.len(),
        none_before(entries, gates, line, symbol, k),
    ensures
        k == line.len() ==> nearest(entries, gates, line, symbol) is None,
        k < line.len() && visible_at(entries, gates, line[k], symbol) ==> nearest(
            entries,
            gates,
            line,
            symbol,
        ) == Some(entries[slot_of(line[k], symbol)]),
    decreases line.len(),
{
    if k > 0 {
        let rest = line.drop_first();
        assert(!visible_at(entries, gates, line[0], symbol));
        assert forall|j: int| 0 <= j < k - 1 implies !visible_at(
            entries,
            gates,
            #[trigger] rest[j],
            symbol,
        ) by {
            assert(rest[j] == line[j + 1]);
        }
        lemma_nearest(entries, gates, rest, symbol, k - 1);
    }
}

/// A revision of services that is ready to be published.
pub struct PreparedServiceRevision {
    pub from: ScopeId,
    pub to: ScopeId,
    pub symbols: Vec<ServiceSymbol>,
    pub old_owner: FiberId,
    pub staged_owner: FiberId,
}

/// Whether `staged_owner` holds the service `symbol` in `from`, and nobody but
/// `old_owner` holds it in `to`.
pub open spec fn replaceable(
    entries: Entries,
    from: ScopeId,
    to: ScopeId,
    symbol: ServiceSymbol,
    old_owner: FiberId,
    staged_owner: FiberId,
) -> bool {
    &&& owned_in(entries, from, symbol, staged_owner)
    &&& entries.dom().contains(slot_of(to, symbol)) ==> entries[slot_of(to, symbol)].owner
        == old_owner
}

/// Whether `owner` holds the service `symbol` in `scope`.
pub open spec fn owned_in(
    entries: Entries,
    scope: ScopeId,
    symbol: ServiceSymbol,
    owner: FiberId,
) -> bool {
    entries.dom().contains(slot_of(scope, symbol)) && entries[slot_of(scope, symbol)].owner
        == owner
}

impl PreparedServiceRevision {
    /// Whether each service can be replaced.
    pub open spec fn applies_to(&self, entries: Entries) -> bool {
        forall|k: int|
            0 <= k < self.symbols@.len() ==> replaceable(
                entries,
                self.from,
                self.to,
                #[trigger] self.symbols@[k],
                self.old_owner,
                self.staged_owner,
            )
    }
}

/// `entries` with the services `symbols` taken from one scope to another.
pub open spec fn relocated(
    entries: Entries,
    from: ScopeId,
    to: ScopeId,
    symbols: Seq<ServiceSymbol>,
) -> Entries {
    Map::new(
        |slot: u128|
            is_slot_in(slot, to, symbols) || (entries.dom().contains(slot) && !is_slot_in(
                slot,
                from,
                symbols,
            )),
        |slot: u128|
            if is_slot_in(slot, to, symbols) {
                ServiceEntry { scope: to, ..entries[slot_of(from, slot_symbol(slot))] }
            } else {
                entries[slot]
            },
    )
}

/// Whether `slot` is that of one of `symbols` in `scope`.
pub open spec fn is_slot_in(slot: u128, scope: ScopeId, symbols: Seq<ServiceSymbol>) -> bool {
    slot == slot_of(scope, slot_symbol(slot)) && symbols.contains(slot_symbol(slot))
}

/// The services of a runtime.
pub struct ServiceRegistry {
    pub keys: Vec<ServiceKey>,
    pub entries: HashMap<u128, ServiceEntry>,
    pub epoch: u64,
    pub cache: HashMap<u128, CacheEntry>,
    pub cache_order: VecDeque<u128>,
    pub max_symbols: usize,
    pub max_cache_entries: usize,
}

impl View for ServiceRegistry {
    type V = Entries;

    open spec fn view(&self) -> Entries {
        self.entries@
    }
}

impl ServiceRegistry {
    /// Names are interned once and within the limit; registrations know their
    /// scope; the cache is within its limit and remembers its order.
    pub open spec fn wf(&self) -> bool {
        &&& key_views(self.keys@).no_duplicates()
        &&& self.keys@.len() <= self.max_symbols
        &&& self.keys@.len() <= u32::MAX + 1
        &&& forall|slot: u128| #[trigger]
            self.entries@.dom().contains(slot) ==> slot == slot_of(
                self.entries@[slot].scope,
                slot_symbol(slot),
            )
        &&& self.cache_order@.no_duplicates()
        &&& self.cache@.dom() == self.cache_order@.to_set()
        &&& self.cache_order@.len() <= self.max_cache_entries
    }

    /// The symbol of `key`, if it is interned.
    pub open spec fn symbol_of(&self, key: KeyView) -> Option<ServiceSymbol> {
        if key_views(self.keys@).contains(key) {
            Some(ServiceSymbol { index: key_views(self.keys@).index_of(key) as u32 })
        } else {
            None
        }
    }

    /// Nothing but the cache differs.
    pub open spec fn same_but_cache(&self, other: &Self) -> bool {
        &&& self.keys == other.keys
        &&& self.entries == other.entries
        &&& self.epoch == other.epoch
        &&& self.max_symbols == other.max_symbols
        &&& self.max_cache_entries == other.max_cache_entries
    }

    /// The cache is dropped and the epoch counted up.
    pub open spec fn bumped_from(&self, other: &Self) -> bool {
        &&& self.keys == other.keys
        &&& self.epoch == if other.epoch == u64::MAX {
            0
        } else {
            (other.epoch + 1) as u64
        }
        &&& self.cache@ == Map::<u128, CacheEntry>::empty()
        &&& self.cache_order@ == Seq::<u128>::empty()
        &&& self.max_symbols == other.max_symbols
        &&& self.max_cache_entries == other.max_cache_entries
    }

    /// What the cache knows about the service `symbol` as seen from `requested`.
    pub open spec fn cached(
        &self,
        requested: ScopeId,
        symbol: ServiceSymbol,
        gates: GateTable,
    ) -> CacheLookup {
        let slot = slot_of(requested, symbol);
        if self.max_cache_entries == 0 || !self.cache@.dom().contains(slot) || self.cache@[slot].epoch
            != self.epoch {
            CacheLookup::Miss
        } else {
            match self.cache@[slot].location {
                None => CacheLookup::Hit(None),
                Some(place) => {
                    let at = slot_of(place.0, symbol);
                    if self@.dom().contains(at) && self@[at].owner == place.1 && gates.visible(
                        self@[at].gate,
                    ) {
                        CacheLookup::Hit(Some(self@[at]))
                    } else {
                        CacheLookup::Miss
                    }
                },
            }
        }
    }

    /// What a lookup returns: what the cache knows, or else the service that
    /// comes first on `line`.
    pub open spec fn resolved(
        &self,
        requested: ScopeId,
        line: Seq<ScopeId>,
        symbol: ServiceSymbol,
        gates: GateTable,
    ) -> Option<ServiceEntry> {
        match self.cached(requested, symbol, gates) {
            CacheLookup::Hit(entry) => entry,
            CacheLookup::Miss => nearest(self@, gates, line, symbol),
        }
    }

    /// Whether what the cache remembers of `symbol` as seen from `requested` says
    /// no more than a walk along `line` would.
    pub open spec fn sound_at(
        &self,
        requested: ScopeId,
        symbol: ServiceSymbol,
        line: Seq<ScopeId>,
        gates: GateTable,
    ) -> bool {
        let slot = slot_of(requested, symbol);
        self.cache@.dom().contains(slot) && self.cache@[slot].epoch == self.epoch ==> is_sound(
            self.cache@[slot].location,
            self@,
            gates,
            line,
            symbol,
        )
    }

    pub fn new(max_symbols: usize, max_cache_entries: usize) -> (registry: Self)
        ensures
            registry.wf(),
            registry.keys@ == Seq::<ServiceKey>::empty(),
            registry@ == Map::<u128, ServiceEntry>::empty(),
            registry.cache@ == Map::<u128, CacheEntry>::empty(),
            registry.cache_order@ == Seq::<u128>::empty(),
            registry.epoch == 0,
            registry.max_symbols == max_symbols,
            registry.max_cache_entries == max_cache_entries,
    {
        let registry = ServiceRegistry {
            keys: Vec::new(),
            entries: HashMap::new(),
            epoch: 0,
            cache: HashMap::new(),
            cache_order: VecDeque::new(),
            max_symbols,
            max_cache_entries,
        };
        assert(registry.cache@.dom() =~= registry.cache_order@.to_set());
        registry
    }

    /// The symbol of an interned key.
    pub fn lookup(&self, key: &ServiceKey) -> (symbol: Option<ServiceSymbol>)
        requires
            self.wf(),
        ensures
            symbol == self.symbol_of(key@),
    {
        let mut i: usize = 0;
        while i < self.keys.len()
            invariant
                self.wf(),
                i <= self.keys@.len(),
                forall|k: int| 0 <= k < i ==> key_views(self.keys@)[k] != key@,
            decreases self.keys@.len() - i,
        {
            if self.keys[i].same(key) {
                assert(key_views(self.keys@)[i as int] == key@);
                assert(key_views(self.keys@).contains(key@));
                return Some(ServiceSymbol { index: i as u32 });
            }
            i += 1;
        }
        None
    }

    /// The symbol of `key`, interned where it is new and there is room.
    pub fn try_intern(&mut self, key: &ServiceKey) -> (symbol: Result<ServiceSymbol, CordisError>)
        requires
            old(self).wf(),
        ensures
            final(self).wf(),
            *final(self) == (ServiceRegistry { keys: final(self).keys, ..*old(self) }),
            match old(self).symbol_of(key@) {
                Some(known) => {
                    &&& symbol == Ok::<ServiceSymbol, CordisError>(known)
                    &&& *final(self) == *old(self)
                },
                None => if old(self).keys@.len() >= old(self).max_symbols {
                    &&& symbol matches Err(error)
                    &&& error == (CordisError::ResourceLimitExceeded {
                        resource: ResourceKind::ServiceSymbols,
                        limit: old(self).max_symbols,
                    })
                    &&& *final(self) == *old(self)
                } else if old(self).keys@.len() > u32::MAX {
                    &&& symbol matches Err(CordisError::InvalidRuntimeConfig(message))
                    &&& message@ == "max_interned_symbols exceeds the ServiceSymbol ID space"@
                    &&& *final(self) == *old(self)
                } else {
                    &&& symbol == Ok::<ServiceSymbol, CordisError>(
                        ServiceSymbol { index: old(self).keys@.len() as u32 },
                    )
                    &&& final(self).keys@ == old(self).keys@.push(*key)
                    &&& final(self).symbol_of(key@) == Some(symbol->Ok_0)
                },
            },
            forall|other: KeyView| #[trigger]
                old(self).symbol_of(other) is Some ==> final(self).symbol_of(other)
                    == old(self).symbol_of(other),
    {
        if let Some(symbol) = self.lookup(key) {
            return Ok(symbol);
        }
        if self.keys.len() >= self.max_symbols {
            return Err(
                CordisError::ResourceLimitExceeded {
                    resource: ResourceKind::ServiceSymbols,
                    limit: self.max_symbols,
                },
            );
        }
        if self.keys.len() as u64 > u32::MAX as u64 {
            return Err(
                CordisError::InvalidRuntimeConfig(
                    "max_interned_symbols exceeds the ServiceSymbol ID space".to_owned(),
                ),
            );
        }
        let index: u32 = self.keys.len() as u32;
        self.keys.push(key.clone());
        proof {
            let before = key_views(old(self).keys@);
            let after = key_views(self.keys@);
            assert(after =~= before.push(key@));
            assert(after[index as int] == key@);
            assert(!before.contains(key@));
            assert(after.no_duplicates()) by {
                assert forall|i: int, j: int|
                    0 <= i < after.len() && 0 <= j < after.len() && i != j implies after[i]
                    != after[j] by {
                    if i == index {
                        assert(before.contains(before[j]));
                    } else if j == index {
                        assert(before.contains(before[i]));
                    }
                }
            }
            assert forall|other: KeyView| #[trigger]
                old(self).symbol_of(other) is Some implies self.symbol_of(other)
                == old(self).symbol_of(other) by {
                let k = before.index_of(other);
                assert(after[k] == other);
                assert(after.contains(other));
                assert(after[after.index_of(other)] == other);
            }
            assert(after[after.index_of(key@)] == key@);
        }
        Ok(ServiceSymbol { index })
    }

    /// The symbol of a key that was interned before.
    pub fn intern(&self, key: &ServiceKey) -> (symbol: ServiceSymbol)
        requires
            self.wf(),
            self.symbol_of(key@) is Some,
        ensures
            symbol == self.symbol_of(key@)->0,
    {
        match self.lookup(key) {
            Some(symbol) => symbol,
            None => ServiceSymbol { index: 0 },
        }
    }

    pub fn contains(&self, scope: ScopeId, symbol: ServiceSymbol) -> (found: bool)
        ensures
            found == self@.dom().contains(slot_of(scope, symbol)),
    {
        self.entries.contains_key(&slot(scope, symbol))
    }

    pub fn get(&self, scope: ScopeId, symbol: ServiceSymbol) -> (entry: Option<ServiceEntry>)
        ensures
            entry == if self@.dom().contains(slot_of(scope, symbol)) {
                Some(self@[slot_of(scope, symbol)])
            } else {
                None
            },
    {
        match self.entries.get(&slot(scope, symbol)) {
            Some(entry) => Some(*entry),
            None => None,
        }
    }

    /// Registers a service in `scope`.
    pub fn insert(&mut self, scope: ScopeId, symbol: ServiceSymbol, entry: ServiceEntry)
        requires
            old(self).wf(),
        ensures
            final(self).wf(),
            final(self).bumped_from(&*old(self)),
            final(self)@ == old(self)@.insert(
                slot_of(scope, symbol),
                ServiceEntry { scope, ..entry },
            ),
    {
        broadcast use lemma_slot;

        let entry = ServiceEntry { scope, ..entry };
        self.entries.insert(slot(scope, symbol), entry);
        self.bump();
    }

    /// Takes a registration back.
    pub fn remove(&mut self, scope: ScopeId, symbol: ServiceSymbol) -> (entry: Option<ServiceEntry>)
        requires
            old(self).wf(),
        ensures
            final(self).wf(),
            match entry {
                Some(entry) => {
                    &&& old(self)@.dom().contains(slot_of(scope, symbol))
                    &&& entry == old(self)@[slot_of(scope, symbol)]
                    &&& final(self).bumped_from(&*old(self))
                    &&& final(self)@ == old(self)@.remove(slot_of(scope, symbol))
                },
                None => {
                    &&& !old(self)@.dom().contains(slot_of(scope, symbol))
                    &&& *final(self) == *old(self)
                },
            },
    {
        let at = slot(scope, symbol);
        match self.get(scope, symbol) {
            Some(entry) => {
                self.entries.remove(&at);
                assert(self@ =~= old(self)@.remove(at));
                self.bump();
                Some(entry)
            },
            None => None,
        }
    }

    /// Drops the cache.
    pub fn bump_epoch(&mut self)
        requires
            old(self).wf(),
        ensures
            final(self).wf(),
            final(self).bumped_from(&*old(self)),
            final(self).entries == old(self).entries,
    {
        self.bump();
    }

    fn bump(&mut self)
        ensures
            final(self).bumped_from(&*old(self)),
            final(self).entries == old(self).entries,
            final(self).cache_order@.no_duplicates(),
            final(self).cache@.dom() == final(self).cache_order@.to_set(),
    {
        self.epoch = self.epoch.wrapping_add(1);
        self.cache.clear();
        self.cache_order.clear();
        assert(self.cache@.dom() =~= self.cache_order@.to_set());
    }

    /// Each registration once: its scope, symbol and owner.
    pub fn snapshots(&self) -> (list: Vec<(ScopeId, ServiceSymbol, FiberId)>)
        requires
            self.wf(),
        ensures
            lists_entries(list@, self@),
    {
        broadcast use lemma_slot;

        let mut list: Vec<(ScopeId, ServiceSymbol, FiberId)> = Vec::new();
        for at in it: self.entries.keys()
            invariant
                self.wf(),
                it.seq().no_duplicates(),
                it.seq().unref().to_set() == self.entries@.dom(),
                it.seq().len() == self.entries@.dom().len(),
                list@.len() == it.index(),
                forall|k: int|
                    0 <= k < list@.len() ==> slot_of((#[trigger] list@[k]).0, list@[k].1)
                        == *it.seq()[k],
                forall|k: int|
                    0 <= k < list@.len() ==> owned_in(
                        self@,
                        (#[trigger] list@[k]).0,
                        list@[k].1,
                        list@[k].2,
                    ),
                forall|j: int, k: int|
                    0 <= j < k < list@.len() ==> slot_of((#[trigger] list@[j]).0, list@[j].1)
                        != slot_of((#[trigger] list@[k]).0, list@[k].1),
        {
            let at: u128 = *at;
            proof {
                assert(it.seq().unref()[it.index() as int] == at);
                assert(it.seq().unref().contains(at));
            }
            if let Some(entry) = self.entries.get(&at) {
                let symbol = ServiceSymbol { index: (at % SYMBOL_SPAN) as u32 };
                list.push((entry.scope, symbol, entry.owner));
            }
        }
        list
    }

    /// Number of registrations.
    pub fn count(&self) -> (count: usize)
        ensures
            count == self@.dom().len(),
    {
        self.entries.len()
    }

    /// Number of interned keys.
    pub fn symbol_count(&self) -> (count: usize)
        ensures
            count == self.keys@.len(),
    {
        self.keys.len()
    }

    /// Number of remembered locations.
    pub fn cache_len(&self) -> (count: usize)
        ensures
            count == self.cache@.dom().len(),
    {
        self.cache.len()
    }
}

impl ServiceRegistry {
    /// What the cache knows about the service `symbol` as seen from `requested`.
    pub fn cached_resolution(
        &self,
        requested: ScopeId,
        symbol: ServiceSymbol,
        gates: &GateTable,
    ) -> (known: CacheLookup)
        ensures
            known == self.cached(requested, symbol, *gates),
    {
        if self.max_cache_entries == 0 {
            return CacheLookup::Miss;
        }
        let remembered = match self.cache.get(&slot(requested, symbol)) {
            Some(remembered) => *remembered,
            None => return CacheLookup::Miss,
        };
        if remembered.epoch != self.epoch {
            return CacheLookup::Miss;
        }
        let (scope, owner) = match remembered.location {
            Some(place) => place,
            None => return CacheLookup::Hit(None),
        };
        match self.get(scope, symbol) {
            Some(entry) => if entry.owner == owner && gates.is_visible(entry.gate) {
                CacheLookup::Hit(Some(entry))
            } else {
                CacheLookup::Miss
            },
            None => CacheLookup::Miss,
        }
    }

    /// The visible service that comes first on `line`.
    fn walk(&self, line: &Vec<ScopeId>, symbol: ServiceSymbol, gates: &GateTable) -> (entry: Option<
        ServiceEntry,
    >)
        requires
            self.wf(),
        ensures
            entry == nearest(self@, *gates, line@, symbol),
            is_sound(
                match entry {
                    Some(entry) => Some((entry.scope, entry.owner)),
                    None => None,
                },
                self@,
                *gates,
                line@,
                symbol,
            ),
    {
        broadcast use lemma_slot;

        let mut i: usize = 0;
        while i < line.len()
            invariant
                self.wf(),
                i <= line@.len(),
                none_before(self@, *gates, line@, symbol, i as int),
            decreases line@.len() - i,
        {
            if let Some(entry) = self.get(line[i], symbol) {
                if gates.is_visible(entry.gate) {
                    proof {
                        lemma_nearest(self@, *gates, line@, symbol, i as int);
                        assert(self.entries@.dom().contains(slot_of(line@[i as int], symbol)));
                        assert(entry.scope == line@[i as int]);
                    }
                    return Some(entry);
                }
            }
            i += 1;
        }
        proof {
            lemma_nearest(self@, *gates, line@, symbol, i as int);
        }
        None
    }

    /// Remembers where a service was found. The oldest memory goes where there is
    /// no room for another.
    fn remember(&mut self, at: u128, location: Option<(ScopeId, FiberId)>)
        requires
            old(self).wf(),
            old(self).max_cache_entries > 0,
        ensures
            final(self).wf(),
            final(self).same_but_cache(&*old(self)),
            final(self).cache_order@ == remembered_order(
                old(self).cache_order@,
                at,
                old(self).max_cache_entries as nat,
            ),
            final(self).cache@.dom().contains(at),
            final(self).cache@[at] == (CacheEntry { epoch: old(self).epoch, location }),
            forall|other: u128|
                #![trigger final(self).cache@[other]]
                final(self).cache@.dom().contains(other) && other != at
                    ==> old(self).cache@.dom().contains(other) && final(self).cache@[other]
                    == old(self).cache@[other],
    {
        let ghost order = self.cache_order@;
        proof {
            order.unique_seq_to_set();
        }
        let known = self.cache.contains_key(&at);
        if !known {
            if self.cache.len() >= self.max_cache_entries {
                if let Some(oldest) = self.cache_order.pop_front() {
                    self.cache.remove(&oldest);
                    proof {
                        assert(self.cache_order@ =~= order.drop_first());
                        assert forall|other: u128|
                            self.cache@.dom().contains(other) <==> self.cache_order@.contains(
                                other,
                            ) by {
                            if order.contains(other) && other != oldest {
                                let k = choose|k: int| 0 <= k < order.len() && order[k] == other;
                                assert(self.cache_order@[k - 1] == other);
                            }
                            if self.cache_order@.contains(other) {
                                let k = choose|k: int|
                                    0 <= k < self.cache_order@.len() && self.cache_order@[k]
                                        == other;
                                assert(order[k + 1] == other);
                                assert(order[0] == oldest);
                            }
                        }
                    }
                }
            }
            let ghost kept = self.cache_order@;
            proof {
                assert forall|other: u128| #[trigger]
                    self.cache@.dom().contains(other) <==> kept.contains(other) by {
                    assert(old(self).cache@.dom().contains(other) <==> order.to_set().contains(
                        other,
                    ));
                }
                assert(!kept.contains(at)) by {
                    if kept.contains(at) {
                        assert(order.contains(at)) by {
                            let k = choose|k: int| 0 <= k < kept.len() && kept[k] == at;
                            if kept != order {
                                assert(order[k + 1] == at);
                            }
                        }
                    }
                }
            }
            self.cache_order.push_back(at);
            proof {
                assert forall|other: u128|
                    self.cache_order@.contains(other) <==> kept.contains(other) || other == at by {
                    vstd::seq_lib::lemma_seq_contains_after_push(kept, at, other);
                }
            }
        }
        let ghost ordered = self.cache@.dom().insert(at);
        proof {
            assert forall|other: u128| #[trigger] ordered.contains(other) <==>
                self.cache_order@.to_set().contains(other) by {
                assert(old(self).cache@.dom().contains(other) <==> order.to_set().contains(other));
            }
        }
        self.cache.insert(at, CacheEntry { epoch: self.epoch, location });
        proof {
            assert(self.cache@.dom() =~= ordered);
            assert(self.cache@.dom() =~= self.cache_order@.to_set());
        }
    }

    /// Resolves the service `symbol` as seen from `requested`, whose scopes from
    /// the leaf up are `ancestry`.
    pub fn resolve(
        &mut self,
        requested: ScopeId,
        ancestry: &Vec<ScopeId>,
        symbol: ServiceSymbol,
        gates: &GateTable,
    ) -> (entry: Option<ServiceEntry>)
        requires
            old(self).wf(),
        ensures
            final(self).wf(),
            final(self).same_but_cache(&*old(self)),
            entry == old(self).resolved(requested, ancestry@, symbol, *gates),
            final(self).remembers(&*old(self), requested, ancestry@, symbol, *gates),
    {
        if let CacheLookup::Hit(entry) = self.cached_resolution(requested, symbol, gates) {
            return entry;
        }
        let entry = self.walk(ancestry, symbol, gates);
        if self.max_cache_entries != 0 {
            let location = match entry {
                Some(entry) => Some((entry.scope, entry.owner)),
                None => None,
            };
            self.remember(slot(requested, symbol), location);
        }
        entry
    }

    /// The service `symbol` of `owner` that is not visible yet and comes first on
    /// `ancestry`.
    pub fn resolve_owned(
        &self,
        ancestry: &Vec<ScopeId>,
        symbol: ServiceSymbol,
        owner: FiberId,
        gates: &GateTable,
    ) -> (entry: Option<ServiceEntry>)
        ensures
            entry == nearest_owned(self@, *gates, ancestry@, symbol, owner),
    {
        let mut i: usize = 0;
        assert(ancestry@.skip(0) =~= ancestry@);
        while i < ancestry.len()
            invariant
                i <= ancestry@.len(),
                nearest_owned(self@, *gates, ancestry@, symbol, owner) == nearest_owned(
                    self@,
                    *gates,
                    ancestry@.skip(i as int),
                    symbol,
                    owner,
                ),
            decreases ancestry@.len() - i,
        {
            proof {
                assert(ancestry@.skip(i as int)[0] == ancestry@[i as int]);
                assert(ancestry@.skip(i as int).drop_first() =~= ancestry@.skip(i + 1));
            }
            if let Some(entry) = self.get(ancestry[i], symbol) {
                if entry.owner == owner && !gates.is_visible(entry.gate) {
                    return Some(entry);
                }
            }
            i += 1;
        }
        None
    }

    /// How a lookup changes the cache: not at all where the cache knew, and by
    /// one memory of what was found otherwise.
    pub open spec fn remembers(
        &self,
        before: &Self,
        requested: ScopeId,
        line: Seq<ScopeId>,
        symbol: ServiceSymbol,
        gates: GateTable,
    ) -> bool {
        let at = slot_of(requested, symbol);
        if before.cached(requested, symbol, gates) is Hit || before.max_cache_entries == 0 {
            *self == *before
        } else {
            &&& self.cache_order@ == remembered_order(
                before.cache_order@,
                at,
                before.max_cache_entries as nat,
            )
            &&& self.cache@.dom().contains(at)
            &&& self.cache@[at] == (CacheEntry {
                epoch: before.epoch,
                location: match nearest(before@, gates, line, symbol) {
                    Some(entry) => Some((entry.scope, entry.owner)),
                    None => None,
                },
            })
            &&& is_sound(self.cache@[at].location, before@, gates, line, symbol)
            &&& forall|other: u128|
                #![trigger self.cache@[other]]
                self.cache@.dom().contains(other) && other != at ==> before.cache@.dom().contains(
                    other,
                ) && self.cache@[other] == before.cache@[other]
        }
    }

    /// Whether each of `symbols` can be moved from one scope to another.
    fn is_replaceable(
        &self,
        from: ScopeId,
        to: ScopeId,
        symbol: ServiceSymbol,
        old_owner: FiberId,
        staged_owner: FiberId,
    ) -> (ok: bool)
        ensures
            ok == replaceable(self@, from, to, symbol, old_owner, staged_owner),
    {
        let staged_ok: bool = match self.get(from, symbol) {
            Some(entry) => entry.owner == staged_owner,
            None => false,
        };
        let target_ok: bool = match self.get(to, symbol) {
            Some(entry) => entry.owner == old_owner,
            None => true,
        };
        staged_ok && target_ok
    }

    /// Checks that the staged services can take the place of the old ones.
    pub fn prepare_revision(
        &self,
        from: ScopeId,
        to: ScopeId,
        symbols: Vec<ServiceSymbol>,
        old_owner: FiberId,
        staged_owner: FiberId,
    ) -> (revision: Result<PreparedServiceRevision, CordisError>)
        ensures
            ({
                let made = PreparedServiceRevision { from, to, symbols, old_owner, staged_owner };
                match revision {
                    Ok(revision) => revision == made && made.applies_to(self@),
                    Err(error) => error matches CordisError::RevisionValidationFailed(message)
                        && exists|k: int|
                        #![trigger symbols@[k]]
                        0 <= k < symbols@.len() && (forall|j: int|
                            0 <= j < k ==> replaceable(
                                self@,
                                from,
                                to,
                                #[trigger] symbols@[j],
                                old_owner,
                                staged_owner,
                            )) && message@ == if !owned_in(self@, from, symbols@[k], staged_owner) {
                            "staged service disappeared or changed owner"@
                        } else {
                            "service replacement target changed owner"@
                        } && !replaceable(
                            self@,
                            from,
                            to,
                            symbols@[k],
                            old_owner,
                            staged_owner,
                        ),
                }
            }),
    {
        let mut i: usize = 0;
        while i < symbols.len()
            invariant
                i <= symbols@.len(),
                forall|j: int|
                    0 <= j < i ==> replaceable(
                        self@,
                        from,
                        to,
                        #[trigger] symbols@[j],
                        old_owner,
                        staged_owner,
                    ),
            decreases symbols@.len() - i,
        {
            let symbol = symbols[i];
            let staged_ok: bool = match self.get(from, symbol) {
                Some(entry) => entry.owner == staged_owner,
                None => false,
            };
            if !staged_ok {
                proof {
                    assert(!owned_in(self@, from, symbols@[i as int], staged_owner));
                }
                return Err(
                    CordisError::RevisionValidationFailed(
                        "staged service disappeared or changed owner".to_owned(),
                    ),
                );
            }
            if !self.is_replaceable(from, to, symbol, old_owner, staged_owner) {
                proof {
                    assert(owned_in(self@, from, symbols@[i as int], staged_owner));
                }
                return Err(
                    CordisError::RevisionValidationFailed(
                        "service replacement target changed owner".to_owned(),
                    ),
                );
            }
            i += 1;
        }
        Ok(PreparedServiceRevision { from, to, symbols, old_owner, staged_owner })
    }

    /// Publishes the staged generation and puts its services in the place of the
    /// old ones. Where that is not possible, nothing changes.
    pub fn commit_revision_and_publish(
        &mut self,
        prepared: &PreparedServiceRevision,
        staged_gate: GenerationId,
        old_gate: GenerationId,
        gates: &mut GateTable,
    ) -> (result: Result<(), CordisError>)
        requires
            old(self).wf(),
            prepared.symbols@.no_duplicates(),
        ensures
            final(self).wf(),
            match result {
                Ok(()) => {
                    &&& prepared.applies_to(old(self)@)
                    &&& old(gates).staged(staged_gate)
                    &&& old(gates).visible(old_gate)
                    &&& final(gates)@ == cut_over(old(gates)@, staged_gate, old_gate)
                    &&& final(self).bumped_from(&*old(self))
                    &&& final(self)@ == relocated(
                        old(self)@,
                        prepared.from,
                        prepared.to,
                        prepared.symbols@,
                    )
                },
                Err(error) => {
                    &&& *final(self) == *old(self)
                    &&& final(gates)@ == old(gates)@
                    &&& if prepared.applies_to(old(self)@) {
                        &&& error == CordisError::CapabilityPublicationFailed(prepared.staged_owner)
                        &&& !(old(gates).staged(staged_gate) && old(gates).visible(old_gate))
                    } else {
                        &&& error matches CordisError::RevisionValidationFailed(message)
                        &&& message@ == "prepared service revision changed before commit"@
                    }
                },
            },
    {
        broadcast use lemma_slot;

        let mut i: usize = 0;
        while i < prepared.symbols.len()
            invariant
                *self == *old(self),
                self.wf(),
                *gates == *old(gates),
                i <= prepared.symbols@.len(),
                forall|j: int|
                    0 <= j < i ==> replaceable(
                        self@,
                        prepared.from,
                        prepared.to,
                        #[trigger] prepared.symbols@[j],
                        prepared.old_owner,
                        prepared.staged_owner,
                    ),
            decreases prepared.symbols@.len() - i,
        {
            if !self.is_replaceable(
                prepared.from,
                prepared.to,
                prepared.symbols[i],
                prepared.old_owner,
                prepared.staged_owner,
            ) {
                proof {
                    assert(!replaceable(
                        self@,
                        prepared.from,
                        prepared.to,
                        prepared.symbols@[i as int],
                        prepared.old_owner,
                        prepared.staged_owner,
                    ));
                }
                return Err(
                    CordisError::RevisionValidationFailed(
                        "prepared service revision changed before commit".to_owned(),
                    ),
                );
            }
            i += 1;
        }
        if !gates.cutover(staged_gate, old_gate) {
            return Err(CordisError::CapabilityPublicationFailed(prepared.staged_owner));
        }
        let ghost before = self@;
        let ghost symbols = prepared.symbols@;
        let ghost from = prepared.from;
        let ghost to = prepared.to;
        let mut staged: Vec<ServiceEntry> = Vec::new();
        let mut i: usize = 0;
        while i < prepared.symbols.len()
            invariant
                symbols == prepared.symbols@,
                from == prepared.from,
                symbols.no_duplicates(),
                self.keys == old(self).keys,
                self.epoch == old(self).epoch,
                self.max_symbols == old(self).max_symbols,
                self.max_cache_entries == old(self).max_cache_entries,
                i <= symbols.len(),
                staged@.len() == i,
                forall|j: int|
                    0 <= j < symbols.len() ==> before.dom().contains(
                        slot_of(from, #[trigger] symbols[j]),
                    ),
                forall|j: int|
                    0 <= j < i ==> staged@[j] == before[slot_of(from, #[trigger] symbols[j])],
                forall|at: u128| #[trigger]
                    self.entries@.dom().contains(at) <==> before.dom().contains(at) && !is_slot_in(
                        at,
                        from,
                        symbols.take(i as int),
                    ),
                forall|at: u128| #[trigger]
                    self.entries@.dom().contains(at) ==> self.entries@[at] == before[at],
            decreases symbols.len() - i,
        {
            let at = slot(prepared.from, prepared.symbols[i]);
            proof {
                lemma_take_slots(symbols, i as int, from);
                lemma_slot(from, symbols[i as int]);
                assert(before.dom().contains(slot_of(from, symbols[i as int])));
            }
            if let Some(entry) = self.entries.remove(&at) {
                staged.push(entry);
            }
            i += 1;
        }
        let ghost removed = self.entries@;
        proof {
            assert(symbols.take(symbols.len() as int) =~= symbols);
        }
        let mut i: usize = 0;
        while i < prepared.symbols.len()
            invariant
                symbols == prepared.symbols@,
                to == prepared.to,
                from == prepared.from,
                symbols.no_duplicates(),
                self.keys == old(self).keys,
                self.epoch == old(self).epoch,
                self.max_symbols == old(self).max_symbols,
                self.max_cache_entries == old(self).max_cache_entries,
                i <= symbols.len(),
                staged@.len() == symbols.len(),
                forall|j: int|
                    0 <= j < symbols.len() ==> staged@[j] == before[slot_of(
                        from,
                        #[trigger] symbols[j],
                    )],
                forall|at: u128| #[trigger]
                    self.entries@.dom().contains(at) <==> removed.dom().contains(at) || is_slot_in(
                        at,
                        to,
                        symbols.take(i as int),
                    ),
                forall|at: u128| #[trigger]
                    self.entries@.dom().contains(at) ==> self.entries@[at] == if is_slot_in(
                        at,
                        to,
                        symbols.take(i as int),
                    ) {
                        ServiceEntry { scope: to, ..before[slot_of(from, slot_symbol(at))] }
                    } else {
                        removed[at]
                    },
            decreases symbols.len() - i,
        {
            let at = slot(prepared.to, prepared.symbols[i]);
            proof {
                lemma_take_slots(symbols, i as int, to);
                lemma_slot(to, symbols[i as int]);
            }
            let entry = staged[i];
            self.entries.insert(at, ServiceEntry { scope: prepared.to, ..entry });
            i += 1;
        }
        self.bump();
        proof {
            assert(symbols.take(i as int) =~= symbols);
            assert(self@ =~= relocated(before, from, to, symbols));
            assert forall|at: u128| #[trigger] self.entries@.dom().contains(at) implies at
                == slot_of(self.entries@[at].scope, slot_symbol(at)) by {
                if !is_slot_in(at, to, symbols) {
                    assert(old(self).entries@.dom().contains(at));
                }
            }
        }
        Ok(())
    }
}

/// Whether `list` names each registration once, with its owner.
pub open spec fn lists_entries(
    list: Seq<(ScopeId, ServiceSymbol, FiberId)>,
    entries: Entries,
) -> bool {
    &&& list.len() == entries.dom().len()
    &&& forall|k: int|
        0 <= k < list.len() ==> owned_in(entries, (#[trigger] list[k]).0, list[k].1, list[k].2)
    &&& forall|j: int, k: int|
        0 <= j < k < list.len() ==> slot_of((#[trigger] list[j]).0, list[j].1) != slot_of(
            (#[trigger] list[k]).0,
            list[k].1,
        )
}

/// The order of the cache after a memory of `at`.
pub open spec fn remembered_order(order: Seq<u128>, at: u128, limit: nat) -> Seq<u128> {
    if order.contains(at) {
        order
    } else if order.len() >= limit {
        order.drop_first().push(at)
    } else {
        order.push(at)
    }
}

proof fn lemma_take_slots(symbols: Seq<ServiceSymbol>, i: int, scope: ScopeId)
    requires
        0 <= i < symbols.len(),
        symbols.no_duplicates(),
    ensures
        forall|at: u128| #[trigger]
            is_slot_in(at, scope, symbols.take(i + 1)) <==> is_slot_in(at, scope, symbols.take(i))
                || at == slot_of(scope, symbols[i]),
        !is_slot_in(slot_of(scope, symbols[i]), scope, symbols.take(i)),
{
    broadcast use lemma_slot;

    assert(symbols.take(i + 1) =~= symbols.take(i).push(symbols[i]));
    assert forall|at: u128| #[trigger]
        is_slot_in(at, scope, symbols.take(i + 1)) <==> is_slot_in(at, scope, symbols.take(i))
            || at == slot_of(scope, symbols[i]) by {
        vstd::seq_lib::lemma_seq_contains_after_push(
            symbols.take(i),
            symbols[i],
            slot_symbol(at),
        );
    }
}

/// With a sound cache, a lookup finds the visible service in the nearest scope,
/// and the cache is sound about it afterwards.
pub proof fn law_resolution_is_nearest(
    before: ServiceRegistry,
    after: ServiceRegistry,
    gates: GateTable,
    requested: ScopeId,
    line: Seq<ScopeId>,
    symbol: ServiceSymbol,
)
    requires
        before.sound_at(requested, symbol, line, gates),
        after.same_but_cache(&before),
        after.remembers(&before, requested, line, symbol, gates),
    ensures
        before.resolved(requested, line, symbol, gates) == nearest(before@, gates, line, symbol),
        after.sound_at(requested, symbol, line, gates),
{
    let at = slot_of(requested, symbol);
    if before.cached(requested, symbol, gates) is Hit {
        match before.cache@[at].location {
            None => {
                lemma_nearest(before@, gates, line, symbol, line.len() as int);
            },
            Some(place) => {
                let k = choose|k: int|
                    0 <= k < line.len() && #[trigger] line[k] == place.0 && none_before(
                        before@,
                        gates,
                        line,
                        symbol,
                        k,
                    );
                lemma_nearest(before@, gates, line, symbol, k);
            },
        }
    }
}

/// A lookup finds visible services only: what a generation provides before it is published
/// is hidden from it.
pub proof fn law_lookups_find_what_is_visible(
    entries: Entries,
    gates: GateTable,
    line: Seq<ScopeId>,
    symbol: ServiceSymbol,
)
    ensures
        nearest(entries, gates, line, symbol) matches Some(entry) ==> gates.visible(entry.gate),
    decreases line.len(),
{
    if line.len() > 0 {
        law_lookups_find_what_is_visible(entries, gates, line.drop_first(), symbol);
    }
}

/// A lookup of one service does not disturb what the cache knows of others.
pub proof fn law_resolution_keeps_cache_sound(
    before: ServiceRegistry,
    after: ServiceRegistry,
    gates: GateTable,
    requested: ScopeId,
    line: Seq<ScopeId>,
    symbol: ServiceSymbol,
    other: ScopeId,
    other_line: Seq<ScopeId>,
    other_symbol: ServiceSymbol,
)
    requires
        slot_of(other, other_symbol) != slot_of(requested, symbol),
        before.sound_at(other, other_symbol, other_line, gates),
        after.same_but_cache(&before),
        after.remembers(&before, requested, line, symbol, gates),
    ensures
        after.sound_at(other, other_symbol, other_line, gates),
{
    let at = slot_of(other, other_symbol);
    if after.cache@.dom().contains(at) {
        assert(after.cache@[at] == after.cache@[at]);
    }
}

/// Whether two registries differ in nothing but what they remember and how much they may.
pub open spec fn alike(a: ServiceRegistry, b: ServiceRegistry) -> bool {
    &&& a@ == b@
    &&& a.keys == b.keys
    &&& a.epoch == b.epoch
    &&& a.max_symbols == b.max_symbols
}

/// Whether the cache is sound about every service, as seen from every scope, where `lines`
/// tells on which line a scope looks for services.
pub open spec fn all_sound(
    registry: ServiceRegistry,
    lines: spec_fn(ScopeId) -> Seq<ScopeId>,
    gates: GateTable,
) -> bool {
    forall|requested: ScopeId, symbol: ServiceSymbol| #[trigger]
        registry.sound_at(requested, symbol, lines(requested), gates)
}

/// What can happen to a registry.
pub enum RegistryCall {
    Insert { scope: ScopeId, symbol: ServiceSymbol, entry: ServiceEntry },
    Remove { scope: ScopeId, symbol: ServiceSymbol },
    Resolve { requested: ScopeId, symbol: ServiceSymbol },
    /// Generations are hidden.
    Hide { gates: GateTable },
    /// Generations may become visible, and the cache is dropped.
    Publish { gates: GateTable },
}

/// The gates after a call.
pub open spec fn gates_after(gates: GateTable, call: RegistryCall) -> GateTable {
    match call {
        RegistryCall::Hide { gates: later } => later,
        RegistryCall::Publish { gates: later } => later,
        _ => gates,
    }
}

/// What a call does to a registry, and what it answers.
pub open spec fn answers(
    before: ServiceRegistry,
    after: ServiceRegistry,
    lines: spec_fn(ScopeId) -> Seq<ScopeId>,
    gates: GateTable,
    call: RegistryCall,
    answer: Option<ServiceEntry>,
) -> bool {
    match call {
        RegistryCall::Insert { scope, symbol, entry } => {
            &&& after.bumped_from(&before)
            &&& after@ == before@.insert(slot_of(scope, symbol), ServiceEntry { scope, ..entry })
            &&& answer is None
        },
        RegistryCall::Remove { scope, symbol } => {
            let at = slot_of(scope, symbol);
            if before@.dom().contains(at) {
                &&& after.bumped_from(&before)
                &&& after@ == before@.remove(at)
                &&& answer == Some(before@[at])
            } else {
                after == before && answer is None
            }
        },
        RegistryCall::Resolve { requested, symbol } => {
            &&& after.same_but_cache(&before)
            &&& after.remembers(&before, requested, lines(requested), symbol, gates)
            &&& answer == before.resolved(requested, lines(requested), symbol, gates)
        },
        RegistryCall::Hide { gates: later } => {
            &&& forall|generation: GenerationId| #[trigger]
                later.visible(generation) ==> gates.visible(generation)
            &&& after == before
            &&& answer is None
        },
        RegistryCall::Publish { gates: later } => {
            &&& after.bumped_from(&before)
            &&& after.entries == before.entries
            &&& answer is None
        },
    }
}

/// A cache that was sound is so after a call, and what is looked up is what is nearest.
proof fn lemma_answers_soundly(
    before: ServiceRegistry,
    after: ServiceRegistry,
    lines: spec_fn(ScopeId) -> Seq<ScopeId>,
    gates: GateTable,
    call: RegistryCall,
    answer: Option<ServiceEntry>,
)
    requires
        all_sound(before, lines, gates),
        answers(before, after, lines, gates, call, answer),
    ensures
        all_sound(after, lines, gates_after(gates, call)),
        call matches RegistryCall::Resolve { requested, symbol } ==> answer == nearest(
            before@,
            gates,
            lines(requested),
            symbol,
        ),
{
    broadcast use lemma_slot;

    let later = gates_after(gates, call);
    if let RegistryCall::Resolve { requested, symbol } = call {
        assert(before.sound_at(requested, symbol, lines(requested), gates));
        law_resolution_is_nearest(before, after, gates, requested, lines(requested), symbol);
        assert forall|other: ScopeId, other_symbol: ServiceSymbol| #[trigger]
            after.sound_at(other, other_symbol, lines(other), later) by {
            assert(before.sound_at(other, other_symbol, lines(other), gates));
            if slot_of(other, other_symbol) != slot_of(requested, symbol) {
                law_resolution_keeps_cache_sound(
                    before,
                    after,
                    gates,
                    requested,
                    lines(requested),
                    symbol,
                    other,
                    lines(other),
                    other_symbol,
                );
            } else {
                assert(slot_scope(slot_of(other, other_symbol)) == other);
                assert(slot_symbol(slot_of(other, other_symbol)) == other_symbol);
                assert(slot_scope(slot_of(requested, symbol)) == requested);
                assert(slot_symbol(slot_of(requested, symbol)) == symbol);
            }
        }
    } else if after == before {
        assert forall|other: ScopeId, other_symbol: ServiceSymbol| #[trigger]
            after.sound_at(other, other_symbol, lines(other), later) by {
            assert(before.sound_at(other, other_symbol, lines(other), gates));
        }
    }
}

/// The cache never shows in one call: two registries that differ in nothing but their caches
/// and the limits of these, both sound, answer alike and stay so.
pub proof fn law_cache_never_shows(
    a: ServiceRegistry,
    later_a: ServiceRegistry,
    b: ServiceRegistry,
    later_b: ServiceRegistry,
    lines: spec_fn(ScopeId) -> Seq<ScopeId>,
    gates: GateTable,
    call: RegistryCall,
    answer_a: Option<ServiceEntry>,
    answer_b: Option<ServiceEntry>,
)
    requires
        alike(a, b),
        all_sound(a, lines, gates),
        all_sound(b, lines, gates),
        answers(a, later_a, lines, gates, call, answer_a),
        answers(b, later_b, lines, gates, call, answer_b),
    ensures
        answer_a == answer_b,
        alike(later_a, later_b),
        all_sound(later_a, lines, gates_after(gates, call)),
        all_sound(later_b, lines, gates_after(gates, call)),
{
    lemma_answers_soundly(a, later_a, lines, gates, call, answer_a);
    lemma_answers_soundly(b, later_b, lines, gates, call, answer_b);
}

/// Whether a registry goes through `states` and `gates` by `calls` and answers `given`.
pub open spec fn goes_through(
    states: Seq<ServiceRegistry>,
    lines: spec_fn(ScopeId) -> Seq<ScopeId>,
    gates: Seq<GateTable>,
    calls: Seq<RegistryCall>,
    given: Seq<Option<ServiceEntry>>,
) -> bool {
    &&& states.len() == calls.len() + 1
    &&& gates.len() == calls.len() + 1
    &&& given.len() == calls.len()
    &&& forall|k: int|
        #![trigger calls[k]]
        0 <= k < calls.len() ==> {
            &&& gates[k + 1] == gates_after(gates[k], calls[k])
            &&& answers(states[k], states[k + 1], lines, gates[k], calls[k], given[k])
        }
}

/// The cache never shows: two registries that remember nothing yet and differ in nothing but
/// the limits of their caches, none perhaps, give the same answers to the same calls.
pub proof fn law_caches_never_show(
    a: Seq<ServiceRegistry>,
    b: Seq<ServiceRegistry>,
    lines: spec_fn(ScopeId) -> Seq<ScopeId>,
    gates: Seq<GateTable>,
    calls: Seq<RegistryCall>,
    given_a: Seq<Option<ServiceEntry>>,
    given_b: Seq<Option<ServiceEntry>>,
    n: int,
)
    requires
        goes_through(a, lines, gates, calls, given_a),
        goes_through(b, lines, gates, calls, given_b),
        alike(a[0], b[0]),
        a[0].cache@ == Map::<u128, CacheEntry>::empty(),
        b[0].cache@ == Map::<u128, CacheEntry>::empty(),
        0 <= n <= calls.len(),
    ensures
        given_a.take(n) == given_b.take(n),
        alike(a[n], b[n]),
        all_sound(a[n], lines, gates[n]),
        all_sound(b[n], lines, gates[n]),
    decreases n,
{
    if n > 0 {
        let k = n - 1;
        law_caches_never_show(a, b, lines, gates, calls, given_a, given_b, k);
        assert(calls[k] == calls[k]);
        law_cache_never_shows(
            a[k],
            a[n],
            b[k],
            b[n],
            lines,
            gates[k],
            calls[k],
            given_a[k],
            given_b[k],
        );
        assert(given_a.take(n) =~= given_a.take(k).push(given_a[k]));
        assert(given_b.take(n) =~= given_b.take(k).push(given_b[k]));
    } else {
        assert(given_a.take(0) =~= given_b.take(0));
    }
}

/// The cache is never larger than its limit.
pub proof fn law_cache_is_bounded(registry: ServiceRegistry)
    requires
        registry.wf(),
    ensures
        registry.cache@.dom().len() <= registry.max_cache_entries,
{
    registry.cache_order@.unique_seq_to_set();
}

/// A symbol stands for one key: two interned keys have the same symbol only if
/// they are the same key.
pub proof fn law_symbols_are_distinct(registry: ServiceRegistry, a: KeyView, b: KeyView)
    requires
        registry.wf(),
        registry.symbol_of(a) is Some,
        registry.symbol_of(a) == registry.symbol_of(b),
    ensures
        a == b,
{
    let keys = key_views(registry.keys@);
    assert(keys[keys.index_of(a)] == a);
    assert(keys[keys.index_of(b)] == b);
}

} // verus!
