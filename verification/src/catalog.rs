//! The catalog snapshot: every known item with its market attributes.

use std::collections::HashMap;
use vstd::prelude::*;

verus! {

broadcast use vstd::std_specs::hash::group_hash_axioms;

/// The estimated value that stands for "no estimate".
pub const UNSET_VALUE: i64 = -1;

/// One item of the catalog.
#[derive(Clone, Debug, PartialEq, Eq)]
pub struct CatalogEntry {
    pub id: u64,
    pub name: String,
    pub recent_average_price: i64,
    pub estimated_value: i64,
}

/// What a [`CatalogEntry`] holds, as plain values.
pub ghost struct CatalogEntryView {
    pub id: u64,
    pub name: Seq<char>,
    pub recent_average_price: i64,
    pub estimated_value: i64,
}

impl View for CatalogEntry {
    type V = CatalogEntryView;

    open spec fn view(&self) -> CatalogEntryView {
        CatalogEntryView {
            id: self.id,
            name: self.name@,
            recent_average_price: self.recent_average_price,
            estimated_value: self.estimated_value,
        }
    }
}

impl CatalogEntryView {
    /// The value that the item counts for: its estimated value, or its
    /// recent average price where no estimate is set.
    pub open spec fn effective_value(self) -> int {
        if self.estimated_value == UNSET_VALUE {
            self.recent_average_price as int
        } else {
            self.estimated_value as int
        }
    }
}

impl CatalogEntry {
    /// The entry with these attributes.
    pub fn new(id: u64, name: String, recent_average_price: i64, estimated_value: i64) -> (entry:
        CatalogEntry)
        ensures
            entry@ == (CatalogEntryView {
                id,
                name: name@,
                recent_average_price,
                estimated_value,
            }),
    {
        CatalogEntry { id, name, recent_average_price, estimated_value }
    }

    /// The value that the item counts for.
    pub fn effective_value(&self) -> (value: i64)
        ensures
            value == self@.effective_value(),
    {
        if self.estimated_value == UNSET_VALUE {
            self.recent_average_price
        } else {
            self.estimated_value
        }
    }
}

/// The catalog, keyed by item identifier. It remembers the order in which
/// its identifiers first came, so that the candidates of a scan are the
/// same sequence on every run.
pub struct Catalog {
    entries: HashMap<u64, CatalogEntry>,
    order: Vec<u64>,
}

impl View for Catalog {
    type V = Map<u64, CatalogEntryView>;

    closed spec fn view(&self) -> Map<u64, CatalogEntryView> {
        Map::new(|id: u64| self.entries@.contains_key(id), |id: u64| self.entries@[id]@)
    }
}

impl Catalog {
    /// Every identifier is listed once, and every entry sits under its own
    /// identifier.
    pub closed spec fn wf(&self) -> bool {
        &&& self.order@.no_duplicates()
        &&& forall|id: u64| self.entries@.contains_key(id) <==> self.order@.contains(id)
        &&& forall|id: u64| #[trigger]
            self.entries@.contains_key(id) ==> self.entries@[id].id == id
    }

    /// The identifiers of the catalog, in the order in which they first came.
    pub closed spec fn ids(&self) -> Seq<u64> {
        self.order@
    }

    /// The identifiers are pairwise distinct, they are exactly the keys of
    /// the catalog, and every entry carries the identifier it is kept under.
    pub proof fn lemma_ids(&self)
        requires
            self.wf(),
        ensures
            self.ids().no_duplicates(),
            forall|id: u64| self@.contains_key(id) <==> self.ids().contains(id),
            forall|id: u64| #[trigger] self@.contains_key(id) ==> self@[id].id == id,
    {
    }

    /// The catalog without items.
    pub fn new() -> (catalog: Catalog)
        ensures
            catalog.wf(),
            catalog@ == Map::<u64, CatalogEntryView>::empty(),
            catalog.ids() == Seq::<u64>::empty(),
    {
        Catalog { entries: HashMap::new(), order: Vec::new() }
    }

    /// Puts `entry` under its identifier. An entry that was there before is
    /// replaced and keeps its place in the order; the result says whether
    /// there was one.
    pub fn insert(&mut self, entry: CatalogEntry) -> (replaced: bool)
        requires
            old(self).wf(),
        ensures
            final(self).wf(),
            final(self)@ == old(self)@.insert(entry.id, entry@),
            replaced == old(self)@.contains_key(entry.id),
            final(self).ids() == if replaced {
                old(self).ids()
            } else {
                old(self).ids().push(entry.id)
            },
    {
        let id: u64 = entry.id;
        let previous = self.entries.insert(id, entry);
        let replaced = previous.is_some();
        if !replaced {
            assert(!old(self).order@.contains(id));
            self.order.push(id);
            assert forall|other: u64| self.entries@.contains_key(other) <==> self.order@.contains(
                other,
            ) by {
                if other == id {
                    assert(self.order@[self.order@.len() - 1] == id);
                } else if old(self).order@.contains(other) {
                    let i = choose|i: int|
                        0 <= i < old(self).order@.len() && old(self).order@[i] == other;
                    assert(self.order@[i] == other);
                }
            }
        }
        replaced
    }

    /// The number of items.
    pub fn len(&self) -> (len: usize)
        ensures
            len == self.ids().len(),
    {
        self.order.len()
    }

    /// The entry of item `id`, where the catalog has one.
    pub fn get(&self, id: u64) -> (found: Option<&CatalogEntry>)
        ensures
            match found {
                Some(entry) => self@.contains_key(id) && entry@ == self@[id],
                None => !self@.contains_key(id),
            },
    {
        self.entries.get(&id)
    }

    /// Whether the catalog has an entry for item `id`.
    pub fn contains(&self, id: u64) -> (known: bool)
        ensures
            known == self@.contains_key(id),
    {
        self.entries.contains_key(&id)
    }

    /// The candidate set of a scan: every identifier of the catalog, once,
    /// in the order in which they first came.
    pub fn candidate_ids(&self) -> (ids: Vec<u64>)
        ensures
            ids@ == self.ids(),
            self.wf() ==> ids@.no_duplicates(),
            forall|id: u64| self.wf() ==> (ids@.contains(id) <==> self@.contains_key(id)),
    {
        let mut ids: Vec<u64> = Vec::new();
        let mut i: usize = 0;
        while i < self.order.len()
            invariant
                i <= self.order.len(),
                ids@ == self.order@.take(i as int),
            decreases self.order.len() - i,
        {
            ids.push(self.order[i]);
            i = i + 1;
        }
        assert(ids@ =~= self.order@);
        ids
    }
}

} // verus!
