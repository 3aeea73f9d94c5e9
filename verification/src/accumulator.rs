//! The accumulator of a scan and the result that it is folded into.

use vstd::prelude::*;
use vstd::seq_lib::{to_multiset_build, to_multiset_contains, to_multiset_remove};
use crate::catalog::{Catalog, CatalogEntryView};
use crate::gather::lemma_gather_push;
use crate::outcome::{
    OwnershipRecord, OwnershipRecordView, ProbeOutcome, ProbeOutcomeView, outcome_views,
    owned_records_of, record_views,
};

verus! {

/// Why a scan has no result.
#[derive(Clone, Copy, Debug, PartialEq, Eq, Structural)]
pub enum ScanError {
    /// Some candidate has not been settled yet.
    Incomplete,
    /// The probe of this item failed fatally and the scan was given up.
    Aborted { item_id: u64 },
    /// A record names this item, of which the catalog knows nothing.
    UnknownItem { item_id: u64 },
}

/// The value of the records' items, summed over the records: an item counts
/// once for each record of it, for its effective value.
pub open spec fn total_value(
    records: Seq<OwnershipRecordView>,
    catalog: Map<u64, CatalogEntryView>,
) -> int
    decreases records.len(),
{
    if records.len() == 0 {
        0
    } else {
        total_value(records.drop_last(), catalog)
            + catalog[records.last().item_id].effective_value()
    }
}

/// The recent average price of the records' items, summed over the records.
pub open spec fn total_recent_average_price(
    records: Seq<OwnershipRecordView>,
    catalog: Map<u64, CatalogEntryView>,
) -> int
    decreases records.len(),
{
    if records.len() == 0 {
        0
    } else {
        total_recent_average_price(records.drop_last(), catalog)
            + catalog[records.last().item_id].recent_average_price
    }
}

/// Whether the catalog knows the item of every record.
pub open spec fn all_known(
    records: Seq<OwnershipRecordView>,
    catalog: Map<u64, CatalogEntryView>,
) -> bool {
    forall|i: int| 0 <= i < records.len() ==> catalog.contains_key(#[trigger] records[i].item_id)
}

/// Whether `item_id` is the item of the first record whose item the
/// catalog does not know.
pub open spec fn is_first_unknown(
    records: Seq<OwnershipRecordView>,
    catalog: Map<u64, CatalogEntryView>,
    item_id: u64,
) -> bool {
    exists|i: int|
        {
            &&& 0 <= i < records.len()
            &&& #[trigger] records[i].item_id == item_id
            &&& !catalog.contains_key(item_id)
            &&& all_known(records.take(i), catalog)
        }
}

/// Taking one record out of a sequence takes what its item counts for out
/// of both totals.
proof fn lemma_totals_remove(
    records: Seq<OwnershipRecordView>,
    catalog: Map<u64, CatalogEntryView>,
    i: int,
)
    requires
        0 <= i < records.len(),
    ensures
        total_value(records, catalog) == total_value(records.remove(i), catalog)
            + catalog[records[i].item_id].effective_value(),
        total_recent_average_price(records, catalog) == total_recent_average_price(
            records.remove(i),
            catalog,
        ) + catalog[records[i].item_id].recent_average_price,
    decreases records.len(),
{
    if i < records.len() - 1 {
        lemma_totals_remove(records.drop_last(), catalog, i);
        assert(records.remove(i).drop_last() =~= records.drop_last().remove(i));
    }
}

/// Records whose items are all known stay so in any other order.
proof fn lemma_all_known_rearranged(
    a: Seq<OwnershipRecordView>,
    b: Seq<OwnershipRecordView>,
    catalog: Map<u64, CatalogEntryView>,
)
    requires
        a.to_multiset() == b.to_multiset(),
        all_known(a, catalog),
    ensures
        all_known(b, catalog),
{
    assert forall|i: int| 0 <= i < b.len() implies catalog.contains_key(
        #[trigger] b[i].item_id,
    ) by {
        to_multiset_contains(b, b[i]);
        to_multiset_contains(a, b[i]);
    }
}

/// The result of a scan does not depend on the order of its records: two
/// sequences of the same records, each as often in the one as in the
/// other, have the same length and the same totals, and the catalog knows
/// the items of both or of neither.
pub proof fn lemma_totals_order_invariant(
    a: Seq<OwnershipRecordView>,
    b: Seq<OwnershipRecordView>,
    catalog: Map<u64, CatalogEntryView>,
)
    requires
        a.to_multiset() == b.to_multiset(),
    ensures
        a.len() == b.len(),
        total_value(a, catalog) == total_value(b, catalog),
        total_recent_average_price(a, catalog) == total_recent_average_price(b, catalog),
        all_known(a, catalog) == all_known(b, catalog),
    decreases a.len(),
{
    a.to_multiset_ensures();
    b.to_multiset_ensures();
    if all_known(a, catalog) {
        lemma_all_known_rearranged(a, b, catalog);
    }
    if all_known(b, catalog) {
        lemma_all_known_rearranged(b, a, catalog);
    }
    if a.len() > 0 {
        let last = a.last();
        assert(a.drop_last().push(last) =~= a);
        to_multiset_build(a.drop_last(), last);
        to_multiset_contains(b, last);
        let j = choose|j: int| 0 <= j < b.len() && b[j] == last;
        to_multiset_remove(b, j);
        assert(a.drop_last().to_multiset() =~= b.remove(j).to_multiset());
        lemma_totals_order_invariant(a.drop_last(), b.remove(j), catalog);
        lemma_totals_remove(b, catalog, j);
    }
}

/// What a [`ScanResult`] holds, as plain values.
pub ghost struct ScanResultView {
    pub records: Seq<OwnershipRecordView>,
    pub item_count: nat,
    pub total_value: int,
    pub total_recent_average_price: int,
}

/// The result that `records` fold into against `catalog`.
pub open spec fn scan_result_of(
    records: Seq<OwnershipRecordView>,
    catalog: Map<u64, CatalogEntryView>,
) -> ScanResultView {
    ScanResultView {
        records,
        item_count: records.len(),
        total_value: total_value(records, catalog),
        total_recent_average_price: total_recent_average_price(records, catalog),
    }
}

/// The result of a scan: the records found, how many they are, and what
/// their items are worth in sum.
#[derive(Debug, PartialEq, Eq)]
pub struct ScanResult {
    records: Vec<OwnershipRecord>,
    item_count: usize,
    total_value: i128,
    total_recent_average_price: i128,
}

impl View for ScanResult {
    type V = ScanResultView;

    closed spec fn view(&self) -> ScanResultView {
        ScanResultView {
            records: record_views(self.records@),
            item_count: self.item_count as nat,
            total_value: self.total_value as int,
            total_recent_average_price: self.total_recent_average_price as int,
        }
    }
}

impl ScanResult {
    /// The records, in the order in which they were accumulated.
    pub fn records(&self) -> (records: &Vec<OwnershipRecord>)
        ensures
            record_views(records@) == self@.records,
    {
        &self.records
    }

    /// The number of records.
    pub fn item_count(&self) -> (count: usize)
        ensures
            count == self@.item_count,
    {
        self.item_count
    }

    /// The summed effective value of the records' items.
    pub fn total_value(&self) -> (total: i128)
        ensures
            total == self@.total_value,
    {
        self.total_value
    }

    /// The summed recent average price of the records' items.
    pub fn total_recent_average_price(&self) -> (total: i128)
        ensures
            total == self@.total_recent_average_price,
    {
        self.total_recent_average_price
    }
}

/// The records found so far. It only grows, and only by `record`.
pub struct ScanAccumulator {
    records: Vec<OwnershipRecord>,
}

impl View for ScanAccumulator {
    type V = Seq<OwnershipRecordView>;

    closed spec fn view(&self) -> Seq<OwnershipRecordView> {
        record_views(self.records@)
    }
}

impl ScanAccumulator {
    /// The accumulator without records.
    pub fn new() -> (accumulator: ScanAccumulator)
        ensures
            accumulator@ == Seq::<OwnershipRecordView>::empty(),
    {
        ScanAccumulator { records: Vec::new() }
    }

    /// Takes one outcome in: the record of an `Owned` outcome is appended,
    /// any other outcome changes nothing.
    pub fn record(&mut self, outcome: ProbeOutcome)
        ensures
            final(self)@ == old(self)@ + outcome@.owned_records(),
    {
        match outcome {
            ProbeOutcome::Owned(record) => {
                self.records.push(record);
            },
            _ => {},
        }
    }

    /// Takes outcomes in, one after the other.
    pub fn record_all(&mut self, outcomes: Vec<ProbeOutcome>)
        ensures
            final(self)@ == old(self)@ + owned_records_of(outcome_views(outcomes@)),
    {
        let ghost views = outcome_views(outcomes@);
        for outcome in iter: outcomes.into_iter()
            invariant
                iter.seq() == outcomes@,
                views == outcome_views(outcomes@),
                self@ == old(self)@ + owned_records_of(views.take(iter.index())),
        {
            let ghost before = self@;
            let ghost i = iter.index();
            self.record(outcome);
            proof {
                assert(views.take(i + 1) =~= views.take(i).push(views[i]));
                lemma_gather_push(
                    views.take(i),
                    views[i],
                    |outcome: ProbeOutcomeView| outcome.owned_records(),
                );
            }
        }
        assert(views.take(views.len() as int) =~= views);
    }

    /// The number of records found so far.
    pub fn len(&self) -> (len: usize)
        ensures
            len == self@.len(),
    {
        self.records.len()
    }

    /// Folds the records into the result of the scan. There is none when a
    /// record names an item that the catalog does not know: the error then
    /// names the item of the first such record.
    pub fn finalize(self, catalog: &Catalog) -> (result: Result<ScanResult, ScanError>)
        ensures
            match result {
                Ok(scan) => all_known(self@, catalog@) && scan@ == scan_result_of(
                    self@,
                    catalog@,
                ),
                Err(ScanError::UnknownItem { item_id }) => is_first_unknown(
                    self@,
                    catalog@,
                    item_id,
                ),
                Err(_) => false,
            },
    {
        let ghost records = self@;
        let mut value: i128 = 0;
        let mut price: i128 = 0;
        let mut i: usize = 0;
        while i < self.records.len()
            invariant
                i <= self.records.len(),
                records == record_views(self.records@),
                all_known(records.take(i as int), catalog@),
                value == total_value(records.take(i as int), catalog@),
                price == total_recent_average_price(
                    records.take(i as int),
                    catalog@,
                ),
                -(i * 0x8000_0000_0000_0000) <= value <= i * 0x8000_0000_0000_0000,
                -(i * 0x8000_0000_0000_0000) <= price <= i * 0x8000_0000_0000_0000,
            decreases self.records.len() - i,
        {
            let item_id: u64 = self.records[i].item_id;
            assert(records.take(i + 1).drop_last() =~= records.take(i as int));
            match catalog.get(item_id) {
                Some(entry) => {
                    value = value + entry.effective_value() as i128;
                    price = price + entry.recent_average_price as i128;
                },
                None => {
                    assert(records[i as int].item_id == item_id);
                    return Err(ScanError::UnknownItem { item_id });
                },
            }
            i = i + 1;
        }
        assert(records.take(i as int) =~= records);
        Ok(
            ScanResult {
                item_count: self.records.len(),
                records: self.records,
                total_value: value,
                total_recent_average_price: price,
            },
        )
    }
}

} // verus!
