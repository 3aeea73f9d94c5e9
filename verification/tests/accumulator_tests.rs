use inventory_scanner::accumulator::{ScanAccumulator, ScanError};
use inventory_scanner::catalog::{Catalog, CatalogEntry};
use inventory_scanner::outcome::{FailureReason, OwnershipRecord, ProbeOutcome};

fn catalog_of(entries: &[(u64, &str, i64, i64)]) -> Catalog {
    let mut catalog = Catalog::new();
    for (id, name, rap, value) in entries {
        catalog.insert(CatalogEntry::new(*id, name.to_string(), *rap, *value));
    }
    catalog
}

fn record(item_id: u64, instance_id: Option<u64>, name: &str) -> OwnershipRecord {
    OwnershipRecord { item_id, instance_id, display_name: name.to_string() }
}

fn owned(item_id: u64, instance_id: u64) -> ProbeOutcome {
    ProbeOutcome::Owned(record(item_id, Some(instance_id), "item"))
}

#[test]
fn empty_accumulator_folds_to_zero() {
    let catalog = Catalog::new();
    let scan = ScanAccumulator::new().finalize(&catalog).unwrap();
    assert_eq!(scan.item_count(), 0);
    assert_eq!(scan.total_value(), 0);
    assert_eq!(scan.total_recent_average_price(), 0);
    assert!(scan.records().is_empty());
}

#[test]
fn empty_accumulator_folds_to_zero_against_any_catalog() {
    let catalog = catalog_of(&[(1, "a", 10, 20), (2, "b", 30, -1)]);
    let scan = ScanAccumulator::new().finalize(&catalog).unwrap();
    assert_eq!(scan.item_count(), 0);
    assert_eq!(scan.total_value(), 0);
    assert_eq!(scan.total_recent_average_price(), 0);
}

#[test]
fn record_appends_owned_outcomes_only() {
    let mut acc = ScanAccumulator::new();
    acc.record(ProbeOutcome::NotOwned);
    assert_eq!(acc.len(), 0);
    acc.record(ProbeOutcome::TransientFailure(FailureReason::Unreachable));
    acc.record(ProbeOutcome::TransientFailure(FailureReason::Malformed));
    assert_eq!(acc.len(), 0);
    acc.record(owned(1, 100));
    assert_eq!(acc.len(), 1);
    acc.record(ProbeOutcome::NotOwned);
    acc.record(owned(1, 101));
    assert_eq!(acc.len(), 2);
}

#[test]
fn record_keeps_the_order_of_arrival() {
    let catalog = catalog_of(&[(1, "a", 1, 1), (2, "b", 1, 1)]);
    let mut acc = ScanAccumulator::new();
    acc.record(owned(2, 9));
    acc.record(owned(1, 8));
    acc.record(owned(2, 7));
    let scan = acc.finalize(&catalog).unwrap();
    assert_eq!(
        scan.records(),
        &vec![record(2, Some(9), "item"), record(1, Some(8), "item"), record(2, Some(7), "item")]
    );
}

#[test]
fn record_all_takes_every_outcome_in_order() {
    let catalog = catalog_of(&[(1, "a", 1, 1)]);
    let mut acc = ScanAccumulator::new();
    acc.record(owned(1, 1));
    acc.record_all(vec![
        owned(1, 2),
        ProbeOutcome::NotOwned,
        owned(1, 3),
        ProbeOutcome::TransientFailure(FailureReason::Malformed),
    ]);
    acc.record_all(vec![]);
    assert_eq!(acc.len(), 3);
    let scan = acc.finalize(&catalog).unwrap();
    assert_eq!(
        scan.records(),
        &vec![record(1, Some(1), "item"), record(1, Some(2), "item"), record(1, Some(3), "item")]
    );
}

#[test]
fn finalize_applies_the_value_fallback() {
    let catalog = catalog_of(&[(1, "Hat", 500, -1)]);
    let mut acc = ScanAccumulator::new();
    acc.record(owned(1, 11));
    let scan = acc.finalize(&catalog).unwrap();
    assert_eq!(scan.item_count(), 1);
    assert_eq!(scan.total_value(), 500);
    assert_eq!(scan.total_recent_average_price(), 500);
}

#[test]
fn finalize_sums_values_and_prices() {
    let catalog = catalog_of(&[(1, "a", 100, 150), (2, "b", 40, -1), (3, "c", 7, 0)]);
    let mut acc = ScanAccumulator::new();
    acc.record(owned(1, 11));
    acc.record(owned(2, 21));
    acc.record(owned(3, 31));
    let scan = acc.finalize(&catalog).unwrap();
    assert_eq!(scan.item_count(), 3);
    assert_eq!(scan.total_value(), 150 + 40 + 0);
    assert_eq!(scan.total_recent_average_price(), 100 + 40 + 7);
}

#[test]
fn finalize_counts_an_item_once_per_instance() {
    let catalog = catalog_of(&[(1, "a", 100, 150)]);
    let mut acc = ScanAccumulator::new();
    acc.record(owned(1, 11));
    acc.record(owned(1, 12));
    acc.record(owned(1, 13));
    let scan = acc.finalize(&catalog).unwrap();
    assert_eq!(scan.item_count(), 3);
    assert_eq!(scan.total_value(), 450);
    assert_eq!(scan.total_recent_average_price(), 300);
}

#[test]
fn finalize_does_not_overflow_on_extreme_values() {
    let catalog = catalog_of(&[(1, "big", i64::MAX, i64::MAX), (2, "small", i64::MIN, i64::MIN)]);
    let mut acc = ScanAccumulator::new();
    for instance in 0..4u64 {
        acc.record(owned(1, instance));
    }
    let scan = acc.finalize(&catalog).unwrap();
    assert_eq!(scan.total_value(), 4 * (i64::MAX as i128));
    assert_eq!(scan.total_recent_average_price(), 4 * (i64::MAX as i128));

    let mut acc = ScanAccumulator::new();
    for instance in 0..4u64 {
        acc.record(owned(2, instance));
    }
    let scan = acc.finalize(&catalog).unwrap();
    assert_eq!(scan.total_value(), 4 * (i64::MIN as i128));
    assert_eq!(scan.total_recent_average_price(), 4 * (i64::MIN as i128));
}

#[test]
fn finalize_names_the_first_unknown_item() {
    let catalog = catalog_of(&[(1, "a", 1, 1)]);
    let mut acc = ScanAccumulator::new();
    acc.record(owned(1, 11));
    acc.record(owned(8, 81));
    acc.record(owned(9, 91));
    assert_eq!(acc.finalize(&catalog), Err(ScanError::UnknownItem { item_id: 8 }));
}

#[test]
fn finalize_is_invariant_under_the_order_of_records() {
    let catalog = catalog_of(&[(1, "a", 100, 150), (2, "b", 40, -1), (3, "c", -7, 12)]);
    let outcomes = vec![owned(1, 11), owned(2, 21), owned(3, 31), owned(2, 22), owned(1, 12)];
    let mut forward = ScanAccumulator::new();
    for outcome in outcomes.iter().cloned() {
        forward.record(outcome);
    }
    let mut backward = ScanAccumulator::new();
    for outcome in outcomes.iter().rev().cloned() {
        backward.record(outcome);
    }
    let a = forward.finalize(&catalog).unwrap();
    let b = backward.finalize(&catalog).unwrap();
    assert_eq!(a.item_count(), b.item_count());
    assert_eq!(a.total_value(), b.total_value());
    assert_eq!(a.total_recent_average_price(), b.total_recent_average_price());
    assert_eq!(a.total_value(), 150 + 40 + 12 + 40 + 150);
    assert_eq!(a.total_recent_average_price(), 100 + 40 - 7 + 40 + 100);
    let key = |r: &OwnershipRecord| (r.item_id, r.instance_id);
    let mut ra = a.records().clone();
    let mut rb = b.records().clone();
    ra.sort_by_key(key);
    rb.sort_by_key(key);
    assert_eq!(ra, rb);
}
