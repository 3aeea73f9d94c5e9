//! What a probe can come to: its terminal outcomes and the ownership
//! records that they carry.

use vstd::prelude::*;
use crate::gather::{gather, lemma_gather_order_invariant};

verus! {

/// One owned instance of an item. A record from the coarse endpoint has no
/// instance identifier: that endpoint only says that the item is owned.
#[derive(Clone, Debug, PartialEq, Eq)]
pub struct OwnershipRecord {
    pub item_id: u64,
    pub instance_id: Option<u64>,
    pub display_name: String,
}

/// What an [`OwnershipRecord`] holds, as plain values.
pub ghost struct OwnershipRecordView {
    pub item_id: u64,
    pub instance_id: Option<u64>,
    pub display_name: Seq<char>,
}

impl View for OwnershipRecord {
    type V = OwnershipRecordView;

    open spec fn view(&self) -> OwnershipRecordView {
        OwnershipRecordView {
            item_id: self.item_id,
            instance_id: self.instance_id,
            display_name: self.display_name@,
        }
    }
}

/// The views of a sequence of records, in the same order.
pub open spec fn record_views(records: Seq<OwnershipRecord>) -> Seq<OwnershipRecordView> {
    records.map_values(|record: OwnershipRecord| record@)
}

/// Why a single probe failed.
#[derive(Clone, Copy, Debug, PartialEq, Eq, Structural)]
pub enum FailureReason {
    /// The request brought no response.
    Unreachable,
    /// The response body could not be read or decoded, or had the wrong
    /// shape for the endpoint.
    Malformed,
}

/// The terminal outcome of a probe. A probe of an item with several owned
/// instances ends in several `Owned` outcomes, one per instance.
#[derive(Clone, Debug, PartialEq, Eq)]
pub enum ProbeOutcome {
    Owned(OwnershipRecord),
    NotOwned,
    TransientFailure(FailureReason),
}

/// What a [`ProbeOutcome`] holds, as plain values.
pub ghost enum ProbeOutcomeView {
    Owned(OwnershipRecordView),
    NotOwned,
    TransientFailure(FailureReason),
}

impl View for ProbeOutcome {
    type V = ProbeOutcomeView;

    open spec fn view(&self) -> ProbeOutcomeView {
        match self {
            ProbeOutcome::Owned(record) => ProbeOutcomeView::Owned(record@),
            ProbeOutcome::NotOwned => ProbeOutcomeView::NotOwned,
            ProbeOutcome::TransientFailure(reason) => ProbeOutcomeView::TransientFailure(*reason),
        }
    }
}

/// The views of a sequence of outcomes, in the same order.
pub open spec fn outcome_views(outcomes: Seq<ProbeOutcome>) -> Seq<ProbeOutcomeView> {
    outcomes.map_values(|outcome: ProbeOutcome| outcome@)
}

impl ProbeOutcomeView {
    /// The records that the outcome adds to a scan: its record when it is
    /// `Owned`, none otherwise.
    pub open spec fn owned_records(self) -> Seq<OwnershipRecordView> {
        match self {
            ProbeOutcomeView::Owned(record) => seq![record],
            _ => Seq::empty(),
        }
    }
}

/// The records that a sequence of outcomes adds to a scan, in order.
pub open spec fn owned_records_of(outcomes: Seq<ProbeOutcomeView>) -> Seq<OwnershipRecordView> {
    gather(outcomes, |outcome: ProbeOutcomeView| outcome.owned_records())
}

/// The records that outcomes add do not depend on the order of the
/// outcomes: two sequences of the same outcomes, each as often in the one
/// as in the other, add the same records, each as often.
pub proof fn lemma_owned_records_order_invariant(
    a: Seq<ProbeOutcomeView>,
    b: Seq<ProbeOutcomeView>,
)
    requires
        a.to_multiset() == b.to_multiset(),
    ensures
        owned_records_of(a).to_multiset() == owned_records_of(b).to_multiset(),
{
    lemma_gather_order_invariant(a, b, |outcome: ProbeOutcomeView| outcome.owned_records());
}

} // verus!
