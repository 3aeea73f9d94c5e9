//! The state of a scan as plain values: what it may do next, what a reply
//! changes, and what holds of every state that a scan can reach.

use vstd::prelude::*;
use vstd::seq_lib::{to_multiset_contains, to_multiset_len};
use crate::account::is_account_number;
use crate::accumulator::{all_known, lemma_totals_order_invariant, scan_result_of};
use crate::catalog::CatalogEntryView;
use crate::gather::{gather, lemma_gather_order_invariant, lemma_gather_push};
use crate::outcome::{FailureReason, OwnershipRecordView, ProbeOutcomeView, owned_records_of};
use crate::prober::{Completion, FailureMode, ProbeFailure};
use crate::strategy::{ProbeReplyView, ProbeStrategy};

verus! {

/// What the caller of a scan does next.
///
/// `Start`: send the probe of this item to this address; it is now
/// outstanding. `Wait`: wait for the reply of an outstanding probe and hand
/// it in. `Finished`: every candidate is settled. `Aborted`: the probe of
/// this item failed fatally and the scan is given up.
pub ghost enum StepView {
    Start { item_id: u64, url: Seq<char> },
    Wait,
    Finished,
    Aborted { item_id: u64 },
}

/// One settled probe: the item and the reply that settled it.
pub ghost struct Settlement {
    pub item_id: u64,
    pub reply: ProbeReplyView,
}

/// The records of one settled probe: those of its terminal outcomes, where
/// a record of the coarse endpoint is named as the catalog names the item.
pub open spec fn records_of(
    strategy: ProbeStrategy,
    catalog: Map<u64, CatalogEntryView>,
    settlement: Settlement,
) -> Seq<OwnershipRecordView> {
    owned_records_of(
        strategy.outcomes_of(
            settlement.item_id,
            catalog[settlement.item_id].name,
            settlement.reply,
        ),
    )
}

/// The failure of one settled probe, if it failed.
pub open spec fn failures_of(strategy: ProbeStrategy, settlement: Settlement) -> Seq<ProbeFailure> {
    match strategy.failure_of(settlement.reply) {
        Some(reason) => seq![ProbeFailure { item_id: settlement.item_id, reason }],
        None => Seq::empty(),
    }
}

/// Whether a reply ends the scan: in strict mode, a reply of the listing
/// endpoint that could not be read or decoded.
pub open spec fn is_fatal(
    strategy: ProbeStrategy,
    failure_mode: FailureMode,
    reply: ProbeReplyView,
) -> bool {
    &&& failure_mode == FailureMode::Strict
    &&& strategy == ProbeStrategy::Unrestricted
    &&& strategy.failure_of(reply) == Some(FailureReason::Malformed)
}

/// The records of settled probes, in the order of the probes.
pub open spec fn recorded(
    strategy: ProbeStrategy,
    catalog: Map<u64, CatalogEntryView>,
    settled: Seq<Settlement>,
) -> Seq<OwnershipRecordView> {
    gather(settled, |settlement: Settlement| records_of(strategy, catalog, settlement))
}

/// The failures among settled probes, in the order of the probes.
pub open spec fn failed(strategy: ProbeStrategy, settled: Seq<Settlement>) -> Seq<ProbeFailure> {
    gather(settled, |settlement: Settlement| failures_of(strategy, settlement))
}

/// The item of the first settled probe whose reply ends the scan.
pub open spec fn first_fatal(
    strategy: ProbeStrategy,
    failure_mode: FailureMode,
    settled: Seq<Settlement>,
) -> Option<u64>
    decreases settled.len(),
{
    if settled.len() == 0 {
        None
    } else {
        match first_fatal(strategy, failure_mode, settled.drop_last()) {
            Some(item_id) => Some(item_id),
            None => if is_fatal(strategy, failure_mode, settled.last().reply) {
                Some(settled.last().item_id)
            } else {
                None
            },
        }
    }
}

/// The state of a scan, as plain values.
pub ghost struct ProberState {
    pub catalog: Map<u64, CatalogEntryView>,
    pub strategy: ProbeStrategy,
    pub failure_mode: FailureMode,
    /// The identifier of the account that is scanned.
    pub account_id: i64,
    /// The most probes that may be outstanding at once.
    pub limit: nat,
    /// The items to probe, in the order in which their probes start.
    pub candidates: Seq<u64>,
    /// How many candidates have had their probe started.
    pub started: nat,
    /// The items whose probe is outstanding.
    pub in_flight: Seq<u64>,
    /// The settled probes, in the order in which their replies came.
    pub settled: Seq<Settlement>,
    /// The records found so far.
    pub records: Seq<OwnershipRecordView>,
    /// The failed probes so far.
    pub failures: Seq<ProbeFailure>,
    /// The item whose probe ended the scan, if one did.
    pub aborted: Option<u64>,
}

impl ProberState {
    /// The state before any probe has started.
    pub open spec fn initial(
        catalog: Map<u64, CatalogEntryView>,
        candidates: Seq<u64>,
        strategy: ProbeStrategy,
        failure_mode: FailureMode,
        account_id: i64,
        limit: nat,
    ) -> ProberState {
        ProberState {
            catalog,
            strategy,
            failure_mode,
            account_id,
            limit,
            candidates,
            started: 0,
            in_flight: Seq::empty(),
            settled: Seq::empty(),
            records: Seq::empty(),
            failures: Seq::empty(),
            aborted: None,
        }
    }

    /// The records of the settled probes, in the order of the probes.
    pub open spec fn recorded(self) -> Seq<OwnershipRecordView> {
        recorded(self.strategy, self.catalog, self.settled)
    }

    /// The failures among the settled probes, in the order of the probes.
    pub open spec fn failed(self) -> Seq<ProbeFailure> {
        failed(self.strategy, self.settled)
    }

    /// The item of the first settled probe whose reply ends the scan.
    pub open spec fn first_fatal(self) -> Option<u64> {
        first_fatal(self.strategy, self.failure_mode, self.settled)
    }

    /// The items of the settled probes, in the order of the probes.
    pub open spec fn settled_ids(self) -> Seq<u64> {
        self.settled.map_values(|settlement: Settlement| settlement.item_id)
    }

    /// What holds of every state that a scan can reach.
    ///
    /// The account has a positive identifier, and the limit is respected.
    /// A candidate whose probe has started is either outstanding or
    /// settled, never both and never twice, and nothing else is. The
    /// records, the failures and the fatal item are those of the settled
    /// probes.
    pub open spec fn inv(self) -> bool {
        &&& is_account_number(self.account_id)
        &&& self.limit >= 1
        &&& self.candidates.no_duplicates()
        &&& forall|i: int|
            0 <= i < self.candidates.len() ==> self.catalog.contains_key(
                #[trigger] self.candidates[i],
            )
        &&& self.started <= self.candidates.len()
        &&& self.in_flight.len() <= self.limit
        &&& self.in_flight.no_duplicates()
        &&& self.settled_ids().no_duplicates()
        &&& forall|id: u64|
            self.candidates.take(self.started as int).contains(id) <==> (self.in_flight.contains(
                id,
            ) || self.settled_ids().contains(id))
        &&& forall|id: u64| !(self.in_flight.contains(id) && self.settled_ids().contains(id))
        &&& self.records == self.recorded()
        &&& self.failures == self.failed()
        &&& self.aborted == self.first_fatal()
    }

    /// Whether a further probe may start: the scan goes on, a candidate is
    /// left, and the limit leaves room.
    pub open spec fn may_start(self) -> bool {
        &&& self.aborted is None
        &&& self.started < self.candidates.len()
        &&& self.in_flight.len() < self.limit
    }

    /// Whether every candidate is settled and the scan was not given up.
    pub open spec fn is_finished(self) -> bool {
        &&& self.aborted is None
        &&& self.started == self.candidates.len()
        &&& self.in_flight.len() == 0
    }

    /// How far the scan is from its end: two for each candidate that is not
    /// started, one for each outstanding probe.
    pub open spec fn work_left(self) -> int {
        2 * (self.candidates.len() - self.started) + self.in_flight.len()
    }

    /// What the caller does next.
    pub open spec fn step(self) -> StepView {
        if let Some(item_id) = self.aborted {
            StepView::Aborted { item_id }
        } else if self.may_start() {
            let item_id = self.candidates[self.started as int];
            StepView::Start { item_id, url: self.strategy.url_of(self.account_id, item_id) }
        } else if self.in_flight.len() > 0 {
            StepView::Wait
        } else {
            StepView::Finished
        }
    }

    /// The state after the caller was told what to do next: a probe that
    /// starts is outstanding, and nothing else changes.
    pub open spec fn after_step(self) -> ProberState {
        if self.may_start() {
            ProberState {
                started: self.started + 1,
                in_flight: self.in_flight.push(self.candidates[self.started as int]),
                ..self
            }
        } else {
            self
        }
    }

    /// What handing in `reply` for `item_id` comes to.
    pub open spec fn completion(self, item_id: u64, reply: ProbeReplyView) -> Completion {
        if !self.in_flight.contains(item_id) {
            Completion::Rejected
        } else {
            match self.strategy.failure_of(reply) {
                Some(reason) => if is_fatal(self.strategy, self.failure_mode, reply) {
                    Completion::Fatal { reason }
                } else {
                    Completion::Failed { reason }
                },
                None => Completion::Settled {
                    owned: records_of(
                        self.strategy,
                        self.catalog,
                        Settlement { item_id, reply },
                    ).len() as usize,
                },
            }
        }
    }

    /// The state after `reply` was handed in for `item_id`. A reply for an
    /// item whose probe is not outstanding changes nothing. Any other
    /// settles the probe: its records and its failure are taken in, and the
    /// first fatal reply gives the scan up.
    pub open spec fn after_completion(self, item_id: u64, reply: ProbeReplyView) -> ProberState {
        if !self.in_flight.contains(item_id) {
            self
        } else {
            let settlement = Settlement { item_id, reply };
            ProberState {
                in_flight: self.in_flight.remove(self.in_flight.index_of(item_id)),
                settled: self.settled.push(settlement),
                records: self.records + records_of(self.strategy, self.catalog, settlement),
                failures: self.failures + failures_of(self.strategy, settlement),
                aborted: if self.aborted is None && is_fatal(
                    self.strategy,
                    self.failure_mode,
                    reply,
                ) {
                    Some(item_id)
                } else {
                    self.aborted
                },
                ..self
            }
        }
    }
}

/// Taking one item out of a sequence without duplicates leaves a sequence
/// without duplicates, of all the other items.
proof fn lemma_remove_unique(items: Seq<u64>, k: int)
    requires
        items.no_duplicates(),
        0 <= k < items.len(),
    ensures
        items.remove(k).no_duplicates(),
        forall|id: u64| items.remove(k).contains(id) <==> (items.contains(id) && id != items[k]),
{
    let rest = items.remove(k);
    assert forall|id: u64| items.contains(id) && id != items[k] implies rest.contains(id) by {
        let j = choose|j: int| 0 <= j < items.len() && items[j] == id;
        let to_j = if j < k { j } else { j - 1 };
        assert(rest[to_j] == id);
    }
}

/// One more item at the end of a sequence is one more item in it.
proof fn lemma_push_contains(items: Seq<u64>, last: u64)
    ensures
        forall|id: u64| items.push(last).contains(id) <==> (items.contains(id) || id == last),
{
    let longer = items.push(last);
    assert forall|id: u64| items.contains(id) || id == last implies longer.contains(id) by {
        if items.contains(id) {
            let j = choose|j: int| 0 <= j < items.len() && items[j] == id;
            assert(longer[j] == id);
        } else {
            assert(longer[items.len() as int] == id);
        }
    }
}

/// One more item that was not there yet keeps a sequence free of
/// duplicates.
proof fn lemma_push_unique(items: Seq<u64>, last: u64)
    requires
        items.no_duplicates(),
        !items.contains(last),
    ensures
        items.push(last).no_duplicates(),
{
}

/// The records, the failures and the fatal item of one more settled probe.
proof fn lemma_settle_one_more(
    strategy: ProbeStrategy,
    failure_mode: FailureMode,
    catalog: Map<u64, CatalogEntryView>,
    settled: Seq<Settlement>,
    settlement: Settlement,
)
    ensures
        recorded(strategy, catalog, settled.push(settlement)) == recorded(
            strategy,
            catalog,
            settled,
        ) + records_of(strategy, catalog, settlement),
        failed(strategy, settled.push(settlement)) == failed(strategy, settled) + failures_of(
            strategy,
            settlement,
        ),
        first_fatal(strategy, failure_mode, settled.push(settlement)) == match first_fatal(
            strategy,
            failure_mode,
            settled,
        ) {
            Some(item_id) => Some(item_id),
            None => if is_fatal(strategy, failure_mode, settlement.reply) {
                Some(settlement.item_id)
            } else {
                None
            },
        },
{
    lemma_gather_push(
        settled,
        settlement,
        |settlement: Settlement| records_of(strategy, catalog, settlement),
    );
    lemma_gather_push(settled, settlement, |settlement: Settlement| failures_of(strategy, settlement));
    assert(settled.push(settlement).drop_last() =~= settled);
}

/// The coarse endpoint only ever yields records of the item that was
/// asked for: where the catalog knows the items of the settled probes, it
/// knows the items of their records.
proof fn lemma_restricted_records_known(
    catalog: Map<u64, CatalogEntryView>,
    settled: Seq<Settlement>,
)
    requires
        forall|i: int| 0 <= i < settled.len() ==> catalog.contains_key(#[trigger] settled[i].item_id),
    ensures
        all_known(recorded(ProbeStrategy::Restricted, catalog, settled), catalog),
    decreases settled.len(),
{
    if settled.len() > 0 {
        let strategy = ProbeStrategy::Restricted;
        let last = settled.last();
        let outcomes = strategy.outcomes_of(last.item_id, catalog[last.item_id].name, last.reply);
        lemma_restricted_records_known(catalog, settled.drop_last());
        lemma_gather_push(
            Seq::<ProbeOutcomeView>::empty(),
            outcomes[0],
            |outcome: ProbeOutcomeView| outcome.owned_records(),
        );
    }
}

impl ProberState {
    /// A scan starts in a state of which the invariant holds.
    pub proof fn lemma_initial_inv(
        catalog: Map<u64, CatalogEntryView>,
        candidates: Seq<u64>,
        strategy: ProbeStrategy,
        failure_mode: FailureMode,
        account_id: i64,
        limit: nat,
    )
        requires
            is_account_number(account_id),
            limit >= 1,
            candidates.no_duplicates(),
            forall|i: int| 0 <= i < candidates.len() ==> catalog.contains_key(#[trigger] candidates[i]),
        ensures
            Self::initial(catalog, candidates, strategy, failure_mode, account_id, limit).inv(),
    {
    }

    /// Telling the caller what to do next keeps the invariant.
    pub proof fn lemma_step_preserves_inv(self)
        requires
            self.inv(),
        ensures
            self.after_step().inv(),
    {
        if self.may_start() {
            let next = self.after_step();
            let item_id = self.candidates[self.started as int];
            let begun = self.candidates.take(self.started as int);
            assert(next.candidates.take(next.started as int) =~= begun.push(item_id));
            lemma_push_contains(begun, item_id);
            lemma_push_contains(self.in_flight, item_id);
            lemma_push_unique(self.in_flight, item_id);
            assert forall|id: u64|
                next.candidates.take(next.started as int).contains(id) <==> (
                next.in_flight.contains(id) || next.settled_ids().contains(id)) by {
                assert(begun.contains(id) <==> (self.in_flight.contains(id)
                    || self.settled_ids().contains(id)));
            }
        }
    }

    /// Handing in a reply keeps the invariant.
    pub proof fn lemma_completion_preserves_inv(self, item_id: u64, reply: ProbeReplyView)
        requires
            self.inv(),
        ensures
            self.after_completion(item_id, reply).inv(),
    {
        if self.in_flight.contains(item_id) {
            let next = self.after_completion(item_id, reply);
            let settlement = Settlement { item_id, reply };
            let k = self.in_flight.index_of(item_id);
            lemma_remove_unique(self.in_flight, k);
            assert(next.settled_ids() =~= self.settled_ids().push(item_id));
            lemma_push_contains(self.settled_ids(), item_id);
            lemma_push_unique(self.settled_ids(), item_id);
            let begun = self.candidates.take(self.started as int);
            assert forall|id: u64|
                begun.contains(id) <==> (next.in_flight.contains(id) || next.settled_ids().contains(
                    id,
                )) by {
                assert(begun.contains(id) <==> (self.in_flight.contains(id)
                    || self.settled_ids().contains(id)));
            }
            assert forall|id: u64|
                !(next.in_flight.contains(id) && next.settled_ids().contains(id)) by {
                assert(!(self.in_flight.contains(id) && self.settled_ids().contains(id)));
            }
            lemma_settle_one_more(
                self.strategy,
                self.failure_mode,
                self.catalog,
                self.settled,
                settlement,
            );
        }
    }

    /// The limit is respected: in a state that a scan can reach, no more
    /// probes are outstanding than the limit allows.
    pub proof fn lemma_limit_respected(self)
        requires
            self.inv(),
        ensures
            self.in_flight.len() <= self.limit,
            self.after_step().in_flight.len() <= self.limit,
    {
    }

    /// The caller is told that the scan is finished only when it is: no
    /// candidate is left to start, no probe is outstanding, and the scan was
    /// not given up. And it is never told to wait for nothing.
    pub proof fn lemma_step_is_faithful(self)
        requires
            self.inv(),
        ensures
            self.step() is Finished <==> self.is_finished(),
            self.step() is Wait ==> self.in_flight.len() > 0,
            self.step() is Aborted <==> self.aborted is Some,
    {
    }

    /// The scan comes to its end: every probe that starts and every reply
    /// that settles one brings it one nearer, and a scan that was not given
    /// up is finished exactly when nothing is left to do.
    pub proof fn lemma_progress(self, item_id: u64, reply: ProbeReplyView)
        requires
            self.inv(),
        ensures
            self.work_left() >= 0,
            self.step() is Start ==> self.after_step().work_left() == self.work_left() - 1,
            self.in_flight.contains(item_id) ==> self.after_completion(item_id, reply).work_left()
                == self.work_left() - 1,
            self.aborted is None ==> (self.is_finished() <==> self.work_left() == 0),
    {
    }

    /// The records only grow: telling the caller what to do next leaves
    /// them as they are, and a reply can only add records after those that
    /// are there.
    pub proof fn lemma_records_only_grow(self, item_id: u64, reply: ProbeReplyView)
        ensures
            self.after_step().records == self.records,
            self.records.is_prefix_of(self.after_completion(item_id, reply).records),
    {
    }

    /// A failed probe is left out and nothing else is lost: what a failing
    /// reply settles adds its failure to the failures and leaves the records
    /// as they were.
    pub proof fn lemma_failure_isolated(self, item_id: u64, reply: ProbeReplyView)
        requires
            self.in_flight.contains(item_id),
            self.strategy.failure_of(reply) is Some,
        ensures
            self.after_completion(item_id, reply).records == self.records,
            self.after_completion(item_id, reply).failures == self.failures.push(
                ProbeFailure { item_id, reason: self.strategy.failure_of(reply)->0 },
            ),
    {
        let reason = self.strategy.failure_of(reply)->0;
        let outcome = ProbeOutcomeView::TransientFailure(reason);
        lemma_gather_push(
            Seq::<ProbeOutcomeView>::empty(),
            outcome,
            |outcome: ProbeOutcomeView| outcome.owned_records(),
        );
    }

    /// A scan by the coarse endpoint finds records of catalog items only, so
    /// its result is never withheld for an item that the catalog lacks.
    pub proof fn lemma_restricted_scan_knows_its_items(self)
        requires
            self.inv(),
            self.strategy == ProbeStrategy::Restricted,
        ensures
            all_known(self.records, self.catalog),
    {
        assert forall|i: int| 0 <= i < self.settled.len() implies self.catalog.contains_key(
            #[trigger] self.settled[i].item_id,
        ) by {
            let id = self.settled[i].item_id;
            assert(self.settled_ids()[i] == id);
            assert(self.settled_ids().contains(id));
        }
        lemma_restricted_records_known(self.catalog, self.settled);
    }

    /// A finished scan has settled every candidate exactly once: the
    /// settled items are the candidates, each once, and the records are
    /// those of the settled probes.
    pub proof fn lemma_finished_settles_all(self)
        requires
            self.inv(),
            self.is_finished(),
        ensures
            self.settled_ids().to_multiset() == self.candidates.to_multiset(),
            self.settled.len() == self.candidates.len(),
            self.records == self.recorded(),
    {
        let ids = self.settled_ids();
        assert(self.candidates.take(self.started as int) =~= self.candidates);
        ids.lemma_multiset_has_no_duplicates();
        self.candidates.lemma_multiset_has_no_duplicates();
        assert forall|id: u64| ids.to_multiset().count(id) == self.candidates.to_multiset().count(
            id,
        ) by {
            to_multiset_contains(ids, id);
            to_multiset_contains(self.candidates, id);
        }
        assert(ids.to_multiset() =~= self.candidates.to_multiset());
        to_multiset_len(ids);
        to_multiset_len(self.candidates);
    }

    /// The result of a scan does not depend on the order in which the
    /// replies came: two scans of one catalog by one strategy that settled
    /// the same probes with the same replies found the same records, each
    /// as often, and fold into results with the same count and totals; the
    /// catalog knows the items of both or of neither.
    pub proof fn lemma_order_invariant(self, other: ProberState)
        requires
            self.inv(),
            other.inv(),
            self.catalog == other.catalog,
            self.strategy == other.strategy,
            self.settled.to_multiset() == other.settled.to_multiset(),
        ensures
            self.records.to_multiset() == other.records.to_multiset(),
            all_known(self.records, self.catalog) == all_known(other.records, other.catalog),
            scan_result_of(self.records, self.catalog).item_count == scan_result_of(
                other.records,
                other.catalog,
            ).item_count,
            scan_result_of(self.records, self.catalog).total_value == scan_result_of(
                other.records,
                other.catalog,
            ).total_value,
            scan_result_of(self.records, self.catalog).total_recent_average_price
                == scan_result_of(other.records, other.catalog).total_recent_average_price,
    {
        lemma_gather_order_invariant(
            self.settled,
            other.settled,
            |settlement: Settlement| records_of(self.strategy, self.catalog, settlement),
        );
        lemma_totals_order_invariant(self.records, other.records, self.catalog);
    }
}

} // verus!
