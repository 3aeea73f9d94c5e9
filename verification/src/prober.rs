//! The bounded prober: which probe to start next, what a reply settles,
//! and when the scan is over.
//!
//! The prober is a state machine. Its caller sends the probes and waits for
//! the replies; the prober never has more probes outstanding than its
//! limit, settles every candidate exactly once, and retries nothing.

use vstd::prelude::*;
use crate::accumulator::{
    ScanAccumulator, ScanError, ScanResult, all_known, is_first_unknown, scan_result_of,
};
use crate::account::AccountId;
use crate::catalog::Catalog;
use crate::outcome::FailureReason;
use crate::state::{ProberState, Settlement, StepView};
use crate::strategy::{ProbeReply, ProbeStrategy};

verus! {

/// What a failed decoding of a listing does to the scan.
#[derive(Clone, Copy, Debug, PartialEq, Eq, Structural)]
pub enum FailureMode {
    /// Every failed probe is reported and left out; the scan goes on.
    Advisory,
    /// A listing that cannot be decoded ends the scan: it tells of trouble
    /// that would otherwise make the scan count too little.
    Strict,
}

/// A probe that failed, kept to be reported.
#[derive(Clone, Copy, Debug, PartialEq, Eq, Structural)]
pub struct ProbeFailure {
    pub item_id: u64,
    pub reason: FailureReason,
}

/// A probe to send.
#[derive(Clone, Debug, PartialEq, Eq)]
pub struct ProbeRequest {
    pub item_id: u64,
    pub url: String,
}

/// What the caller does next.
#[derive(Clone, Debug, PartialEq, Eq)]
pub enum Step {
    /// Send this probe; it is now outstanding.
    Start(ProbeRequest),
    /// Wait for the reply of an outstanding probe and hand it in.
    Wait,
    /// Every candidate is settled.
    Finished,
    /// The probe of this item failed fatally: the scan is given up.
    Aborted { item_id: u64 },
}

impl View for Step {
    type V = StepView;

    open spec fn view(&self) -> StepView {
        match self {
            Step::Start(request) => StepView::Start { item_id: request.item_id, url: request.url@ },
            Step::Wait => StepView::Wait,
            Step::Finished => StepView::Finished,
            Step::Aborted { item_id } => StepView::Aborted { item_id: *item_id },
        }
    }
}

/// What handing in a reply came to.
#[derive(Clone, Copy, Debug, PartialEq, Eq, Structural)]
pub enum Completion {
    /// No probe of that item was outstanding: nothing changed.
    Rejected,
    /// The probe was answered, with this many owned instances.
    Settled { owned: usize },
    /// The probe failed; the scan goes on without the item.
    Failed { reason: FailureReason },
    /// The probe failed and the scan is given up.
    Fatal { reason: FailureReason },
}

/// Where `wanted` stands in `items`, if it is there.
fn position(items: &Vec<u64>, wanted: u64) -> (found: Option<usize>)
    ensures
        match found {
            Some(i) => i < items.len() && items[i as int] == wanted,
            None => !items@.contains(wanted),
        },
{
    let mut i: usize = 0;
    while i < items.len()
        invariant
            i <= items.len(),
            forall|j: int| 0 <= j < i ==> items[j] != wanted,
        decreases items.len() - i,
    {
        if items[i] == wanted {
            return Some(i);
        }
        i = i + 1;
    }
    None
}

/// The bounded prober of one scan.
pub struct BoundedProber {
    catalog: Catalog,
    strategy: ProbeStrategy,
    failure_mode: FailureMode,
    account: AccountId,
    limit: usize,
    candidates: Vec<u64>,
    started: usize,
    in_flight: Vec<u64>,
    accumulator: ScanAccumulator,
    failures: Vec<ProbeFailure>,
    aborted: Option<u64>,
    settled: Ghost<Seq<Settlement>>,
}

impl View for BoundedProber {
    type V = ProberState;

    closed spec fn view(&self) -> ProberState {
        ProberState {
            catalog: self.catalog@,
            strategy: self.strategy,
            failure_mode: self.failure_mode,
            account_id: self.account@,
            limit: self.limit as nat,
            candidates: self.candidates@,
            started: self.started as nat,
            in_flight: self.in_flight@,
            settled: self.settled@,
            records: self.accumulator@,
            failures: self.failures@,
            aborted: self.aborted,
        }
    }
}

impl BoundedProber {
    /// A prober for a scan of the whole catalog, with no probe started.
    /// There is none for a limit of zero, under which no probe could ever
    /// start.
    pub fn new(
        catalog: Catalog,
        strategy: ProbeStrategy,
        failure_mode: FailureMode,
        account: AccountId,
        limit: usize,
    ) -> (prober: Option<BoundedProber>)
        requires
            catalog.wf(),
        ensures
            prober is None <==> limit == 0,
            prober matches Some(p) ==> p@.inv() && p@ == ProberState::initial(
                catalog@,
                catalog.ids(),
                strategy,
                failure_mode,
                account@,
                limit as nat,
            ),
    {
        if limit == 0 {
            return None;
        }
        let candidates = catalog.candidate_ids();
        // Reading the identifier shows that it is positive.
        let _: i64 = account.number();
        proof {
            catalog.lemma_ids();
            assert forall|i: int| 0 <= i < candidates@.len() implies catalog@.contains_key(
                #[trigger] candidates@[i],
            ) by {
                assert(catalog.ids().contains(candidates@[i]));
            }
            ProberState::lemma_initial_inv(
                catalog@,
                candidates@,
                strategy,
                failure_mode,
                account@,
                limit as nat,
            );
        }
        Some(
            BoundedProber {
                catalog,
                strategy,
                failure_mode,
                account,
                limit,
                candidates,
                started: 0,
                in_flight: Vec::new(),
                accumulator: ScanAccumulator::new(),
                failures: Vec::new(),
                aborted: None,
                settled: Ghost(Seq::empty()),
            },
        )
    }

    /// What the caller does next. A probe that is handed out counts as
    /// outstanding from then on.
    pub fn next_step(&mut self) -> (step: Step)
        requires
            old(self)@.inv(),
        ensures
            step@ == old(self)@.step(),
            final(self)@ == old(self)@.after_step(),
            final(self)@.inv(),
    {
        proof {
            self@.lemma_step_preserves_inv();
        }
        if let Some(item_id) = self.aborted {
            return Step::Aborted { item_id };
        }
        if self.started < self.candidates.len() && self.in_flight.len() < self.limit {
            let item_id: u64 = self.candidates[self.started];
            self.started = self.started + 1;
            self.in_flight.push(item_id);
            let url = self.strategy.request_url(self.account, item_id);
            Step::Start(ProbeRequest { item_id, url })
        } else if self.in_flight.len() > 0 {
            Step::Wait
        } else {
            Step::Finished
        }
    }

    /// Hands in the reply of the probe of `item_id`.
    pub fn complete(&mut self, item_id: u64, reply: ProbeReply) -> (completion: Completion)
        requires
            old(self)@.inv(),
        ensures
            completion == old(self)@.completion(item_id, reply@),
            final(self)@ == old(self)@.after_completion(item_id, reply@),
            final(self)@.inv(),
    {
        proof {
            self@.lemma_completion_preserves_inv(item_id, reply@);
        }
        let place = match position(&self.in_flight, item_id) {
            Some(place) => place,
            None => {
                return Completion::Rejected;
            },
        };
        let ghost settlement = Settlement { item_id, reply: reply@ };
        self.in_flight.remove(place);
        self.settled = Ghost(self.settled@.push(settlement));
        match self.strategy.failure_for(&reply) {
            Some(reason) => {
                self.failures.push(ProbeFailure { item_id, reason });
                let fatal = self.failure_mode == FailureMode::Strict && self.strategy
                    == ProbeStrategy::Unrestricted && reason == FailureReason::Malformed;
                if fatal && self.aborted.is_none() {
                    self.aborted = Some(item_id);
                }
                proof {
                    old(self)@.lemma_failure_isolated(item_id, reply@);
                }
                if fatal {
                    Completion::Fatal { reason }
                } else {
                    Completion::Failed { reason }
                }
            },
            None => {
                let outcomes = match self.catalog.get(item_id) {
                    Some(entry) => self.strategy.interpret(item_id, entry.name.as_str(), &reply),
                    None => {
                        // Only probes of catalog items are ever outstanding.
                        assert(false);
                        Vec::new()
                    },
                };
                let before: usize = self.accumulator.len();
                self.accumulator.record_all(outcomes);
                let after: usize = self.accumulator.len();
                Completion::Settled { owned: after - before }
            },
        }
    }

    /// Ends the accumulating phase: hands over the accumulator of a finished
    /// scan, with the catalog to fold it against. There is none while a
    /// candidate is unsettled and after the scan was given up.
    pub fn into_accumulator(self) -> (done: Result<(ScanAccumulator, Catalog), ScanError>)
        ensures
            match done {
                Ok((accumulator, catalog)) => {
                    &&& self@.is_finished()
                    &&& accumulator@ == self@.records
                    &&& catalog@ == self@.catalog
                },
                Err(ScanError::Aborted { item_id }) => self@.aborted == Some(item_id),
                Err(ScanError::Incomplete) => self@.aborted is None && !self@.is_finished(),
                Err(ScanError::UnknownItem { .. }) => false,
            },
    {
        if let Some(item_id) = self.aborted {
            return Err(ScanError::Aborted { item_id });
        }
        if self.started != self.candidates.len() || self.in_flight.len() > 0 {
            return Err(ScanError::Incomplete);
        }
        Ok((self.accumulator, self.catalog))
    }

    /// The result of the scan. There is none while a candidate is unsettled,
    /// after the scan was given up, and where a record names an item that
    /// the catalog does not know.
    pub fn finish(self) -> (result: Result<ScanResult, ScanError>)
        ensures
            match result {
                Ok(scan) => {
                    &&& self@.is_finished()
                    &&& all_known(self@.records, self@.catalog)
                    &&& scan@ == scan_result_of(self@.records, self@.catalog)
                },
                Err(ScanError::Aborted { item_id }) => self@.aborted == Some(item_id),
                Err(ScanError::Incomplete) => self@.aborted is None && !self@.is_finished(),
                Err(ScanError::UnknownItem { item_id }) => {
                    &&& self@.is_finished()
                    &&& is_first_unknown(self@.records, self@.catalog, item_id)
                },
            },
    {
        match self.into_accumulator() {
            Ok((accumulator, catalog)) => accumulator.finalize(&catalog),
            Err(error) => Err(error),
        }
    }

    /// The most probes that may be outstanding at once.
    pub fn limit(&self) -> (limit: usize)
        ensures
            limit == self@.limit,
    {
        self.limit
    }

    /// How many probes are outstanding.
    pub fn in_flight_count(&self) -> (count: usize)
        ensures
            count == self@.in_flight.len(),
    {
        self.in_flight.len()
    }

    /// How many candidates have not had their probe started.
    pub fn pending_count(&self) -> (count: usize)
        requires
            self@.inv(),
        ensures
            count == self@.candidates.len() - self@.started,
    {
        self.candidates.len() - self.started
    }

    /// How many records were found so far.
    pub fn record_count(&self) -> (count: usize)
        ensures
            count == self@.records.len(),
    {
        self.accumulator.len()
    }

    /// The probes that failed so far, in the order in which they failed.
    pub fn failures(&self) -> (failures: &Vec<ProbeFailure>)
        ensures
            failures@ == self@.failures,
    {
        &self.failures
    }

    /// Whether every candidate is settled and the scan was not given up.
    pub fn is_finished(&self) -> (finished: bool)
        ensures
            finished == self@.is_finished(),
    {
        self.aborted.is_none() && self.started == self.candidates.len() && self.in_flight.len()
            == 0
    }
}

} // verus!
