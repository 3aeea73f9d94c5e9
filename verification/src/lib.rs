//! Bounded-concurrency ownership scanning of an item catalog.
//!
//! The crate decides; it performs no I/O. A caller fetches the catalog,
//! sends the probe requests that the [`prober::BoundedProber`] hands out and
//! feeds each reply back. The prober keeps the number of outstanding probes
//! under the configured limit, turns replies into outcomes, accumulates the
//! ownership records and, once every candidate is settled, folds them into
//! value totals that do not depend on the order in which the replies came.
//!
//! - [`catalog`]: the catalog snapshot and the candidates of a scan.
//! - [`strategy`]: the two probe strategies, their addresses and what their
//!   replies mean.
//! - [`outcome`]: the terminal outcomes of a probe and their records.
//! - [`prober`]: the bounded prober, a state machine that its caller drives.
//! - [`state`]: the state of a scan as plain values, with what holds of
//!   every state that a scan can reach.
//! - [`accumulator`]: the accumulator of records and the result of a scan.
//! - [`report`]: the text report of a result.
//! - [`account`]: account identifiers, and the handle by which the operator
//!   names an account.
//! - [`decimal`], [`gather`]: numerals, and gathering over sequences.

pub mod account;
pub mod accumulator;
pub mod catalog;
pub mod decimal;
pub mod gather;
pub mod outcome;
pub mod prober;
pub mod report;
pub mod state;
pub mod strategy;
