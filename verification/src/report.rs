//! The text report of a finished scan.

use vstd::prelude::*;
use vstd::string::*;
use crate::account::AccountId;
use crate::accumulator::{ScanResult, ScanResultView};
use crate::decimal::{append_decimal, append_signed_decimal, decimal, decimal_len, signed_decimal};
use crate::gather::{gather, lemma_gather_push};
use crate::outcome::{OwnershipRecord, OwnershipRecordView, record_views};
use crate::strategy::ProbeStrategy;

verus! {

/// The width of the number column of a report line.
pub const NUMBER_COLUMN_WIDTH: usize = 13;

/// How many blanks follow `num` in the number column: what is left of the
/// column after the numeral, and nothing when the numeral fills it.
pub open spec fn column_padding(num: u64) -> nat {
    let width = decimal(num as nat).len();
    if width >= NUMBER_COLUMN_WIDTH {
        0
    } else {
        (NUMBER_COLUMN_WIDTH - width) as nat
    }
}

/// The blanks that pad `num` to the width of the number column.
pub fn spaces(num: u64) -> (ret: String)
    ensures
        ret@ == Seq::new(column_padding(num), |i: int| ' '),
{
    let width: usize = decimal_len(num as u128);
    let mut ret: String = String::new();
    let mut written: usize = width;
    proof {
        reveal_strlit(" ");
    }
    while written < NUMBER_COLUMN_WIDTH
        invariant
            width <= written,
            written == width || written <= NUMBER_COLUMN_WIDTH,
            ret@ == Seq::new((written - width) as nat, |i: int| ' '),
            " "@ == seq![' '],
        decreases NUMBER_COLUMN_WIDTH - written,
    {
        ret.append(" ");
        written = written + 1;
    }
    ret
}

impl OwnershipRecordView {
    /// The number that a report line shows for the record: the instance
    /// where the record has one, the item otherwise.
    pub open spec fn shown_number(self) -> u64 {
        match self.instance_id {
            Some(instance_id) => instance_id,
            None => self.item_id,
        }
    }
}

/// The report line of a record: a line break, the number padded to its
/// column, a separator and the name.
pub open spec fn line_of(record: OwnershipRecordView) -> Seq<char> {
    "\n"@ + decimal(record.shown_number() as nat) + Seq::new(
        column_padding(record.shown_number()),
        |i: int| ' ',
    ) + "||| "@ + record.display_name
}

/// The report lines of records, in their order.
pub open spec fn lines_of(records: Seq<OwnershipRecordView>) -> Seq<char> {
    gather(records, |record: OwnershipRecordView| line_of(record))
}

/// The heading of the report: the number column is named after what the
/// strategy can tell.
pub open spec fn heading_of(strategy: ProbeStrategy) -> Seq<char> {
    match strategy {
        ProbeStrategy::Unrestricted => "UAID         ||| Name"@,
        ProbeStrategy::Restricted => "ID           ||| Name"@,
    }
}

/// The closing lines of the report: the count and the two totals.
pub open spec fn summary_of(scan: ScanResultView) -> Seq<char> {
    "\n"@ + decimal(scan.item_count) + " item(s) found."@ + "\nTotal value is R$"@
        + signed_decimal(scan.total_value) + "\nTotal RAP is R$"@ + signed_decimal(
        scan.total_recent_average_price,
    ) + "\n"@
}

/// What the report says of the limits of the strategy.
pub open spec fn notice_of(strategy: ProbeStrategy) -> Seq<char> {
    match strategy {
        ProbeStrategy::Unrestricted => Seq::empty(),
        ProbeStrategy::Restricted =>
            "Due to Roblox API limitations, this data does not include multiple copies of owned items.\n"@,
    }
}

/// The whole report.
pub open spec fn report_of(scan: ScanResultView, strategy: ProbeStrategy) -> Seq<char> {
    heading_of(strategy) + lines_of(scan.records) + summary_of(scan) + notice_of(strategy)
}

/// Appends the report line of `record` to `out`.
pub fn append_line(out: &mut String, record: &OwnershipRecord)
    ensures
        final(out)@ == old(out)@ + line_of(record@),
{
    let number: u64 = match record.instance_id {
        Some(instance_id) => instance_id,
        None => record.item_id,
    };
    out.append("\n");
    append_decimal(out, number as u128);
    let padding = spaces(number);
    out.append(padding.as_str());
    out.append("||| ");
    out.append(record.display_name.as_str());
}

/// The text report of a scan made with `strategy`.
pub fn render_report(scan: &ScanResult, strategy: ProbeStrategy) -> (report: String)
    ensures
        report@ == report_of(scan@, strategy),
{
    let mut report: String = String::new();
    match strategy {
        ProbeStrategy::Unrestricted => report.append("UAID         ||| Name"),
        ProbeStrategy::Restricted => report.append("ID           ||| Name"),
    }
    let records = scan.records();
    let ghost views = record_views(records@);
    let mut i: usize = 0;
    while i < records.len()
        invariant
            i <= records.len(),
            views == record_views(records@),
            report@ == heading_of(strategy) + lines_of(views.take(i as int)),
        decreases records.len() - i,
    {
        append_line(&mut report, &records[i]);
        proof {
            assert(views.take(i + 1) =~= views.take(i as int).push(views[i as int]));
            lemma_gather_push(
                views.take(i as int),
                views[i as int],
                |record: OwnershipRecordView| line_of(record),
            );
        }
        i = i + 1;
    }
    assert(views.take(i as int) =~= views);
    report.append("\n");
    append_decimal(&mut report, scan.item_count() as u128);
    report.append(" item(s) found.");
    report.append("\nTotal value is R$");
    append_signed_decimal(&mut report, scan.total_value());
    report.append("\nTotal RAP is R$");
    append_signed_decimal(&mut report, scan.total_recent_average_price());
    report.append("\n");
    match strategy {
        ProbeStrategy::Unrestricted => {},
        ProbeStrategy::Restricted => report.append(
            "Due to Roblox API limitations, this data does not include multiple copies of owned items.\n",
        ),
    }
    report
}

/// What an answer to a yes-or-no question says: `yes` and `y` agree, `no`
/// and `n` decline, and anything else is no answer.
pub open spec fn confirmation_of(answer: Seq<char>) -> Option<bool> {
    if answer == "yes"@ || answer == "y"@ {
        Some(true)
    } else if answer == "no"@ || answer == "n"@ {
        Some(false)
    } else {
        None
    }
}

/// What an answer to a yes-or-no question says.
pub fn parse_confirmation(answer: &str) -> (confirmed: Option<bool>)
    ensures
        confirmed == confirmation_of(answer@),
{
    let answer: String = String::from_str(answer);
    if answer == String::from_str("yes") || answer == String::from_str("y") {
        Some(true)
    } else if answer == String::from_str("no") || answer == String::from_str("n") {
        Some(false)
    } else {
        None
    }
}

/// The name under which the report of an account is saved, without its
/// extension.
pub fn report_stem(account: AccountId) -> (stem: String)
    ensures
        stem@ == decimal(account@ as nat) + "_scan"@,
{
    let mut stem: String = String::new();
    append_decimal(&mut stem, account.number() as u128);
    stem.append("_scan");
    stem
}

/// The name of the text file for `stem`.
pub fn text_file_name(stem: &str) -> (name: String)
    ensures
        name@ == stem@ + ".txt"@,
{
    let mut name: String = String::from_str(stem);
    name.append(".txt");
    name
}

} // verus!
