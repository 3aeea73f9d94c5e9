use inventory_scanner::account::AccountId;
use inventory_scanner::accumulator::{ScanAccumulator, ScanResult};
use inventory_scanner::catalog::{Catalog, CatalogEntry};
use inventory_scanner::outcome::{OwnershipRecord, ProbeOutcome};
use inventory_scanner::report::{
    append_line, parse_confirmation, render_report, report_stem, spaces, text_file_name,
    NUMBER_COLUMN_WIDTH,
};
use inventory_scanner::strategy::ProbeStrategy;

fn record(item_id: u64, instance_id: Option<u64>, name: &str) -> OwnershipRecord {
    OwnershipRecord { item_id, instance_id, display_name: name.to_string() }
}

fn scan_of(entries: &[(u64, &str, i64, i64)], records: Vec<OwnershipRecord>) -> ScanResult {
    let mut catalog = Catalog::new();
    for (id, name, rap, value) in entries {
        catalog.insert(CatalogEntry::new(*id, name.to_string(), *rap, *value));
    }
    let mut acc = ScanAccumulator::new();
    for r in records {
        acc.record(ProbeOutcome::Owned(r));
    }
    acc.finalize(&catalog).unwrap()
}

#[test]
fn spaces_pads_one_digit_to_the_column() {
    assert_eq!(spaces(0), "            ");
    assert_eq!(spaces(9), "            ");
    assert_eq!(spaces(9).len(), 12);
}

#[test]
fn spaces_shrinks_by_one_per_digit() {
    assert_eq!(spaces(10), "           ");
    assert_eq!(spaces(99), "           ");
    assert_eq!(spaces(100), "          ");
    assert_eq!(spaces(999), "          ");
    assert_eq!(spaces(1000), "         ");
    assert_eq!(spaces(9999), "         ");
    assert_eq!(spaces(10000), "        ");
    assert_eq!(spaces(99999), "        ");
    assert_eq!(spaces(100000), "       ");
    assert_eq!(spaces(999999), "       ");
    assert_eq!(spaces(1000000), "      ");
    assert_eq!(spaces(9999999), "      ");
    assert_eq!(spaces(10000000), "     ");
    assert_eq!(spaces(99999999), "     ");
    assert_eq!(spaces(100000000), "    ");
    assert_eq!(spaces(999999999), "    ");
    assert_eq!(spaces(1000000000), "   ");
    assert_eq!(spaces(9999999999), "   ");
    assert_eq!(spaces(10000000000), "  ");
    assert_eq!(spaces(99999999999), "  ");
    assert_eq!(spaces(100000000000), " ");
    assert_eq!(spaces(999999999999), " ");
}

#[test]
fn spaces_is_empty_for_wide_numbers() {
    assert_eq!(spaces(1_000_000_000_000), "");
    assert_eq!(spaces(9_999_999_999_999), "");
    assert_eq!(spaces(u64::MAX), "");
}

#[test]
fn spaces_fills_the_column_beside_the_numeral() {
    for num in [0u64, 5, 10, 123, 99_999, 100_000, 4_294_967_296, 999_999_999_999] {
        assert_eq!(format!("{}", num).len() + spaces(num).len(), NUMBER_COLUMN_WIDTH);
    }
}

#[test]
fn append_line_shows_the_instance_where_there_is_one() {
    let mut out = String::from("head");
    append_line(&mut out, &record(42, Some(123456), "Answer"));
    assert_eq!(out, "head\n123456       ||| Answer");
}

#[test]
fn append_line_shows_the_item_where_there_is_no_instance() {
    let mut out = String::new();
    append_line(&mut out, &record(42, None, "Answer"));
    assert_eq!(out, "\n42           ||| Answer");
}

#[test]
fn append_line_does_not_pad_a_number_that_fills_the_column() {
    let mut out = String::new();
    append_line(&mut out, &record(1, Some(1234567890123), "Wide"));
    assert_eq!(out, "\n1234567890123||| Wide");
    let mut out = String::new();
    append_line(&mut out, &record(1, Some(u64::MAX), ""));
    assert_eq!(out, "\n18446744073709551615||| ");
}

#[test]
fn render_report_of_an_empty_scan() {
    let scan = scan_of(&[], vec![]);
    assert_eq!(
        render_report(&scan, ProbeStrategy::Unrestricted),
        "UAID         ||| Name\n0 item(s) found.\nTotal value is R$0\nTotal RAP is R$0\n"
    );
}

#[test]
fn render_report_of_an_unrestricted_scan() {
    let scan = scan_of(
        &[(1, "Hat", 500, -1), (2, "Cape", 40, 90)],
        vec![
            record(1, Some(1001), "Hat"),
            record(2, Some(20002), "Cape"),
            record(1, Some(1002), "Hat"),
        ],
    );
    assert_eq!(
        render_report(&scan, ProbeStrategy::Unrestricted),
        "UAID         ||| Name\
         \n1001         ||| Hat\
         \n20002        ||| Cape\
         \n1002         ||| Hat\
         \n3 item(s) found.\
         \nTotal value is R$1090\
         \nTotal RAP is R$1040\n"
    );
}

#[test]
fn render_report_of_a_restricted_scan() {
    let scan = scan_of(
        &[(1, "Hat", 500, -1), (2, "Cape", 40, 90)],
        vec![record(2, None, "Cape"), record(1, None, "Hat")],
    );
    assert_eq!(
        render_report(&scan, ProbeStrategy::Restricted),
        "ID           ||| Name\
         \n2            ||| Cape\
         \n1            ||| Hat\
         \n2 item(s) found.\
         \nTotal value is R$590\
         \nTotal RAP is R$540\n\
         Due to Roblox API limitations, this data does not include multiple copies of owned items.\n"
    );
}

#[test]
fn render_report_writes_negative_totals_with_their_sign() {
    let scan = scan_of(&[(1, "Debt", -5, -70)], vec![record(1, Some(9), "Debt")]);
    assert_eq!(
        render_report(&scan, ProbeStrategy::Unrestricted),
        "UAID         ||| Name\n9            ||| Debt\n1 item(s) found.\nTotal value is R$-70\nTotal RAP is R$-5\n"
    );
}

#[test]
fn parse_confirmation_reads_yes_and_no() {
    assert_eq!(parse_confirmation("yes"), Some(true));
    assert_eq!(parse_confirmation("y"), Some(true));
    assert_eq!(parse_confirmation("no"), Some(false));
    assert_eq!(parse_confirmation("n"), Some(false));
}

#[test]
fn parse_confirmation_takes_nothing_else() {
    for answer in ["", "Y", "N", "Yes", "NO", "yes ", " no", "yeah", "nope", "ye", "1", "true"] {
        assert_eq!(parse_confirmation(answer), None, "answer {:?}", answer);
    }
}

#[test]
fn report_stem_names_the_account() {
    assert_eq!(report_stem(AccountId::new(156).unwrap()), "156_scan");
    assert_eq!(report_stem(AccountId::new(1).unwrap()), "1_scan");
    assert_eq!(
        report_stem(AccountId::new(i64::MAX).unwrap()),
        "9223372036854775807_scan"
    );
}

#[test]
fn text_file_name_adds_the_extension() {
    assert_eq!(text_file_name("156_scan"), "156_scan.txt");
    assert_eq!(text_file_name(""), ".txt");
    assert_eq!(text_file_name(&report_stem(AccountId::new(9).unwrap())), "9_scan.txt");
}
