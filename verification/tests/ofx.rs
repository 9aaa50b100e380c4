use ledgerr_mcp::decimal::Dec;
use ledgerr_mcp::ofx::{build_description, format_ofx_date, ofx_transaction_row, OfxTransaction};

fn text(s: &str) -> Option<String> {
    Some(s.to_string())
}

#[test]
fn ofx_dates_become_iso_dates() {
    assert_eq!(format_ofx_date("20240115120000.000[-5:EST]"), "2024-01-15");
    assert_eq!(format_ofx_date("20240120"), "2024-01-20");
    assert_eq!(format_ofx_date("2024"), "2024");
}

#[test]
fn ofx_descriptions_from_name_and_memo() {
    assert_eq!(build_description(&text(" Salary "), &text("Acme payroll")), "Salary - Acme payroll");
    assert_eq!(build_description(&text("Rent"), &text(" Rent ")), "Rent");
    assert_eq!(build_description(&None, &text("memo only")), "memo only");
    assert_eq!(build_description(&text("name only"), &text("  ")), "name only");
    assert_eq!(build_description(&None, &None), "OFX import");
}

#[test]
fn ofx_transaction_becomes_a_row() {
    let txn = OfxTransaction {
        date_posted: "20240120".to_string(),
        name: text("Rent"),
        memo: text("Office rent"),
        amount: Dec { negative: true, magnitude: 50000, scale: 2 },
    };
    let row = ofx_transaction_row(&txn, "Checking", "/tmp/import.qfx");
    assert_eq!(row.account_id, "Checking");
    assert_eq!(row.date, "2024-01-20");
    assert_eq!(row.amount, "-500.00");
    assert_eq!(row.description, "Rent - Office rent");
    assert_eq!(row.source_ref, "/tmp/import.qfx");
}
