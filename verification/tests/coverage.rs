use ledgerr_mcp::coverage::{assert_account_coverage, check_account_coverage, CoverageRequest};
use ledgerr_mcp::ledger::LedgerTransaction;
use ledgerr_mcp::ToolError;

fn row(account: &str, date: &str, amount: &str, source: &str) -> LedgerTransaction {
    LedgerTransaction {
        tx_id: String::new(),
        account_id: account.to_string(),
        date: date.to_string(),
        amount: amount.to_string(),
        source_ref: source.to_string(),
        description: String::new(),
    }
}

fn request(ids: &[&str], year: i32) -> CoverageRequest {
    CoverageRequest { account_ids: ids.iter().map(|s| s.to_string()).collect(), tax_year: year }
}

#[test]
fn coverage_reports_months_gaps_and_flags() {
    let rows = vec![
        row("A", "2024-01-15", "100.00", "s1"),
        row("A", "2024-01-20", "-150.00", "s2"),
        row("A", "2024-03-01", "10", "s1"),
        row("B", "2023-12-31", "5", "x"),
        row("C", "garbage", "1", "y"),
    ];
    let report = assert_account_coverage(&request(&["A", "B"], 2024), &rows).unwrap();
    assert_eq!(report.complete.len(), 2);
    assert_eq!(report.complete[0].account_id, "A");
    assert_eq!(report.complete[0].period, "2024-01");
    assert_eq!(report.complete[0].posting_sum, "-50.00");
    assert_eq!(report.complete[0].opening_balance, "0");
    assert_eq!(report.complete[0].closing_balance, "0");
    assert_eq!(report.complete[0].source_refs, vec!["s1".to_string(), "s2".to_string()]);
    assert_eq!(report.complete[1].period, "2024-03");
    assert_eq!(report.complete[1].posting_sum, "10");
    assert_eq!(report.complete[1].source_refs, vec!["s1".to_string()]);

    assert_eq!(report.gaps.len(), 22);
    assert_eq!(report.gaps[0], ("A".to_string(), "2024-02".to_string()));
    assert_eq!(report.gaps[1], ("A".to_string(), "2024-04".to_string()));
    assert_eq!(report.gaps[9], ("A".to_string(), "2024-12".to_string()));
    assert_eq!(report.gaps[10], ("B".to_string(), "2024-01".to_string()));
    assert_eq!(report.gaps[21], ("B".to_string(), "2024-12".to_string()));

    assert_eq!(report.duplicates.len(), 1);
    assert_eq!(report.duplicates[0].period, "2024-01");
    assert_eq!(report.intra_period_failures.len(), 1);
    assert_eq!(report.intra_period_failures[0].posting_sum, "-50.00");
    assert!(report.discontinuities.is_empty());
    assert!(report.has_gaps);
    assert!(report.has_duplicates);
    assert!(!report.has_discontinuities);
    assert!(report.has_intra_period_failures);
}

#[test]
fn coverage_sorts_accounts_by_name() {
    let rows = vec![row("Z", "2024-05-01", "1", "a"), row("M", "2024-05-01", "2", "b")];
    let report = assert_account_coverage(&request(&["Z", "M"], 2024), &rows).unwrap();
    assert_eq!(report.complete[0].account_id, "M");
    assert_eq!(report.complete[1].account_id, "Z");
    assert_eq!(report.gaps[0], ("M".to_string(), "2024-01".to_string()));
    assert_eq!(report.gaps.len(), 22);
}

#[test]
fn coverage_rejects_bad_date_of_requested_account() {
    let rows = vec![row("A", "2024", "1", "s")];
    match assert_account_coverage(&request(&["A"], 2024), &rows) {
        Err(ToolError::InvalidInput(m)) => assert_eq!(m, "cannot parse year-month from date: 2024"),
        _ => panic!("expected invalid input"),
    }
    let rows = vec![row("A", "20x4-01-01", "1", "s")];
    match assert_account_coverage(&request(&["A"], 2024), &rows) {
        Err(ToolError::InvalidInput(m)) => assert_eq!(m, "invalid year in date: 20x4-01-01"),
        _ => panic!("expected invalid input"),
    }
    let rows = vec![row("A", "2024-xx-01", "1", "s")];
    match assert_account_coverage(&request(&["A"], 2024), &rows) {
        Err(ToolError::InvalidInput(m)) => assert_eq!(m, "invalid month in date: 2024-xx-01"),
        _ => panic!("expected invalid input"),
    }
}

#[test]
fn coverage_rejects_bad_amount_in_year() {
    let rows = vec![row("A", "2024-05-01", "abc", "s")];
    match check_account_coverage(&request(&["A"], 2024), &rows) {
        Err(ToolError::InvalidInput(m)) => assert_eq!(m, "bad amount: abc"),
        _ => panic!("expected invalid input"),
    }
    let rows = vec![row("A", "2023-05-01", "abc", "s")];
    let report = check_account_coverage(&request(&["A"], 2024), &rows).unwrap();
    assert_eq!(report.gaps.len(), 12);
    assert!(report.complete.is_empty());
}

#[test]
fn coverage_full_year_has_no_gaps() {
    let mut rows = Vec::new();
    for m in 1..=12 {
        rows.push(row("A", &format!("2024-{:02}-10", m), "1", "s"));
    }
    let report = assert_account_coverage(&request(&["A"], 2024), &rows).unwrap();
    assert!(report.gaps.is_empty());
    assert!(!report.has_gaps);
    assert_eq!(report.complete.len(), 12);
    assert_eq!(report.complete[11].period, "2024-12");
}
