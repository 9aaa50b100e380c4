use ledgerr_mcp::contract::{
    AmountRange, DateRange, PaginationSpec, SortDirection, SortField, SortSpec, TransactionFilters,
};
use ledgerr_mcp::decimal::Dec;
use ledgerr_mcp::ledger::{query_transactions, LedgerTransaction, StoredClassification};
use ledgerr_mcp::types::QueryTransactionsRequest;
use ledgerr_mcp::ToolError;

fn tx(id: &str, account: &str, date: &str, amount: &str, desc: &str, source: &str) -> LedgerTransaction {
    LedgerTransaction {
        tx_id: id.to_string(),
        account_id: account.to_string(),
        date: date.to_string(),
        amount: amount.to_string(),
        description: desc.to_string(),
        source_ref: source.to_string(),
    }
}

fn ledger() -> (Vec<LedgerTransaction>, Vec<StoredClassification>) {
    (
        vec![
            tx("t1", "A", "2024-01-05", "10.50", "Coffee Shop", "wf-1"),
            tx("t2", "A", "2024-02-01", "-3", "ATM fee", "WF-2"),
            tx("t3", "B", "2024-01-20", "100", "Salary", "bank"),
            tx("t4", "A", "2024-03-01", "x", "coffee beans", "wf-3"),
        ],
        vec![
            StoredClassification {
                tx_id: "t1".to_string(),
                category: "Meals".to_string(),
                confidence: Dec { negative: false, magnitude: 95, scale: 2 },
            },
            StoredClassification {
                tx_id: "t4".to_string(),
                category: "meals".to_string(),
                confidence: Dec { negative: false, magnitude: 5, scale: 1 },
            },
        ],
    )
}

fn no_filters() -> TransactionFilters {
    TransactionFilters {
        account_id: None,
        date_range: None,
        category: None,
        amount_range: None,
        source_ref: None,
        description_contains: None,
    }
}

fn ids(r: &ledgerr_mcp::types::QueryTransactionsResponse) -> Vec<String> {
    r.transactions.iter().map(|t| t.tx_id.clone()).collect()
}

#[test]
fn query_default_is_newest_first() {
    let (ts, cs) = ledger();
    let r = query_transactions(&ts, &cs, QueryTransactionsRequest { filters: no_filters(), sort: None, pagination: None })
        .unwrap();
    assert_eq!(r.total_count, 4);
    assert_eq!(ids(&r), vec!["t4", "t2", "t3", "t1"]);
    assert_eq!(r.transactions[0].category, Some("meals".to_string()));
    assert_eq!(r.transactions[0].confidence, Some("0.5".to_string()));
    assert_eq!(r.transactions[3].confidence, Some("0.95".to_string()));
    assert_eq!(r.transactions[1].category, None);
}

#[test]
fn query_by_account_and_category_ignores_case() {
    let (ts, cs) = ledger();
    let mut f = no_filters();
    f.account_id = Some("A".to_string());
    f.category = Some("MEALS".to_string());
    let r = query_transactions(&ts, &cs, QueryTransactionsRequest { filters: f, sort: None, pagination: None }).unwrap();
    assert_eq!(r.total_count, 2);
    assert_eq!(ids(&r), vec!["t4", "t1"]);
}

#[test]
fn query_amount_range_counts_unparsable_as_zero() {
    let (ts, cs) = ledger();
    let mut f = no_filters();
    f.amount_range = Some(AmountRange { min: "0".to_string(), max: "50".to_string() });
    let r = query_transactions(&ts, &cs, QueryTransactionsRequest { filters: f, sort: None, pagination: None }).unwrap();
    assert_eq!(ids(&r), vec!["t4", "t1"]);
}

#[test]
fn query_rejects_bad_amount_bound() {
    let (ts, cs) = ledger();
    let mut f = no_filters();
    f.amount_range = Some(AmountRange { min: "abc".to_string(), max: "50".to_string() });
    match query_transactions(&ts, &cs, QueryTransactionsRequest { filters: f, sort: None, pagination: None }) {
        Err(ToolError::InvalidInput(m)) => assert!(m.starts_with("invalid amount_range.min: ")),
        _ => panic!("expected invalid input"),
    }
    let mut f = no_filters();
    f.amount_range = Some(AmountRange { min: "1".to_string(), max: "?".to_string() });
    match query_transactions(&ts, &cs, QueryTransactionsRequest { filters: f, sort: None, pagination: None }) {
        Err(ToolError::InvalidInput(m)) => assert!(m.starts_with("invalid amount_range.max: ")),
        _ => panic!("expected invalid input"),
    }
}

#[test]
fn query_description_sorted_by_amount() {
    let (ts, cs) = ledger();
    let mut f = no_filters();
    f.description_contains = Some("COFFEE".to_string());
    let sort = Some(SortSpec { field: SortField::Amount, direction: SortDirection::Asc });
    let r = query_transactions(&ts, &cs, QueryTransactionsRequest { filters: f, sort, pagination: None }).unwrap();
    assert_eq!(ids(&r), vec!["t4", "t1"]);
}

#[test]
fn query_pages_after_sorting() {
    let (ts, cs) = ledger();
    let sort = Some(SortSpec { field: SortField::Description, direction: SortDirection::Asc });
    let page = Some(PaginationSpec { limit: 2, offset: 1 });
    let r = query_transactions(&ts, &cs, QueryTransactionsRequest { filters: no_filters(), sort, pagination: page })
        .unwrap();
    assert_eq!(r.total_count, 4);
    assert_eq!(ids(&r), vec!["t1", "t3"]);
    let page = Some(PaginationSpec { limit: 10, offset: 9 });
    let r = query_transactions(&ts, &cs, QueryTransactionsRequest { filters: no_filters(), sort, pagination: page })
        .unwrap();
    assert_eq!(r.total_count, 4);
    assert!(r.transactions.is_empty());
}

#[test]
fn query_date_range_and_source() {
    let (ts, cs) = ledger();
    let mut f = no_filters();
    f.date_range = Some(DateRange { start: "2024-01-01".to_string(), end: "2024-01-31".to_string() });
    f.source_ref = Some("WF".to_string());
    let r = query_transactions(&ts, &cs, QueryTransactionsRequest { filters: f, sort: None, pagination: None }).unwrap();
    assert_eq!(ids(&r), vec!["t1"]);
    assert_eq!(r.transactions[0].amount, "10.50");
    assert_eq!(r.transactions[0].source_ref, "wf-1");
}

use ledgerr_mcp::ledger::{parse_confidence, record_classification, ClassificationLedger};
use ledgerr_mcp::types::ClassifyTransactionRequest;

fn classify(tx_id: &str, category: &str, confidence: &str) -> ClassifyTransactionRequest {
    ClassifyTransactionRequest {
        tx_id: tx_id.to_string(),
        category: category.to_string(),
        confidence: confidence.to_string(),
        note: Some("checked".to_string()),
        actor: "alice".to_string(),
    }
}

#[test]
fn confidence_must_be_a_fraction() {
    let c = parse_confidence("0.85").unwrap();
    assert_eq!((c.magnitude, c.scale, c.negative), (85, 2, false));
    match parse_confidence("1.5") {
        Err(ToolError::InvalidInput(m)) => assert_eq!(m, "confidence must be between 0 and 1"),
        _ => panic!("expected invalid input"),
    }
    match parse_confidence("high") {
        Err(ToolError::InvalidInput(m)) => assert_eq!(m, "confidence must be a valid decimal"),
        _ => panic!("expected invalid input"),
    }
    assert!(parse_confidence("0").is_ok());
    assert!(parse_confidence("1").is_ok());
}

#[test]
fn classification_writes_audit_trail() {
    let (ts, _) = ledger();
    let mut l = ClassificationLedger { classifications: vec![], audit_log: vec![] };
    let o = record_classification(&mut l, &ts, &classify("t1", "Meals", "0.9"), "100").unwrap();
    assert_eq!(o.response.confidence, "0.9");
    assert_eq!(o.response.audit_entries.len(), 2);
    assert_eq!(o.response.audit_entries[0].field, "category");
    assert_eq!(o.response.audit_entries[0].old_value, None);
    assert_eq!(o.response.audit_entries[1].field, "confidence");
    assert_eq!(o.response.audit_entries[1].new_value, "0.9");
    assert!(!o.needs_review);
    assert_eq!(l.audit_log.len(), 2);

    let o = record_classification(&mut l, &ts, &classify("t1", "Meals", "0.90"), "101").unwrap();
    assert!(o.response.audit_entries.is_empty());
    assert_eq!(l.audit_log.len(), 2);

    let o = record_classification(&mut l, &ts, &classify("t1", "Uncategorized", "0.90"), "102").unwrap();
    assert_eq!(o.response.audit_entries.len(), 1);
    assert_eq!(o.response.audit_entries[0].old_value, Some("Meals".to_string()));
    assert!(o.needs_review);
    assert_eq!(l.classifications.len(), 1);
    assert_eq!(l.classifications[0].category, "Uncategorized");

    let o = record_classification(&mut l, &ts, &classify("t2", "Fees", "0.5"), "103").unwrap();
    assert!(o.needs_review);
    assert_eq!(l.classifications.len(), 2);
    assert_eq!(l.audit_log.len(), 5);
}

#[test]
fn classification_refusals() {
    let (ts, _) = ledger();
    let mut l = ClassificationLedger { classifications: vec![], audit_log: vec![] };
    let msg = |r: Result<ledgerr_mcp::ledger::ClassificationOutcome, ToolError>| match r {
        Err(ToolError::InvalidInput(m)) => m,
        _ => panic!("expected invalid input"),
    };
    assert_eq!(msg(record_classification(&mut l, &ts, &classify("zz", "Meals", "0.9"), "1")), "unknown tx_id");
    assert_eq!(msg(record_classification(&mut l, &ts, &classify("t1", "  ", "0.9"), "1")), "category must not be empty");
    assert_eq!(msg(record_classification(&mut l, &ts, &classify("t4", "Meals", "0.9"), "1")), "invalid amount decimal");
    assert_eq!(msg(record_classification(&mut l, &ts, &classify("t1", "Meals", "2"), "1")), "confidence must be between 0 and 1");
    let bad_date = vec![tx("d1", "A", "2024/01/01", "1", "x", "s")];
    assert_eq!(
        msg(record_classification(&mut l, &bad_date, &classify("d1", "Meals", "0.9"), "1")),
        "schema invariant violation: date must be YYYY-MM-DD"
    );
    assert!(l.audit_log.is_empty());
    assert!(l.classifications.is_empty());
}

#[test]
fn classification_is_stamped_with_the_clock() {
    let (ts, _) = ledger();
    let mut l = ClassificationLedger { classifications: vec![], audit_log: vec![] };
    let before: u64 = now_timestamp().parse().unwrap();
    assert!(before > 1_600_000_000);
    let mut events = InMemoryLifecycleEventStore::new();
    let o = apply_classification_action(&mut l, &mut events, &ts, &classify("t1", "Meals", "0.9"), "classification").unwrap();
    assert_eq!(o.response.audit_entries.len(), 2);
    for e in &o.response.audit_entries {
        let stamp: u64 = e.timestamp.parse().unwrap();
        assert!(stamp >= before);
        assert_eq!(e.actor, "alice");
    }
    assert_eq!(l.classifications[0].category, "Meals");
    match apply_classification_action(&mut l, &mut events, &ts, &classify("zz", "Meals", "0.9"), "adjustment") {
        Err(ToolError::InvalidInput(m)) => assert_eq!(m, "unknown tx_id"),
        _ => panic!("expected invalid input"),
    }
    assert_eq!(l.audit_log.len(), 2);
    let logged = events
        .list_events(EventHistoryFilter { tx_id: None, document_ref: None, time_start: None, time_end: None })
        .unwrap()
        .events;
    assert_eq!(logged.len(), 1);
    assert_eq!(logged[0].event_type, "classification");
    assert_eq!(logged[0].tx_id.as_deref(), Some("t1"));
    assert_eq!(logged[0].document_ref.as_deref(), Some(ts[0].source_ref.as_str()));
    assert_eq!(logged[0].payload.get("category").map(|s| s.as_str()), Some("Meals"));
    assert_eq!(logged[0].payload.get("date").map(|s| s.as_str()), Some(ts[0].date.as_str()));
    assert_eq!(logged[0].payload.get("note").map(|s| s.as_str()), Some("checked"));
}

use ledgerr_mcp::clock::now_timestamp;
use ledgerr_mcp::ledger::{apply_classification_action, tx_ids_in_order, upsert_transaction};
use ledgerr_mcp::events::{EventHistoryFilter, InMemoryLifecycleEventStore, LifecycleEventStore};
use ledgerr_mcp::schedule::schedule_lines;
use ledgerr_mcp::types::ScheduleKindRequest;

fn dec_parts(d: &Dec) -> (bool, u128, u32) {
    (d.negative, d.magnitude, d.scale)
}

#[test]
fn schedule_c_sums_categories_of_the_year() {
    let (mut ts, mut cs) = ledger();
    ts.push(tx("t5", "A", "2024-04-01", "5.25", "Lunch", "wf-4"));
    ts.push(tx("t6", "A", "2023-04-01", "7", "Old lunch", "wf-5"));
    cs.push(StoredClassification {
        tx_id: "t5".to_string(),
        category: "Meals".to_string(),
        confidence: Dec { negative: false, magnitude: 1, scale: 0 },
    });
    cs.push(StoredClassification {
        tx_id: "t6".to_string(),
        category: "Meals".to_string(),
        confidence: Dec { negative: false, magnitude: 1, scale: 0 },
    });
    cs.push(StoredClassification {
        tx_id: "t3".to_string(),
        category: "Rental income".to_string(),
        confidence: Dec { negative: false, magnitude: 1, scale: 0 },
    });
    let lines = schedule_lines(&ts, &cs, 2024, ScheduleKindRequest::ScheduleC).unwrap();
    assert_eq!(lines.len(), 1);
    assert_eq!(lines[0].key, "Meals");
    assert_eq!(dec_parts(&lines[0].total), (false, 1575, 2));
    let lines = schedule_lines(&ts, &cs, 2024, ScheduleKindRequest::ScheduleE).unwrap();
    assert_eq!(lines.len(), 1);
    assert_eq!(lines[0].key, "Rental income");
    assert_eq!(dec_parts(&lines[0].total), (false, 100, 0));
    assert!(schedule_lines(&ts, &cs, 2024, ScheduleKindRequest::ScheduleD).unwrap().is_empty());
}

#[test]
fn schedule_fbar_keeps_largest_balance_per_account() {
    let (ts, cs) = ledger();
    let lines = schedule_lines(&ts, &cs, 2024, ScheduleKindRequest::Fbar).unwrap();
    assert_eq!(lines.len(), 2);
    assert_eq!(lines[0].key, "A");
    assert_eq!(dec_parts(&lines[0].total), (false, 1050, 2));
    assert_eq!(lines[1].key, "B");
    assert_eq!(dec_parts(&lines[1].total), (false, 100, 0));
    assert!(schedule_lines(&ts, &cs, 2022, ScheduleKindRequest::Fbar).unwrap().is_empty());
}

#[test]
fn transactions_are_kept_once_each_in_id_order() {
    let mut rows: Vec<LedgerTransaction> = Vec::new();
    upsert_transaction(&mut rows, tx("t2", "A", "2024-02-01", "-3", "ATM fee", "wf-2"));
    upsert_transaction(&mut rows, tx("t1", "A", "2024-01-05", "10.50", "Coffee Shop", "wf-1"));
    upsert_transaction(&mut rows, tx("t3", "B", "2024-01-20", "100", "Salary", "bank"));
    upsert_transaction(&mut rows, tx("t2", "A", "2024-02-02", "-4", "ATM fee again", "wf-2"));
    let ids: Vec<&str> = rows.iter().map(|r| r.tx_id.as_str()).collect();
    assert_eq!(ids, vec!["t1", "t2", "t3"]);
    assert_eq!(rows[1].amount, "-4");
    assert!(tx_ids_in_order(&rows));
    rows.swap(0, 2);
    assert!(!tx_ids_in_order(&rows));
    assert!(tx_ids_in_order(&Vec::new()));
}
