use ledgerr_mcp::events::{EventHistoryFilter, InMemoryLifecycleEventStore, LifecycleEventStore};
use ledgerr_mcp::batch_review::batch_classify;
use ledgerr_mcp::contract::{BatchClassifyRequest, BatchItemStatus, BatchMode};
use ledgerr_mcp::ledger::{ClassificationLedger, LedgerTransaction};
use ledgerr_mcp::ToolError;

fn tx(id: &str) -> LedgerTransaction {
    LedgerTransaction {
        tx_id: id.to_string(),
        account_id: "WF-CHK".to_string(),
        date: "2024-01-05".to_string(),
        amount: "-4.50".to_string(),
        description: "Coffee".to_string(),
        source_ref: "wf-1".to_string(),
    }
}

fn books() -> (Vec<LedgerTransaction>, ClassificationLedger) {
    (
        vec![tx("t1"), tx("t2"), tx("t3")],
        ClassificationLedger { classifications: vec![], audit_log: vec![] },
    )
}

fn batch(ids: &[&str], confidence: &str, mode: BatchMode, dry_run: bool) -> BatchClassifyRequest {
    BatchClassifyRequest {
        tx_ids: ids.iter().map(|s| s.to_string()).collect(),
        category: "Meals".to_string(),
        confidence: confidence.to_string(),
        note: None,
        actor: "bob".to_string(),
        batch_mode: mode,
        dry_run,
    }
}

#[test]
fn batch_refuses_a_bad_confidence() {
    let (ts, mut l) = books();
    match batch_classify(&mut l, &mut InMemoryLifecycleEventStore::new(), &ts, &batch(&["t1"], "lots", BatchMode::ContinueOnError, false)) {
        Err(ToolError::InvalidInput(m)) => assert_eq!(m, "confidence must be a valid decimal"),
        other => panic!("expected a refusal, got {:?}", other.map(|r| r.summary)),
    }
    assert!(l.classifications.is_empty());
}

#[test]
fn batch_dry_run_skips_everything() {
    let (ts, mut l) = books();
    let r = batch_classify(&mut l, &mut InMemoryLifecycleEventStore::new(), &ts, &batch(&["t1", "zz"], "0.9", BatchMode::AllOrNothing, true)).unwrap();
    assert_eq!((r.summary.total_requested, r.summary.skipped, r.summary.succeeded, r.summary.failed), (2, 2, 0, 0));
    assert_eq!(r.items.len(), 2);
    assert!(matches!(&r.items[1].status, BatchItemStatus::Skipped { reason } if reason == "dry_run"));
    assert_eq!(r.items[1].tx_id, "zz");
    assert!(l.classifications.is_empty() && l.audit_log.is_empty());
}

#[test]
fn batch_continues_past_errors() {
    let (ts, mut l) = books();
    let r = batch_classify(&mut l, &mut InMemoryLifecycleEventStore::new(), &ts, &batch(&["t1", "zz", "t3"], "0.9", BatchMode::ContinueOnError, false)).unwrap();
    assert_eq!((r.summary.total_requested, r.summary.succeeded, r.summary.failed, r.summary.skipped), (3, 2, 1, 0));
    assert!(matches!(r.items[0].status, BatchItemStatus::Succeeded));
    assert_eq!(r.items[0].audit_entries.len(), 2);
    assert!(matches!(&r.items[1].status, BatchItemStatus::Failed { error } if error == "invalid input: unknown tx_id"));
    assert_eq!(r.items[1].tx_id, "zz");
    assert!(matches!(r.items[2].status, BatchItemStatus::Succeeded));
    assert_eq!(l.classifications.len(), 2);
    assert_eq!(l.audit_log.len(), 4);
}

#[test]
fn batch_all_or_nothing_stops_and_leaves_the_ledger() {
    let (ts, mut l) = books();
    let mut events = InMemoryLifecycleEventStore::new();
    let r = batch_classify(&mut l, &mut events, &ts, &batch(&["t1", "zz", "t3"], "0.9", BatchMode::AllOrNothing, false)).unwrap();
    assert_eq!((r.summary.total_requested, r.summary.succeeded, r.summary.failed), (3, 1, 1));
    assert_eq!(r.items.len(), 2);
    assert!(l.classifications.is_empty());
    assert!(l.audit_log.is_empty());
    assert_eq!((events.len(), events.sequence()), (0, 0));

    let r = batch_classify(&mut l, &mut events, &ts, &batch(&["t1", "t2"], "0.9", BatchMode::AllOrNothing, false)).unwrap();
    assert_eq!((r.summary.succeeded, r.summary.failed), (2, 0));
    assert_eq!(l.classifications.len(), 2);
    assert_eq!((events.len(), events.sequence()), (2, 2));
}

use ledgerr_mcp::batch_review::{
    apply_mapping_bulk, bulk_resolve_flags, find_mapping_candidates,
};
use ledgerr_mcp::contract::{ApplyMappingBulkRequest, BatchResolveFlagsRequest, FlagResolution, SimilarityMatchType};
use ledgerr_mcp::decimal::Dec;
use ledgerr_mcp::ledger::{tx_ids_in_order, StoredClassification};

fn row(id: &str, description: &str, amount: &str) -> LedgerTransaction {
    LedgerTransaction {
        tx_id: id.to_string(),
        account_id: "WF-CHK".to_string(),
        date: "2024-02-01".to_string(),
        amount: amount.to_string(),
        description: description.to_string(),
        source_ref: "wf-2".to_string(),
    }
}

fn shop() -> (Vec<LedgerTransaction>, ClassificationLedger) {
    (
        vec![
            row("t1", "Coffee Shop", "-4.50"),
            row("t2", "coffee shop", "-3.00"),
            row("t3", "Coffee Shop downtown", "-6.00"),
            row("t4", "Rent", "0.00"),
        ],
        ClassificationLedger {
            classifications: vec![StoredClassification {
                tx_id: "t1".to_string(),
                category: "Coffee Shop".to_string(),
                confidence: Dec { negative: false, magnitude: 9, scale: 1 },
            }],
            audit_log: vec![],
        },
    )
}

fn mapping(fields: &[&str], similarity: SimilarityMatchType, max: usize, dry_run: bool) -> ApplyMappingBulkRequest {
    ApplyMappingBulkRequest {
        source_tx_id: "t1".to_string(),
        match_fields: fields.iter().map(|s| s.to_string()).collect(),
        similarity_type: similarity,
        target_category: "Meals".to_string(),
        target_confidence: "0.8".to_string(),
        actor: "carol".to_string(),
        max_matches: max,
        batch_mode: BatchMode::ContinueOnError,
        dry_run,
    }
}

fn names(v: &[String]) -> Vec<&str> {
    v.iter().map(|s| s.as_str()).collect()
}

#[test]
fn mapping_candidates_by_similarity() {
    let (mut ts, l) = shop();
    ts.push(row("t5", "Tea", "-4.50"));
    let mut cs = l.classifications.clone();
    cs.push(StoredClassification {
        tx_id: "t3".to_string(),
        category: "coffee shops".to_string(),
        confidence: Dec { negative: false, magnitude: 7, scale: 1 },
    });
    let src = ts[0].clone();
    let f = |fields: &[&str], mt| {
        find_mapping_candidates(&ts, &src, &fields.iter().map(|s| s.to_string()).collect(), mt, &cs)
    };
    assert_eq!(names(&f(&["description"], SimilarityMatchType::Exact)), vec!["t2"]);
    assert_eq!(names(&f(&["description"], SimilarityMatchType::Substring)), vec!["t2", "t3"]);
    assert_eq!(names(&f(&["description"], SimilarityMatchType::Prefix)), vec!["t2", "t3"]);
    assert_eq!(names(&f(&["category"], SimilarityMatchType::Prefix)), vec!["t3"]);
    assert!(f(&["category"], SimilarityMatchType::Exact).is_empty());
    assert_eq!(names(&f(&["amount"], SimilarityMatchType::Exact)), vec!["t5"]);
    assert_eq!(names(&f(&["description", "amount"], SimilarityMatchType::Exact)), vec!["t2", "t5"]);
    assert!(f(&["vendor"], SimilarityMatchType::Exact).is_empty());
}

#[test]
fn mapping_applies_the_target_to_matches() {
    let (ts, mut l) = shop();
    let mut events = InMemoryLifecycleEventStore::new();
    let r = apply_mapping_bulk(&mut l, &mut events, &ts, &mapping(&["description"], SimilarityMatchType::Substring, 10, false)).unwrap();
    assert_eq!(names(&r.matched_tx_ids), vec!["t2", "t3"]);
    let all = EventHistoryFilter { tx_id: None, document_ref: None, time_start: None, time_end: None };
    let logged = events.list_events(all).unwrap().events;
    assert_eq!(logged.len(), 2);
    assert_eq!(logged[0].tx_id.as_deref(), Some("t2"));
    assert_eq!(logged[1].event_type, "classification");
    assert_eq!(logged[1].payload.get("note").map(|s| s.as_str()), Some("bulk applied from t1"));
    assert_eq!((r.classification_summary.total_requested, r.classification_summary.succeeded, r.classification_summary.failed), (2, 2, 0));
    assert!(r.items.is_empty());
    assert_eq!(l.classifications.len(), 3);
    assert_eq!(l.classifications[1].category, "Meals");
    assert_eq!(l.audit_log[0].note.as_deref(), Some("bulk applied from t1"));
    assert_eq!(l.audit_log[0].actor, "carol");
}

#[test]
fn mapping_caps_and_dry_run() {
    let (ts, mut l) = shop();
    let r = apply_mapping_bulk(&mut l, &mut InMemoryLifecycleEventStore::new(), &ts, &mapping(&["description"], SimilarityMatchType::Substring, 1, true)).unwrap();
    assert_eq!(names(&r.matched_tx_ids), vec!["t2"]);
    assert_eq!((r.classification_summary.total_requested, r.classification_summary.skipped), (1, 1));
    assert_eq!(l.classifications.len(), 1);
    let r = apply_mapping_bulk(&mut l, &mut InMemoryLifecycleEventStore::new(), &ts, &mapping(&["vendor"], SimilarityMatchType::Exact, 5, false)).unwrap();
    assert_eq!((r.classification_summary.total_requested, r.classification_summary.batch_duration_ms), (0, 0));
}

#[test]
fn mapping_refusals() {
    let (ts, mut l) = shop();
    let mut req = mapping(&["description"], SimilarityMatchType::Exact, 5, false);
    req.source_tx_id = "t2".to_string();
    match apply_mapping_bulk(&mut l, &mut InMemoryLifecycleEventStore::new(), &ts, &req) {
        Err(ToolError::InvalidInput(m)) => assert_eq!(m, "source_tx_id not classified"),
        _ => panic!("expected a refusal"),
    }
    let missing: Vec<LedgerTransaction> = ts[1..].to_vec();
    match apply_mapping_bulk(&mut l, &mut InMemoryLifecycleEventStore::new(), &missing, &mapping(&["description"], SimilarityMatchType::Exact, 5, false)) {
        Err(ToolError::InvalidInput(m)) => assert_eq!(m, "source_tx_id not found"),
        _ => panic!("expected a refusal"),
    }
}

#[test]
fn mapping_matches_are_ascending_and_once_each() {
    let (mut ts, mut l) = shop();
    ts.push(row("t5", "odd", "n/a"));
    ts.insert(0, row("t0", "COFFEE SHOP", "-4.50"));
    assert!(tx_ids_in_order(&ts));
    let r = apply_mapping_bulk(&mut l, &mut InMemoryLifecycleEventStore::new(), &ts, &mapping(&["description", "amount"], SimilarityMatchType::Exact, 5, true)).unwrap();
    assert_eq!(names(&r.matched_tx_ids), vec!["t0", "t2"]);
    assert_eq!(r.classification_summary.skipped, 2);
    let r = apply_mapping_bulk(&mut l, &mut InMemoryLifecycleEventStore::new(), &ts, &mapping(&["amount"], SimilarityMatchType::Exact, 5, true)).unwrap();
    assert_eq!(names(&r.matched_tx_ids), vec!["t0"]);
    assert_eq!(l.classifications.len(), 1);
}

#[test]
fn flags_resolve_only_in_a_dry_run() {
    let req = BatchResolveFlagsRequest {
        tx_ids: vec!["t1".to_string(), "t2".to_string()],
        resolution: FlagResolution::Approve,
        reason: None,
        actor: "dave".to_string(),
        batch_mode: BatchMode::ContinueOnError,
        dry_run: true,
    };
    let r = bulk_resolve_flags(&req).unwrap();
    assert_eq!((r.summary.total_requested, r.summary.skipped), (2, 2));
    assert_eq!(r.items[1].tx_id, "t2");
    let live = BatchResolveFlagsRequest { dry_run: false, ..req };
    match bulk_resolve_flags(&live) {
        Err(ToolError::Internal(m)) => assert!(m.starts_with("bulk_resolve_flags requires")),
        _ => panic!("expected a refusal"),
    }
}
