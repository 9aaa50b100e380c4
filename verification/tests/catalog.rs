use ledgerr_mcp::contract::{generated_mcp_cli_demo_script, published_tools};
use ledgerr_mcp::mcp_adapter::{
    get_pipeline_status, infer_currency, parse_ontology_entity_kind, tool_names, tool_names_for,
};
use ledgerr_mcp::ontology::OntologyEntityKind;
use ledgerr_mcp::openmetadata::{normalize_relation, openmetadata_entity_kind};
use ledgerr_mcp::service::{
    derive_year, document_status_rank, parse_ymd, schedule_for_category, year_month_from_date,
};
use ledgerr_mcp::types::{DocumentQueueStatusRequest, ScheduleKindRequest};
use ledgerr_mcp::ToolError;

#[test]
fn catalog_lists_ten_core_tools() {
    let names = tool_names();
    assert_eq!(names.len(), 10);
    assert_eq!(names[0], "ledgerr_documents");
    assert_eq!(names[9], "ledgerr_evidence");
}

#[test]
fn catalog_for_features_is_sorted_and_deduplicated() {
    let names = tool_names_for(&["tax", "xero", "tax"]);
    assert_eq!(names, vec!["ledgerr_tax".to_string(), "ledgerr_xero".to_string()]);
    let core = tool_names_for(&[]);
    assert_eq!(core.len(), 10);
    let mut sorted = core.clone();
    sorted.sort();
    assert_eq!(core, sorted);
    let audit = tool_names_for(&["events", "audit"]);
    assert_eq!(audit, vec!["ledgerr_audit".to_string()]);
}

#[test]
fn catalog_published_tools() {
    let tools = published_tools();
    assert_eq!(tools.len(), 12);
    assert_eq!(tools[2].name, "ledgerr_reconciliation");
    assert_eq!(tools[2].actions, &["validate", "reconcile", "commit"]);
    assert_eq!(tools[11].name, "ledgerr_manifest");
    assert_eq!(tools[11].actions, &["get_manifest"]);
    assert_eq!(tools[10].purpose, "runtime schema extensibility: register, list, remove, and inspect custom entity kinds");
}

#[test]
fn catalog_demo_script_modes() {
    let s = generated_mcp_cli_demo_script();
    assert!(s.starts_with("#!/usr/bin/env bash\nset -euo pipefail\n"));
    assert!(s.contains("if [[ \"$MODE\" == \"spinning-wheels\" ]]; then"));
    assert!(s.ends_with("exit 2\n"));
}

#[test]
fn pipeline_status_ready_and_blocked() {
    let ok = get_pipeline_status(true, true, true, vec![]);
    assert_eq!(ok.status, "ready");
    assert!(ok.blockers.is_empty());
    assert_eq!(ok.next_hint, "call_proxy_ingest_pdf");
    let blocked = get_pipeline_status(false, true, false, vec!["zeta".to_string(), "docling_unreachable".to_string()]);
    assert_eq!(blocked.status, "blocked");
    assert_eq!(
        blocked.blockers,
        vec!["docling_unreachable".to_string(), "manifest_unavailable".to_string(), "zeta".to_string()]
    );
    assert_eq!(blocked.next_hint, "resolve_blockers_then_retry");
}

#[test]
fn currency_inferred_from_account() {
    assert_eq!(infer_currency("wallet-btc-01"), "BTC");
    assert_eq!(infer_currency("WF-CHK"), "USD");
}

#[test]
fn ontology_entity_kind_parsing() {
    assert!(matches!(parse_ontology_entity_kind(Some("Account")), Ok(OntologyEntityKind::Account)));
    assert!(matches!(parse_ontology_entity_kind(Some("WorkflowTag")), Ok(OntologyEntityKind::WorkflowTag)));
    match parse_ontology_entity_kind(Some("account")) {
        Err(ToolError::InvalidInput(m)) => assert!(m.starts_with("missing or invalid `kind` in entity")),
        _ => panic!("expected invalid input"),
    }
    assert!(parse_ontology_entity_kind(None).is_err());
}

#[test]
fn openmetadata_kinds_and_relations() {
    assert_eq!(openmetadata_entity_kind("databaseService"), "openmetadata_service");
    assert_eq!(openmetadata_entity_kind("databaseSchema"), "openmetadata_database_schema");
    assert_eq!(openmetadata_entity_kind("team"), "openmetadata_owner");
    assert_eq!(openmetadata_entity_kind("unknown"), "openmetadata_table");
    assert_eq!(normalize_relation("upstream"), "lineage_upstream_of");
    assert_eq!(normalize_relation("owns"), "owned_by");
    assert_eq!(normalize_relation("contains"), "contains");
}

#[test]
fn service_dates_and_schedules() {
    assert_eq!(derive_year("2024-03-05"), 2024);
    assert_eq!(derive_year("n/a"), 0);
    assert_eq!(year_month_from_date("2024-03-05").ok(), Some((2024, 3)));
    match year_month_from_date("20240305") {
        Err(ToolError::InvalidInput(m)) => assert_eq!(m, "cannot parse year-month from date: 20240305"),
        _ => panic!("expected invalid input"),
    }
    assert_eq!(parse_ymd("2023-12-31"), (2023, 12));
    assert!(matches!(schedule_for_category("Crypto Gains"), Some(ScheduleKindRequest::ScheduleD)));
    assert!(matches!(schedule_for_category("RentalIncome"), Some(ScheduleKindRequest::ScheduleE)));
    assert!(matches!(schedule_for_category("Meals"), Some(ScheduleKindRequest::ScheduleC)));
    assert!(schedule_for_category("uncategorized").is_none());
    assert_eq!(document_status_rank(DocumentQueueStatusRequest::Ingested), 0);
    assert_eq!(document_status_rank(DocumentQueueStatusRequest::InvalidName), 2);
}

#[test]
fn queue_status_names_round_trip() {
    for s in [DocumentQueueStatusRequest::InvalidName, DocumentQueueStatusRequest::Ready, DocumentQueueStatusRequest::Ingested] {
        assert_eq!(DocumentQueueStatusRequest::parse(s.as_str()).map(|p| p.as_str()), Some(s.as_str()));
    }
    assert!(DocumentQueueStatusRequest::parse("done").is_none());
}

use ledgerr_mcp::mcp_adapter::{evidence_node_type_label, parse_evidence_node_type, EvidenceNodeType};

#[test]
fn evidence_node_types_round_trip() {
    assert_eq!(parse_evidence_node_type("doc"), Some(EvidenceNodeType::SourceDoc));
    assert_eq!(parse_evidence_node_type("vi"), Some(EvidenceNodeType::ValidationIssue));
    assert_eq!(parse_evidence_node_type("Transaction"), None);
    assert_eq!(evidence_node_type_label(EvidenceNodeType::Unknown), "unknown");
    for t in [
        EvidenceNodeType::SourceDoc,
        EvidenceNodeType::ExtractedRow,
        EvidenceNodeType::Transaction,
        EvidenceNodeType::Classification,
        EvidenceNodeType::ModelProposal,
        EvidenceNodeType::OperatorApproval,
        EvidenceNodeType::WorkbookRow,
        EvidenceNodeType::ValidationIssue,
    ] {
        assert_eq!(parse_evidence_node_type(evidence_node_type_label(t)), Some(t));
    }
}
