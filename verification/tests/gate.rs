use ledgerr_mcp::gate::{
    enforce_policy, gate_reply, gate_step, GateDecision, GateMessageKind, GateStep, PolicyVerdict, ToolActionMapping,
};
use ledgerr_mcp::ToolError;

#[test]
fn every_request_kind_but_shutdown_has_a_tool_and_action() {
    assert_eq!(ToolActionMapping::from_message(GateMessageKind::ListAccounts), Some(("ledgerr_documents", "list_accounts")));
    assert_eq!(ToolActionMapping::from_message(GateMessageKind::ListAccountsTool), Some(("ledgerr_documents", "list_accounts")));
    assert_eq!(ToolActionMapping::from_message(GateMessageKind::IngestStatementRows), Some(("ledgerr_documents", "ingest_rows")));
    assert_eq!(ToolActionMapping::from_message(GateMessageKind::RunRhaiRule), Some(("ledgerr_review", "run_rule")));
    assert_eq!(ToolActionMapping::from_message(GateMessageKind::HsmStatus), Some(("ledgerr_workflow", "status")));
    assert_eq!(ToolActionMapping::from_message(GateMessageKind::CommitReconciliationStage), Some(("ledgerr_reconciliation", "commit")));
    assert_eq!(ToolActionMapping::from_message(GateMessageKind::OntologyExportSnapshot), Some(("ledgerr_ontology", "export_snapshot")));
    assert_eq!(ToolActionMapping::from_message(GateMessageKind::NormalizeFilename), Some(("ledgerr_documents", "normalize_filename")));
    assert_eq!(ToolActionMapping::from_message(GateMessageKind::Shutdown), None);
}

fn refused(policy: PolicyVerdict) -> GateDecision {
    GateDecision { allowed: false, policy }
}

#[test]
fn policy_decisions_answer_the_caller() {
    assert!(gate_reply(GateDecision { allowed: true, policy: PolicyVerdict::Allow }).is_ok());
    match gate_reply(refused(PolicyVerdict::Deny("ring too low".to_string()))) {
        Err(ToolError::PolicyDenied(m)) => assert_eq!(m, "ring too low"),
        _ => panic!("expected a denial"),
    }
    match gate_reply(refused(PolicyVerdict::RateLimited { retry_after_secs: 30 })) {
        Err(ToolError::RateLimited { retry_after_secs }) => assert_eq!(retry_after_secs, 30),
        _ => panic!("expected a rate limit"),
    }
    match gate_reply(refused(PolicyVerdict::RequiresApproval("human sign-off".to_string()))) {
        Err(ToolError::PolicyDenied(m)) => assert_eq!(m, "Requires approval: human sign-off"),
        _ => panic!("expected a denial"),
    }
}

#[test]
fn a_shutdown_is_not_checked_by_the_policy() {
    match enforce_policy(GateMessageKind::Shutdown, GateDecision { allowed: true, policy: PolicyVerdict::Allow }) {
        Err(ToolError::Internal(m)) => assert_eq!(m, "No tool/action mapping for message"),
        _ => panic!("expected an internal error"),
    }
    assert!(enforce_policy(GateMessageKind::TaxAssist, GateDecision { allowed: true, policy: PolicyVerdict::Allow }).is_ok());
    assert!(enforce_policy(GateMessageKind::TaxAssist, refused(PolicyVerdict::Deny("no".to_string()))).is_err());
}

#[test]
fn every_message_but_shutdown_gets_one_reply() {
    let allow = || GateDecision { allowed: true, policy: PolicyVerdict::Allow };
    assert!(matches!(gate_step(GateMessageKind::Shutdown, allow()), GateStep::Stop));
    assert!(matches!(gate_step(GateMessageKind::QueryFlags, allow()), GateStep::Serve));
    match gate_step(GateMessageKind::QueryFlags, refused(PolicyVerdict::RateLimited { retry_after_secs: 5 })) {
        GateStep::Reply(ToolError::RateLimited { retry_after_secs }) => assert_eq!(retry_after_secs, 5),
        _ => panic!("expected a rate-limit reply"),
    }
}
