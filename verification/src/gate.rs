//! The policy gate in front of the tool service: which tool and action each
//! kind of request is checked as, and what a policy decision answers.
use vstd::prelude::*;

use crate::error::ToolError;
use crate::text::{concat, owned};

verus! {

/// The kinds of request passed on to the service once the policy allows them.
#[derive(Debug, Clone, Copy, PartialEq, Eq, Structural)]
pub enum GateMessageKind {
    ListAccounts,
    ListAccountsTool,
    DocumentInventory,
    ValidateFilename,
    IngestStatementRows,
    IngestPdf,
    GetRawContext,
    RunRhaiRule,
    ClassifyIngested,
    QueryFlags,
    ClassifyTransaction,
    ReconcileExcelClassification,
    QueryAuditLog,
    ExportCpaWorkbook,
    GetScheduleSummary,
    HsmTransition,
    HsmStatus,
    HsmResume,
    EventHistory,
    ReplayLifecycle,
    TaxAssist,
    TaxEvidenceChain,
    TaxAmbiguityReview,
    ValidateReconciliationStage,
    ReconcileReconciliationStage,
    CommitReconciliationStage,
    AdjustTransaction,
    OntologyUpsertEntities,
    OntologyUpsertEdges,
    OntologyQueryPath,
    OntologyExportSnapshot,
    IngestImage,
    ApplyTags,
    RemoveTags,
    ListTagged,
    SyncFsMetadata,
    NormalizeFilename,
    Shutdown,
}

/// The tool and action under which a request is checked by the policy.
pub struct ToolActionMapping {
    pub tool_name: &'static str,
    pub action: &'static str,
}

/// The tool and action each kind of request is checked as; a shutdown is
/// checked as nothing.
pub open spec fn gate_action_spec(kind: GateMessageKind) -> Option<(Seq<char>, Seq<char>)> {
    match kind {
        GateMessageKind::ListAccounts => Some(("ledgerr_documents"@, "list_accounts"@)),
        GateMessageKind::ListAccountsTool => Some(("ledgerr_documents"@, "list_accounts"@)),
        GateMessageKind::DocumentInventory => Some(("ledgerr_documents"@, "document_inventory"@)),
        GateMessageKind::ValidateFilename => Some(("ledgerr_documents"@, "validate_filename"@)),
        GateMessageKind::IngestStatementRows => Some(("ledgerr_documents"@, "ingest_rows"@)),
        GateMessageKind::IngestPdf => Some(("ledgerr_documents"@, "ingest_pdf"@)),
        GateMessageKind::GetRawContext => Some(("ledgerr_documents"@, "get_raw_context"@)),
        GateMessageKind::RunRhaiRule => Some(("ledgerr_review"@, "run_rule"@)),
        GateMessageKind::ClassifyIngested => Some(("ledgerr_review"@, "classify_ingested"@)),
        GateMessageKind::QueryFlags => Some(("ledgerr_review"@, "query_flags"@)),
        GateMessageKind::ClassifyTransaction => Some(("ledgerr_review"@, "classify_transaction"@)),
        GateMessageKind::ReconcileExcelClassification => Some(("ledgerr_review"@, "reconcile_excel_classification"@)),
        GateMessageKind::QueryAuditLog => Some(("ledgerr_audit"@, "query_audit_log"@)),
        GateMessageKind::ExportCpaWorkbook => Some(("ledgerr_audit"@, "export_cpa_workbook"@)),
        GateMessageKind::GetScheduleSummary => Some(("ledgerr_tax"@, "get_schedule_summary"@)),
        GateMessageKind::HsmTransition => Some(("ledgerr_workflow"@, "transition"@)),
        GateMessageKind::HsmStatus => Some(("ledgerr_workflow"@, "status"@)),
        GateMessageKind::HsmResume => Some(("ledgerr_workflow"@, "resume"@)),
        GateMessageKind::EventHistory => Some(("ledgerr_workflow"@, "event_history"@)),
        GateMessageKind::ReplayLifecycle => Some(("ledgerr_workflow"@, "replay_lifecycle"@)),
        GateMessageKind::TaxAssist => Some(("ledgerr_tax"@, "tax_assist"@)),
        GateMessageKind::TaxEvidenceChain => Some(("ledgerr_tax"@, "tax_evidence_chain"@)),
        GateMessageKind::TaxAmbiguityReview => Some(("ledgerr_tax"@, "tax_ambiguity_review"@)),
        GateMessageKind::ValidateReconciliationStage => Some(("ledgerr_reconciliation"@, "validate"@)),
        GateMessageKind::ReconcileReconciliationStage => Some(("ledgerr_reconciliation"@, "reconcile"@)),
        GateMessageKind::CommitReconciliationStage => Some(("ledgerr_reconciliation"@, "commit"@)),
        GateMessageKind::AdjustTransaction => Some(("ledgerr_review"@, "adjust_transaction"@)),
        GateMessageKind::OntologyUpsertEntities => Some(("ledgerr_ontology"@, "upsert_entities"@)),
        GateMessageKind::OntologyUpsertEdges => Some(("ledgerr_ontology"@, "upsert_edges"@)),
        GateMessageKind::OntologyQueryPath => Some(("ledgerr_ontology"@, "query_path"@)),
        GateMessageKind::OntologyExportSnapshot => Some(("ledgerr_ontology"@, "export_snapshot"@)),
        GateMessageKind::IngestImage => Some(("ledgerr_documents"@, "ingest_image"@)),
        GateMessageKind::ApplyTags => Some(("ledgerr_documents"@, "apply_tags"@)),
        GateMessageKind::RemoveTags => Some(("ledgerr_documents"@, "remove_tags"@)),
        GateMessageKind::ListTagged => Some(("ledgerr_documents"@, "list_tagged"@)),
        GateMessageKind::SyncFsMetadata => Some(("ledgerr_documents"@, "sync_fs_metadata"@)),
        GateMessageKind::NormalizeFilename => Some(("ledgerr_documents"@, "normalize_filename"@)),
        GateMessageKind::Shutdown => None,
    }
}

impl ToolActionMapping {
    /// The (tool, action) pair a request of this kind is checked as, or
    /// `None` for a request that needs no check (a shutdown).
    pub fn from_message(kind: GateMessageKind) -> (r: Option<(&'static str, &'static str)>)
        ensures
            match r {
                Some((t, a)) => gate_action_spec(kind) == Some((t@, a@)),
                None => gate_action_spec(kind) is None,
            },
    {
        match kind {
            GateMessageKind::ListAccounts => Some(("ledgerr_documents", "list_accounts")),
            GateMessageKind::ListAccountsTool => Some(("ledgerr_documents", "list_accounts")),
            GateMessageKind::DocumentInventory => Some(("ledgerr_documents", "document_inventory")),
            GateMessageKind::ValidateFilename => Some(("ledgerr_documents", "validate_filename")),
            GateMessageKind::IngestStatementRows => Some(("ledgerr_documents", "ingest_rows")),
            GateMessageKind::IngestPdf => Some(("ledgerr_documents", "ingest_pdf")),
            GateMessageKind::GetRawContext => Some(("ledgerr_documents", "get_raw_context")),
            GateMessageKind::RunRhaiRule => Some(("ledgerr_review", "run_rule")),
            GateMessageKind::ClassifyIngested => Some(("ledgerr_review", "classify_ingested")),
            GateMessageKind::QueryFlags => Some(("ledgerr_review", "query_flags")),
            GateMessageKind::ClassifyTransaction => Some(("ledgerr_review", "classify_transaction")),
            GateMessageKind::ReconcileExcelClassification => Some(("ledgerr_review", "reconcile_excel_classification")),
            GateMessageKind::QueryAuditLog => Some(("ledgerr_audit", "query_audit_log")),
            GateMessageKind::ExportCpaWorkbook => Some(("ledgerr_audit", "export_cpa_workbook")),
            GateMessageKind::GetScheduleSummary => Some(("ledgerr_tax", "get_schedule_summary")),
            GateMessageKind::HsmTransition => Some(("ledgerr_workflow", "transition")),
            GateMessageKind::HsmStatus => Some(("ledgerr_workflow", "status")),
            GateMessageKind::HsmResume => Some(("ledgerr_workflow", "resume")),
            GateMessageKind::EventHistory => Some(("ledgerr_workflow", "event_history")),
            GateMessageKind::ReplayLifecycle => Some(("ledgerr_workflow", "replay_lifecycle")),
            GateMessageKind::TaxAssist => Some(("ledgerr_tax", "tax_assist")),
            GateMessageKind::TaxEvidenceChain => Some(("ledgerr_tax", "tax_evidence_chain")),
            GateMessageKind::TaxAmbiguityReview => Some(("ledgerr_tax", "tax_ambiguity_review")),
            GateMessageKind::ValidateReconciliationStage => Some(("ledgerr_reconciliation", "validate")),
            GateMessageKind::ReconcileReconciliationStage => Some(("ledgerr_reconciliation", "reconcile")),
            GateMessageKind::CommitReconciliationStage => Some(("ledgerr_reconciliation", "commit")),
            GateMessageKind::AdjustTransaction => Some(("ledgerr_review", "adjust_transaction")),
            GateMessageKind::OntologyUpsertEntities => Some(("ledgerr_ontology", "upsert_entities")),
            GateMessageKind::OntologyUpsertEdges => Some(("ledgerr_ontology", "upsert_edges")),
            GateMessageKind::OntologyQueryPath => Some(("ledgerr_ontology", "query_path")),
            GateMessageKind::OntologyExportSnapshot => Some(("ledgerr_ontology", "export_snapshot")),
            GateMessageKind::IngestImage => Some(("ledgerr_documents", "ingest_image")),
            GateMessageKind::ApplyTags => Some(("ledgerr_documents", "apply_tags")),
            GateMessageKind::RemoveTags => Some(("ledgerr_documents", "remove_tags")),
            GateMessageKind::ListTagged => Some(("ledgerr_documents", "list_tagged")),
            GateMessageKind::SyncFsMetadata => Some(("ledgerr_documents", "sync_fs_metadata")),
            GateMessageKind::NormalizeFilename => Some(("ledgerr_documents", "normalize_filename")),
            GateMessageKind::Shutdown => None,
        }
    }
}

/// What the policy ruled on a call.
#[derive(Debug, Clone)]
pub enum PolicyVerdict {
    Allow,
    Deny(String),
    RateLimited { retry_after_secs: u64 },
    RequiresApproval(String),
}

/// The policy's answer to a call: whether it is allowed, and the ruling.
#[derive(Debug, Clone)]
pub struct GateDecision {
    pub allowed: bool,
    pub policy: PolicyVerdict,
}

/// Whether a decision is coherent: a refused call carries a ruling other
/// than `Allow`.
pub open spec fn decision_coherent(d: GateDecision) -> bool {
    d.allowed || !(d.policy is Allow)
}

/// What the caller is answered for a policy decision: nothing for an allowed
/// call; a refusal for a denied one, with the reason; the wait for a
/// rate-limited one; and a refusal that names the approval still needed.
pub open spec fn gate_reply_holds(d: GateDecision, r: Result<(), ToolError>) -> bool {
    if d.allowed {
        r is Ok
    } else {
        match d.policy {
            PolicyVerdict::Deny(reason) => r == Err::<(), ToolError>(ToolError::PolicyDenied(reason)),
            PolicyVerdict::RateLimited { retry_after_secs } => r == Err::<(), ToolError>(
                ToolError::RateLimited { retry_after_secs },
            ),
            PolicyVerdict::RequiresApproval(reason) => r matches Err(e) && (e matches ToolError::PolicyDenied(
                m,
            ) && m@ == "Requires approval: "@ + reason@),
            PolicyVerdict::Allow => false,
        }
    }
}

/// Turns a policy decision into the answer to the caller.
pub fn gate_reply(d: GateDecision) -> (r: Result<(), ToolError>)
    requires
        decision_coherent(d),
    ensures
        gate_reply_holds(d, r),
{
    if d.allowed {
        return Ok(());
    }
    match d.policy {
        PolicyVerdict::Deny(reason) => Err(ToolError::PolicyDenied(reason)),
        PolicyVerdict::RateLimited { retry_after_secs } => Err(ToolError::RateLimited { retry_after_secs }),
        PolicyVerdict::RequiresApproval(reason) => Err(
            ToolError::PolicyDenied(concat("Requires approval: ", reason.as_str())),
        ),
        PolicyVerdict::Allow => Ok(()),
    }
}

/// The policy check of a request: a kind with no tool and action is an
/// internal error; otherwise the policy's decision on that tool and action
/// answers.
pub fn enforce_policy(kind: GateMessageKind, decision: GateDecision) -> (r: Result<(), ToolError>)
    requires
        decision_coherent(decision),
    ensures
        gate_action_spec(kind) is None ==> (r matches Err(e) && (e matches ToolError::Internal(m)
            && m@ == "No tool/action mapping for message"@)),
        gate_action_spec(kind) is Some ==> gate_reply_holds(decision, r),
{
    match ToolActionMapping::from_message(kind) {
        None => Err(ToolError::Internal(owned("No tool/action mapping for message"))),
        Some(_) => gate_reply(decision),
    }
}

/// What the actor does with the next message it receives.
#[derive(Debug, Clone)]
pub enum GateStep {
    /// Stop receiving: the message was a shutdown, and gets no reply.
    Stop,
    /// Send this refusal as the message's one reply; no service call runs.
    Reply(ToolError),
    /// Run the service call; its result is the message's one reply.
    Serve,
}

/// Decides what the actor does with a message of this kind, given the
/// policy's decision on it: a shutdown stops the loop; every other message
/// gets exactly one reply, the policy's refusal where the call is not
/// allowed and otherwise the result of the service call.
pub fn gate_step(kind: GateMessageKind, decision: GateDecision) -> (r: GateStep)
    requires
        decision_coherent(decision),
    ensures
        (kind == GateMessageKind::Shutdown) <==> r is Stop,
        kind != GateMessageKind::Shutdown ==> (decision.allowed <==> r is Serve),
        r matches GateStep::Reply(e) ==> gate_reply_holds(decision, Err::<(), ToolError>(e)),
{
    if kind == GateMessageKind::Shutdown {
        return GateStep::Stop;
    }
    match enforce_policy(kind, decision) {
        Ok(()) => GateStep::Serve,
        Err(e) => GateStep::Reply(e),
    }
}

} // verus!
