//! The decisions of the JSON-RPC front of the server: which method a
//! request calls, whether it is answered, where a tool call goes and
//! whether it is put to the governance gate.
use vstd::prelude::*;

use crate::mcp_adapter::{
    builtin_tool_names_spec, AUDIT_TOOL, DOCUMENTS_TOOL, EVIDENCE_TOOL, FOCUS_TOOL, ONTOLOGY_TOOL, RECONCILIATION_TOOL,
    REVIEW_TOOL, TAX_TOOL, WORKFLOW_TOOL, XERO_TOOL,
};
use crate::text::str_eq;

verus! {

/// The methods of the protocol the server knows.
#[derive(Debug, Clone, Copy, PartialEq, Eq, Structural)]
pub enum RpcMethod {
    Initialize,
    InitializedNotification,
    ToolsList,
    ToolsCall,
    NotFound,
}

/// The method a request names.
pub open spec fn rpc_method_spec(method: Seq<char>) -> RpcMethod {
    if method == "initialize"@ {
        RpcMethod::Initialize
    } else if method == "notifications/initialized"@ {
        RpcMethod::InitializedNotification
    } else if method == "tools/list"@ {
        RpcMethod::ToolsList
    } else if method == "tools/call"@ {
        RpcMethod::ToolsCall
    } else {
        RpcMethod::NotFound
    }
}

/// The method a request names; any other name is not found.
pub fn rpc_method(method: &str) -> (r: RpcMethod)
    ensures
        r == rpc_method_spec(method@),
{
    if str_eq(method, "initialize") {
        RpcMethod::Initialize
    } else if str_eq(method, "notifications/initialized") {
        RpcMethod::InitializedNotification
    } else if str_eq(method, "tools/list") {
        RpcMethod::ToolsList
    } else if str_eq(method, "tools/call") {
        RpcMethod::ToolsCall
    } else {
        RpcMethod::NotFound
    }
}

/// Whether a request is answered: every method but the notification is,
/// an unknown one with a method-not-found error.
pub fn rpc_method_answered(m: RpcMethod) -> (r: bool)
    ensures
        r == (m != RpcMethod::InitializedNotification),
{
    match m {
        RpcMethod::InitializedNotification => false,
        _ => true,
    }
}

/// Where a tool call goes: a published tool family, a compatibility alias
/// of one of its operations, or nowhere.
#[derive(Debug, Clone, Copy, PartialEq, Eq, Structural)]
pub enum ToolRoute {
    Documents,
    Review,
    Reconciliation,
    Workflow,
    Audit,
    Tax,
    Ontology,
    Xero,
    Evidence,
    Focus,
    ListAccounts,
    PipelineStatus,
    IngestPdf,
    IngestStatementRows,
    GetRawContext,
    OntologyQueryPath,
    OntologyExportSnapshot,
    ValidateReconciliation,
    ReconcilePostings,
    CommitGuarded,
    HsmTransition,
    HsmStatus,
    HsmResume,
    EventHistory,
    EventReplay,
    TaxAssist,
    TaxEvidenceChain,
    TaxAmbiguityReview,
    ClassifyIngested,
    QueryFlags,
    QueryAuditLog,
    ClassifyTransaction,
    ReconcileExcelClassification,
    GetScheduleSummary,
    ExportCpaWorkbook,
    OntologyUpsertEntities,
    OntologyUpsertEdges,
    PluginInfo,
    Unknown,
}

/// The route of a tool name.
pub open spec fn tool_route_spec(name: Seq<char>) -> ToolRoute {
    if name == DOCUMENTS_TOOL@ {
        ToolRoute::Documents
    } else if name == REVIEW_TOOL@ {
        ToolRoute::Review
    } else if name == RECONCILIATION_TOOL@ {
        ToolRoute::Reconciliation
    } else if name == WORKFLOW_TOOL@ {
        ToolRoute::Workflow
    } else if name == AUDIT_TOOL@ {
        ToolRoute::Audit
    } else if name == TAX_TOOL@ {
        ToolRoute::Tax
    } else if name == ONTOLOGY_TOOL@ {
        ToolRoute::Ontology
    } else if name == XERO_TOOL@ {
        ToolRoute::Xero
    } else if name == EVIDENCE_TOOL@ {
        ToolRoute::Evidence
    } else if name == FOCUS_TOOL@ {
        ToolRoute::Focus
    } else if name == "l3dg3rr_list_accounts"@ {
        ToolRoute::ListAccounts
    } else if name == "l3dg3rr_get_pipeline_status"@ {
        ToolRoute::PipelineStatus
    } else if name == "proxy_docling_ingest_pdf"@ {
        ToolRoute::IngestPdf
    } else if name == "proxy_rustledger_ingest_statement_rows"@ {
        ToolRoute::IngestStatementRows
    } else if name == "l3dg3rr_get_raw_context"@ {
        ToolRoute::GetRawContext
    } else if name == "l3dg3rr_ontology_query_path"@ {
        ToolRoute::OntologyQueryPath
    } else if name == "l3dg3rr_ontology_export_snapshot"@ {
        ToolRoute::OntologyExportSnapshot
    } else if name == "l3dg3rr_validate_reconciliation"@ {
        ToolRoute::ValidateReconciliation
    } else if name == "l3dg3rr_reconcile_postings"@ {
        ToolRoute::ReconcilePostings
    } else if name == "l3dg3rr_commit_guarded"@ {
        ToolRoute::CommitGuarded
    } else if name == "l3dg3rr_hsm_transition"@ {
        ToolRoute::HsmTransition
    } else if name == "l3dg3rr_hsm_status"@ {
        ToolRoute::HsmStatus
    } else if name == "l3dg3rr_hsm_resume"@ {
        ToolRoute::HsmResume
    } else if name == "l3dg3rr_event_history"@ {
        ToolRoute::EventHistory
    } else if name == "l3dg3rr_event_replay"@ {
        ToolRoute::EventReplay
    } else if name == "l3dg3rr_tax_assist"@ {
        ToolRoute::TaxAssist
    } else if name == "l3dg3rr_tax_evidence_chain"@ {
        ToolRoute::TaxEvidenceChain
    } else if name == "l3dg3rr_tax_ambiguity_review"@ {
        ToolRoute::TaxAmbiguityReview
    } else if name == "l3dg3rr_classify_ingested"@ {
        ToolRoute::ClassifyIngested
    } else if name == "l3dg3rr_query_flags"@ {
        ToolRoute::QueryFlags
    } else if name == "l3dg3rr_query_audit_log"@ {
        ToolRoute::QueryAuditLog
    } else if name == "l3dg3rr_classify_transaction"@ {
        ToolRoute::ClassifyTransaction
    } else if name == "l3dg3rr_reconcile_excel_classification"@ {
        ToolRoute::ReconcileExcelClassification
    } else if name == "l3dg3rr_get_schedule_summary"@ {
        ToolRoute::GetScheduleSummary
    } else if name == "l3dg3rr_export_cpa_workbook"@ {
        ToolRoute::ExportCpaWorkbook
    } else if name == "l3dg3rr_ontology_upsert_entities"@ {
        ToolRoute::OntologyUpsertEntities
    } else if name == "l3dg3rr_ontology_upsert_edges"@ {
        ToolRoute::OntologyUpsertEdges
    } else if name == "l3dg3rr_plugin_info"@ {
        ToolRoute::PluginInfo
    } else {
        ToolRoute::Unknown
    }
}

/// The route of a tool name.
pub fn tool_route(name: &str) -> (r: ToolRoute)
    ensures
        r == tool_route_spec(name@),
{
    if str_eq(name, DOCUMENTS_TOOL) {
        ToolRoute::Documents
    } else if str_eq(name, REVIEW_TOOL) {
        ToolRoute::Review
    } else if str_eq(name, RECONCILIATION_TOOL) {
        ToolRoute::Reconciliation
    } else if str_eq(name, WORKFLOW_TOOL) {
        ToolRoute::Workflow
    } else if str_eq(name, AUDIT_TOOL) {
        ToolRoute::Audit
    } else if str_eq(name, TAX_TOOL) {
        ToolRoute::Tax
    } else if str_eq(name, ONTOLOGY_TOOL) {
        ToolRoute::Ontology
    } else if str_eq(name, XERO_TOOL) {
        ToolRoute::Xero
    } else if str_eq(name, EVIDENCE_TOOL) {
        ToolRoute::Evidence
    } else if str_eq(name, FOCUS_TOOL) {
        ToolRoute::Focus
    } else if str_eq(name, "l3dg3rr_list_accounts") {
        ToolRoute::ListAccounts
    } else if str_eq(name, "l3dg3rr_get_pipeline_status") {
        ToolRoute::PipelineStatus
    } else if str_eq(name, "proxy_docling_ingest_pdf") {
        ToolRoute::IngestPdf
    } else if str_eq(name, "proxy_rustledger_ingest_statement_rows") {
        ToolRoute::IngestStatementRows
    } else if str_eq(name, "l3dg3rr_get_raw_context") {
        ToolRoute::GetRawContext
    } else if str_eq(name, "l3dg3rr_ontology_query_path") {
        ToolRoute::OntologyQueryPath
    } else if str_eq(name, "l3dg3rr_ontology_export_snapshot") {
        ToolRoute::OntologyExportSnapshot
    } else if str_eq(name, "l3dg3rr_validate_reconciliation") {
        ToolRoute::ValidateReconciliation
    } else if str_eq(name, "l3dg3rr_reconcile_postings") {
        ToolRoute::ReconcilePostings
    } else if str_eq(name, "l3dg3rr_commit_guarded") {
        ToolRoute::CommitGuarded
    } else if str_eq(name, "l3dg3rr_hsm_transition") {
        ToolRoute::HsmTransition
    } else if str_eq(name, "l3dg3rr_hsm_status") {
        ToolRoute::HsmStatus
    } else if str_eq(name, "l3dg3rr_hsm_resume") {
        ToolRoute::HsmResume
    } else if str_eq(name, "l3dg3rr_event_history") {
        ToolRoute::EventHistory
    } else if str_eq(name, "l3dg3rr_event_replay") {
        ToolRoute::EventReplay
    } else if str_eq(name, "l3dg3rr_tax_assist") {
        ToolRoute::TaxAssist
    } else if str_eq(name, "l3dg3rr_tax_evidence_chain") {
        ToolRoute::TaxEvidenceChain
    } else if str_eq(name, "l3dg3rr_tax_ambiguity_review") {
        ToolRoute::TaxAmbiguityReview
    } else if str_eq(name, "l3dg3rr_classify_ingested") {
        ToolRoute::ClassifyIngested
    } else if str_eq(name, "l3dg3rr_query_flags") {
        ToolRoute::QueryFlags
    } else if str_eq(name, "l3dg3rr_query_audit_log") {
        ToolRoute::QueryAuditLog
    } else if str_eq(name, "l3dg3rr_classify_transaction") {
        ToolRoute::ClassifyTransaction
    } else if str_eq(name, "l3dg3rr_reconcile_excel_classification") {
        ToolRoute::ReconcileExcelClassification
    } else if str_eq(name, "l3dg3rr_get_schedule_summary") {
        ToolRoute::GetScheduleSummary
    } else if str_eq(name, "l3dg3rr_export_cpa_workbook") {
        ToolRoute::ExportCpaWorkbook
    } else if str_eq(name, "l3dg3rr_ontology_upsert_entities") {
        ToolRoute::OntologyUpsertEntities
    } else if str_eq(name, "l3dg3rr_ontology_upsert_edges") {
        ToolRoute::OntologyUpsertEdges
    } else if str_eq(name, "l3dg3rr_plugin_info") {
        ToolRoute::PluginInfo
    } else {
        ToolRoute::Unknown
    }
}

/// The tool families that the governance gate knows.
pub open spec fn gated_tool_spec(name: Seq<char>) -> bool {
    name == DOCUMENTS_TOOL@
        || name == REVIEW_TOOL@
        || name == RECONCILIATION_TOOL@
        || name == WORKFLOW_TOOL@
        || name == AUDIT_TOOL@
        || name == TAX_TOOL@
        || name == ONTOLOGY_TOOL@
        || name == XERO_TOOL@
        || name == EVIDENCE_TOOL@
        || name == FOCUS_TOOL@
}

/// Whether a tool call is put to the governance gate: only where the caller
/// named itself and the tool is one of the gated families.
pub fn needs_authorization(agent_known: bool, tool_name: &str) -> (r: bool)
    ensures
        r == (agent_known && gated_tool_spec(tool_name@)),
{
    if !agent_known {
        return false;
    }
    str_eq(tool_name, DOCUMENTS_TOOL)
        || str_eq(tool_name, REVIEW_TOOL)
        || str_eq(tool_name, RECONCILIATION_TOOL)
        || str_eq(tool_name, WORKFLOW_TOOL)
        || str_eq(tool_name, AUDIT_TOOL)
        || str_eq(tool_name, TAX_TOOL)
        || str_eq(tool_name, ONTOLOGY_TOOL)
        || str_eq(tool_name, XERO_TOOL)
        || str_eq(tool_name, EVIDENCE_TOOL)
        || str_eq(tool_name, FOCUS_TOOL)
}

/// Every top-level tool the adapter publishes has a route, and every tool
/// the governance gate knows is one of them.
pub proof fn law_published_tools_routed(i: int, name: Seq<char>)
    ensures
        0 <= i < builtin_tool_names_spec().len() ==> tool_route_spec(builtin_tool_names_spec()[i])
            != ToolRoute::Unknown,
        gated_tool_spec(name) ==> builtin_tool_names_spec().contains(name),
{
    let names = builtin_tool_names_spec();
    if gated_tool_spec(name) {
        if name == DOCUMENTS_TOOL@ {
            assert(names[0] == name);
        } else if name == REVIEW_TOOL@ {
            assert(names[1] == name);
        } else if name == RECONCILIATION_TOOL@ {
            assert(names[2] == name);
        } else if name == WORKFLOW_TOOL@ {
            assert(names[3] == name);
        } else if name == AUDIT_TOOL@ {
            assert(names[4] == name);
        } else if name == TAX_TOOL@ {
            assert(names[5] == name);
        } else if name == ONTOLOGY_TOOL@ {
            assert(names[6] == name);
        } else if name == XERO_TOOL@ {
            assert(names[7] == name);
        } else if name == FOCUS_TOOL@ {
            assert(names[8] == name);
        } else {
            assert(names[9] == name);
        }
    }
}

} // verus!
