//! The published tool contract: request and response shapes of the
//! `ledgerr_*` tools, batch review and work-queue types.
use vstd::prelude::*;

use crate::types::AuditEntryResponse;
use crate::strmap::StringMap;
use crate::text::{decimal_spec, owned, push_str, u64_decimal};

verus! {

/// One statement row as a client sends it.
#[derive(Debug, Clone)]
pub struct TransportRow {
    pub account_id: Option<String>,
    pub account: Option<String>,
    pub date: String,
    pub amount: String,
    pub description: String,
    pub source_ref: String,
}

/// A sample transaction to run a classification rule against.
#[derive(Debug, Clone)]
pub struct SampleTxInput {
    pub tx_id: String,
    pub account_id: String,
    pub date: String,
    pub amount: String,
    pub description: String,
}

/// An inclusive range of dates, `YYYY-MM-DD`.
#[derive(Debug, Clone)]
pub struct DateRange {
    pub start: String,
    pub end: String,
}

/// An inclusive range of decimal amounts.
#[derive(Debug, Clone)]
pub struct AmountRange {
    pub min: String,
    pub max: String,
}

/// Direction of a sort.
#[derive(Debug, Clone, Copy, PartialEq, Eq, Structural)]
pub enum SortDirection {
    Asc,
    Desc,
}

/// Field a transaction query is sorted by.
#[derive(Debug, Clone, Copy, PartialEq, Eq, Structural)]
pub enum SortField {
    Date,
    Amount,
    Description,
}

/// How a transaction query is sorted.
#[derive(Debug, Clone, Copy, PartialEq, Eq, Structural)]
pub struct SortSpec {
    pub field: SortField,
    pub direction: SortDirection,
}

/// A page of results: at most `limit`, after skipping `offset`.
#[derive(Debug, Clone, Copy, PartialEq, Eq, Structural)]
pub struct PaginationSpec {
    pub limit: u32,
    pub offset: u32,
}

/// Filters of a transaction query; every filter that is set must match.
#[derive(Debug, Clone)]
pub struct TransactionFilters {
    pub account_id: Option<String>,
    pub date_range: Option<DateRange>,
    pub category: Option<String>,
    pub amount_range: Option<AmountRange>,
    pub source_ref: Option<String>,
    pub description_contains: Option<String>,
}

/// One transaction as a query returns it.
#[derive(Debug, Clone)]
pub struct TransactionRow {
    pub tx_id: String,
    pub account_id: String,
    pub date: String,
    pub amount: String,
    pub description: String,
    pub source_ref: String,
    pub category: Option<String>,
    pub confidence: Option<String>,
}

/// Totals a reconciliation stage compares.
#[derive(Debug, Clone)]
pub struct ReconciliationInput {
    pub source_total: String,
    pub extracted_total: String,
    pub posting_amounts: Vec<String>,
}

/// Subcommand of the plugin-info workflow action (`check`, `upgrade`, `cleanup`).
#[derive(Debug, Clone)]
pub struct PluginInfoSubcommand(pub String);

/// Arguments of the plugin-info workflow action.
#[derive(Debug, Clone)]
pub struct WorkflowPluginInfoInput {
    pub subcommand: Option<PluginInfoSubcommand>,
}

/// Review status a flag query asks for.
#[derive(Debug, Clone, Copy, PartialEq, Eq, Structural)]
pub enum ReviewStatusInput {
    Open,
    Resolved,
}

/// Tax schedule a summary is asked for.
#[derive(Debug, Clone, Copy, PartialEq, Eq, Structural)]
pub enum ScheduleInput {
    ScheduleC,
    ScheduleD,
    ScheduleE,
    Fbar,
}

/// Built-in entity kinds a client may name.
#[derive(Debug, Clone, Copy, PartialEq, Eq, Structural)]
pub enum OntologyEntityKindInput {
    Document,
    Account,
    Institution,
    Transaction,
    TaxCategory,
    EvidenceReference,
    XeroContact,
    XeroBankAccount,
    XeroInvoice,
    WorkflowTag,
}

/// Actions of the documents tool. Paths are carried as text.
#[derive(Debug, Clone)]
pub enum DocumentsArgs {
    ListAccounts,
    PipelineStatus,
    ValidateFilename { file_name: String },
    GetRawContext { rkyv_ref: String },
    IngestPdf {
        pdf_path: String,
        journal_path: String,
        workbook_path: String,
        ontology_path: Option<String>,
        raw_context_bytes: Option<Vec<u8>>,
        extracted_rows: Vec<TransportRow>,
    },
    IngestRows {
        journal_path: String,
        workbook_path: String,
        ontology_path: Option<String>,
        rows: Vec<TransportRow>,
    },
    IngestImage {
        image_path: String,
        doc_type: Option<String>,
        tags: Vec<String>,
        extract_with_llm: bool,
    },
    ApplyTags { doc_ref: String, tags: Vec<String>, sync_fs: bool },
    RemoveTags { doc_ref: String, tags: Vec<String>, sync_fs: bool },
    ListTagged { tags: Vec<String>, doc_type: Option<String>, directory: Option<String> },
    SyncFsMetadata { directory: String, recursive: bool },
    NormalizeFilename {
        file_path: String,
        vendor: String,
        account: String,
        year_month: String,
        doc_type: String,
        apply: bool,
    },
    DocumentInventory { directory: String, recursive: bool, statuses: Vec<String> },
}

/// Actions of the reconciliation tool.
#[derive(Debug, Clone)]
pub enum ReconciliationArgs {
    Validate { source_total: String, extracted_total: String, posting_amounts: Vec<String> },
    Reconcile { source_total: String, extracted_total: String, posting_amounts: Vec<String> },
    Commit { source_total: String, extracted_total: String, posting_amounts: Vec<String> },
}

/// Actions of the workflow tool.
#[derive(Debug, Clone)]
pub enum WorkflowArgs {
    Status,
    Transition { target_state: String, target_substate: String },
    Resume { state_marker: String },
    PluginInfo { payload: WorkflowPluginInfoInput },
}

/// Actions of the audit tool.
#[derive(Debug, Clone)]
pub enum AuditArgs {
    EventHistory {
        tx_id: Option<String>,
        document_ref: Option<String>,
        time_start: Option<String>,
        time_end: Option<String>,
    },
    EventReplay { tx_id: Option<String>, document_ref: Option<String> },
    QueryAuditLog,
}

/// Actions of the tax tool.
#[derive(Debug, Clone)]
pub enum TaxArgs {
    Assist {
        ontology_path: String,
        from_entity_id: String,
        max_depth: Option<usize>,
        reconciliation: ReconciliationInput,
    },
    EvidenceChain {
        ontology_path: String,
        from_entity_id: String,
        tx_id: Option<String>,
        document_ref: Option<String>,
    },
    AmbiguityReview {
        ontology_path: String,
        from_entity_id: String,
        max_depth: Option<usize>,
        reconciliation: ReconciliationInput,
    },
    ScheduleSummary { year: i32, schedule: ScheduleInput },
    ExportWorkbook { workbook_path: String },
    AuRdCheckEligibility {
        lei: String,
        activity_id: String,
        activity_name: String,
        has_hypothesis: bool,
        has_technical_uncertainty: bool,
        is_systematic: bool,
        is_core: bool,
    },
    AuRdClassifyExpenditure { lei: String, tx_id: String, category: String, amount_aud: String },
    AuRdCalculateOffset { lei: String, total_eligible_aud: String, is_refundable: bool },
    UsRdcFourPartTestCheck {
        lei: String,
        activity_id: String,
        activity_name: String,
        technical_in_nature: bool,
        permits_experimentation: bool,
        technological_uncertainty: bool,
        systematic_process: bool,
    },
    CryptoCostBasisCheck {
        lei: String,
        tx_hash: String,
        tx_type: String,
        gross_proceeds: String,
        cost_basis: String,
        date: String,
        acquisition_date: Option<String>,
        jurisdiction: String,
        currency: String,
    },
}

/// Actions of the Xero tool.
#[derive(Debug, Clone)]
pub enum XeroArgs {
    GetAuthUrl,
    ExchangeCode { code: String, state: String },
    FetchContacts,
    SearchContacts { query: String },
    FetchAccounts,
    FetchBankAccounts,
    FetchInvoices { status: Option<String> },
    LinkEntity {
        local_id: String,
        xero_entity_type: String,
        xero_id: String,
        display_name: String,
        ontology_path: Option<String>,
    },
    SyncCatalog { ontology_path: String },
}

/// Actions of the evidence tool.
#[derive(Debug, Clone)]
pub enum EvidenceArgs {
    ProvenanceGaps,
    TraceTx { tx_id: String },
    Summary,
    ListNodes { node_type: Option<String> },
    NodeDetail { node_id: String },
}

/// Actions of the schema tool.
#[derive(Debug, Clone)]
pub enum SchemaArgs {
    ListKinds { schema_path: String },
    RegisterKind {
        schema_path: String,
        name: String,
        description: String,
        attrs_schema: StringMap,
    },
    RemoveKind { schema_path: String, name: String },
    GetKind { schema_path: String, name: String },
}

/// How a batch reacts to a failing item.
#[derive(Debug, Clone, Copy, PartialEq, Eq, Structural)]
pub enum BatchMode {
    /// Stop processing on the first error and leave what the batch would
    /// have changed as it was.
    AllOrNothing,
    /// Attempt every item whatever fails.
    ContinueOnError,
}

impl BatchMode {
    /// The mode a request gets when it names none: continue on error.
    pub fn default_mode() -> (r: BatchMode)
        ensures
            r == BatchMode::ContinueOnError,
    {
        BatchMode::ContinueOnError
    }
}

/// How a review flag is resolved.
#[derive(Debug, Clone, Copy, PartialEq, Eq, Structural)]
pub enum FlagResolution {
    Approve,
    Reject,
    Escalate,
    Dismiss,
    Defer,
}

/// How a bulk mapping matches transactions.
#[derive(Debug, Clone, Copy, PartialEq, Eq, Structural)]
pub enum SimilarityMatchType {
    Exact,
    Substring,
    Prefix,
}

impl SimilarityMatchType {
    /// The match type a request gets when it names none: exact.
    pub fn default_match() -> (r: SimilarityMatchType)
        ensures
            r == SimilarityMatchType::Exact,
    {
        SimilarityMatchType::Exact
    }
}

/// Classify many transactions at once.
#[derive(Debug, Clone)]
pub struct BatchClassifyRequest {
    pub tx_ids: Vec<String>,
    pub category: String,
    pub confidence: String,
    pub note: Option<String>,
    pub actor: String,
    pub batch_mode: BatchMode,
    pub dry_run: bool,
}

/// Outcome of a batch classification.
#[derive(Debug, Clone)]
pub struct BatchClassifyResponse {
    pub summary: BatchSummary,
    pub items: Vec<BatchItemResult>,
}

/// Resolve many review flags at once.
#[derive(Debug, Clone)]
pub struct BatchResolveFlagsRequest {
    pub tx_ids: Vec<String>,
    pub resolution: FlagResolution,
    pub reason: Option<String>,
    pub actor: String,
    pub batch_mode: BatchMode,
    pub dry_run: bool,
}

/// Outcome of a bulk flag resolution.
#[derive(Debug, Clone)]
pub struct BulkResolveFlagsResponse {
    pub summary: BatchSummary,
    pub items: Vec<BatchItemResult>,
}

/// Apply one transaction's classification to similar transactions.
#[derive(Debug, Clone)]
pub struct ApplyMappingBulkRequest {
    pub source_tx_id: String,
    pub match_fields: Vec<String>,
    pub similarity_type: SimilarityMatchType,
    pub target_category: String,
    pub target_confidence: String,
    pub actor: String,
    pub max_matches: usize,
    pub batch_mode: BatchMode,
    pub dry_run: bool,
}

/// Outcome of a bulk mapping.
#[derive(Debug, Clone)]
pub struct ApplyMappingBulkResponse {
    pub classification_summary: BatchSummary,
    pub matched_tx_ids: Vec<String>,
    pub items: Vec<BatchItemResult>,
}

/// Counts of a batch run.
#[derive(Debug, Clone, Copy, PartialEq, Eq, Structural)]
pub struct BatchSummary {
    pub total_requested: usize,
    pub succeeded: usize,
    pub failed: usize,
    pub skipped: usize,
    pub batch_duration_ms: u64,
}

/// Outcome of one batch item.
#[derive(Debug, Clone)]
pub struct BatchItemResult {
    pub tx_id: String,
    pub status: BatchItemStatus,
    pub audit_entries: Vec<AuditEntryResponse>,
}

/// Status of one batch item.
#[derive(Debug, Clone)]
pub enum BatchItemStatus {
    Succeeded,
    Failed { error: String },
    Skipped { reason: String },
}

/// Kind of a work-queue item.
#[derive(Debug, Clone, Copy, PartialEq, Eq, Structural)]
pub enum QueueItemType {
    Flag,
    Ambiguity,
    Blocker,
    DocumentIssue,
    ManualChange,
}

/// Severity of a work-queue item, least severe first.
#[derive(Debug, Clone, Copy, PartialEq, Eq, Structural)]
pub enum QueueSeverity {
    Low,
    Medium,
    High,
    Critical,
}

/// Status of a work-queue item.
#[derive(Debug, Clone, Copy, PartialEq, Eq, Structural)]
pub enum QueueStatus {
    Open,
    InProgress,
    Resolved,
    Dismissed,
}

/// Which tool emitted a work-queue item.
#[derive(Debug, Clone, Copy, PartialEq, Eq, Structural)]
pub enum QueueProvenance {
    ReviewTool,
    TaxTool,
    AuditTool,
    ReconciliationTool,
    DocumentTool,
}

/// Request for work-queue items.
#[derive(Debug, Clone)]
pub struct FetchQueueRequest {
    pub item_types: Option<Vec<QueueItemType>>,
    pub statuses: Option<Vec<QueueStatus>>,
    pub updated_after: Option<String>,
    pub limit: usize,
    pub offset: usize,
}

/// The page size a work-queue request gets when it names none.
pub fn default_limit() -> (r: usize)
    ensures
        r == 100,
{
    100
}

/// A published top-level tool: its name, what it is for, and its actions.
#[derive(Debug, Clone, PartialEq, Eq)]
pub struct ToolContractSpec {
    pub name: &'static str,
    pub purpose: &'static str,
    pub actions: &'static [&'static str],
}

/// The texts of a tool's contract.
pub type ToolContractView = (Seq<char>, Seq<char>, Seq<Seq<char>>);

impl View for ToolContractSpec {
    type V = ToolContractView;

    open spec fn view(&self) -> ToolContractView {
        (self.name@, self.purpose@, self.actions@.map_values(|a: &'static str| a@))
    }
}

/// The published catalogue, in order.
pub open spec fn published_tools_spec() -> Seq<ToolContractView> {
    seq![
        (
            "ledgerr_documents"@,
            "document intake (PDF, image, CSV), tagging, filesystem metadata sync"@,
            seq!["list_accounts"@, "pipeline_status"@, "validate_filename"@, "ingest_pdf"@, "ingest_image"@, "ingest_rows"@, "get_raw_context"@, "document_inventory"@, "apply_tags"@, "remove_tags"@, "list_tagged"@, "sync_fs_metadata"@, "normalize_filename"@],
        ),
        (
            "ledgerr_review"@,
            "classification and human-review workflows"@,
            seq!["run_rule"@, "classify_ingested"@, "query_flags"@, "classify_transaction"@, "reconcile_excel_classification"@, "query_transactions"@, "batch_classify"@, "bulk_resolve_flags"@, "apply_mapping_bulk"@, "fetch_work_queue"@],
        ),
        (
            "ledgerr_reconciliation"@,
            "staged totals/postings guardrails"@,
            seq!["validate"@, "reconcile"@, "commit"@],
        ),
        (
            "ledgerr_workflow"@,
            "lifecycle/HSM orchestration plus relocated plugin ops"@,
            seq!["status"@, "transition"@, "resume"@, "plugin_info"@],
        ),
        (
            "ledgerr_audit"@,
            "append-only event and audit-log views"@,
            seq!["event_history"@, "event_replay"@, "query_audit_log"@],
        ),
        (
            "ledgerr_tax"@,
            "tax summaries, evidence, ambiguity review, workbook export"@,
            seq!["assist"@, "evidence_chain"@, "ambiguity_review"@, "schedule_summary"@, "export_workbook"@],
        ),
        (
            "ledgerr_ontology"@,
            "ontology query/export/write operations"@,
            seq!["query_path"@, "export_snapshot"@, "upsert_entities"@, "upsert_edges"@],
        ),
        (
            "ledgerr_xero"@,
            "Xero accounting integration: contacts, accounts, bank accounts, entity linking"@,
            seq!["get_auth_url"@, "exchange_code"@, "fetch_contacts"@, "search_contacts"@, "fetch_accounts"@, "fetch_bank_accounts"@, "fetch_invoices"@, "link_entity"@, "sync_catalog"@],
        ),
        (
            "ledgerr_focus"@,
            "FOCUS (FinOps Cost Usage Spec) v1.3 cost/usage records, FocusDelta comparison, experiment scoring"@,
            seq!["append_focus_record"@, "query_focus_summary"@, "compute_focus_delta"@, "experiment_score"@],
        ),
        (
            "ledgerr_evidence"@,
            "evidence traceability: provenance gaps, transaction lineage, review badges, graph summary and node queries"@,
            seq!["provenance_gaps"@, "trace_tx"@, "summary"@, "list_nodes"@, "node_detail"@],
        ),
        (
            "ledgerr_schema"@,
            "runtime schema extensibility: register, list, remove, and inspect custom entity kinds"@,
            seq!["list_kinds"@, "register_kind"@, "remove_kind"@, "get_kind"@],
        ),
        (
            "ledgerr_manifest"@,
            "returns the full canonical viz-manifest: mapping of type IDs to their canonical Rhai DSL source strings"@,
            seq!["get_manifest"@],
        )
    ]
}

/// The views of a list of tool contracts.
pub open spec fn tool_contracts_view(v: Seq<ToolContractSpec>) -> Seq<ToolContractView> {
    v.map_values(|s: ToolContractSpec| s@)
}

/// The published catalogue: the twelve `ledgerr_*` tools with their purposes
/// and actions.
pub fn published_tools() -> (r: Vec<ToolContractSpec>)
    ensures
        tool_contracts_view(r@) == published_tools_spec(),
{
    let mut v: Vec<ToolContractSpec> = Vec::new();
    v.push(
        ToolContractSpec {
            name: "ledgerr_documents",
            purpose: "document intake (PDF, image, CSV), tagging, filesystem metadata sync",
            actions: &["list_accounts", "pipeline_status", "validate_filename", "ingest_pdf", "ingest_image", "ingest_rows", "get_raw_context", "document_inventory", "apply_tags", "remove_tags", "list_tagged", "sync_fs_metadata", "normalize_filename"],
        },
    );
    v.push(
        ToolContractSpec {
            name: "ledgerr_review",
            purpose: "classification and human-review workflows",
            actions: &["run_rule", "classify_ingested", "query_flags", "classify_transaction", "reconcile_excel_classification", "query_transactions", "batch_classify", "bulk_resolve_flags", "apply_mapping_bulk", "fetch_work_queue"],
        },
    );
    v.push(
        ToolContractSpec {
            name: "ledgerr_reconciliation",
            purpose: "staged totals/postings guardrails",
            actions: &["validate", "reconcile", "commit"],
        },
    );
    v.push(
        ToolContractSpec {
            name: "ledgerr_workflow",
            purpose: "lifecycle/HSM orchestration plus relocated plugin ops",
            actions: &["status", "transition", "resume", "plugin_info"],
        },
    );
    v.push(
        ToolContractSpec {
            name: "ledgerr_audit",
            purpose: "append-only event and audit-log views",
            actions: &["event_history", "event_replay", "query_audit_log"],
        },
    );
    v.push(
        ToolContractSpec {
            name: "ledgerr_tax",
            purpose: "tax summaries, evidence, ambiguity review, workbook export",
            actions: &["assist", "evidence_chain", "ambiguity_review", "schedule_summary", "export_workbook"],
        },
    );
    v.push(
        ToolContractSpec {
            name: "ledgerr_ontology",
            purpose: "ontology query/export/write operations",
            actions: &["query_path", "export_snapshot", "upsert_entities", "upsert_edges"],
        },
    );
    v.push(
        ToolContractSpec {
            name: "ledgerr_xero",
            purpose: "Xero accounting integration: contacts, accounts, bank accounts, entity linking",
            actions: &["get_auth_url", "exchange_code", "fetch_contacts", "search_contacts", "fetch_accounts", "fetch_bank_accounts", "fetch_invoices", "link_entity", "sync_catalog"],
        },
    );
    v.push(
        ToolContractSpec {
            name: "ledgerr_focus",
            purpose: "FOCUS (FinOps Cost Usage Spec) v1.3 cost/usage records, FocusDelta comparison, experiment scoring",
            actions: &["append_focus_record", "query_focus_summary", "compute_focus_delta", "experiment_score"],
        },
    );
    v.push(
        ToolContractSpec {
            name: "ledgerr_evidence",
            purpose: "evidence traceability: provenance gaps, transaction lineage, review badges, graph summary and node queries",
            actions: &["provenance_gaps", "trace_tx", "summary", "list_nodes", "node_detail"],
        },
    );
    v.push(
        ToolContractSpec {
            name: "ledgerr_schema",
            purpose: "runtime schema extensibility: register, list, remove, and inspect custom entity kinds",
            actions: &["list_kinds", "register_kind", "remove_kind", "get_kind"],
        },
    );
    v.push(
        ToolContractSpec {
            name: "ledgerr_manifest",
            purpose: "returns the full canonical viz-manifest: mapping of type IDs to their canonical Rhai DSL source strings",
            actions: &["get_manifest"],
        },
    );
    assert(v@[0].actions@.map_values(|a: &'static str| a@) =~= seq!["list_accounts"@, "pipeline_status"@, "validate_filename"@, "ingest_pdf"@, "ingest_image"@, "ingest_rows"@, "get_raw_context"@, "document_inventory"@, "apply_tags"@, "remove_tags"@, "list_tagged"@, "sync_fs_metadata"@, "normalize_filename"@]);
    assert(v@[0]@ == published_tools_spec()[0]);
    assert(v@[1].actions@.map_values(|a: &'static str| a@) =~= seq!["run_rule"@, "classify_ingested"@, "query_flags"@, "classify_transaction"@, "reconcile_excel_classification"@, "query_transactions"@, "batch_classify"@, "bulk_resolve_flags"@, "apply_mapping_bulk"@, "fetch_work_queue"@]);
    assert(v@[1]@ == published_tools_spec()[1]);
    assert(v@[2].actions@.map_values(|a: &'static str| a@) =~= seq!["validate"@, "reconcile"@, "commit"@]);
    assert(v@[2]@ == published_tools_spec()[2]);
    assert(v@[3].actions@.map_values(|a: &'static str| a@) =~= seq!["status"@, "transition"@, "resume"@, "plugin_info"@]);
    assert(v@[3]@ == published_tools_spec()[3]);
    assert(v@[4].actions@.map_values(|a: &'static str| a@) =~= seq!["event_history"@, "event_replay"@, "query_audit_log"@]);
    assert(v@[4]@ == published_tools_spec()[4]);
    assert(v@[5].actions@.map_values(|a: &'static str| a@) =~= seq!["assist"@, "evidence_chain"@, "ambiguity_review"@, "schedule_summary"@, "export_workbook"@]);
    assert(v@[5]@ == published_tools_spec()[5]);
    assert(v@[6].actions@.map_values(|a: &'static str| a@) =~= seq!["query_path"@, "export_snapshot"@, "upsert_entities"@, "upsert_edges"@]);
    assert(v@[6]@ == published_tools_spec()[6]);
    assert(v@[7].actions@.map_values(|a: &'static str| a@) =~= seq!["get_auth_url"@, "exchange_code"@, "fetch_contacts"@, "search_contacts"@, "fetch_accounts"@, "fetch_bank_accounts"@, "fetch_invoices"@, "link_entity"@, "sync_catalog"@]);
    assert(v@[7]@ == published_tools_spec()[7]);
    assert(v@[8].actions@.map_values(|a: &'static str| a@) =~= seq!["append_focus_record"@, "query_focus_summary"@, "compute_focus_delta"@, "experiment_score"@]);
    assert(v@[8]@ == published_tools_spec()[8]);
    assert(v@[9].actions@.map_values(|a: &'static str| a@) =~= seq!["provenance_gaps"@, "trace_tx"@, "summary"@, "list_nodes"@, "node_detail"@]);
    assert(v@[9]@ == published_tools_spec()[9]);
    assert(v@[10].actions@.map_values(|a: &'static str| a@) =~= seq!["list_kinds"@, "register_kind"@, "remove_kind"@, "get_kind"@]);
    assert(v@[10]@ == published_tools_spec()[10]);
    assert(v@[11].actions@.map_values(|a: &'static str| a@) =~= seq!["get_manifest"@]);
    assert(v@[11]@ == published_tools_spec()[11]);
    assert(tool_contracts_view(v@) =~= published_tools_spec());
    v
}

/// The demo script that drives the server over stdio: `basic` runs the
/// happy path, `spinning-wheels` the blocked outcomes.
pub open spec fn mcp_cli_demo_script_text() -> Seq<char> {
    "#!/usr/bin/env bash\nset -euo pipefail\n\n\
DEMO_ROOT=\"${DEMO_ROOT:-/tmp/l3dg3rr-mcp-demo-$$}\"\n\
JOURNAL_PATH=\"${JOURNAL_PATH:-$DEMO_ROOT/demo.beancount}\"\n\
WORKBOOK_PATH=\"${WORKBOOK_PATH:-$DEMO_ROOT/demo.xlsx}\"\n\
ONTOLOGY_PATH=\"${ONTOLOGY_PATH:-$DEMO_ROOT/demo.ontology.json}\"\n\
SOURCE_REF=\"${SOURCE_REF:-wf-2023-01.rkyv}\"\n\
MODE=\"${1:-basic}\"\n\n\
mkdir -p \"$DEMO_ROOT\"\n\n\
if [[ \"$MODE\" == \"basic\" ]]; then\n  \
cargo run -q -p ledgerr-mcp --bin ledgerr-mcp-server <<EOF\n\
{\"jsonrpc\":\"2.0\",\"id\":1,\"method\":\"initialize\",\"params\":{\"clientInfo\":{\"name\":\"demo\",\"version\":\"0.1.0\"}}}\n\
{\"jsonrpc\":\"2.0\",\"method\":\"notifications/initialized\",\"params\":{}}\n\
{\"jsonrpc\":\"2.0\",\"id\":2,\"method\":\"tools/list\",\"params\":{}}\n\
{\"jsonrpc\":\"2.0\",\"id\":3,\"method\":\"tools/call\",\"params\":{\"name\":\"ledgerr_documents\",\"arguments\":{\"action\":\"pipeline_status\"}}}\n\
{\"jsonrpc\":\"2.0\",\"id\":4,\"method\":\"tools/call\",\"params\":{\"name\":\"ledgerr_documents\",\"arguments\":{\"action\":\"list_accounts\"}}}\n\
{\"jsonrpc\":\"2.0\",\"id\":5,\"method\":\"tools/call\",\"params\":{\"name\":\"ledgerr_documents\",\"arguments\":{\"action\":\"ingest_pdf\",\"pdf_path\":\"WF--BH-CHK--2023-01--statement.pdf\",\"journal_path\":\"$JOURNAL_PATH\",\"workbook_path\":\"$WORKBOOK_PATH\",\"ontology_path\":\"$ONTOLOGY_PATH\",\"raw_context_bytes\":[99,116,120],\"extracted_rows\":[{\"account_id\":\"WF-BH-CHK\",\"date\":\"2023-01-15\",\"amount\":\"-42.11\",\"description\":\"Coffee Shop\",\"source_ref\":\"$SOURCE_REF\"}]}}}\n\
{\"jsonrpc\":\"2.0\",\"id\":6,\"method\":\"tools/call\",\"params\":{\"name\":\"ledgerr_audit\",\"arguments\":{\"action\":\"event_history\"}}}\n\
{\"jsonrpc\":\"2.0\",\"id\":7,\"method\":\"tools/call\",\"params\":{\"name\":\"ledgerr_ontology\",\"arguments\":{\"action\":\"export_snapshot\",\"ontology_path\":\"$ONTOLOGY_PATH\"}}}\n\
EOF\n  \
exit 0\n\
fi\n\n\
if [[ \"$MODE\" == \"spinning-wheels\" ]]; then\n  \
cargo run -q -p ledgerr-mcp --bin ledgerr-mcp-server <<'EOF'\n\
{\"jsonrpc\":\"2.0\",\"id\":1,\"method\":\"initialize\",\"params\":{\"clientInfo\":{\"name\":\"demo\",\"version\":\"0.1.0\"}}}\n\
{\"jsonrpc\":\"2.0\",\"method\":\"notifications/initialized\",\"params\":{}}\n\
{\"jsonrpc\":\"2.0\",\"id\":2,\"method\":\"tools/call\",\"params\":{\"name\":\"ledgerr_workflow\",\"arguments\":{\"action\":\"resume\",\"state_marker\":\"invalid-checkpoint\"}}}\n\
{\"jsonrpc\":\"2.0\",\"id\":3,\"method\":\"tools/call\",\"params\":{\"name\":\"ledgerr_reconciliation\",\"arguments\":{\"action\":\"commit\",\"source_total\":\"100.00\",\"extracted_total\":\"95.00\",\"posting_amounts\":[\"-95.00\",\"95.00\"]}}}\n\
{\"jsonrpc\":\"2.0\",\"id\":4,\"method\":\"tools/call\",\"params\":{\"name\":\"ledgerr_audit\",\"arguments\":{\"action\":\"event_history\",\"time_start\":\"2026-12-31\",\"time_end\":\"2026-01-01\"}}}\n\
EOF\n  \
exit 0\n\
fi\n\n\
echo \"usage: $0 [basic|spinning-wheels]\" >&2\n\
exit 2\n"@
}

/// The MCP command-line demo script.
pub fn generated_mcp_cli_demo_script() -> (r: String)
    ensures
        r@ == mcp_cli_demo_script_text(),
{
    owned(
        "#!/usr/bin/env bash\nset -euo pipefail\n\n\
DEMO_ROOT=\"${DEMO_ROOT:-/tmp/l3dg3rr-mcp-demo-$$}\"\n\
JOURNAL_PATH=\"${JOURNAL_PATH:-$DEMO_ROOT/demo.beancount}\"\n\
WORKBOOK_PATH=\"${WORKBOOK_PATH:-$DEMO_ROOT/demo.xlsx}\"\n\
ONTOLOGY_PATH=\"${ONTOLOGY_PATH:-$DEMO_ROOT/demo.ontology.json}\"\n\
SOURCE_REF=\"${SOURCE_REF:-wf-2023-01.rkyv}\"\n\
MODE=\"${1:-basic}\"\n\n\
mkdir -p \"$DEMO_ROOT\"\n\n\
if [[ \"$MODE\" == \"basic\" ]]; then\n  \
cargo run -q -p ledgerr-mcp --bin ledgerr-mcp-server <<EOF\n\
{\"jsonrpc\":\"2.0\",\"id\":1,\"method\":\"initialize\",\"params\":{\"clientInfo\":{\"name\":\"demo\",\"version\":\"0.1.0\"}}}\n\
{\"jsonrpc\":\"2.0\",\"method\":\"notifications/initialized\",\"params\":{}}\n\
{\"jsonrpc\":\"2.0\",\"id\":2,\"method\":\"tools/list\",\"params\":{}}\n\
{\"jsonrpc\":\"2.0\",\"id\":3,\"method\":\"tools/call\",\"params\":{\"name\":\"ledgerr_documents\",\"arguments\":{\"action\":\"pipeline_status\"}}}\n\
{\"jsonrpc\":\"2.0\",\"id\":4,\"method\":\"tools/call\",\"params\":{\"name\":\"ledgerr_documents\",\"arguments\":{\"action\":\"list_accounts\"}}}\n\
{\"jsonrpc\":\"2.0\",\"id\":5,\"method\":\"tools/call\",\"params\":{\"name\":\"ledgerr_documents\",\"arguments\":{\"action\":\"ingest_pdf\",\"pdf_path\":\"WF--BH-CHK--2023-01--statement.pdf\",\"journal_path\":\"$JOURNAL_PATH\",\"workbook_path\":\"$WORKBOOK_PATH\",\"ontology_path\":\"$ONTOLOGY_PATH\",\"raw_context_bytes\":[99,116,120],\"extracted_rows\":[{\"account_id\":\"WF-BH-CHK\",\"date\":\"2023-01-15\",\"amount\":\"-42.11\",\"description\":\"Coffee Shop\",\"source_ref\":\"$SOURCE_REF\"}]}}}\n\
{\"jsonrpc\":\"2.0\",\"id\":6,\"method\":\"tools/call\",\"params\":{\"name\":\"ledgerr_audit\",\"arguments\":{\"action\":\"event_history\"}}}\n\
{\"jsonrpc\":\"2.0\",\"id\":7,\"method\":\"tools/call\",\"params\":{\"name\":\"ledgerr_ontology\",\"arguments\":{\"action\":\"export_snapshot\",\"ontology_path\":\"$ONTOLOGY_PATH\"}}}\n\
EOF\n  \
exit 0\n\
fi\n\n\
if [[ \"$MODE\" == \"spinning-wheels\" ]]; then\n  \
cargo run -q -p ledgerr-mcp --bin ledgerr-mcp-server <<'EOF'\n\
{\"jsonrpc\":\"2.0\",\"id\":1,\"method\":\"initialize\",\"params\":{\"clientInfo\":{\"name\":\"demo\",\"version\":\"0.1.0\"}}}\n\
{\"jsonrpc\":\"2.0\",\"method\":\"notifications/initialized\",\"params\":{}}\n\
{\"jsonrpc\":\"2.0\",\"id\":2,\"method\":\"tools/call\",\"params\":{\"name\":\"ledgerr_workflow\",\"arguments\":{\"action\":\"resume\",\"state_marker\":\"invalid-checkpoint\"}}}\n\
{\"jsonrpc\":\"2.0\",\"id\":3,\"method\":\"tools/call\",\"params\":{\"name\":\"ledgerr_reconciliation\",\"arguments\":{\"action\":\"commit\",\"source_total\":\"100.00\",\"extracted_total\":\"95.00\",\"posting_amounts\":[\"-95.00\",\"95.00\"]}}}\n\
{\"jsonrpc\":\"2.0\",\"id\":4,\"method\":\"tools/call\",\"params\":{\"name\":\"ledgerr_audit\",\"arguments\":{\"action\":\"event_history\",\"time_start\":\"2026-12-31\",\"time_end\":\"2026-01-01\"}}}\n\
EOF\n  \
exit 0\n\
fi\n\n\
echo \"usage: $0 [basic|spinning-wheels]\" >&2\n\
exit 2\n",
    )
}

/// A published tool's actions as a table cell: each in backticks, joined
/// by `, `.
pub open spec fn action_cell_text(actions: Seq<Seq<char>>) -> Seq<char>
    decreases actions.len(),
{
    if actions.len() == 0 {
        Seq::empty()
    } else if actions.len() == 1 {
        "`"@ + actions[0] + "`"@
    } else {
        action_cell_text(actions.drop_last()) + ", "@ + "`"@ + actions.last() + "`"@
    }
}

/// A published tool as a row of the capability table.
pub open spec fn contract_table_row(t: ToolContractView) -> Seq<char> {
    "| `"@ + t.0 + "` | "@ + t.1 + " | "@ + action_cell_text(t.2) + " |\n"@
}

/// The rows of the capability table, one per tool, in order.
pub open spec fn contract_table_rows(ts: Seq<ToolContractView>) -> Seq<char>
    decreases ts.len(),
{
    if ts.len() == 0 {
        Seq::empty()
    } else {
        contract_table_rows(ts.drop_last()) + contract_table_row(ts.last())
    }
}

/// The capability contract up to its table of tools, for a catalogue of
/// `count` tools.
pub open spec fn capability_contract_head(count: Seq<char>) -> Seq<char> {
    "# MCP Capability Contract (Generated)\n\n"@
        + "This file is generated from `crates/ledgerr-mcp/src/contract.rs`.\n\n\
Rust code is the only source of truth for the published MCP surface. If this file drifts from the contract module, tests should fail.\n\n"@
        + "The default catalog is intentionally small: "@
        + count
        + " top-level `ledgerr_*` tools. Each tool uses a required `action` field so the major capability families stay visible while related operations are grouped under one top-level command.\n\n"@
        + "## Published MCP Tools\n\n"@
        + "| Tool | Purpose | Common actions |\n|---|---|---|\n"@
}

/// The capability contract: its head, one table row per published tool,
/// then the sections after the table with the three examples in place.
pub open spec fn capability_contract_text(
    documents_example: Seq<char>,
    reconciliation_example: Seq<char>,
    tax_example: Seq<char>,
) -> Seq<char> {
    capability_contract_head(decimal_spec(published_tools_spec().len()))
        + contract_table_rows(published_tools_spec())
        + "\nThe concrete parser, action enums, field aliases, and JSON Schemas all live in [crates/ledgerr-mcp/src/contract.rs](../crates/ledgerr-mcp/src/contract.rs).\n\n\
The transport adapter in [crates/ledgerr-mcp/src/mcp_adapter.rs](../crates/ledgerr-mcp/src/mcp_adapter.rs) consumes that contract rather than re-describing it by hand.\n\n"@
        + "## Compatibility\n\n\
The server still accepts older `l3dg3rr_*` and proxy-style call names as hidden compatibility aliases, but they are no longer advertised in `tools/list`. Agents should use the `ledgerr_*` tools above by default.\n\n"@
        + "## Internal Service API\n\n\
Canonical trait:\n[TurboLedgerTools in crates/ledgerr-mcp/src/lib.rs](../crates/ledgerr-mcp/src/lib.rs#L289)\n\n\
Important distinction:\n- The MCP surface is the published `ledgerr_*` catalog defined in Rust.\n- The internal service trait remains more granular and implementation-oriented.\n\n\
API layering:\n1. `ledgerr-mcp-server` (stdio transport)\n2. `contract` (published tool families, action enums, generated schema/doc artifacts)\n3. `mcp_adapter` (dispatch + envelope shaping)\n4. `TurboLedgerService` (domain logic, guardrails, state/event/HSM ops)\n5. `ledger-core` (ingest, filename validation, classification primitives)\n\n"@
        + "## Example Flow\n\n"@
        + "### Step A: initialize and list tools\n\n"@
        + "```json\n"@
        + "{\"jsonrpc\":\"2.0\",\"id\":1,\"method\":\"initialize\",\"params\":{\"clientInfo\":{\"name\":\"demo\",\"version\":\"0.1.0\"}}}\n"@
        + "{\"jsonrpc\":\"2.0\",\"method\":\"notifications/initialized\",\"params\":{}}\n"@
        + "{\"jsonrpc\":\"2.0\",\"id\":2,\"method\":\"tools/list\",\"params\":{}}\n"@
        + "```\n\n"@
        + "### Step B: ingest a PDF through `ledgerr_documents`\n\n```json\n"@
        + documents_example
        + "\n```\n\n"@
        + "### Step C: run reconciliation commit gate\n\n```json\n"@
        + reconciliation_example
        + "\n```\n\n"@
        + "### Step D: inspect workflow status and audit replay\n\n```json\n"@
        + "{\"jsonrpc\":\"2.0\",\"id\":5,\"method\":\"tools/call\",\"params\":{\"name\":\"ledgerr_workflow\",\"arguments\":{\"action\":\"status\"}}}\n"@
        + "{\"jsonrpc\":\"2.0\",\"id\":6,\"method\":\"tools/call\",\"params\":{\"name\":\"ledgerr_audit\",\"arguments\":{\"action\":\"event_replay\",\"document_ref\":\"wf-2023-01.rkyv\"}}}\n"@
        + "```\n\n"@
        + "### Step E: ask for tax evidence\n\n```json\n"@
        + tax_example
        + "\n```\n\n"@
        + "## Current Gaps\n\n\
Open design/roadmap gaps are tracked in:\n\
- `#20` persistent state across restart\n\
- `#21` workbook export completeness\n\
- `#22` schema/doc drift elimination\n\
- `#23` document inventory/queue\n\
- `#24` unified work queue\n\
- `#25` batch review actions\n\
- `#26` transaction query + preflight/rule preview\n"@
}

/// The table cell that lists a tool's actions.
fn action_cell(actions: &[&str]) -> (r: String)
    ensures
        r@ == action_cell_text(actions@.map_values(|a: &str| a@)),
{
    let ghost names = actions@.map_values(|a: &str| a@);
    let mut cell = String::new();
    let mut i: usize = 0;
    while i < actions.len()
        invariant
            i <= actions@.len(),
            names == actions@.map_values(|a: &str| a@),
            cell@ == action_cell_text(names.take(i as int)),
        decreases actions.len() - i,
    {
        proof {
            assert(names.take(i as int + 1).drop_last() =~= names.take(i as int));
        }
        if i > 0 {
            push_str(&mut cell, ", ");
        }
        push_str(&mut cell, "`");
        push_str(&mut cell, actions[i]);
        push_str(&mut cell, "`");
        proof {
            if i == 0 {
                assert(cell@ =~= "`"@ + names[0] + "`"@);
            }
        }
        i = i + 1;
    }
    proof {
        assert(names.take(actions@.len() as int) =~= names);
    }
    cell
}

/// The capability contract in Markdown: the published tools as a table,
/// the layering of the server, and a worked example flow. The three
/// examples are the pretty-printed JSON requests of its steps B, C and E.
pub fn generated_capability_contract_markdown(
    documents_example: &str,
    reconciliation_example: &str,
    tax_example: &str,
) -> (r: String)
    ensures
        r@ == capability_contract_text(documents_example@, reconciliation_example@, tax_example@),
{
    let tools = published_tools();
    let count = u64_decimal(tools.len() as u64);
    let mut doc = String::new();
    push_str(&mut doc, "# MCP Capability Contract (Generated)\n\n");
    push_str(&mut doc, "This file is generated from `crates/ledgerr-mcp/src/contract.rs`.\n\n\
Rust code is the only source of truth for the published MCP surface. If this file drifts from the contract module, tests should fail.\n\n");
    push_str(&mut doc, "The default catalog is intentionally small: ");
    push_str(&mut doc, count.as_str());
    push_str(&mut doc, " top-level `ledgerr_*` tools. Each tool uses a required `action` field so the major capability families stay visible while related operations are grouped under one top-level command.\n\n");
    push_str(&mut doc, "## Published MCP Tools\n\n");
    push_str(&mut doc, "| Tool | Purpose | Common actions |\n|---|---|---|\n");
    proof {
        assert(doc@ =~= capability_contract_head(count@));
    }
    let ghost head = doc@;
    let ghost views = tool_contracts_view(tools@);
    let mut i: usize = 0;
    while i < tools.len()
        invariant
            i <= tools@.len(),
            views == tool_contracts_view(tools@),
            doc@ == head + contract_table_rows(views.take(i as int)),
        decreases tools.len() - i,
    {
        proof {
            assert(views.take(i as int + 1).drop_last() =~= views.take(i as int));
        }
        let tool = &tools[i];
        let cell = action_cell(tool.actions);
        push_str(&mut doc, "| `");
        push_str(&mut doc, tool.name);
        push_str(&mut doc, "` | ");
        push_str(&mut doc, tool.purpose);
        push_str(&mut doc, " | ");
        push_str(&mut doc, cell.as_str());
        push_str(&mut doc, " |\n");
        proof {
            assert(views[i as int] == tool@);
            assert(doc@ =~= head + contract_table_rows(views.take(i as int + 1)));
        }
        i = i + 1;
    }
    proof {
        assert(views.take(tools@.len() as int) =~= views);
    }
    push_str(&mut doc, "\nThe concrete parser, action enums, field aliases, and JSON Schemas all live in [crates/ledgerr-mcp/src/contract.rs](../crates/ledgerr-mcp/src/contract.rs).\n\n\
The transport adapter in [crates/ledgerr-mcp/src/mcp_adapter.rs](../crates/ledgerr-mcp/src/mcp_adapter.rs) consumes that contract rather than re-describing it by hand.\n\n");
    push_str(&mut doc, "## Compatibility\n\n\
The server still accepts older `l3dg3rr_*` and proxy-style call names as hidden compatibility aliases, but they are no longer advertised in `tools/list`. Agents should use the `ledgerr_*` tools above by default.\n\n");
    push_str(&mut doc, "## Internal Service API\n\n\
Canonical trait:\n[TurboLedgerTools in crates/ledgerr-mcp/src/lib.rs](../crates/ledgerr-mcp/src/lib.rs#L289)\n\n\
Important distinction:\n- The MCP surface is the published `ledgerr_*` catalog defined in Rust.\n- The internal service trait remains more granular and implementation-oriented.\n\n\
API layering:\n1. `ledgerr-mcp-server` (stdio transport)\n2. `contract` (published tool families, action enums, generated schema/doc artifacts)\n3. `mcp_adapter` (dispatch + envelope shaping)\n4. `TurboLedgerService` (domain logic, guardrails, state/event/HSM ops)\n5. `ledger-core` (ingest, filename validation, classification primitives)\n\n");
    push_str(&mut doc, "## Example Flow\n\n");
    push_str(&mut doc, "### Step A: initialize and list tools\n\n");
    push_str(&mut doc, "```json\n");
    push_str(&mut doc, "{\"jsonrpc\":\"2.0\",\"id\":1,\"method\":\"initialize\",\"params\":{\"clientInfo\":{\"name\":\"demo\",\"version\":\"0.1.0\"}}}\n");
    push_str(&mut doc, "{\"jsonrpc\":\"2.0\",\"method\":\"notifications/initialized\",\"params\":{}}\n");
    push_str(&mut doc, "{\"jsonrpc\":\"2.0\",\"id\":2,\"method\":\"tools/list\",\"params\":{}}\n");
    push_str(&mut doc, "```\n\n");
    push_str(&mut doc, "### Step B: ingest a PDF through `ledgerr_documents`\n\n```json\n");
    push_str(&mut doc, documents_example);
    push_str(&mut doc, "\n```\n\n");
    push_str(&mut doc, "### Step C: run reconciliation commit gate\n\n```json\n");
    push_str(&mut doc, reconciliation_example);
    push_str(&mut doc, "\n```\n\n");
    push_str(&mut doc, "### Step D: inspect workflow status and audit replay\n\n```json\n");
    push_str(&mut doc, "{\"jsonrpc\":\"2.0\",\"id\":5,\"method\":\"tools/call\",\"params\":{\"name\":\"ledgerr_workflow\",\"arguments\":{\"action\":\"status\"}}}\n");
    push_str(&mut doc, "{\"jsonrpc\":\"2.0\",\"id\":6,\"method\":\"tools/call\",\"params\":{\"name\":\"ledgerr_audit\",\"arguments\":{\"action\":\"event_replay\",\"document_ref\":\"wf-2023-01.rkyv\"}}}\n");
    push_str(&mut doc, "```\n\n");
    push_str(&mut doc, "### Step E: ask for tax evidence\n\n```json\n");
    push_str(&mut doc, tax_example);
    push_str(&mut doc, "\n```\n\n");
    push_str(&mut doc, "## Current Gaps\n\n\
Open design/roadmap gaps are tracked in:\n\
- `#20` persistent state across restart\n\
- `#21` workbook export completeness\n\
- `#22` schema/doc drift elimination\n\
- `#23` document inventory/queue\n\
- `#24` unified work queue\n\
- `#25` batch review actions\n\
- `#26` transaction query + preflight/rule preview\n");
    doc
}

} // verus!
