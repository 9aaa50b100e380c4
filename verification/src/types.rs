//! Request and response shapes of the service operations.
use vstd::prelude::*;

use crate::contract::{PaginationSpec, SortSpec, TransactionFilters, TransactionRow};
use crate::events::EventHistoryFilter;
use crate::text::str_eq;

verus! {

/// An account the service knows.
#[derive(Debug, Clone)]
pub struct AccountSummary {
    pub account_id: String,
}

/// Request to list the accounts.
#[derive(Debug, Clone, Copy)]
pub struct ListAccountsRequest;

/// The accounts of the service.
#[derive(Debug, Clone)]
pub struct ListAccountsResponse {
    pub accounts: Vec<AccountSummary>,
}

/// Rows written by a statement ingest.
#[derive(Debug, Clone)]
pub struct IngestStatementRowsResponse {
    pub inserted_count: usize,
    pub tx_ids: Vec<String>,
}

/// Rows written by a PDF ingest.
#[derive(Debug, Clone)]
pub struct IngestPdfResponse {
    pub inserted_count: usize,
    pub tx_ids: Vec<String>,
}

/// Request for the raw context stored beside a statement.
#[derive(Debug, Clone)]
pub struct GetRawContextRequest {
    pub rkyv_ref: String,
}

/// The raw context bytes of a statement.
#[derive(Debug, Clone)]
pub struct GetRawContextResponse {
    pub bytes: Vec<u8>,
}

/// Where a document stands in the intake queue.
#[derive(Debug, Clone, Copy, PartialEq, Eq, Structural)]
pub enum DocumentQueueStatusRequest {
    InvalidName,
    Ready,
    Ingested,
}

/// The wire name of a queue status.
pub open spec fn queue_status_name(s: DocumentQueueStatusRequest) -> Seq<char> {
    match s {
        DocumentQueueStatusRequest::InvalidName => "invalid_name"@,
        DocumentQueueStatusRequest::Ready => "ready"@,
        DocumentQueueStatusRequest::Ingested => "ingested"@,
    }
}

impl DocumentQueueStatusRequest {
    /// The wire name of the status.
    pub fn as_str(self) -> (r: &'static str)
        ensures
            r@ == queue_status_name(self),
    {
        match self {
            Self::InvalidName => "invalid_name",
            Self::Ready => "ready",
            Self::Ingested => "ingested",
        }
    }

    /// The status with the given wire name, if there is one.
    pub fn parse(value: &str) -> (r: Option<Self>)
        ensures
            match r {
                Some(s) => queue_status_name(s) == value@,
                None => forall|s: DocumentQueueStatusRequest| queue_status_name(s) != value@,
            },
    {
        proof {
            reveal_strlit("invalid_name");
            reveal_strlit("ready");
            reveal_strlit("ingested");
        }
        if str_eq(value, "invalid_name") {
            Some(Self::InvalidName)
        } else if str_eq(value, "ready") {
            Some(Self::Ready)
        } else if str_eq(value, "ingested") {
            Some(Self::Ingested)
        } else {
            None
        }
    }
}

/// Reading back the wire name of a status gives the status.
pub proof fn lemma_queue_status_round_trip(s: DocumentQueueStatusRequest, t: DocumentQueueStatusRequest)
    ensures
        queue_status_name(s) == queue_status_name(t) ==> s == t,
{
    reveal_strlit("invalid_name");
    reveal_strlit("ready");
    reveal_strlit("ingested");
    assert("invalid_name"@.len() == 12);
    assert("ready"@.len() == 5);
    assert("ingested"@.len() == 8);
    if queue_status_name(s) == queue_status_name(t) {
        assert(queue_status_name(s).len() == queue_status_name(t).len());
    }
}

/// Request for the document inventory of a directory.
#[derive(Debug, Clone)]
pub struct DocumentInventoryRequest {
    pub directory: String,
    pub recursive: bool,
    pub statuses: Vec<DocumentQueueStatusRequest>,
}

/// One document of the inventory.
#[derive(Debug, Clone)]
pub struct DocumentRecordResponse {
    pub file_name: String,
    pub document_path: String,
    pub raw_context_ref: String,
    pub status: DocumentQueueStatusRequest,
    pub blocked_reason: Option<String>,
    pub next_hint: String,
    pub vendor: Option<String>,
    pub account_id: Option<String>,
    pub year_month: Option<String>,
    pub document_type: Option<String>,
    pub ingested_tx_ids: Vec<String>,
}

/// The document inventory of a directory.
#[derive(Debug, Clone)]
pub struct DocumentInventoryResponse {
    pub documents: Vec<DocumentRecordResponse>,
}

/// A sample transaction for a rule run.
#[derive(Debug, Clone)]
pub struct SampleTxRequest {
    pub tx_id: String,
    pub account_id: String,
    pub date: String,
    pub amount: String,
    pub description: String,
}

/// Run a classification rule file against a sample transaction.
#[derive(Debug, Clone)]
pub struct RunRhaiRuleRequest {
    pub rule_file: String,
    pub sample_tx: SampleTxRequest,
}

/// Review status of a flag.
#[derive(Debug, Clone, Copy, PartialEq, Eq, Structural)]
pub enum FlagStatusRequest {
    Open,
    Resolved,
}

/// Request for the review flags of a year.
#[derive(Debug, Clone, Copy)]
pub struct QueryFlagsRequest {
    pub year: i32,
    pub status: FlagStatusRequest,
}

/// Request for transactions by filter, order and page.
#[derive(Debug, Clone)]
pub struct QueryTransactionsRequest {
    pub filters: TransactionFilters,
    pub sort: Option<SortSpec>,
    pub pagination: Option<PaginationSpec>,
}

/// A page of transactions and the number that matched.
#[derive(Debug, Clone)]
pub struct QueryTransactionsResponse {
    pub transactions: Vec<TransactionRow>,
    pub total_count: usize,
}

/// Classify one transaction.
#[derive(Debug, Clone)]
pub struct ClassifyTransactionRequest {
    pub tx_id: String,
    pub category: String,
    pub confidence: String,
    pub note: Option<String>,
    pub actor: String,
}

/// Reconcile a classification edited in the workbook.
#[derive(Debug, Clone)]
pub struct ReconcileExcelClassificationRequest {
    pub tx_id: String,
    pub category: String,
    pub confidence: String,
    pub actor: String,
    pub note: Option<String>,
}

/// Request for the audit log.
#[derive(Debug, Clone, Copy)]
pub struct QueryAuditLogRequest;

/// One audit-log entry.
#[derive(Debug, Clone)]
pub struct AuditEntryResponse {
    pub timestamp: String,
    pub actor: String,
    pub tx_id: String,
    pub field: String,
    pub old_value: Option<String>,
    pub new_value: String,
    pub note: Option<String>,
}

/// Outcome of a classification with the audit entries it wrote.
#[derive(Debug, Clone)]
pub struct ClassifyTransactionResponse {
    pub tx_id: String,
    pub category: String,
    pub confidence: String,
    pub audit_entries: Vec<AuditEntryResponse>,
}

/// Replay the lifecycle events of a transaction or document.
#[derive(Debug, Clone)]
pub struct ReplayLifecycleRequest {
    pub tx_id: Option<String>,
    pub document_ref: Option<String>,
}

/// The state a replay reconstructed.
#[derive(Debug, Clone)]
pub struct ReplayLifecycleResponse {
    pub reconstructed_state: String,
    pub event_count: usize,
    pub diagnostics: Vec<String>,
    pub filter: EventHistoryFilter,
}

/// The audit log.
#[derive(Debug, Clone)]
pub struct QueryAuditLogResponse {
    pub entries: Vec<AuditEntryResponse>,
}

/// Export the CPA workbook to a path.
#[derive(Debug, Clone)]
pub struct ExportCpaWorkbookRequest {
    pub workbook_path: String,
}

/// How many sheets an export wrote.
#[derive(Debug, Clone, Copy)]
pub struct ExportCpaWorkbookResponse {
    pub sheets_written: usize,
}

/// Export the ontology snapshot stored at a path.
#[derive(Debug, Clone)]
pub struct OntologyExportSnapshotRequest {
    pub ontology_path: String,
}

/// A tax schedule.
#[derive(Debug, Clone, Copy, PartialEq, Eq, Structural)]
pub enum ScheduleKindRequest {
    ScheduleC,
    ScheduleD,
    ScheduleE,
    Fbar,
}

/// Request for the summary of a schedule in a year.
#[derive(Debug, Clone, Copy)]
pub struct GetScheduleSummaryRequest {
    pub year: i32,
    pub schedule: ScheduleKindRequest,
}

/// Ingest an image document.
#[derive(Debug, Clone)]
pub struct IngestImageRequest {
    pub image_path: String,
    pub doc_type: Option<String>,
    pub tags: Vec<String>,
    pub extract_with_llm: bool,
}

/// The document an image ingest recorded.
#[derive(Debug, Clone)]
pub struct IngestImageResponse {
    pub doc_id: String,
    pub file_name: String,
    pub doc_type: String,
    pub tags: Vec<String>,
    pub llm_extracted: bool,
}

/// Add tags to a document.
#[derive(Debug, Clone)]
pub struct ApplyTagsRequest {
    pub doc_ref: String,
    pub tags: Vec<String>,
    pub sync_fs: bool,
}

/// The tags of a document after a change.
#[derive(Debug, Clone)]
pub struct ApplyTagsResponse {
    pub doc_id: String,
    pub tags: Vec<String>,
}

/// Documents carrying all the given tags.
#[derive(Debug, Clone)]
pub struct ListTaggedRequest {
    pub tags: Vec<String>,
    pub doc_type: Option<String>,
    pub directory: Option<String>,
}

/// The documents a tag query found.
#[derive(Debug, Clone)]
pub struct ListTaggedResponse {
    pub documents: Vec<DocumentSummary>,
}

/// A document in a listing.
#[derive(Debug, Clone)]
pub struct DocumentSummary {
    pub doc_id: String,
    pub file_name: String,
    pub doc_type: String,
    pub tags: Vec<String>,
    pub status: String,
}

/// Synchronise sidecar metadata of a directory.
#[derive(Debug, Clone)]
pub struct SyncFsMetadataRequest {
    pub directory: String,
    pub recursive: bool,
}

/// Counts of a metadata synchronisation.
#[derive(Debug, Clone, Copy)]
pub struct SyncFsMetadataResponse {
    pub files_scanned: usize,
    pub files_synced: usize,
}

/// Propose (and optionally apply) a canonical file name.
#[derive(Debug, Clone)]
pub struct NormalizeFilenameRequest {
    pub file_path: String,
    pub vendor: String,
    pub account: String,
    pub year_month: String,
    pub doc_type: String,
    pub apply: bool,
}

/// The proposed file name.
#[derive(Debug, Clone)]
pub struct NormalizeFilenameResponse {
    pub proposed_name: String,
    pub original_name: String,
    pub renamed: bool,
}

} // verus!
