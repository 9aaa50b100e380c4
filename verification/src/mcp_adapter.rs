//! The tool catalogue the MCP adapter publishes and small helpers of its
//! dispatch.
use vstd::prelude::*;

use crate::error::ToolError;
use crate::ontology::OntologyEntityKind;
use crate::strmap::{sort_dedup, texts_ascending, texts_view};
use crate::text::{contains_spec, ascii_upper_seq, owned, str_contains, str_eq, to_ascii_uppercase};

verus! {

pub const DOCUMENTS_TOOL: &'static str = "ledgerr_documents";
pub const REVIEW_TOOL: &'static str = "ledgerr_review";
pub const RECONCILIATION_TOOL: &'static str = "ledgerr_reconciliation";
pub const WORKFLOW_TOOL: &'static str = "ledgerr_workflow";
pub const AUDIT_TOOL: &'static str = "ledgerr_audit";
pub const TAX_TOOL: &'static str = "ledgerr_tax";
pub const ONTOLOGY_TOOL: &'static str = "ledgerr_ontology";
pub const XERO_TOOL: &'static str = "ledgerr_xero";
pub const FOCUS_TOOL: &'static str = "ledgerr_focus";
pub const EVIDENCE_TOOL: &'static str = "ledgerr_evidence";

/// The top-level tools that are always published, in catalogue order.
pub open spec fn builtin_tool_names_spec() -> Seq<Seq<char>> {
    seq![
        DOCUMENTS_TOOL@,
        REVIEW_TOOL@,
        RECONCILIATION_TOOL@,
        WORKFLOW_TOOL@,
        AUDIT_TOOL@,
        TAX_TOOL@,
        ONTOLOGY_TOOL@,
        XERO_TOOL@,
        FOCUS_TOOL@,
        EVIDENCE_TOOL@,
    ]
}

/// The names of all top-level published tools.
pub fn tool_names() -> (r: Vec<String>)
    ensures
        texts_view(r@) == builtin_tool_names_spec(),
{
    let mut r: Vec<String> = Vec::new();
    r.push(owned(DOCUMENTS_TOOL));
    r.push(owned(REVIEW_TOOL));
    r.push(owned(RECONCILIATION_TOOL));
    r.push(owned(WORKFLOW_TOOL));
    r.push(owned(AUDIT_TOOL));
    r.push(owned(TAX_TOOL));
    r.push(owned(ONTOLOGY_TOOL));
    r.push(owned(XERO_TOOL));
    r.push(owned(FOCUS_TOOL));
    r.push(owned(EVIDENCE_TOOL));
    assert(texts_view(r@) =~= builtin_tool_names_spec());
    r
}

/// Whether the feature list names `f`.
pub open spec fn has_feature(features: Seq<&str>, f: Seq<char>) -> bool {
    exists|i: int| 0 <= i < features.len() && #[trigger] features[i]@ == f
}

/// The tools a feature set publishes: the core catalogue when no feature or
/// `core` is named, and the tool of each named feature.
pub open spec fn tools_for_spec(features: Seq<&str>) -> Set<Seq<char>> {
    let core = features.len() == 0 || has_feature(features, "core"@);
    Set::new(
        |t: Seq<char>|
            {
                ||| core && (t == DOCUMENTS_TOOL@ || t == REVIEW_TOOL@ || t
                    == RECONCILIATION_TOOL@ || t == WORKFLOW_TOOL@ || t == AUDIT_TOOL@ || t
                    == TAX_TOOL@ || t == ONTOLOGY_TOOL@ || t == XERO_TOOL@ || t == EVIDENCE_TOOL@
                    || t == FOCUS_TOOL@)
                ||| has_feature(features, "classification"@) && t == REVIEW_TOOL@
                ||| has_feature(features, "reconciliation"@) && t == RECONCILIATION_TOOL@
                ||| (has_feature(features, "events"@) || has_feature(features, "audit"@)) && t
                    == AUDIT_TOOL@
                ||| has_feature(features, "tax"@) && t == TAX_TOOL@
                ||| has_feature(features, "ontology"@) && t == ONTOLOGY_TOOL@
                ||| has_feature(features, "xero"@) && t == XERO_TOOL@
            },
    )
}

/// Whether the feature list names `f`.
fn feature_listed(features: &[&str], f: &str) -> (r: bool)
    ensures
        r == has_feature(features@, f@),
{
    let mut i: usize = 0;
    while i < features.len()
        invariant
            0 <= i <= features@.len(),
            forall|j: int| 0 <= j < i ==> #[trigger] features@[j]@ != f@,
        decreases features@.len() - i,
    {
        if str_eq(features[i], f) {
            assert(features@[i as int]@ == f@);
            return true;
        }
        i = i + 1;
    }
    false
}

/// Appends a copy of `name`.
fn push_name(list: &mut Vec<String>, name: &str)
    ensures
        texts_view(final(list)@) == texts_view(old(list)@).push(name@),
        texts_view(final(list)@).to_set() == texts_view(old(list)@).to_set().insert(name@),
{
    let ghost before = texts_view(list@);
    list.push(owned(name));
    proof {
        assert(texts_view(list@) =~= before.push(name@));
        before.lemma_push_to_set_commute(name@);
    }
}

/// The tools published for a feature set, sorted and without repeats.
pub fn tool_names_for(features: &[&str]) -> (r: Vec<String>)
    ensures
        texts_ascending(texts_view(r@)),
        texts_view(r@).to_set() == tools_for_spec(features@),
{
    let mut tools: Vec<String> = Vec::new();
    assert(texts_view(tools@).to_set() =~= Set::<Seq<char>>::empty());
    let want_core = features.len() == 0 || feature_listed(features, "core");
    if want_core {
        push_name(&mut tools, DOCUMENTS_TOOL);
        push_name(&mut tools, REVIEW_TOOL);
        push_name(&mut tools, RECONCILIATION_TOOL);
        push_name(&mut tools, WORKFLOW_TOOL);
        push_name(&mut tools, AUDIT_TOOL);
        push_name(&mut tools, TAX_TOOL);
        push_name(&mut tools, ONTOLOGY_TOOL);
        push_name(&mut tools, XERO_TOOL);
        push_name(&mut tools, EVIDENCE_TOOL);
        push_name(&mut tools, FOCUS_TOOL);
    }
    let ghost s0 = texts_view(tools@).to_set();
    let classification = feature_listed(features, "classification");
    if classification {
        push_name(&mut tools, REVIEW_TOOL);
    }
    let ghost s1 = texts_view(tools@).to_set();
    let reconciliation = feature_listed(features, "reconciliation");
    if reconciliation {
        push_name(&mut tools, RECONCILIATION_TOOL);
    }
    let ghost s2 = texts_view(tools@).to_set();
    let audit = feature_listed(features, "events") || feature_listed(features, "audit");
    if audit {
        push_name(&mut tools, AUDIT_TOOL);
    }
    let ghost s3 = texts_view(tools@).to_set();
    let tax = feature_listed(features, "tax");
    if tax {
        push_name(&mut tools, TAX_TOOL);
    }
    let ghost s4 = texts_view(tools@).to_set();
    let ontology = feature_listed(features, "ontology");
    if ontology {
        push_name(&mut tools, ONTOLOGY_TOOL);
    }
    let ghost s5 = texts_view(tools@).to_set();
    let xero = feature_listed(features, "xero");
    if xero {
        push_name(&mut tools, XERO_TOOL);
    }
    proof {
        let core_set = Set::<Seq<char>>::empty().insert(DOCUMENTS_TOOL@).insert(REVIEW_TOOL@).insert(
            RECONCILIATION_TOOL@,
        ).insert(WORKFLOW_TOOL@).insert(AUDIT_TOOL@).insert(TAX_TOOL@).insert(
            ONTOLOGY_TOOL@,
        ).insert(XERO_TOOL@).insert(EVIDENCE_TOOL@).insert(FOCUS_TOOL@);
        assert(s0 =~= if want_core {
            core_set
        } else {
            Set::empty()
        });
        assert(texts_view(tools@).to_set() =~= tools_for_spec(features@));
    }
    sort_dedup(tools)
}

/// Whether the pipeline can take work, what blocks it, and what to do next.
#[derive(Debug, Clone)]
pub struct PipelineStatusResponse {
    pub status: String,
    pub blockers: Vec<String>,
    pub next_hint: String,
}

/// The blockers reported with the unavailable backends added.
pub open spec fn pipeline_blockers(
    manifest_ready: bool,
    rustledger_ready: bool,
    docling_ready: bool,
    blockers: Seq<Seq<char>>,
) -> Set<Seq<char>> {
    let a = if manifest_ready {
        blockers.to_set()
    } else {
        blockers.to_set().insert("manifest_unavailable"@)
    };
    let b = if rustledger_ready {
        a
    } else {
        a.insert("rustledger_unreachable"@)
    };
    if docling_ready {
        b
    } else {
        b.insert("docling_unreachable"@)
    }
}

/// The pipeline status: the given blockers plus one per unavailable backend,
/// sorted without repeats; `ready` when there are none, `blocked` otherwise.
pub fn get_pipeline_status(
    manifest_ready: bool,
    rustledger_ready: bool,
    docling_ready: bool,
    blockers: Vec<String>,
) -> (r: PipelineStatusResponse)
    ensures
        texts_ascending(texts_view(r.blockers@)),
        texts_view(r.blockers@).to_set() == pipeline_blockers(
            manifest_ready,
            rustledger_ready,
            docling_ready,
            texts_view(blockers@),
        ),
        r.blockers@.len() == 0 ==> r.status@ == "ready"@ && r.next_hint@
            == "call_proxy_ingest_pdf"@,
        r.blockers@.len() > 0 ==> r.status@ == "blocked"@ && r.next_hint@
            == "resolve_blockers_then_retry"@,
{
    let mut blockers = blockers;
    if !manifest_ready {
        push_name(&mut blockers, "manifest_unavailable");
    }
    if !rustledger_ready {
        push_name(&mut blockers, "rustledger_unreachable");
    }
    if !docling_ready {
        push_name(&mut blockers, "docling_unreachable");
    }
    let blockers = sort_dedup(blockers);
    if blockers.len() == 0 {
        PipelineStatusResponse {
            status: owned("ready"),
            blockers,
            next_hint: owned("call_proxy_ingest_pdf"),
        }
    } else {
        PipelineStatusResponse {
            status: owned("blocked"),
            blockers,
            next_hint: owned("resolve_blockers_then_retry"),
        }
    }
}

/// `BTC` for an account whose id, uppercased, mentions BTC; `USD` otherwise.
pub fn infer_currency(account_id: &str) -> (r: String)
    ensures
        r@ == if contains_spec(ascii_upper_seq(account_id@), "BTC"@) {
            "BTC"@
        } else {
            "USD"@
        },
{
    let upper = to_ascii_uppercase(account_id);
    if str_contains(upper.as_str(), "BTC") {
        owned("BTC")
    } else {
        owned("USD")
    }
}

/// The built-in entity kind a client names, if it names one.
pub open spec fn entity_kind_named(raw: Seq<char>) -> Option<OntologyEntityKind> {
    if raw == "Document"@ {
        Some(OntologyEntityKind::Document)
    } else if raw == "Account"@ {
        Some(OntologyEntityKind::Account)
    } else if raw == "Institution"@ {
        Some(OntologyEntityKind::Institution)
    } else if raw == "Transaction"@ {
        Some(OntologyEntityKind::Transaction)
    } else if raw == "TaxCategory"@ {
        Some(OntologyEntityKind::TaxCategory)
    } else if raw == "EvidenceReference"@ {
        Some(OntologyEntityKind::EvidenceReference)
    } else if raw == "XeroContact"@ {
        Some(OntologyEntityKind::XeroContact)
    } else if raw == "XeroBankAccount"@ {
        Some(OntologyEntityKind::XeroBankAccount)
    } else if raw == "XeroInvoice"@ {
        Some(OntologyEntityKind::XeroInvoice)
    } else if raw == "WorkflowTag"@ {
        Some(OntologyEntityKind::WorkflowTag)
    } else {
        None
    }
}

/// The message for an entity without a kind a client may create.
pub open spec fn entity_kind_error() -> Seq<char> {
    "missing or invalid `kind` in entity (must be Document, Account, Institution, Transaction, TaxCategory, EvidenceReference, XeroContact, XeroBankAccount, XeroInvoice, or WorkflowTag)"@
}

/// The entity kind a tool call names; refused when it is missing or not one
/// of the ten kinds a client may create.
pub fn parse_ontology_entity_kind(raw: Option<&str>) -> (r: Result<OntologyEntityKind, ToolError>)
    ensures
        match raw {
            Some(s) => match entity_kind_named(s@) {
                Some(k) => r == Ok::<OntologyEntityKind, ToolError>(k),
                None => r matches Err(ToolError::InvalidInput(m)) && m@ == entity_kind_error(),
            },
            None => r matches Err(ToolError::InvalidInput(m)) && m@ == entity_kind_error(),
        },
{
    let fail = ToolError::InvalidInput(
        owned(
            "missing or invalid `kind` in entity (must be Document, Account, Institution, Transaction, TaxCategory, EvidenceReference, XeroContact, XeroBankAccount, XeroInvoice, or WorkflowTag)",
        ),
    );
    match raw {
        None => Err(fail),
        Some(s) => {
            if str_eq(s, "Document") {
                Ok(OntologyEntityKind::Document)
            } else if str_eq(s, "Account") {
                Ok(OntologyEntityKind::Account)
            } else if str_eq(s, "Institution") {
                Ok(OntologyEntityKind::Institution)
            } else if str_eq(s, "Transaction") {
                Ok(OntologyEntityKind::Transaction)
            } else if str_eq(s, "TaxCategory") {
                Ok(OntologyEntityKind::TaxCategory)
            } else if str_eq(s, "EvidenceReference") {
                Ok(OntologyEntityKind::EvidenceReference)
            } else if str_eq(s, "XeroContact") {
                Ok(OntologyEntityKind::XeroContact)
            } else if str_eq(s, "XeroBankAccount") {
                Ok(OntologyEntityKind::XeroBankAccount)
            } else if str_eq(s, "XeroInvoice") {
                Ok(OntologyEntityKind::XeroInvoice)
            } else if str_eq(s, "WorkflowTag") {
                Ok(OntologyEntityKind::WorkflowTag)
            } else {
                Err(fail)
            }
        },
    }
}

/// The kinds of node of the evidence graph.
#[derive(Debug, Clone, Copy, PartialEq, Eq, Structural)]
pub enum EvidenceNodeType {
    SourceDoc,
    ExtractedRow,
    Transaction,
    Classification,
    ModelProposal,
    OperatorApproval,
    WorkbookRow,
    ValidationIssue,
    Unknown,
}

/// The node kind a name or its short form stands for.
pub open spec fn evidence_node_type_spec(s: Seq<char>) -> Option<EvidenceNodeType> {
    if s == "source_doc"@ || s == "doc"@ {
        Some(EvidenceNodeType::SourceDoc)
    } else if s == "extracted_row"@ || s == "row"@ {
        Some(EvidenceNodeType::ExtractedRow)
    } else if s == "transaction"@ || s == "tx"@ {
        Some(EvidenceNodeType::Transaction)
    } else if s == "classification"@ || s == "cls"@ {
        Some(EvidenceNodeType::Classification)
    } else if s == "model_proposal"@ || s == "prop"@ {
        Some(EvidenceNodeType::ModelProposal)
    } else if s == "operator_approval"@ || s == "approval"@ {
        Some(EvidenceNodeType::OperatorApproval)
    } else if s == "workbook_row"@ || s == "wb"@ {
        Some(EvidenceNodeType::WorkbookRow)
    } else if s == "validation_issue"@ || s == "vi"@ {
        Some(EvidenceNodeType::ValidationIssue)
    } else {
        None
    }
}

/// The node kind a name or its short form stands for; `None` for any other
/// text.
pub fn parse_evidence_node_type(s: &str) -> (r: Option<EvidenceNodeType>)
    ensures
        r == evidence_node_type_spec(s@),
{
    if str_eq(s, "source_doc") || str_eq(s, "doc") {
        Some(EvidenceNodeType::SourceDoc)
    } else if str_eq(s, "extracted_row") || str_eq(s, "row") {
        Some(EvidenceNodeType::ExtractedRow)
    } else if str_eq(s, "transaction") || str_eq(s, "tx") {
        Some(EvidenceNodeType::Transaction)
    } else if str_eq(s, "classification") || str_eq(s, "cls") {
        Some(EvidenceNodeType::Classification)
    } else if str_eq(s, "model_proposal") || str_eq(s, "prop") {
        Some(EvidenceNodeType::ModelProposal)
    } else if str_eq(s, "operator_approval") || str_eq(s, "approval") {
        Some(EvidenceNodeType::OperatorApproval)
    } else if str_eq(s, "workbook_row") || str_eq(s, "wb") {
        Some(EvidenceNodeType::WorkbookRow)
    } else if str_eq(s, "validation_issue") || str_eq(s, "vi") {
        Some(EvidenceNodeType::ValidationIssue)
    } else {
        None
    }
}

/// The name a node kind is shown with.
pub open spec fn evidence_node_type_label_spec(t: EvidenceNodeType) -> Seq<char> {
    match t {
        EvidenceNodeType::SourceDoc => "source_doc"@,
        EvidenceNodeType::ExtractedRow => "extracted_row"@,
        EvidenceNodeType::Transaction => "transaction"@,
        EvidenceNodeType::Classification => "classification"@,
        EvidenceNodeType::ModelProposal => "model_proposal"@,
        EvidenceNodeType::OperatorApproval => "operator_approval"@,
        EvidenceNodeType::WorkbookRow => "workbook_row"@,
        EvidenceNodeType::ValidationIssue => "validation_issue"@,
        EvidenceNodeType::Unknown => "unknown"@,
    }
}

/// The name a node kind is shown with.
pub fn evidence_node_type_label(t: EvidenceNodeType) -> (r: &'static str)
    ensures
        r@ == evidence_node_type_label_spec(t),
{
    match t {
        EvidenceNodeType::SourceDoc => "source_doc",
        EvidenceNodeType::ExtractedRow => "extracted_row",
        EvidenceNodeType::Transaction => "transaction",
        EvidenceNodeType::Classification => "classification",
        EvidenceNodeType::ModelProposal => "model_proposal",
        EvidenceNodeType::OperatorApproval => "operator_approval",
        EvidenceNodeType::WorkbookRow => "workbook_row",
        EvidenceNodeType::ValidationIssue => "validation_issue",
        EvidenceNodeType::Unknown => "unknown",
    }
}

/// Every node kind but `Unknown` is read back from the name it is shown
/// with.
pub proof fn law_evidence_node_type_round_trip(t: EvidenceNodeType)
    requires
        t != EvidenceNodeType::Unknown,
    ensures
        evidence_node_type_spec(evidence_node_type_label_spec(t)) == Some(t),
{
    match t {
        EvidenceNodeType::SourceDoc => {
            reveal_strlit("source_doc");
        },
        EvidenceNodeType::ExtractedRow => {
            reveal_strlit("extracted_row");
            reveal_strlit("source_doc");
            assert("extracted_row"@.len() != "source_doc"@.len());
            reveal_strlit("doc");
            assert("extracted_row"@.len() != "doc"@.len());
        },
        EvidenceNodeType::Transaction => {
            reveal_strlit("transaction");
            reveal_strlit("source_doc");
            assert("transaction"@.len() != "source_doc"@.len());
            reveal_strlit("doc");
            assert("transaction"@.len() != "doc"@.len());
            reveal_strlit("extracted_row");
            assert("transaction"@.len() != "extracted_row"@.len());
            reveal_strlit("row");
            assert("transaction"@.len() != "row"@.len());
        },
        EvidenceNodeType::Classification => {
            reveal_strlit("classification");
            reveal_strlit("source_doc");
            assert("classification"@.len() != "source_doc"@.len());
            reveal_strlit("doc");
            assert("classification"@.len() != "doc"@.len());
            reveal_strlit("extracted_row");
            assert("classification"@.len() != "extracted_row"@.len());
            reveal_strlit("row");
            assert("classification"@.len() != "row"@.len());
            reveal_strlit("transaction");
            assert("classification"@.len() != "transaction"@.len());
            reveal_strlit("tx");
            assert("classification"@.len() != "tx"@.len());
        },
        EvidenceNodeType::ModelProposal => {
            reveal_strlit("model_proposal");
            reveal_strlit("source_doc");
            assert("model_proposal"@.len() != "source_doc"@.len());
            reveal_strlit("doc");
            assert("model_proposal"@.len() != "doc"@.len());
            reveal_strlit("extracted_row");
            assert("model_proposal"@.len() != "extracted_row"@.len());
            reveal_strlit("row");
            assert("model_proposal"@.len() != "row"@.len());
            reveal_strlit("transaction");
            assert("model_proposal"@.len() != "transaction"@.len());
            reveal_strlit("tx");
            assert("model_proposal"@.len() != "tx"@.len());
            reveal_strlit("classification");
            assert("model_proposal"@[0] != "classification"@[0]);
            reveal_strlit("cls");
            assert("model_proposal"@.len() != "cls"@.len());
        },
        EvidenceNodeType::OperatorApproval => {
            reveal_strlit("operator_approval");
            reveal_strlit("source_doc");
            assert("operator_approval"@.len() != "source_doc"@.len());
            reveal_strlit("doc");
            assert("operator_approval"@.len() != "doc"@.len());
            reveal_strlit("extracted_row");
            assert("operator_approval"@.len() != "extracted_row"@.len());
            reveal_strlit("row");
            assert("operator_approval"@.len() != "row"@.len());
            reveal_strlit("transaction");
            assert("operator_approval"@.len() != "transaction"@.len());
            reveal_strlit("tx");
            assert("operator_approval"@.len() != "tx"@.len());
            reveal_strlit("classification");
            assert("operator_approval"@.len() != "classification"@.len());
            reveal_strlit("cls");
            assert("operator_approval"@.len() != "cls"@.len());
            reveal_strlit("model_proposal");
            assert("operator_approval"@.len() != "model_proposal"@.len());
            reveal_strlit("prop");
            assert("operator_approval"@.len() != "prop"@.len());
        },
        EvidenceNodeType::WorkbookRow => {
            reveal_strlit("workbook_row");
            reveal_strlit("source_doc");
            assert("workbook_row"@.len() != "source_doc"@.len());
            reveal_strlit("doc");
            assert("workbook_row"@.len() != "doc"@.len());
            reveal_strlit("extracted_row");
            assert("workbook_row"@.len() != "extracted_row"@.len());
            reveal_strlit("row");
            assert("workbook_row"@.len() != "row"@.len());
            reveal_strlit("transaction");
            assert("workbook_row"@.len() != "transaction"@.len());
            reveal_strlit("tx");
            assert("workbook_row"@.len() != "tx"@.len());
            reveal_strlit("classification");
            assert("workbook_row"@.len() != "classification"@.len());
            reveal_strlit("cls");
            assert("workbook_row"@.len() != "cls"@.len());
            reveal_strlit("model_proposal");
            assert("workbook_row"@.len() != "model_proposal"@.len());
            reveal_strlit("prop");
            assert("workbook_row"@.len() != "prop"@.len());
            reveal_strlit("operator_approval");
            assert("workbook_row"@.len() != "operator_approval"@.len());
            reveal_strlit("approval");
            assert("workbook_row"@.len() != "approval"@.len());
        },
        EvidenceNodeType::ValidationIssue => {
            reveal_strlit("validation_issue");
            reveal_strlit("source_doc");
            assert("validation_issue"@.len() != "source_doc"@.len());
            reveal_strlit("doc");
            assert("validation_issue"@.len() != "doc"@.len());
            reveal_strlit("extracted_row");
            assert("validation_issue"@.len() != "extracted_row"@.len());
            reveal_strlit("row");
            assert("validation_issue"@.len() != "row"@.len());
            reveal_strlit("transaction");
            assert("validation_issue"@.len() != "transaction"@.len());
            reveal_strlit("tx");
            assert("validation_issue"@.len() != "tx"@.len());
            reveal_strlit("classification");
            assert("validation_issue"@.len() != "classification"@.len());
            reveal_strlit("cls");
            assert("validation_issue"@.len() != "cls"@.len());
            reveal_strlit("model_proposal");
            assert("validation_issue"@.len() != "model_proposal"@.len());
            reveal_strlit("prop");
            assert("validation_issue"@.len() != "prop"@.len());
            reveal_strlit("operator_approval");
            assert("validation_issue"@.len() != "operator_approval"@.len());
            reveal_strlit("approval");
            assert("validation_issue"@.len() != "approval"@.len());
            reveal_strlit("workbook_row");
            assert("validation_issue"@.len() != "workbook_row"@.len());
            reveal_strlit("wb");
            assert("validation_issue"@.len() != "wb"@.len());
        },
        EvidenceNodeType::Unknown => {},
    }
}

} // verus!
