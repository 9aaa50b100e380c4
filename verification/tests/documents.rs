use ledgerr_mcp::contract::generated_capability_contract_markdown;
use ledgerr_mcp::ontology::entity_hash_input;
use ledgerr_mcp::service::{
    default_ontology_path_for_workbook, doc_registry_path, ontology_file_name, persisted_state_path,
    resolve_in_workbook_dir,
};
use ledgerr_mcp::ToolError;
use ledgerr_mcp::StringMap;

#[test]
fn ontology_path_sits_beside_the_workbook() {
    assert_eq!(
        default_ontology_path_for_workbook("/tmp/demo.xlsx"),
        "/tmp/demo.xlsx.ontology.json"
    );
    assert_eq!(
        default_ontology_path_for_workbook("books/2023.xlsx"),
        "books/2023.xlsx.ontology.json"
    );
}

#[test]
fn ontology_path_of_a_directory_and_of_the_root() {
    assert_eq!(
        default_ontology_path_for_workbook("/tmp/books/"),
        "/tmp/books.ontology.json"
    );
    assert_eq!(
        default_ontology_path_for_workbook("/"),
        "/ledger.xlsx.ontology.json"
    );
}

#[test]
fn ontology_file_name_defaults_to_ledger() {
    assert_eq!(ontology_file_name(Some("a.xlsx")), "a.xlsx.ontology.json");
    assert_eq!(ontology_file_name(None), "ledger.xlsx.ontology.json");
}

#[test]
fn entity_hash_input_lists_attributes_in_key_order() {
    let mut attrs = StringMap::new();
    attrs.insert("name".to_string(), "WF".to_string());
    attrs.insert("account_id".to_string(), "WF-BH-CHK".to_string());
    assert_eq!(
        entity_hash_input("account", &attrs),
        "entity|account|account_id=WF-BH-CHK|name=WF"
    );
    assert_eq!(entity_hash_input("document", &StringMap::new()), "entity|document");
}

#[test]
fn capability_contract_lists_every_tool() {
    let doc = generated_capability_contract_markdown("{\"docs\":1}", "{\"rec\":2}", "{\"tax\":3}");
    assert!(doc.starts_with("# MCP Capability Contract (Generated)\n\n"));
    assert!(doc.contains("The default catalog is intentionally small: 12 top-level `ledgerr_*` tools."));
    assert!(doc.contains(
        "| Tool | Purpose | Common actions |\n|---|---|---|\n| `ledgerr_documents` | document intake"
    ));
    assert!(doc.contains(
        "| `ledgerr_reconciliation` | staged totals/postings guardrails | `validate`, `reconcile`, `commit` |\n"
    ));
    assert!(doc.contains("| `ledgerr_manifest` | returns the full canonical viz-manifest: mapping of type IDs to their canonical Rhai DSL source strings | `get_manifest` |\n\nThe concrete parser"));
    assert_eq!(doc.matches("\n| `ledgerr_").count(), 12);
}

#[test]
fn capability_contract_places_the_examples() {
    let doc = generated_capability_contract_markdown("DOCS", "REC", "TAX");
    let b = doc.find("### Step B: ingest a PDF through `ledgerr_documents`\n\n```json\nDOCS\n```\n\n").unwrap();
    let c = doc.find("### Step C: run reconciliation commit gate\n\n```json\nREC\n```\n\n").unwrap();
    let e = doc.find("### Step E: ask for tax evidence\n\n```json\nTAX\n```\n\n").unwrap();
    assert!(b < c && c < e);
    assert!(doc.ends_with("- `#26` transaction query + preflight/rule preview\n"));
}

#[test]
fn sidecar_paths_of_a_workbook() {
    assert_eq!(persisted_state_path("/tmp/demo.xlsx"), "/tmp/demo.xlsx.ledgerr-state.json");
    assert_eq!(doc_registry_path("/tmp/demo.xlsx"), "/tmp/demo.docs.json");
    assert_eq!(doc_registry_path("/tmp/ledger"), "/tmp/ledger.docs.json");
}

fn refusal(r: Result<String, ToolError>) -> String {
    match r {
        Err(ToolError::InvalidInput(m)) => m,
        other => panic!("expected a refusal, got {other:?}"),
    }
}

#[test]
fn paths_resolve_inside_the_workbook_directory() {
    let w = "/data/books/ledger.xlsx";
    assert_eq!(
        resolve_in_workbook_dir("image_path", w, "receipts/a.png").unwrap(),
        "/data/books/receipts/a.png"
    );
    assert_eq!(
        resolve_in_workbook_dir("image_path", w, "/data/books/scans/b.png").unwrap(),
        "/data/books/scans/b.png"
    );
    assert_eq!(resolve_in_workbook_dir("rkyv_ref", "ledger.xlsx", "wf.rkyv").unwrap(), "wf.rkyv");
}

#[test]
fn paths_that_leave_the_workbook_directory_are_refused() {
    let w = "/data/books/ledger.xlsx";
    assert_eq!(
        refusal(resolve_in_workbook_dir("image_path", w, "/etc/passwd")),
        "image_path '/etc/passwd' resolves outside the allowed directory"
    );
    assert_eq!(
        refusal(resolve_in_workbook_dir("source_ref", w, "/data/booksX/a.pdf")),
        "source_ref '/data/booksX/a.pdf' resolves outside the allowed directory"
    );
    assert_eq!(
        refusal(resolve_in_workbook_dir("rkyv_ref", w, "../secret.rkyv")),
        "rkyv_ref '../secret.rkyv' contains path traversal components"
    );
    assert_eq!(
        refusal(resolve_in_workbook_dir("ontology_path", w, "/data/books/../etc/x")),
        "ontology_path '/data/books/../etc/x' contains path traversal components"
    );
    assert_eq!(
        refusal(resolve_in_workbook_dir("image_path", "/", "a.png")),
        "workbook_path must have a parent directory"
    );
}

use ledgerr_mcp::service::{plan_filename_normalization, sanitize_filename_component};
use ledgerr_mcp::types::NormalizeFilenameRequest;

fn normalize(file_path: &str, vendor: &str) -> NormalizeFilenameRequest {
    NormalizeFilenameRequest {
        file_path: file_path.to_string(),
        vendor: vendor.to_string(),
        account: " bh-chk ".to_string(),
        year_month: "2023-01".to_string(),
        doc_type: "statement".to_string(),
        apply: false,
    }
}

#[test]
fn filename_components_are_trimmed_and_uppercased() {
    assert_eq!(sanitize_filename_component("  wf ").unwrap(), "WF");
    assert_eq!(
        refusal(sanitize_filename_component(" a/b ")),
        "filename component 'a/b' contains path separator characters"
    );
    assert_eq!(
        refusal(sanitize_filename_component("a\\b")),
        "filename component 'a\\b' contains path separator characters"
    );
    assert_eq!(
        refusal(sanitize_filename_component(" .. ")),
        "filename component '..' contains path traversal sequences"
    );
    assert_eq!(sanitize_filename_component("...").unwrap(), "...");
}

#[test]
fn normalized_filename_plan() {
    let p = plan_filename_normalization("/data/books/ledger.xlsx", &normalize("inbox/scan1.PDF", "wf")).unwrap();
    assert_eq!(p.resolved_path, "/data/books/inbox/scan1.PDF");
    assert_eq!(p.original_name, "scan1.PDF");
    assert_eq!(p.proposed_name, "WF--BH-CHK--2023-01--STATEMENT.PDF");
    assert_eq!(p.renamed_path, "/data/books/inbox/WF--BH-CHK--2023-01--STATEMENT.PDF");
    let p = plan_filename_normalization("/data/books/ledger.xlsx", &normalize("inbox/scan2", "wf")).unwrap();
    assert_eq!(p.proposed_name, "WF--BH-CHK--2023-01--STATEMENT.pdf");
}

#[test]
fn normalized_filename_refusals_in_order() {
    let bad = plan_filename_normalization("/data/books/ledger.xlsx", &normalize("../x.pdf", "w/f")).map(|p| p.proposed_name);
    assert_eq!(refusal(bad), "filename component 'w/f' contains path separator characters");
    let bad = plan_filename_normalization("/data/books/ledger.xlsx", &normalize("../x.pdf", "wf")).map(|p| p.proposed_name);
    assert_eq!(refusal(bad), "file_path '../x.pdf' contains path traversal components");
}
