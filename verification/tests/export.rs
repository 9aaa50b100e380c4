use ledgerr_mcp::decimal::Dec;
use ledgerr_mcp::export::{
    account_sheet, audit_sheet, category_sheet, flag_sheet, transaction_sheet, transaction_sheets,
    AccountRecord, TextSheet,
};
use ledgerr_mcp::ledger::{ClassificationLedger, LedgerTransaction, StoredClassification};
use ledgerr_mcp::types::{AuditEntryResponse, FlagStatusRequest};
use ledgerr_mcp::work_queue::ReviewFlag;

fn tx(id: &str, account: &str, amount: &str) -> LedgerTransaction {
    LedgerTransaction {
        tx_id: id.to_string(),
        account_id: account.to_string(),
        date: "2024-01-05".to_string(),
        amount: amount.to_string(),
        description: format!("desc {id}"),
        source_ref: format!("src-{id}"),
    }
}

fn stored(id: &str, category: &str, magnitude: u128, scale: u32) -> StoredClassification {
    StoredClassification {
        tx_id: id.to_string(),
        category: category.to_string(),
        confidence: Dec { negative: false, magnitude, scale },
    }
}

fn books() -> (Vec<LedgerTransaction>, ClassificationLedger) {
    (
        vec![tx("t1", "WF-CHK", "-4.50"), tx("t2", "AMEX", "12"), tx("t3", "WF-CHK", "100.00")],
        ClassificationLedger {
            classifications: vec![stored("t1", "Meals", 90, 2), stored("t3", "Income", 1, 0)],
            audit_log: vec![],
        },
    )
}

fn cells(sheet: &TextSheet) -> Vec<Vec<&str>> {
    sheet.rows.iter().map(|r| r.iter().map(|c| c.as_str()).collect()).collect()
}

#[test]
fn transaction_sheets_one_per_account_ascending() {
    let (ts, l) = books();
    let sheets = transaction_sheets(&ts, &l);
    let names: Vec<&str> = sheets.iter().map(|s| s.name.as_str()).collect();
    assert_eq!(names, vec!["TX.AMEX", "TX.WF-CHK"]);
    assert_eq!(
        cells(&sheets[1]),
        vec![
            vec!["tx_id", "date", "amount", "description", "category", "confidence", "source_ref"],
            vec!["t1", "2024-01-05", "-4.50", "desc t1", "Meals", "0.90", "src-t1"],
            vec!["t3", "2024-01-05", "100.00", "desc t3", "Income", "1", "src-t3"],
        ]
    );
    assert_eq!(
        cells(&sheets[0])[1],
        vec!["t2", "2024-01-05", "12", "desc t2", "Uncategorized", "0.0", "src-t2"]
    );
}

#[test]
fn transaction_sheet_of_an_account_without_transactions() {
    let (ts, l) = books();
    let s = transaction_sheet("NONE", &ts, &l);
    assert_eq!(s.name, "TX.NONE");
    assert_eq!(s.rows.len(), 1);
    assert!(transaction_sheets(&vec![], &l).is_empty());
}

#[test]
fn every_transaction_lands_in_its_account_sheet() {
    let (ts, l) = books();
    let sheets = transaction_sheets(&ts, &l);
    for t in &ts {
        let sheet = sheets.iter().find(|s| s.name == format!("TX.{}", t.account_id)).unwrap();
        assert!(sheet.rows.iter().any(|r| r[0] == t.tx_id));
    }
    let total: usize = sheets.iter().map(|s| s.rows.len() - 1).sum();
    assert_eq!(total, ts.len());
}

#[test]
fn taxonomy_sorted_with_uncategorized() {
    let (_, mut l) = books();
    l.classifications.push(stored("t9", "Meals", 5, 1));
    let s = category_sheet(&l);
    assert_eq!(s.name, "CAT.taxonomy");
    assert_eq!(cells(&s), vec![vec!["category"], vec!["Income"], vec!["Meals"], vec!["Uncategorized"]]);
    let empty = ClassificationLedger { classifications: vec![], audit_log: vec![] };
    assert_eq!(cells(&category_sheet(&empty)), vec![vec!["category"], vec!["Uncategorized"]]);
}

#[test]
fn exported_categories_are_in_the_taxonomy() {
    let (ts, l) = books();
    let taxonomy = category_sheet(&l);
    for sheet in transaction_sheets(&ts, &l) {
        for row in sheet.rows.iter().skip(1) {
            assert!(taxonomy.rows.iter().any(|r| r[0] == row[4]));
        }
    }
}

#[test]
fn flag_audit_and_account_sheets() {
    let flags = vec![ReviewFlag {
        tx_id: "t1".to_string(),
        year: 2024,
        status: FlagStatusRequest::Open,
        reason: "low confidence".to_string(),
    }];
    let s = flag_sheet("FLAGS.open", &flags);
    assert_eq!(cells(&s), vec![vec!["tx_id", "reason"], vec!["t1", "low confidence"]]);

    let log = vec![AuditEntryResponse {
        timestamp: "100".to_string(),
        actor: "alice".to_string(),
        tx_id: "t1".to_string(),
        field: "category".to_string(),
        old_value: None,
        new_value: "Meals".to_string(),
        note: Some("checked".to_string()),
    }];
    let s = audit_sheet(&log);
    assert_eq!(s.name, "AUDIT.log");
    assert_eq!(cells(&s)[1], vec!["100", "alice", "t1", "category", "", "Meals", "checked"]);

    let accounts = vec![AccountRecord {
        account_id: "WF-CHK".to_string(),
        institution: "Wells Fargo".to_string(),
        account_type: "checking".to_string(),
        currency: "USD".to_string(),
    }];
    let s = account_sheet(&accounts);
    assert_eq!(
        cells(&s),
        vec![
            vec!["account_id", "institution", "account_type", "currency"],
            vec!["WF-CHK", "Wells Fargo", "checking", "USD"],
        ]
    );
}
