//! The contents of the workbook handed to the accountant: the text sheets
//! that project the ledger's transactions, classifications, review flags
//! and audit trail.
use vstd::prelude::*;

use crate::decimal::{display_spec, to_text};
use crate::ledger::{
    classification_of, find_index, lemma_first_index_value, ClassificationLedger, LedgerTransaction,
    StoredClassification,
};
use crate::strmap::{lemma_sorted_texts_exist, sort_dedup, sorted_texts, texts_view};
use crate::text::{concat, owned, str_eq};
use crate::types::AuditEntryResponse;
use crate::work_queue::ReviewFlag;

verus! {

/// A sheet of text cells: its name and its rows, the header first.
#[derive(Debug, Clone)]
pub struct TextSheet {
    pub name: String,
    pub rows: Vec<Vec<String>>,
}

/// The texts of a row.
pub open spec fn row_view(r: Vec<String>) -> Seq<Seq<char>> {
    r@.map_values(|c: String| c@)
}

/// The texts of a grid of rows.
pub open spec fn grid_view(rows: Seq<Vec<String>>) -> Seq<Seq<Seq<char>>> {
    rows.map_values(|r: Vec<String>| row_view(r))
}

impl View for TextSheet {
    type V = (Seq<char>, Seq<Seq<Seq<char>>>);

    open spec fn view(&self) -> (Seq<char>, Seq<Seq<Seq<char>>>) {
        (self.name@, grid_view(self.rows@))
    }
}

/// The header of a transaction sheet.
pub open spec fn transaction_header() -> Seq<Seq<char>> {
    seq!["tx_id"@, "date"@, "amount"@, "description"@, "category"@, "confidence"@, "source_ref"@]
}

/// The category a transaction is exported with: its classification's, or
/// `Uncategorized`.
pub open spec fn exported_category(cs: Seq<StoredClassification>, tx_id: Seq<char>) -> Seq<char> {
    match classification_of(cs, tx_id) {
        Some(c) => c.category@,
        None => "Uncategorized"@,
    }
}

/// The confidence a transaction is exported with: its classification's as
/// a decimal text, or `0.0`.
pub open spec fn exported_confidence(cs: Seq<StoredClassification>, tx_id: Seq<char>) -> Seq<char> {
    match classification_of(cs, tx_id) {
        Some(c) => display_spec(c.confidence, c.confidence.scale as nat),
        None => "0.0"@,
    }
}

/// The row of a transaction in its account's sheet.
pub open spec fn transaction_row_spec(t: LedgerTransaction, cs: Seq<StoredClassification>) -> Seq<Seq<char>> {
    seq![
        t.tx_id@,
        t.date@,
        t.amount@,
        t.description@,
        exported_category(cs, t.tx_id@),
        exported_confidence(cs, t.tx_id@),
        t.source_ref@,
    ]
}

/// The rows of the transactions of one account, in the order given.
pub open spec fn account_rows_spec(
    ts: Seq<LedgerTransaction>,
    cs: Seq<StoredClassification>,
    account: Seq<char>,
) -> Seq<Seq<Seq<char>>>
    decreases ts.len(),
{
    if ts.len() == 0 {
        Seq::empty()
    } else {
        let rest = account_rows_spec(ts.drop_last(), cs, account);
        if ts.last().account_id@ == account {
            rest.push(transaction_row_spec(ts.last(), cs))
        } else {
            rest
        }
    }
}

/// The sheet of one account's transactions: `TX.` and the account's id,
/// the header, then a row for each of its transactions in the order given.
pub open spec fn transaction_sheet_spec(
    ts: Seq<LedgerTransaction>,
    cs: Seq<StoredClassification>,
    account: Seq<char>,
) -> (Seq<char>, Seq<Seq<Seq<char>>>) {
    ("TX."@ + account, seq![transaction_header()] + account_rows_spec(ts, cs, account))
}

/// The row of a transaction.
fn transaction_row(t: &LedgerTransaction, ledger: &ClassificationLedger) -> (r: Vec<String>)
    requires
        ledger.wf(),
    ensures
        row_view(r) == transaction_row_spec(*t, ledger.classifications@),
{
    let cs = &ledger.classifications;
    let found = find_index(cs, t.tx_id.as_str());
    proof {
        lemma_first_index_value(cs@, t.tx_id@);
    }
    let (category, confidence) = match found {
        Some(i) => (cs[i].category.clone(), to_text(cs[i].confidence)),
        None => (owned("Uncategorized"), owned("0.0")),
    };
    let mut row: Vec<String> = Vec::new();
    row.push(t.tx_id.clone());
    row.push(t.date.clone());
    row.push(t.amount.clone());
    row.push(t.description.clone());
    row.push(category);
    row.push(confidence);
    row.push(t.source_ref.clone());
    assert(row_view(row) =~= transaction_row_spec(*t, cs@));
    row
}

/// The sheet of the transactions of `account`: its header, then a row for
/// each of the account's transactions with its category and confidence.
pub fn transaction_sheet(
    account: &str,
    transactions: &Vec<LedgerTransaction>,
    ledger: &ClassificationLedger,
) -> (r: TextSheet)
    requires
        ledger.wf(),
    ensures
        r@ == transaction_sheet_spec(transactions@, ledger.classifications@, account@),
{
    let ghost cs = ledger.classifications@;
    let mut rows: Vec<Vec<String>> = Vec::new();
    let mut header: Vec<String> = Vec::new();
    header.push(owned("tx_id"));
    header.push(owned("date"));
    header.push(owned("amount"));
    header.push(owned("description"));
    header.push(owned("category"));
    header.push(owned("confidence"));
    header.push(owned("source_ref"));
    assert(row_view(header) =~= transaction_header());
    rows.push(header);
    assert(grid_view(rows@) =~= seq![transaction_header()]);
    let mut i: usize = 0;
    while i < transactions.len()
        invariant
            i <= transactions@.len(),
            cs == ledger.classifications@,
            ledger.wf(),
            grid_view(rows@) == seq![transaction_header()] + account_rows_spec(
                transactions@.take(i as int),
                cs,
                account@,
            ),
        decreases transactions.len() - i,
    {
        proof {
            assert(transactions@.take(i as int + 1).drop_last() =~= transactions@.take(i as int));
        }
        let t = &transactions[i];
        if str_eq(t.account_id.as_str(), account) {
            let row = transaction_row(t, ledger);
            let ghost before = grid_view(rows@);
            rows.push(row);
            assert(grid_view(rows@) =~= before.push(transaction_row_spec(*t, cs)));
        }
        i = i + 1;
    }
    assert(transactions@.take(transactions@.len() as int) =~= transactions@);
    TextSheet { name: concat("TX.", account), rows }
}

/// The views of a list of sheets.
pub open spec fn sheets_view(v: Seq<TextSheet>) -> Seq<(Seq<char>, Seq<Seq<Seq<char>>>)> {
    v.map_values(|s: TextSheet| s@)
}

/// The account ids of the transactions, in the order given.
pub open spec fn account_ids(ts: Seq<LedgerTransaction>) -> Seq<Seq<char>> {
    ts.map_values(|t: LedgerTransaction| t.account_id@)
}

/// One transaction sheet per account that has transactions, accounts in
/// ascending order.
pub open spec fn transaction_sheets_spec(
    ts: Seq<LedgerTransaction>,
    cs: Seq<StoredClassification>,
) -> Seq<(Seq<char>, Seq<Seq<Seq<char>>>)> {
    sorted_texts(account_ids(ts).to_set()).map_values(
        |a: Seq<char>| transaction_sheet_spec(ts, cs, a),
    )
}

/// The transaction sheets of the workbook: one per account that has
/// transactions, in ascending order of the account ids.
pub fn transaction_sheets(transactions: &Vec<LedgerTransaction>, ledger: &ClassificationLedger) -> (r: Vec<
    TextSheet,
>)
    requires
        ledger.wf(),
    ensures
        sheets_view(r@) == transaction_sheets_spec(transactions@, ledger.classifications@),
{
    let mut ids: Vec<String> = Vec::new();
    let mut i: usize = 0;
    while i < transactions.len()
        invariant
            i <= transactions@.len(),
            texts_view(ids@) == account_ids(transactions@).take(i as int),
        decreases transactions.len() - i,
    {
        let ghost before = texts_view(ids@);
        ids.push(transactions[i].account_id.clone());
        assert(texts_view(ids@) =~= before.push(transactions@[i as int].account_id@));
        assert(account_ids(transactions@).take(i as int + 1) =~= account_ids(transactions@).take(i as int).push(
            transactions@[i as int].account_id@,
        ));
        i = i + 1;
    }
    assert(account_ids(transactions@).take(transactions@.len() as int) =~= account_ids(transactions@));
    let accounts = sort_dedup(ids);
    let ghost names = texts_view(accounts@);
    let ghost want = transaction_sheets_spec(transactions@, ledger.classifications@);
    let mut sheets: Vec<TextSheet> = Vec::new();
    let mut k: usize = 0;
    while k < accounts.len()
        invariant
            k <= accounts@.len(),
            ledger.wf(),
            names == texts_view(accounts@),
            want == names.map_values(
                |a: Seq<char>| transaction_sheet_spec(transactions@, ledger.classifications@, a),
            ),
            sheets_view(sheets@) == want.take(k as int),
        decreases accounts.len() - k,
    {
        let sheet = transaction_sheet(accounts[k].as_str(), transactions, ledger);
        let ghost before = sheets_view(sheets@);
        let ghost sv = sheet@;
        sheets.push(sheet);
        assert(sheets_view(sheets@) =~= before.push(sv));
        assert(names[k as int] == accounts@[k as int]@);
        assert(want.take(k as int + 1) =~= want.take(k as int).push(want[k as int]));
        k = k + 1;
    }
    assert(want.take(accounts@.len() as int) =~= want);
    sheets
}

/// The categories of the workbook's taxonomy: `Uncategorized` and every
/// stored category.
pub open spec fn category_set(cs: Seq<StoredClassification>) -> Set<Seq<char>> {
    cs.map_values(|c: StoredClassification| c.category@).to_set().insert("Uncategorized"@)
}

/// The taxonomy sheet: `CAT.taxonomy`, a `category` header, then each
/// category once, ascending.
pub open spec fn category_sheet_spec(cs: Seq<StoredClassification>) -> (Seq<char>, Seq<Seq<Seq<char>>>) {
    (
        "CAT.taxonomy"@,
        seq![seq!["category"@]] + sorted_texts(category_set(cs)).map_values(|c: Seq<char>| seq![c]),
    )
}

/// `Uncategorized` followed by the stored categories lists exactly the
/// taxonomy's categories.
proof fn lemma_category_set(cs: Seq<StoredClassification>)
    ensures
        (seq!["Uncategorized"@] + cs.map_values(|c: StoredClassification| c.category@)).to_set()
            == category_set(cs),
{
    let cats = cs.map_values(|c: StoredClassification| c.category@);
    let joined = seq!["Uncategorized"@] + cats;
    assert forall|x: Seq<char>| joined.to_set().contains(x) <==> category_set(cs).contains(x) by {
        if joined.to_set().contains(x) {
            let k = choose|k: int| 0 <= k < joined.len() && joined[k] == x;
            if k > 0 {
                assert(cats[k - 1] == x);
                assert(cats.to_set().contains(x));
            }
        }
        if category_set(cs).contains(x) && x != "Uncategorized"@ {
            assert(cats.to_set().contains(x));
            let k = choose|k: int| 0 <= k < cats.len() && cats[k] == x;
            assert(joined[k + 1] == x);
        }
        if x == "Uncategorized"@ {
            assert(joined[0] == x);
        }
    }
    assert(joined.to_set() =~= category_set(cs));
}

/// The taxonomy sheet of the workbook.
pub fn category_sheet(ledger: &ClassificationLedger) -> (r: TextSheet)
    ensures
        r@ == category_sheet_spec(ledger.classifications@),
{
    let ghost cats = ledger.classifications@.map_values(|c: StoredClassification| c.category@);
    let mut all: Vec<String> = Vec::new();
    all.push(owned("Uncategorized"));
    let mut i: usize = 0;
    assert(texts_view(all@) =~= seq!["Uncategorized"@] + cats.take(0));
    while i < ledger.classifications.len()
        invariant
            i <= ledger.classifications@.len(),
            cats == ledger.classifications@.map_values(|c: StoredClassification| c.category@),
            texts_view(all@) == seq!["Uncategorized"@] + cats.take(i as int),
        decreases ledger.classifications.len() - i,
    {
        let ghost before = texts_view(all@);
        all.push(ledger.classifications[i].category.clone());
        assert(texts_view(all@) =~= before.push(cats[i as int]));
        assert(seq!["Uncategorized"@] + cats.take(i as int + 1) =~= (seq!["Uncategorized"@] + cats.take(
            i as int,
        )).push(cats[i as int]));
        i = i + 1;
    }
    assert(cats.take(ledger.classifications@.len() as int) =~= cats);
    proof {
        lemma_category_set(ledger.classifications@);
    }
    let sorted = sort_dedup(all);
    let ghost names = texts_view(sorted@);
    let mut rows: Vec<Vec<String>> = Vec::new();
    let mut header: Vec<String> = Vec::new();
    header.push(owned("category"));
    assert(row_view(header) =~= seq!["category"@]);
    rows.push(header);
    let mut k: usize = 0;
    assert(grid_view(rows@) =~= seq![seq!["category"@]] + names.map_values(|c: Seq<char>| seq![c]).take(0));
    while k < sorted.len()
        invariant
            k <= sorted@.len(),
            names == texts_view(sorted@),
            grid_view(rows@) == seq![seq!["category"@]] + names.map_values(|c: Seq<char>| seq![c]).take(
                k as int,
            ),
        decreases sorted.len() - k,
    {
        let mut row: Vec<String> = Vec::new();
        row.push(sorted[k].clone());
        assert(row_view(row) =~= seq![names[k as int]]);
        let ghost before = grid_view(rows@);
        let ghost rv = row_view(row);
        rows.push(row);
        assert(grid_view(rows@) =~= before.push(rv));
        let ghost m = names.map_values(|c: Seq<char>| seq![c]);
        assert(seq![seq!["category"@]] + m.take(k as int + 1) =~= (seq![seq!["category"@]] + m.take(
            k as int,
        )).push(m[k as int]));
        k = k + 1;
    }
    assert(names.map_values(|c: Seq<char>| seq![c]).take(sorted@.len() as int) =~= names.map_values(
        |c: Seq<char>| seq![c],
    ));
    TextSheet { name: owned("CAT.taxonomy"), rows }
}

/// The row of a review flag: its transaction and its reason.
pub open spec fn flag_row_spec(f: ReviewFlag) -> Seq<Seq<char>> {
    seq![f.tx_id@, f.reason@]
}

/// A sheet of review flags: a `tx_id`, `reason` header, then a row for
/// each flag in the order given.
pub open spec fn flag_sheet_spec(name: Seq<char>, flags: Seq<ReviewFlag>) -> (Seq<char>, Seq<Seq<Seq<char>>>) {
    (name, seq![seq!["tx_id"@, "reason"@]] + flags.map_values(|f: ReviewFlag| flag_row_spec(f)))
}

/// A sheet of review flags, named `name`.
pub fn flag_sheet(name: &str, flags: &Vec<ReviewFlag>) -> (r: TextSheet)
    ensures
        r@ == flag_sheet_spec(name@, flags@),
{
    let ghost want = flags@.map_values(|f: ReviewFlag| flag_row_spec(f));
    let mut rows: Vec<Vec<String>> = Vec::new();
    let mut header: Vec<String> = Vec::new();
    header.push(owned("tx_id"));
    header.push(owned("reason"));
    assert(row_view(header) =~= seq!["tx_id"@, "reason"@]);
    rows.push(header);
    assert(grid_view(rows@) =~= seq![seq!["tx_id"@, "reason"@]] + want.take(0));
    let mut i: usize = 0;
    while i < flags.len()
        invariant
            i <= flags@.len(),
            want == flags@.map_values(|f: ReviewFlag| flag_row_spec(f)),
            grid_view(rows@) == seq![seq!["tx_id"@, "reason"@]] + want.take(i as int),
        decreases flags.len() - i,
    {
        let mut row: Vec<String> = Vec::new();
        row.push(flags[i].tx_id.clone());
        row.push(flags[i].reason.clone());
        assert(row_view(row) =~= flag_row_spec(flags@[i as int]));
        let ghost before = grid_view(rows@);
        let ghost rv = row_view(row);
        rows.push(row);
        assert(grid_view(rows@) =~= before.push(rv));
        assert(seq![seq!["tx_id"@, "reason"@]] + want.take(i as int + 1) =~= (seq![seq!["tx_id"@, "reason"@]]
            + want.take(i as int)).push(want[i as int]));
        i = i + 1;
    }
    assert(want.take(flags@.len() as int) =~= want);
    TextSheet { name: owned(name), rows }
}

/// An optional text as a cell: the text, or empty.
pub open spec fn cell_text(o: Option<String>) -> Seq<char> {
    match o {
        Some(s) => s@,
        None => Seq::empty(),
    }
}

/// The header of the audit sheet.
pub open spec fn audit_header() -> Seq<Seq<char>> {
    seq!["timestamp"@, "actor"@, "tx_id"@, "field"@, "old_value"@, "new_value"@, "note"@]
}

/// The row of an audit entry.
pub open spec fn audit_row_spec(e: AuditEntryResponse) -> Seq<Seq<char>> {
    seq![e.timestamp@, e.actor@, e.tx_id@, e.field@, cell_text(e.old_value), e.new_value@, cell_text(e.note)]
}

/// The audit sheet: `AUDIT.log`, its header, then a row for each entry of
/// the audit trail in the order written.
pub open spec fn audit_sheet_spec(log: Seq<AuditEntryResponse>) -> (Seq<char>, Seq<Seq<Seq<char>>>) {
    ("AUDIT.log"@, seq![audit_header()] + log.map_values(|e: AuditEntryResponse| audit_row_spec(e)))
}

/// An optional text as a cell.
fn cell(o: &Option<String>) -> (r: String)
    ensures
        r@ == cell_text(*o),
{
    match o {
        Some(s) => s.clone(),
        None => String::new(),
    }
}

/// The audit sheet of the workbook.
pub fn audit_sheet(log: &Vec<AuditEntryResponse>) -> (r: TextSheet)
    ensures
        r@ == audit_sheet_spec(log@),
{
    let ghost want = log@.map_values(|e: AuditEntryResponse| audit_row_spec(e));
    let mut rows: Vec<Vec<String>> = Vec::new();
    let mut header: Vec<String> = Vec::new();
    header.push(owned("timestamp"));
    header.push(owned("actor"));
    header.push(owned("tx_id"));
    header.push(owned("field"));
    header.push(owned("old_value"));
    header.push(owned("new_value"));
    header.push(owned("note"));
    assert(row_view(header) =~= audit_header());
    rows.push(header);
    assert(grid_view(rows@) =~= seq![audit_header()] + want.take(0));
    let mut i: usize = 0;
    while i < log.len()
        invariant
            i <= log@.len(),
            want == log@.map_values(|e: AuditEntryResponse| audit_row_spec(e)),
            grid_view(rows@) == seq![audit_header()] + want.take(i as int),
        decreases log.len() - i,
    {
        let e = &log[i];
        let mut row: Vec<String> = Vec::new();
        row.push(e.timestamp.clone());
        row.push(e.actor.clone());
        row.push(e.tx_id.clone());
        row.push(e.field.clone());
        row.push(cell(&e.old_value));
        row.push(e.new_value.clone());
        row.push(cell(&e.note));
        assert(row_view(row) =~= audit_row_spec(log@[i as int]));
        let ghost before = grid_view(rows@);
        let ghost rv = row_view(row);
        rows.push(row);
        assert(grid_view(rows@) =~= before.push(rv));
        assert(seq![audit_header()] + want.take(i as int + 1) =~= (seq![audit_header()] + want.take(i as int)).push(
            want[i as int],
        ));
        i = i + 1;
    }
    assert(want.take(log@.len() as int) =~= want);
    TextSheet { name: owned("AUDIT.log"), rows }
}

/// An account of the session's manifest, as the registry sheet lists it.
#[derive(Debug, Clone)]
pub struct AccountRecord {
    pub account_id: String,
    pub institution: String,
    pub account_type: String,
    pub currency: String,
}

/// The header of the account registry sheet.
pub open spec fn account_header() -> Seq<Seq<char>> {
    seq!["account_id"@, "institution"@, "account_type"@, "currency"@]
}

/// The row of an account.
pub open spec fn account_row_spec(a: AccountRecord) -> Seq<Seq<char>> {
    seq![a.account_id@, a.institution@, a.account_type@, a.currency@]
}

/// The account registry sheet: `ACCT.registry`, its header, then a row for
/// each account in the order given.
pub open spec fn account_sheet_spec(accounts: Seq<AccountRecord>) -> (Seq<char>, Seq<Seq<Seq<char>>>) {
    ("ACCT.registry"@, seq![account_header()] + accounts.map_values(|a: AccountRecord| account_row_spec(a)))
}

/// The account registry sheet of the workbook.
pub fn account_sheet(accounts: &Vec<AccountRecord>) -> (r: TextSheet)
    ensures
        r@ == account_sheet_spec(accounts@),
{
    let ghost want = accounts@.map_values(|a: AccountRecord| account_row_spec(a));
    let mut rows: Vec<Vec<String>> = Vec::new();
    let mut header: Vec<String> = Vec::new();
    header.push(owned("account_id"));
    header.push(owned("institution"));
    header.push(owned("account_type"));
    header.push(owned("currency"));
    assert(row_view(header) =~= account_header());
    rows.push(header);
    assert(grid_view(rows@) =~= seq![account_header()] + want.take(0));
    let mut i: usize = 0;
    while i < accounts.len()
        invariant
            i <= accounts@.len(),
            want == accounts@.map_values(|a: AccountRecord| account_row_spec(a)),
            grid_view(rows@) == seq![account_header()] + want.take(i as int),
        decreases accounts.len() - i,
    {
        let a = &accounts[i];
        let mut row: Vec<String> = Vec::new();
        row.push(a.account_id.clone());
        row.push(a.institution.clone());
        row.push(a.account_type.clone());
        row.push(a.currency.clone());
        assert(row_view(row) =~= account_row_spec(accounts@[i as int]));
        let ghost before = grid_view(rows@);
        let ghost rv = row_view(row);
        rows.push(row);
        assert(grid_view(rows@) =~= before.push(rv));
        assert(seq![account_header()] + want.take(i as int + 1) =~= (seq![account_header()] + want.take(
            i as int,
        )).push(want[i as int]));
        i = i + 1;
    }
    assert(want.take(accounts@.len() as int) =~= want);
    TextSheet { name: owned("ACCT.registry"), rows }
}

/// The row of a transaction is among the rows of its account.
proof fn lemma_row_in_account(ts: Seq<LedgerTransaction>, cs: Seq<StoredClassification>, i: int)
    requires
        0 <= i < ts.len(),
    ensures
        account_rows_spec(ts, cs, ts[i].account_id@).contains(transaction_row_spec(ts[i], cs)),
    decreases ts.len(),
{
    let a = ts[i].account_id@;
    let row = transaction_row_spec(ts[i], cs);
    let rest = account_rows_spec(ts.drop_last(), cs, a);
    if i == ts.len() - 1 {
        assert(account_rows_spec(ts, cs, a)[rest.len() as int] == row);
    } else {
        assert(ts.drop_last()[i] == ts[i]);
        lemma_row_in_account(ts.drop_last(), cs, i);
        let k = choose|k: int| 0 <= k < rest.len() && rest[k] == row;
        assert(account_rows_spec(ts, cs, a)[k] == row);
    }
}

/// Every transaction is exported: its account has a transaction sheet, and
/// that sheet holds the transaction's row.
pub proof fn law_every_transaction_exported(ts: Seq<LedgerTransaction>, cs: Seq<StoredClassification>, i: int)
    requires
        0 <= i < ts.len(),
    ensures
        exists|k: int|
            0 <= k < transaction_sheets_spec(ts, cs).len() && #[trigger] transaction_sheets_spec(ts, cs)[k]
                == transaction_sheet_spec(ts, cs, ts[i].account_id@),
        transaction_sheet_spec(ts, cs, ts[i].account_id@).1.contains(transaction_row_spec(ts[i], cs)),
{
    let a = ts[i].account_id@;
    lemma_sorted_texts_exist(account_ids(ts));
    let names = sorted_texts(account_ids(ts).to_set());
    assert(account_ids(ts)[i] == a);
    assert(account_ids(ts).to_set().contains(a));
    assert(names.to_set().contains(a));
    let k = choose|k: int| 0 <= k < names.len() && names[k] == a;
    assert(transaction_sheets_spec(ts, cs)[k] == transaction_sheet_spec(ts, cs, a));
    lemma_row_in_account(ts, cs, i);
    let rows = account_rows_spec(ts, cs, a);
    let m = choose|m: int| 0 <= m < rows.len() && rows[m] == transaction_row_spec(ts[i], cs);
    assert(transaction_sheet_spec(ts, cs, a).1[m + 1] == transaction_row_spec(ts[i], cs));
}

/// The classification found for an id is one of those stored.
proof fn lemma_classification_stored(cs: Seq<StoredClassification>, tx_id: Seq<char>)
    ensures
        classification_of(cs, tx_id) matches Some(c) ==> cs.contains(c),
    decreases cs.len(),
{
    if cs.len() > 0 && cs[0].tx_id@ != tx_id {
        lemma_classification_stored(cs.drop_first(), tx_id);
        if let Some(c) = classification_of(cs.drop_first(), tx_id) {
            let k = choose|k: int| 0 <= k < cs.drop_first().len() && cs.drop_first()[k] == c;
            assert(cs[k + 1] == c);
        }
    } else if cs.len() > 0 {
        assert(cs[0] == cs[0]);
    }
}

/// Every category a transaction sheet shows is listed in the taxonomy
/// sheet.
pub proof fn law_exported_categories_in_taxonomy(cs: Seq<StoredClassification>, tx_id: Seq<char>)
    ensures
        category_sheet_spec(cs).1.contains(seq![exported_category(cs, tx_id)]),
{
    let cats = cs.map_values(|c: StoredClassification| c.category@);
    lemma_category_set(cs);
    lemma_sorted_texts_exist(seq!["Uncategorized"@] + cats);
    lemma_classification_stored(cs, tx_id);
    let name = exported_category(cs, tx_id);
    if let Some(c) = classification_of(cs, tx_id) {
        let k = choose|k: int| 0 <= k < cs.len() && cs[k] == c;
        assert(cats[k] == c.category@);
        assert(cats.to_set().contains(c.category@));
    }
    assert(category_set(cs).contains(name));
    let names = sorted_texts(category_set(cs));
    assert(names.to_set().contains(name));
    let k = choose|k: int| 0 <= k < names.len() && names[k] == name;
    assert(category_sheet_spec(cs).1[k + 1] == seq![name]);
}

} // verus!
