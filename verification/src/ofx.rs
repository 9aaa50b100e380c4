//! Rows of the ledger from the transactions of an OFX statement: the date
//! as `YYYY-MM-DD`, a description from the payee name and the memo.
use vstd::prelude::*;

use crate::decimal::{display_spec, to_text, Dec};
use crate::text::{concat, owned, push_char, push_str, str_eq, trim, trim_spec};

verus! {

/// A transaction of an OFX statement as plain values: when it was posted
/// (as the statement writes it), payee name, memo and amount.
#[derive(Debug, Clone)]
pub struct OfxTransaction {
    pub date_posted: String,
    pub name: Option<String>,
    pub memo: Option<String>,
    pub amount: Dec,
}

/// A row of the ledger as an import makes it.
#[derive(Debug, Clone)]
pub struct TransactionInput {
    pub account_id: String,
    pub date: String,
    pub amount: String,
    pub description: String,
    pub source_ref: String,
}

/// Whether the first eight characters of a date text (or all of them,
/// where there are fewer) are ASCII, so that its first eight bytes are its
/// first eight characters.
pub open spec fn ofx_date_readable(s: Seq<char>) -> bool {
    forall|i: int| 0 <= i < s.len() && i < 8 ==> (#[trigger] s[i] as u32) < 128
}

/// An OFX date `YYYYMMDD...` as `YYYY-MM-DD`; a shorter text is kept as it
/// is.
pub open spec fn ofx_date_spec(s: Seq<char>) -> Seq<char> {
    if s.len() >= 8 {
        s.subrange(0, 4) + "-"@ + s.subrange(4, 6) + "-"@ + s.subrange(6, 8)
    } else {
        s
    }
}

/// The characters `from..to` of a text.
fn chars_between(s: &str, from: usize, to: usize) -> (r: String)
    requires
        from <= to <= s@.len(),
    ensures
        r@ == s@.subrange(from as int, to as int),
{
    let mut out = String::new();
    let mut i = from;
    while i < to
        invariant
            from <= i <= to <= s@.len(),
            out@ == s@.subrange(from as int, i as int),
        decreases to - i,
    {
        let c = s.get_char(i);
        push_char(&mut out, c);
        assert(out@ =~= s@.subrange(from as int, i + 1));
        i = i + 1;
    }
    out
}

/// The date of an OFX transaction as `YYYY-MM-DD`.
pub fn format_ofx_date(date: &str) -> (r: String)
    requires
        ofx_date_readable(date@),
    ensures
        r@ == ofx_date_spec(date@),
{
    if date.unicode_len() >= 8 {
        let mut out = chars_between(date, 0, 4);
        push_str(&mut out, "-");
        let month = chars_between(date, 4, 6);
        push_str(&mut out, month.as_str());
        push_str(&mut out, "-");
        let day = chars_between(date, 6, 8);
        push_str(&mut out, day.as_str());
        out
    } else {
        owned(date)
    }
}

/// The description of an OFX transaction from its payee name and memo,
/// each trimmed: both when they differ, `name - memo`; the one that is
/// there; `OFX import` when neither is.
pub open spec fn ofx_description_spec(name: Option<Seq<char>>, memo: Option<Seq<char>>) -> Seq<char> {
    let n = match name {
        Some(s) => trim_spec(s),
        None => Seq::empty(),
    };
    let m = match memo {
        Some(s) => trim_spec(s),
        None => Seq::empty(),
    };
    if n.len() == 0 && m.len() == 0 {
        "OFX import"@
    } else if n.len() == 0 {
        m
    } else if m.len() == 0 || m == n {
        n
    } else {
        n + " - "@ + m
    }
}

/// The view of an optional text.
pub open spec fn opt_text(o: Option<String>) -> Option<Seq<char>> {
    match o {
        Some(s) => Some(s@),
        None => None,
    }
}

/// The description of an OFX transaction.
pub fn build_description(name: &Option<String>, memo: &Option<String>) -> (r: String)
    ensures
        r@ == ofx_description_spec(opt_text(*name), opt_text(*memo)),
{
    let n = match name {
        Some(s) => trim(s.as_str()),
        None => "",
    };
    let m = match memo {
        Some(s) => trim(s.as_str()),
        None => "",
    };
    proof {
        reveal_strlit("");
    }
    if n.unicode_len() == 0 && m.unicode_len() == 0 {
        owned("OFX import")
    } else if n.unicode_len() == 0 {
        owned(m)
    } else if m.unicode_len() == 0 || str_eq(m, n) {
        owned(n)
    } else {
        let mut out = concat(n, " - ");
        push_str(&mut out, m);
        out
    }
}

/// The ledger row of an OFX transaction of the account `account_id`,
/// imported from `source_ref`: its date as `YYYY-MM-DD`, its amount as a
/// decimal text, its description.
pub fn ofx_transaction_row(txn: &OfxTransaction, account_id: &str, source_ref: &str) -> (r: TransactionInput)
    requires
        ofx_date_readable(txn.date_posted@),
        txn.amount.wf(),
    ensures
        r.account_id@ == account_id@,
        r.date@ == ofx_date_spec(txn.date_posted@),
        r.amount@ == display_spec(txn.amount, txn.amount.scale as nat),
        r.description@ == ofx_description_spec(opt_text(txn.name), opt_text(txn.memo)),
        r.source_ref@ == source_ref@,
{
    TransactionInput {
        account_id: owned(account_id),
        date: format_ofx_date(txn.date_posted.as_str()),
        amount: to_text(txn.amount),
        description: build_description(&txn.name, &txn.memo),
        source_ref: owned(source_ref),
    }
}

} // verus!
