//! The transactions of the ledger with their classifications, and the
//! transaction query: filters, order and paging.
use crate::capital_loss::parse_or_zero;
use crate::clock::now_timestamp;
use crate::contract::{PaginationSpec, SortDirection, SortField, SortSpec, TransactionFilters, TransactionRow};
use crate::decimal::{
    decimal_from_str, decimal_parse_error_text, display_spec, less_than, parse_decimal,
    parse_decimal_reporting, to_text, Dec,
};
use crate::error::ToolError;
use crate::events::{
    appended_event, is_event_type, lemma_event_type_plain, opt_view, unwrap_or_empty,
    InMemoryLifecycleEventStore, LifecycleEventStore,
};
use crate::strmap::{
    entries_insert, lemma_text_lt_irreflexive, lemma_text_lt_total, lemma_text_lt_transitive, StringMap,
};
use crate::text::{
    decimal_spec, eq_ignore_ascii_case, eq_ignore_ascii_case_spec, owned, parse_int_spec, parse_u32, split_pieces,
    split_spec, trim, trim_spec, concat, contains_spec, str_contains, str_eq, str_lt, text_lt, to_lowercase, unicode_lowercase,
};
use crate::types::{
    AuditEntryResponse, ClassifyTransactionRequest, ClassifyTransactionResponse, QueryTransactionsRequest,
    QueryTransactionsResponse,
};
use vstd::prelude::*;

verus! {

/// A posted transaction of the ledger, under its id.
#[derive(Debug, Clone)]
pub struct LedgerTransaction {
    pub tx_id: String,
    pub account_id: String,
    pub date: String,
    pub amount: String,
    pub description: String,
    pub source_ref: String,
}

/// The classification stored for a transaction.
#[derive(Debug, Clone)]
pub struct StoredClassification {
    pub tx_id: String,
    pub category: String,
    pub confidence: Dec,
}

/// The classification of a transaction: the first stored under its id.
pub open spec fn classification_of(cs: Seq<StoredClassification>, tx_id: Seq<char>) -> Option<
    StoredClassification,
>
    decreases cs.len(),
{
    if cs.len() == 0 {
        None
    } else if cs[0].tx_id@ == tx_id {
        Some(cs[0])
    } else {
        classification_of(cs.drop_first(), tx_id)
    }
}

/// The bounds of the amount filter read as numbers; refused with the
/// message of the first bound that is not a decimal.
pub open spec fn amount_bounds(f: TransactionFilters) -> Result<Option<(Dec, Dec)>, Seq<char>> {
    match f.amount_range {
        None => Ok(None),
        Some(r) => match decimal_from_str(r.min@) {
            None => Err("invalid amount_range.min: "@ + decimal_parse_error_text(r.min@)),
            Some(lo) => match decimal_from_str(r.max@) {
                None => Err("invalid amount_range.max: "@ + decimal_parse_error_text(r.max@)),
                Some(hi) => Ok(Some((lo, hi))),
            },
        },
    }
}

/// Whether a transaction passes every filter that is set: the account, an
/// inclusive date range, the category (lowercased), an inclusive amount
/// range (an amount that is not a decimal counts as zero), and the source
/// and description containing a text (lowercased).
pub open spec fn passes_filters(
    t: LedgerTransaction,
    c: Option<StoredClassification>,
    f: TransactionFilters,
    bounds: Option<(Dec, Dec)>,
) -> bool {
    &&& (f.account_id matches Some(a) ==> t.account_id@ == a@)
    &&& (f.date_range matches Some(d) ==> !text_lt(t.date@, d.start@) && !text_lt(d.end@, t.date@))
    &&& (f.category matches Some(k) ==> (c matches Some(cl) && unicode_lowercase(cl.category@)
        == unicode_lowercase(k@)))
    &&& (bounds matches Some(b) ==> b.0.v28() <= parse_or_zero(t.amount@).v28()
        && parse_or_zero(t.amount@).v28() <= b.1.v28())
    &&& (f.source_ref matches Some(s) ==> contains_spec(
        unicode_lowercase(t.source_ref@),
        unicode_lowercase(s@),
    ))
    &&& (f.description_contains matches Some(s) ==> contains_spec(
        unicode_lowercase(t.description@),
        unicode_lowercase(s@),
    ))
}

/// The positions, ascending, of the first `n` transactions that pass.
pub open spec fn filtered_indices(
    ts: Seq<LedgerTransaction>,
    cs: Seq<StoredClassification>,
    f: TransactionFilters,
    bounds: Option<(Dec, Dec)>,
    n: nat,
) -> Seq<int>
    decreases n,
{
    if n == 0 {
        seq![]
    } else {
        let p = filtered_indices(ts, cs, f, bounds, (n - 1) as nat);
        let i = n - 1;
        if passes_filters(ts[i], classification_of(cs, ts[i].tx_id@), f, bounds) {
            p.push(i)
        } else {
            p
        }
    }
}

/// Whether `a` sorts strictly before `b`: by date or description as text,
/// or by amount as a number (zero where it is not a decimal), the order
/// reversed when descending.
pub open spec fn tx_before(s: SortSpec, a: LedgerTransaction, b: LedgerTransaction) -> bool {
    let (x, y) = match s.direction {
        SortDirection::Asc => (a, b),
        SortDirection::Desc => (b, a),
    };
    match s.field {
        SortField::Date => text_lt(x.date@, y.date@),
        SortField::Amount => parse_or_zero(x.amount@).v28() < parse_or_zero(y.amount@).v28(),
        SortField::Description => text_lt(x.description@, y.description@),
    }
}

/// Where a stable insertion puts position `e` among sorted positions.
pub open spec fn index_insertion_point(ts: Seq<LedgerTransaction>, s: SortSpec, o: Seq<int>, e: int) -> int
    decreases o.len(),
{
    if o.len() == 0 {
        0
    } else if tx_before(s, ts[e], ts[o[0]]) {
        0
    } else {
        1 + index_insertion_point(ts, s, o.drop_first(), e)
    }
}

/// Positions sorted by their transactions, ties keeping their order.
pub open spec fn sort_indices(ts: Seq<LedgerTransaction>, s: SortSpec, idx: Seq<int>) -> Seq<int>
    decreases idx.len(),
{
    if idx.len() == 0 {
        seq![]
    } else {
        let o = sort_indices(ts, s, idx.drop_last());
        o.insert(index_insertion_point(ts, s, o, idx.last()), idx.last())
    }
}

/// The order asked for, newest date first where none is.
pub open spec fn effective_sort(s: Option<SortSpec>) -> SortSpec {
    match s {
        Some(x) => x,
        None => SortSpec { field: SortField::Date, direction: SortDirection::Desc },
    }
}

/// The page asked for: at most `limit` (100 where no page is asked for, and
/// never more than 1000) after skipping `offset`.
pub open spec fn page_of(idx: Seq<int>, p: Option<PaginationSpec>) -> Seq<int> {
    let (limit, offset) = match p {
        Some(q) => (q.limit as int, q.offset as int),
        None => (100, 0),
    };
    let lim = if limit < 1000 {
        limit
    } else {
        1000
    };
    if offset < idx.len() {
        idx.subrange(offset, if offset + lim < idx.len() { offset + lim } else { idx.len() as int })
    } else {
        seq![]
    }
}

/// A returned row is the transaction with its category and confidence.
pub open spec fn row_matches(r: TransactionRow, t: LedgerTransaction, c: Option<StoredClassification>) -> bool {
    &&& r.tx_id@ == t.tx_id@
    &&& r.account_id@ == t.account_id@
    &&& r.date@ == t.date@
    &&& r.amount@ == t.amount@
    &&& r.description@ == t.description@
    &&& r.source_ref@ == t.source_ref@
    &&& match c {
        Some(cl) => (r.category matches Some(x) && x@ == cl.category@) && (r.confidence matches Some(y)
            && y@ == display_spec(cl.confidence, cl.confidence.scale as nat)),
        None => r.category is None && r.confidence is None,
    }
}

/// The position of the classification of a transaction, if there is one.
pub(crate) fn find_classification(cs: &Vec<StoredClassification>, tx_id: &str) -> (r: Option<usize>)
    ensures
        match r {
            Some(k) => k < cs@.len() && classification_of(cs@, tx_id@) == Some(cs@[k as int]),
            None => classification_of(cs@, tx_id@) is None,
        },
{
    let mut k: usize = 0;
    assert(cs@.skip(0) =~= cs@);
    while k < cs.len()
        invariant
            k <= cs@.len(),
            classification_of(cs@, tx_id@) == classification_of(cs@.skip(k as int), tx_id@),
        decreases cs@.len() - k,
    {
        assert(cs@.skip(k as int)[0] == cs@[k as int]);
        assert(cs@.skip(k as int).drop_first() =~= cs@.skip(k + 1));
        if str_eq(cs[k].tx_id.as_str(), tx_id) {
            return Some(k);
        }
        k = k + 1;
    }
    assert(cs@.skip(k as int) =~= Seq::<StoredClassification>::empty());
    None
}

/// Whether `needle`, lowercased, occurs in `hay`, lowercased.
fn contains_lowercased(hay: &str, needle: &str) -> (r: bool)
    ensures
        r == contains_spec(unicode_lowercase(hay@), unicode_lowercase(needle@)),
{
    let h = to_lowercase(hay);
    let n = to_lowercase(needle);
    str_contains(h.as_str(), n.as_str())
}

/// Whether a transaction passes every filter that is set.
fn passes(
    t: &LedgerTransaction,
    c: Option<&StoredClassification>,
    f: &TransactionFilters,
    bounds: Option<(Dec, Dec)>,
) -> (r: bool)
    requires
        bounds matches Some(b) ==> b.0.wf() && b.1.wf(),
    ensures
        r == passes_filters(
            *t,
            match c {
                Some(x) => Some(*x),
                None => None,
            },
            *f,
            bounds,
        ),
{
    if let Some(a) = &f.account_id {
        if !str_eq(t.account_id.as_str(), a.as_str()) {
            return false;
        }
    }
    if let Some(d) = &f.date_range {
        if str_lt(t.date.as_str(), d.start.as_str()) || str_lt(d.end.as_str(), t.date.as_str()) {
            return false;
        }
    }
    if let Some(k) = &f.category {
        match c {
            None => {
                return false;
            },
            Some(cl) => {
                let x = to_lowercase(cl.category.as_str());
                let y = to_lowercase(k.as_str());
                if !str_eq(x.as_str(), y.as_str()) {
                    return false;
                }
            },
        }
    }
    if let Some((lo, hi)) = bounds {
        let amount = match parse_decimal(t.amount.as_str()) {
            Some(v) => v,
            None => Dec::whole(0),
        };
        if less_than(amount, lo) || less_than(hi, amount) {
            return false;
        }
    }
    if let Some(s) = &f.source_ref {
        if !contains_lowercased(t.source_ref.as_str(), s.as_str()) {
            return false;
        }
    }
    if let Some(s) = &f.description_contains {
        if !contains_lowercased(t.description.as_str(), s.as_str()) {
            return false;
        }
    }
    true
}

/// Whether transaction `a` sorts strictly before transaction `b`.
fn sorts_before(s: SortSpec, a: &LedgerTransaction, b: &LedgerTransaction) -> (r: bool)
    ensures
        r == tx_before(s, *a, *b),
{
    let (x, y) = match s.direction {
        SortDirection::Asc => (a, b),
        SortDirection::Desc => (b, a),
    };
    match s.field {
        SortField::Date => str_lt(x.date.as_str(), y.date.as_str()),
        SortField::Amount => {
            let xa = match parse_decimal(x.amount.as_str()) {
                Some(v) => v,
                None => Dec::whole(0),
            };
            let ya = match parse_decimal(y.amount.as_str()) {
                Some(v) => v,
                None => Dec::whole(0),
            };
            less_than(xa, ya)
        },
        SortField::Description => str_lt(x.description.as_str(), y.description.as_str()),
    }
}

/// Queries the transactions, kept as the ledger keeps them (each id once, in
/// ascending order), joined with their classifications: those passing every filter that is set, counted, sorted
/// (newest first by default, ties keeping their order), and paged. Refused
/// where a bound of the amount filter is not a decimal.
pub fn query_transactions(
    transactions: &Vec<LedgerTransaction>,
    classifications: &Vec<StoredClassification>,
    request: QueryTransactionsRequest,
) -> (r: Result<QueryTransactionsResponse, ToolError>)
    requires
        tx_ids_ascending(transactions@),
        forall|i: int| 0 <= i < classifications@.len() ==> (#[trigger] classifications@[i]).confidence.wf(),
    ensures
        match amount_bounds(request.filters) {
            Err(msg) => r matches Err(e) && (e matches ToolError::InvalidInput(m) && m@ == msg),
            Ok(bounds) => r matches Ok(resp) && ({
                let ts = transactions@;
                let cs = classifications@;
                let idx = filtered_indices(ts, cs, request.filters, bounds, ts.len());
                let page = page_of(sort_indices(ts, effective_sort(request.sort), idx), request.pagination);
                &&& resp.total_count == idx.len()
                &&& resp.transactions@.len() == page.len()
                &&& forall|k: int|
                    0 <= k < page.len() ==> row_matches(
                        #[trigger] resp.transactions@[k],
                        ts[page[k]],
                        classification_of(cs, ts[page[k]].tx_id@),
                    )
            }),
        },
{
    let f = &request.filters;
    let bounds: Option<(Dec, Dec)> = match &f.amount_range {
        None => None,
        Some(range) => {
            let lo = match parse_decimal_reporting(range.min.as_str()) {
                Ok(v) => v,
                Err(m) => {
                    return Err(ToolError::InvalidInput(concat("invalid amount_range.min: ", m.as_str())));
                },
            };
            let hi = match parse_decimal_reporting(range.max.as_str()) {
                Ok(v) => v,
                Err(m) => {
                    return Err(ToolError::InvalidInput(concat("invalid amount_range.max: ", m.as_str())));
                },
            };
            Some((lo, hi))
        },
    };
    assert(amount_bounds(request.filters) == Ok::<Option<(Dec, Dec)>, Seq<char>>(bounds));
    let ghost ts = transactions@;
    let ghost cs = classifications@;
    // The positions that pass, ascending.
    let mut idx: Vec<usize> = Vec::new();
    let mut i: usize = 0;
    while i < transactions.len()
        invariant
            ts == transactions@,
            cs == classifications@,
            i <= ts.len(),
            f == &request.filters,
            bounds matches Some(b) ==> b.0.wf() && b.1.wf(),
            idx@.map_values(|p: usize| p as int) == filtered_indices(ts, cs, request.filters, bounds, i as nat),
            forall|k: int| 0 <= k < idx@.len() ==> idx@[k] < i,
        decreases ts.len() - i,
    {
        let t = &transactions[i];
        let c = match find_classification(classifications, t.tx_id.as_str()) {
            Some(k) => Some(&classifications[k]),
            None => None,
        };
        let ghost before = idx@;
        let ghost cl = classification_of(cs, ts[i as int].tx_id@);
        assert(filtered_indices(ts, cs, request.filters, bounds, (i + 1) as nat) == if passes_filters(
            ts[i as int],
            cl,
            request.filters,
            bounds,
        ) {
            filtered_indices(ts, cs, request.filters, bounds, i as nat).push(i as int)
        } else {
            filtered_indices(ts, cs, request.filters, bounds, i as nat)
        });
        assert(*t == ts[i as int]);
        assert(match c {
            Some(x) => Some(*x),
            None => None,
        } == cl);
        let ok = passes(t, c, f, bounds);
        assert(ok == passes_filters(ts[i as int], cl, request.filters, bounds));
        if ok {
            idx.push(i);
            assert(idx@.map_values(|p: usize| p as int) =~= before.map_values(|p: usize| p as int).push(
                i as int,
            ));
        }
        i = i + 1;
    }
    let total_count = idx.len();
    let ghost fidx = idx@.map_values(|p: usize| p as int);
    // Stable insertion sort of the positions.
    let spec = match request.sort {
        Some(s) => s,
        None => SortSpec { field: SortField::Date, direction: SortDirection::Desc },
    };
    let mut ordered: Vec<usize> = Vec::new();
    let mut j: usize = 0;
    assert(fidx.take(0) =~= Seq::<int>::empty());
    assert(ordered@.map_values(|p: usize| p as int) =~= Seq::<int>::empty());
    while j < idx.len()
        invariant
            ts == transactions@,
            fidx == idx@.map_values(|p: usize| p as int),
            forall|k: int| 0 <= k < idx@.len() ==> idx@[k] < ts.len(),
            forall|k: int| 0 <= k < ordered@.len() ==> ordered@[k] < ts.len(),
            j <= idx@.len(),
            ordered@.map_values(|p: usize| p as int) == sort_indices(ts, spec, fidx.take(j as int)),
        decreases idx@.len() - j,
    {
        let e = idx[j];
        let ghost o = ordered@.map_values(|p: usize| p as int);
        let mut k: usize = 0;
        assert(o.subrange(0, o.len() as int) =~= o);
        while k < ordered.len()
            invariant
                ts == transactions@,
                o == ordered@.map_values(|p: usize| p as int),
                forall|q: int| 0 <= q < ordered@.len() ==> ordered@[q] < ts.len(),
                e < ts.len(),
                0 <= k <= o.len(),
                index_insertion_point(ts, spec, o, e as int) == k + index_insertion_point(
                    ts,
                    spec,
                    o.subrange(k as int, o.len() as int),
                    e as int,
                ),
            ensures
                k == index_insertion_point(ts, spec, o, e as int),
            decreases ordered@.len() - k,
        {
            let before = sorts_before(spec, &transactions[e], &transactions[ordered[k]]);
            proof {
                let rest = o.subrange(k as int, o.len() as int);
                assert(rest[0] == o[k as int]);
                assert(o[k as int] == ordered@[k as int] as int);
                assert(rest.drop_first() =~= o.subrange(k + 1, o.len() as int));
            }
            if before {
                break;
            }
            k = k + 1;
        }
        proof {
            assert(fidx.take(j + 1).drop_last() =~= fidx.take(j as int));
            assert(fidx.take(j + 1).last() == e as int);
        }
        ordered.insert(k, e);
        assert(ordered@.map_values(|p: usize| p as int) =~= o.insert(k as int, e as int));
        j = j + 1;
    }
    assert(fidx.take(idx@.len() as int) =~= fidx);
    let ghost sorted = ordered@.map_values(|p: usize| p as int);
    // The page.
    let (limit, offset): (u32, u32) = match request.pagination {
        Some(p) => (p.limit, p.offset),
        None => (100, 0),
    };
    let lim: usize = if limit < 1000 {
        limit as usize
    } else {
        1000
    };
    let off: usize = offset as usize;
    let n = ordered.len();
    let end: usize = if off < n {
        if lim < n - off {
            off + lim
        } else {
            n
        }
    } else {
        off
    };
    let ghost page = page_of(sorted, request.pagination);
    let mut rows: Vec<TransactionRow> = Vec::new();
    let mut q: usize = off;
    while q < end
        invariant
            ts == transactions@,
            cs == classifications@,
            sorted == ordered@.map_values(|p: usize| p as int),
            forall|k: int| 0 <= k < ordered@.len() ==> ordered@[k] < ts.len(),
            forall|k: int| 0 <= k < cs.len() ==> (#[trigger] cs[k]).confidence.wf(),
            n == ordered@.len(),
            off <= q <= end <= n || (off >= n && q == off && end == off),
            page == (if off < n { sorted.subrange(off as int, end as int) } else { seq![] }),
            rows@.len() == q - off,
            forall|k: int|
                0 <= k < rows@.len() ==> row_matches(
                    #[trigger] rows@[k],
                    ts[page[k]],
                    classification_of(cs, ts[page[k]].tx_id@),
                ),
        decreases end - q,
    {
        let t = &transactions[ordered[q]];
        assert(page[q - off] == ordered@[q as int] as int);
        let (category, confidence) = match find_classification(classifications, t.tx_id.as_str()) {
            Some(k) => (Some(classifications[k].category.clone()), Some(to_text(classifications[k].confidence))),
            None => (None, None),
        };
        let row = TransactionRow {
            tx_id: t.tx_id.clone(),
            account_id: t.account_id.clone(),
            date: t.date.clone(),
            amount: t.amount.clone(),
            description: t.description.clone(),
            source_ref: t.source_ref.clone(),
            category,
            confidence,
        };
        rows.push(row);
        q = q + 1;
    }
    Ok(QueryTransactionsResponse { transactions: rows, total_count })
}

/// Every position kept by the filters is a transaction that passes them.
proof fn lemma_filtered_pass(
    ts: Seq<LedgerTransaction>,
    cs: Seq<StoredClassification>,
    f: TransactionFilters,
    bounds: Option<(Dec, Dec)>,
    n: nat,
)
    requires
        n <= ts.len(),
    ensures
        forall|j: int|
            0 <= j < filtered_indices(ts, cs, f, bounds, n).len() ==> {
                let i = #[trigger] filtered_indices(ts, cs, f, bounds, n)[j];
                &&& 0 <= i < n
                &&& passes_filters(ts[i], classification_of(cs, ts[i].tx_id@), f, bounds)
            },
    decreases n,
{
    if n > 0 {
        lemma_filtered_pass(ts, cs, f, bounds, (n - 1) as nat);
        let p = filtered_indices(ts, cs, f, bounds, (n - 1) as nat);
        let r = filtered_indices(ts, cs, f, bounds, n);
        assert forall|j: int| 0 <= j < r.len() implies {
            let i = #[trigger] r[j];
            &&& 0 <= i < n
            &&& passes_filters(ts[i], classification_of(cs, ts[i].tx_id@), f, bounds)
        } by {
            if j < p.len() {
                assert(r[j] == p[j]);
            }
        }
    }
}

/// Sorting keeps the same positions, as many as there were.
pub proof fn law_sort_keeps_positions(ts: Seq<LedgerTransaction>, s: SortSpec, idx: Seq<int>)
    ensures
        sort_indices(ts, s, idx).len() == idx.len(),
        forall|x: int| #[trigger] sort_indices(ts, s, idx).contains(x) <==> idx.contains(x),
    decreases idx.len(),
{
    if idx.len() > 0 {
        let init = idx.drop_last();
        law_sort_keeps_positions(ts, s, init);
        let o = sort_indices(ts, s, init);
        lemma_index_insertion_point_bound(ts, s, o, idx.last());
        let k = index_insertion_point(ts, s, o, idx.last());
        let r = o.insert(k, idx.last());
        assert forall|x: int| #[trigger] r.contains(x) <==> idx.contains(x) by {
            if r.contains(x) {
                let j = choose|j: int| 0 <= j < r.len() && r[j] == x;
                if j < k {
                    assert(o[j] == x);
                    assert(o.contains(x));
                    let q = choose|q: int| 0 <= q < init.len() && init[q] == x;
                    assert(idx[q] == x);
                } else if j > k {
                    assert(o[j - 1] == x);
                    assert(o.contains(x));
                    let q = choose|q: int| 0 <= q < init.len() && init[q] == x;
                    assert(idx[q] == x);
                } else {
                    assert(idx[idx.len() - 1] == x);
                }
            }
            if idx.contains(x) {
                let q = choose|q: int| 0 <= q < idx.len() && idx[q] == x;
                if q < idx.len() - 1 {
                    assert(init[q] == x);
                    assert(init.contains(x));
                    assert(o.contains(x));
                    let j = choose|j: int| 0 <= j < o.len() && o[j] == x;
                    if j < k {
                        assert(r[j] == x);
                    } else {
                        assert(r[j + 1] == x);
                    }
                } else {
                    assert(r[k] == x);
                }
            }
        }
    }
}

/// A stable insertion point lies within the sorted positions.
proof fn lemma_index_insertion_point_bound(ts: Seq<LedgerTransaction>, s: SortSpec, o: Seq<int>, e: int)
    ensures
        0 <= index_insertion_point(ts, s, o, e) <= o.len(),
    decreases o.len(),
{
    if o.len() > 0 {
        lemma_index_insertion_point_bound(ts, s, o.drop_first(), e);
    }
}

/// Every transaction a query returns passes every filter that is set, and a
/// page holds at most 1000 transactions (100 where no page is asked for).
pub proof fn law_returned_rows_pass_filters(
    ts: Seq<LedgerTransaction>,
    cs: Seq<StoredClassification>,
    f: TransactionFilters,
    bounds: Option<(Dec, Dec)>,
    s: Option<SortSpec>,
    p: Option<PaginationSpec>,
)
    ensures
        ({
            let idx = filtered_indices(ts, cs, f, bounds, ts.len());
            let page = page_of(sort_indices(ts, effective_sort(s), idx), p);
            &&& page.len() <= 1000
            &&& p is None ==> page.len() <= 100
            &&& forall|k: int|
                0 <= k < page.len() ==> {
                    let i = #[trigger] page[k];
                    &&& 0 <= i < ts.len()
                    &&& passes_filters(ts[i], classification_of(cs, ts[i].tx_id@), f, bounds)
                }
        }),
{
    let idx = filtered_indices(ts, cs, f, bounds, ts.len());
    let sorted = sort_indices(ts, effective_sort(s), idx);
    let page = page_of(sorted, p);
    lemma_filtered_pass(ts, cs, f, bounds, ts.len());
    law_sort_keeps_positions(ts, effective_sort(s), idx);
    assert forall|k: int| 0 <= k < page.len() implies {
        let i = #[trigger] page[k];
        &&& 0 <= i < ts.len()
        &&& passes_filters(ts[i], classification_of(cs, ts[i].tx_id@), f, bounds)
    } by {
        let (limit, offset) = match p {
            Some(q) => (q.limit as int, q.offset as int),
            None => (100, 0),
        };
        assert(page[k] == sorted[offset + k]);
        assert(sorted.contains(sorted[offset + k]));
        assert(idx.contains(page[k]));
        let j = choose|j: int| 0 <= j < idx.len() && idx[j] == page[k];
        assert(idx[j] == page[k]);
    }
}

/// The meaning of each order: ascending, a transaction sorts before another
/// exactly where its date (as text), amount (as a number, zero where it is
/// not a decimal) or description (as text) is smaller; descending, exactly
/// where it is larger. Descending is ascending reversed.
pub proof fn law_sort_order_by_key(field: SortField, a: LedgerTransaction, b: LedgerTransaction)
    ensures
        ({
            let asc = SortSpec { field, direction: SortDirection::Asc };
            let desc = SortSpec { field, direction: SortDirection::Desc };
            &&& tx_before(desc, a, b) == tx_before(asc, b, a)
            &&& field == SortField::Date ==> (tx_before(asc, a, b) <==> text_lt(a.date@, b.date@))
            &&& field == SortField::Date ==> (tx_before(desc, a, b) <==> text_lt(b.date@, a.date@))
            &&& field == SortField::Amount ==> (tx_before(asc, a, b) <==> parse_or_zero(a.amount@).v28()
                < parse_or_zero(b.amount@).v28())
            &&& field == SortField::Amount ==> (tx_before(desc, a, b) <==> parse_or_zero(a.amount@).v28()
                > parse_or_zero(b.amount@).v28())
            &&& field == SortField::Description ==> (tx_before(asc, a, b) <==> text_lt(
                a.description@,
                b.description@,
            ))
            &&& field == SortField::Description ==> (tx_before(desc, a, b) <==> text_lt(
                b.description@,
                a.description@,
            ))
        }),
{
}

/// Sorting before is a strict order: never of a transaction and itself, and
/// transitive.
proof fn lemma_tx_before_strict(s: SortSpec, a: LedgerTransaction, b: LedgerTransaction, c: LedgerTransaction)
    ensures
        !tx_before(s, a, a),
        tx_before(s, a, b) && tx_before(s, b, c) ==> tx_before(s, a, c),
{
    lemma_text_lt_irreflexive(a.date@);
    lemma_text_lt_irreflexive(a.description@);
    if tx_before(s, a, b) && tx_before(s, b, c) {
        match s.direction {
            SortDirection::Asc => {
                if s.field == SortField::Date {
                    lemma_text_lt_transitive(a.date@, b.date@, c.date@);
                } else if s.field == SortField::Description {
                    lemma_text_lt_transitive(a.description@, b.description@, c.description@);
                }
            },
            SortDirection::Desc => {
                if s.field == SortField::Date {
                    lemma_text_lt_transitive(c.date@, b.date@, a.date@);
                } else if s.field == SortField::Description {
                    lemma_text_lt_transitive(c.description@, b.description@, a.description@);
                }
            },
        }
    }
}

/// No later position sorts strictly before an earlier one.
pub open spec fn indices_sorted(ts: Seq<LedgerTransaction>, s: SortSpec, o: Seq<int>) -> bool {
    forall|i: int, j: int| #![trigger o[i], o[j]] 0 <= i < j < o.len() ==> !tx_before(s, ts[o[j]], ts[o[i]])
}

/// Where the insertion point of `e` lies: nothing before it comes after
/// `e`, and the position at it comes after `e`.
proof fn lemma_insertion_point_splits_sorted(ts: Seq<LedgerTransaction>, s: SortSpec, o: Seq<int>, e: int)
    ensures
        0 <= index_insertion_point(ts, s, o, e) <= o.len(),
        forall|k: int| 0 <= k < index_insertion_point(ts, s, o, e) ==> !tx_before(s, ts[e], ts[#[trigger] o[k]]),
        index_insertion_point(ts, s, o, e) < o.len() ==> tx_before(
            s,
            ts[e],
            ts[o[index_insertion_point(ts, s, o, e)]],
        ),
    decreases o.len(),
{
    if o.len() > 0 && !tx_before(s, ts[e], ts[o[0]]) {
        let r = o.drop_first();
        lemma_insertion_point_splits_sorted(ts, s, r, e);
        assert forall|k: int| 0 <= k < index_insertion_point(ts, s, o, e) implies !tx_before(
            s,
            ts[e],
            ts[#[trigger] o[k]],
        ) by {
            if k > 0 {
                assert(o[k] == r[k - 1]);
            }
        }
        if index_insertion_point(ts, s, o, e) < o.len() {
            assert(o[index_insertion_point(ts, s, o, e)] == r[index_insertion_point(ts, s, r, e)]);
        }
    }
}

/// The positions come out sorted: no later transaction sorts strictly
/// before an earlier one, whatever order the positions came in.
pub proof fn law_sorted_positions_in_order(ts: Seq<LedgerTransaction>, s: SortSpec, idx: Seq<int>)
    ensures
        indices_sorted(ts, s, sort_indices(ts, s, idx)),
    decreases idx.len(),
{
    if idx.len() == 0 {
        return;
    }
    let o = sort_indices(ts, s, idx.drop_last());
    law_sorted_positions_in_order(ts, s, idx.drop_last());
    let e = idx.last();
    lemma_insertion_point_splits_sorted(ts, s, o, e);
    let p = index_insertion_point(ts, s, o, e);
    let n = o.insert(p, e);
    assert(sort_indices(ts, s, idx) == n);
    assert forall|i: int, j: int| #![trigger n[i], n[j]] 0 <= i < j < n.len() implies !tx_before(
        s,
        ts[n[j]],
        ts[n[i]],
    ) by {
        if j < p {
            assert(n[i] == o[i] && n[j] == o[j]);
        } else if j == p {
            assert(n[i] == o[i] && n[j] == e);
        } else if i < p {
            assert(n[i] == o[i] && n[j] == o[j - 1]);
            assert(!tx_before(s, ts[o[j - 1]], ts[o[i]]));
        } else if i == p {
            assert(n[i] == e && n[j] == o[j - 1]);
            assert(tx_before(s, ts[e], ts[o[p]]));
            if j - 1 > p {
                assert(!tx_before(s, ts[o[j - 1]], ts[o[p]]));
            }
            lemma_tx_before_strict(s, ts[o[j - 1]], ts[e], ts[o[p]]);
        } else {
            assert(n[i] == o[i - 1] && n[j] == o[j - 1]);
        }
    }
}

/// A query returns its rows in the order asked for (newest first where none
/// is): no returned transaction sorts strictly before one returned ahead of
/// it. Where no order is asked for, no row has an earlier date than one
/// after it (newest first); with amount descending, each row's amount is at
/// least the next's.
pub proof fn law_query_rows_in_order(
    ts: Seq<LedgerTransaction>,
    cs: Seq<StoredClassification>,
    f: TransactionFilters,
    bounds: Option<(Dec, Dec)>,
    s: Option<SortSpec>,
    p: Option<PaginationSpec>,
)
    ensures
        ({
            let idx = filtered_indices(ts, cs, f, bounds, ts.len());
            let page = page_of(sort_indices(ts, effective_sort(s), idx), p);
            &&& indices_sorted(ts, effective_sort(s), page)
            &&& s is None ==> forall|i: int, j: int| #![trigger page[i], page[j]]
                0 <= i < j < page.len() ==> !text_lt(ts[page[i]].date@, ts[page[j]].date@)
            &&& s == Some(SortSpec { field: SortField::Amount, direction: SortDirection::Desc }) ==> forall|
                i: int,
                j: int,
            | #![trigger page[i], page[j]]
                0 <= i < j < page.len() ==> parse_or_zero(ts[page[i]].amount@).v28() >= parse_or_zero(
                    ts[page[j]].amount@,
                ).v28()
        }),
{
    let idx = filtered_indices(ts, cs, f, bounds, ts.len());
    let sorted = sort_indices(ts, effective_sort(s), idx);
    let page = page_of(sorted, p);
    law_sorted_positions_in_order(ts, effective_sort(s), idx);
    let (limit, offset) = match p {
        Some(q) => (q.limit as int, q.offset as int),
        None => (100, 0),
    };
    assert forall|i: int, j: int| #![trigger page[i], page[j]] 0 <= i < j < page.len() implies !tx_before(
        effective_sort(s),
        ts[page[j]],
        ts[page[i]],
    ) by {
        assert(page[i] == sorted[offset + i] && page[j] == sorted[offset + j]);
    }
}

/// A query counts and returns exactly the transactions that pass its
/// filters: each position is taken at most once, in ascending order, and a
/// transaction is among them exactly where it passes.
pub proof fn law_query_takes_exactly_the_passing(
    ts: Seq<LedgerTransaction>,
    cs: Seq<StoredClassification>,
    f: TransactionFilters,
    bounds: Option<(Dec, Dec)>,
    n: nat,
)
    requires
        n <= ts.len(),
    ensures
        ({
            let idx = filtered_indices(ts, cs, f, bounds, n);
            &&& forall|i: int, j: int| #![trigger idx[i], idx[j]] 0 <= i < j < idx.len() ==> idx[i] < idx[j]
            &&& forall|k: int|
                0 <= k < n ==> (idx.contains(k) <==> passes_filters(
                    #[trigger] ts[k],
                    classification_of(cs, ts[k].tx_id@),
                    f,
                    bounds,
                ))
        }),
    decreases n,
{
    lemma_filtered_pass(ts, cs, f, bounds, n);
    if n > 0 {
        law_query_takes_exactly_the_passing(ts, cs, f, bounds, (n - 1) as nat);
        let p = filtered_indices(ts, cs, f, bounds, (n - 1) as nat);
        let idx = filtered_indices(ts, cs, f, bounds, n);
        lemma_filtered_pass(ts, cs, f, bounds, (n - 1) as nat);
        assert forall|i: int, j: int| #![trigger idx[i], idx[j]] 0 <= i < j < idx.len() implies idx[i] < idx[j] by {
            if j < p.len() {
                assert(idx[i] == p[i] && idx[j] == p[j]);
            } else {
                assert(idx[i] == p[i]);
                assert(p[i] < n - 1);
            }
        }
        assert forall|k: int| 0 <= k < n implies (idx.contains(k) <==> passes_filters(
            #[trigger] ts[k],
            classification_of(cs, ts[k].tx_id@),
            f,
            bounds,
        )) by {
            if k < n - 1 {
                if p.contains(k) {
                    let w = choose|w: int| 0 <= w < p.len() && p[w] == k;
                    assert(idx[w] == k);
                }
                if idx.contains(k) {
                    let w = choose|w: int| 0 <= w < idx.len() && idx[w] == k;
                    if w < p.len() {
                        assert(p[w] == k);
                    }
                }
            } else {
                if passes_filters(ts[k], classification_of(cs, ts[k].tx_id@), f, bounds) {
                    assert(idx[idx.len() - 1] == k);
                } else {
                    assert(idx == p);
                    if p.contains(k) {
                        let w = choose|w: int| 0 <= w < p.len() && p[w] == k;
                    }
                }
            }
        }
    }
}

/// Each filter that is set, in the terms of the transaction: the account is
/// the one asked for; the date lies between the range's start and end, both
/// included; the stored category equals the one asked for once both are
/// lowercased (an unclassified transaction never passes); the amount, as a
/// number (zero where it is not a decimal), lies between the bounds, both
/// included; and the source and description contain the text asked for,
/// ignoring case.
pub proof fn law_filter_meaning(
    t: LedgerTransaction,
    c: Option<StoredClassification>,
    f: TransactionFilters,
    bounds: Option<(Dec, Dec)>,
)
    ensures
        passes_filters(t, c, f, bounds) ==> (f.account_id matches Some(a) ==> t.account_id@ == a@),
        passes_filters(t, c, f, bounds) ==> (f.date_range matches Some(d) ==> (d.start@ == t.date@ || text_lt(
            d.start@,
            t.date@,
        )) && (t.date@ == d.end@ || text_lt(t.date@, d.end@))),
        passes_filters(t, c, f, bounds) ==> (f.category is Some ==> c is Some),
        passes_filters(t, c, f, bounds) ==> (bounds matches Some(b) ==> b.0.v28() <= parse_or_zero(t.amount@).v28()
            <= b.1.v28()),
        (f.account_id is None && f.date_range is None && f.category is None && bounds is None
            && f.source_ref is None && f.description_contains is None) ==> passes_filters(t, c, f, bounds),
        (f.date_range matches Some(d) && f.account_id is None && f.category is None && bounds is None
            && f.source_ref is None && f.description_contains is None && (t.date@ == d.start@ || t.date@ == d.end@)
            && !text_lt(d.end@, d.start@)) ==> passes_filters(t, c, f, bounds),
{
    if let Some(d) = f.date_range {
        lemma_text_lt_irreflexive(t.date@);
        if t.date@ != d.start@ {
            lemma_text_lt_total(d.start@, t.date@);
        }
        if t.date@ != d.end@ {
            lemma_text_lt_total(t.date@, d.end@);
        }
    }
}

/// The page asked for: the sorted positions from the offset on (0 where no
/// page is asked for), at most the limit of them (100 where none is asked
/// for, never more than 1000).
pub proof fn law_page_window(idx: Seq<int>, p: Option<PaginationSpec>)
    ensures
        ({
            let limit: int = match p {
                Some(q) => if q.limit < 1000 {
                    q.limit as int
                } else {
                    1000
                },
                None => 100,
            };
            let offset: int = match p {
                Some(q) => q.offset as int,
                None => 0,
            };
            let page = page_of(idx, p);
            &&& page.len() == if offset >= idx.len() {
                0
            } else if idx.len() - offset < limit {
                idx.len() - offset
            } else {
                limit
            }
            &&& forall|k: int| 0 <= k < page.len() ==> #[trigger] page[k] == idx[offset + k]
        }),
{
}

/// A confidence text read as a number between 0 and 1.
pub open spec fn confidence_spec(s: Seq<char>) -> Result<Dec, Seq<char>> {
    match decimal_from_str(s) {
        None => Err("confidence must be a valid decimal"@),
        Some(d) => if d.v28() < 0 || d.v28() > Dec::whole_spec(1).v28() {
            Err("confidence must be between 0 and 1"@)
        } else {
            Ok(d)
        },
    }
}

/// Reads a confidence: a decimal between 0 and 1.
pub fn parse_confidence(input: &str) -> (r: Result<Dec, ToolError>)
    ensures
        match confidence_spec(input@) {
            Ok(d) => r == Ok::<Dec, ToolError>(d) && d.wf(),
            Err(m) => r matches Err(e) && (e matches ToolError::InvalidInput(t) && t@ == m),
        },
{
    let c = match parse_decimal(input) {
        Some(d) => d,
        None => {
            return Err(ToolError::InvalidInput(owned("confidence must be a valid decimal")));
        },
    };
    if less_than(c, Dec::whole(0)) || less_than(Dec::whole(1), c) {
        proof {
            crate::decimal::lemma_v28_sign(Dec::whole_spec(0));
        }
        return Err(ToolError::InvalidInput(owned("confidence must be between 0 and 1")));
    }
    proof {
        crate::decimal::lemma_v28_sign(Dec::whole_spec(0));
    }
    Ok(c)
}

/// The position of the first element of the list stored under an id.
pub open spec fn first_index(cs: Seq<StoredClassification>, tx_id: Seq<char>) -> Option<int>
    decreases cs.len(),
{
    if cs.len() == 0 {
        None
    } else if cs[0].tx_id@ == tx_id {
        Some(0)
    } else {
        match first_index(cs.drop_first(), tx_id) {
            Some(k) => Some(k + 1),
            None => None,
        }
    }
}

/// The classifications with `e` stored under its id: in place of the first
/// stored under that id, or added at the end.
pub open spec fn upsert_spec(cs: Seq<StoredClassification>, e: StoredClassification) -> Seq<
    StoredClassification,
> {
    match first_index(cs, e.tx_id@) {
        Some(k) => cs.update(k, e),
        None => cs.push(e),
    }
}

/// The transaction with an id: the first listed under it.
pub open spec fn transaction_of(ts: Seq<LedgerTransaction>, tx_id: Seq<char>) -> Option<LedgerTransaction>
    decreases ts.len(),
{
    if ts.len() == 0 {
        None
    } else if ts[0].tx_id@ == tx_id {
        Some(ts[0])
    } else {
        transaction_of(ts.drop_first(), tx_id)
    }
}

/// Whether a date has three `-`-separated pieces that are all `u32`.
pub open spec fn date_well_formed(date: Seq<char>) -> bool {
    let parts = split_spec(date, '-');
    parts.len() == 3 && (forall|i: int|
        0 <= i < 3 ==> #[trigger] parse_int_spec(parts[i], false, 0, u32::MAX as int) is Some)
}

/// Why a classification is refused: an unknown transaction, an empty
/// category, a transaction whose amount is not a decimal or whose date is
/// not `YYYY-MM-DD`, or a confidence that is not a decimal between 0 and 1.
pub open spec fn classification_error(ts: Seq<LedgerTransaction>, req: ClassifyTransactionRequest) -> Option<
    Seq<char>,
> {
    match transaction_of(ts, req.tx_id@) {
        None => Some("unknown tx_id"@),
        Some(t) => if trim_spec(req.category@).len() == 0 {
            Some("category must not be empty"@)
        } else if decimal_from_str(trim_spec(t.amount@)) is None {
            Some("invalid amount decimal"@)
        } else if !date_well_formed(t.date@) {
            Some("schema invariant violation: date must be YYYY-MM-DD"@)
        } else {
            match confidence_spec(req.confidence@) {
                Err(m) => Some(m),
                Ok(_) => None,
            }
        },
    }
}

/// An audit entry as mathematical values.
pub type AuditView = (Seq<char>, Seq<char>, Seq<char>, Seq<char>, Option<Seq<char>>, Seq<char>, Option<Seq<char>>);

/// The view of an audit entry.
pub open spec fn audit_view(a: AuditEntryResponse) -> AuditView {
    (
        a.timestamp@,
        a.actor@,
        a.tx_id@,
        a.field@,
        crate::events::opt_view(a.old_value),
        a.new_value@,
        crate::events::opt_view(a.note),
    )
}

/// The views of a list of audit entries.
pub open spec fn audit_views(v: Seq<AuditEntryResponse>) -> Seq<AuditView> {
    v.map_values(|a: AuditEntryResponse| audit_view(a))
}

/// The audit entries a classification writes: one for the category where it
/// changes, then one for the confidence where its value changes.
pub open spec fn audit_entries_spec(
    old: Option<StoredClassification>,
    req: ClassifyTransactionRequest,
    conf: Dec,
    ts: Seq<char>,
) -> Seq<AuditView> {
    let cat_changed = !(old matches Some(c) && c.category@ == req.category@);
    let conf_changed = !(old matches Some(c) && c.confidence.v28() == conf.v28());
    let note = crate::events::opt_view(req.note);
    (if cat_changed {
        seq![
            (
                ts,
                req.actor@,
                req.tx_id@,
                "category"@,
                match old {
                    Some(c) => Some(c.category@),
                    None => None,
                },
                req.category@,
                note,
            ),
        ]
    } else {
        seq![]
    }) + (if conf_changed {
        seq![
            (
                ts,
                req.actor@,
                req.tx_id@,
                "confidence"@,
                match old {
                    Some(c) => Some(display_spec(c.confidence, c.confidence.scale as nat)),
                    None => None,
                },
                display_spec(conf, conf.scale as nat),
                note,
            ),
        ]
    } else {
        seq![]
    })
}

/// The classifications of the ledger and their audit trail.
pub struct ClassificationLedger {
    pub classifications: Vec<StoredClassification>,
    pub audit_log: Vec<AuditEntryResponse>,
}

/// Whether no two classifications are stored under one transaction.
pub open spec fn ids_unique(cs: Seq<StoredClassification>) -> bool {
    forall|i: int, j: int| #![trigger cs[i], cs[j]] 0 <= i < j < cs.len() ==> cs[i].tx_id@ != cs[j].tx_id@
}

impl ClassificationLedger {
    /// Every stored confidence is a well-formed number, and a transaction
    /// has at most one stored classification.
    pub open spec fn wf(&self) -> bool {
        &&& forall|i: int|
            0 <= i < self.classifications@.len() ==> (#[trigger] self.classifications@[i]).confidence.wf()
        &&& ids_unique(self.classifications@)
    }
}

/// What a classification did, and whether it needs a human review.
pub struct ClassificationOutcome {
    pub response: ClassifyTransactionResponse,
    pub needs_review: bool,
}

/// Whether the transactions are kept as the ledger keeps them: each id
/// once, in ascending id order.
pub open spec fn tx_ids_ascending(ts: Seq<LedgerTransaction>) -> bool {
    forall|i: int, j: int| #![trigger ts[i], ts[j]] 0 <= i < j < ts.len() ==> text_lt(ts[i].tx_id@, ts[j].tx_id@)
}

/// The number of leading transactions whose ids are below `id`.
pub open spec fn tx_position(ts: Seq<LedgerTransaction>, id: Seq<char>) -> int
    decreases ts.len(),
{
    if ts.len() == 0 || !text_lt(ts[0].tx_id@, id) {
        0
    } else {
        1 + tx_position(ts.drop_first(), id)
    }
}

/// The transactions after storing `row` under its id: it replaces the
/// transaction with that id, or is put in its place in id order.
pub open spec fn upsert_transaction_spec(ts: Seq<LedgerTransaction>, row: LedgerTransaction) -> Seq<
    LedgerTransaction,
> {
    let p = tx_position(ts, row.tx_id@);
    if p < ts.len() && ts[p].tx_id@ == row.tx_id@ {
        ts.update(p, row)
    } else {
        ts.insert(p, row)
    }
}

/// Stores a transaction under its id, keeping each id once and the ids in
/// ascending order: a transaction already under that id is replaced.
pub fn upsert_transaction(rows: &mut Vec<LedgerTransaction>, row: LedgerTransaction)
    requires
        tx_ids_ascending(old(rows)@),
    ensures
        tx_ids_ascending(final(rows)@),
        final(rows)@ == upsert_transaction_spec(old(rows)@, row),
{
    let ghost s = rows@;
    let ghost id = row.tx_id@;
    let mut i: usize = 0;
    assert(s.skip(0) =~= s);
    while i < rows.len() && str_lt(rows[i].tx_id.as_str(), row.tx_id.as_str())
        invariant
            rows@ == s,
            id == row.tx_id@,
            i <= s.len(),
            tx_ids_ascending(s),
            forall|k: int| 0 <= k < i ==> text_lt((#[trigger] s[k]).tx_id@, id),
            tx_position(s, id) == i + tx_position(s.skip(i as int), id),
        decreases s.len() - i,
    {
        assert(s.skip(i as int).drop_first() =~= s.skip(i + 1));
        assert(s.skip(i as int)[0] == s[i as int]);
        i = i + 1;
    }
    proof {
        if i < s.len() {
            assert(s.skip(i as int)[0] == s[i as int]);
        }
        assert(tx_position(s, id) == i);
    }
    if i < rows.len() && str_eq(rows[i].tx_id.as_str(), row.tx_id.as_str()) {
        rows.set(i, row);
        proof {
            let n = rows@;
            assert forall|a: int, b: int| #![trigger n[a], n[b]] 0 <= a < b < n.len() implies text_lt(
                n[a].tx_id@,
                n[b].tx_id@,
            ) by {
                assert(n[a].tx_id@ == s[a].tx_id@ && n[b].tx_id@ == s[b].tx_id@);
                assert(s[a] == s[a] && s[b] == s[b]);
            }
        }
    } else {
        rows.insert(i, row);
        proof {
            let n = rows@;
            if i < s.len() {
                assert(s[i as int].tx_id@ != id);
                lemma_text_lt_total(s[i as int].tx_id@, id);
            }
            assert forall|a: int, b: int| #![trigger n[a], n[b]] 0 <= a < b < n.len() implies text_lt(
                n[a].tx_id@,
                n[b].tx_id@,
            ) by {
                if b < i {
                    assert(n[a] == s[a] && n[b] == s[b]);
                } else if b == i {
                    assert(n[a] == s[a]);
                } else if a < i {
                    assert(n[a] == s[a] && n[b] == s[b - 1]);
                    assert(s[i as int] == s[i as int] && s[b - 1] == s[b - 1]);
                    if b - 1 > i {
                        lemma_text_lt_transitive(id, s[i as int].tx_id@, s[b - 1].tx_id@);
                    }
                    lemma_text_lt_transitive(s[a].tx_id@, id, s[b - 1].tx_id@);
                } else if a == i {
                    assert(n[b] == s[b - 1]);
                    assert(s[i as int] == s[i as int] && s[b - 1] == s[b - 1]);
                    if b - 1 > i {
                        lemma_text_lt_transitive(id, s[i as int].tx_id@, s[b - 1].tx_id@);
                    }
                } else {
                    assert(n[a] == s[a - 1] && n[b] == s[b - 1]);
                }
            }
        }
    }
}

/// Whether the transactions are kept as the ledger keeps them: each id once,
/// in ascending id order.
pub fn tx_ids_in_order(ts: &Vec<LedgerTransaction>) -> (r: bool)
    ensures
        r == tx_ids_ascending(ts@),
{
    let n = ts.len();
    if n == 0 {
        return true;
    }
    let mut i: usize = 1;
    while i < n
        invariant
            n == ts@.len(),
            1 <= i <= n,
            tx_ids_ascending(ts@.take(i as int)),
        decreases n - i,
    {
        if !str_lt(ts[i - 1].tx_id.as_str(), ts[i].tx_id.as_str()) {
            proof {
                let s = ts@;
                assert(s[i - 1] == s[i - 1] && s[i as int] == s[i as int]);
            }
            return false;
        }
        proof {
            let s = ts@;
            let p = s.take(i as int);
            let q = s.take(i + 1);
            assert forall|a: int, b: int| #![trigger q[a], q[b]] 0 <= a < b < q.len() implies text_lt(
                q[a].tx_id@,
                q[b].tx_id@,
            ) by {
                if b < i {
                    assert(q[a] == p[a] && q[b] == p[b]);
                } else {
                    assert(q[b] == s[i as int]);
                    if a < i - 1 {
                        assert(p[a] == q[a] && p[i - 1] == s[i - 1]);
                        lemma_text_lt_transitive(q[a].tx_id@, s[i - 1].tx_id@, s[i as int].tx_id@);
                    }
                }
            }
        }
        i = i + 1;
    }
    assert(ts@.take(n as int) =~= ts@);
    true
}

/// Where each id is kept once, a transaction is what the ledger finds under
/// its id.
pub proof fn law_kept_transaction_found_by_id(ts: Seq<LedgerTransaction>, i: int)
    requires
        tx_ids_ascending(ts),
        0 <= i < ts.len(),
    ensures
        transaction_of(ts, ts[i].tx_id@) == Some(ts[i]),
    decreases i,
{
    if i > 0 {
        let r = ts.drop_first();
        assert(ts[0] == ts[0] && ts[i] == ts[i]);
        lemma_text_lt_irreflexive(ts[i].tx_id@);
        assert forall|a: int, b: int| #![trigger r[a], r[b]] 0 <= a < b < r.len() implies text_lt(
            r[a].tx_id@,
            r[b].tx_id@,
        ) by {
            assert(ts[a + 1] == r[a] && ts[b + 1] == r[b]);
        }
        law_kept_transaction_found_by_id(r, i - 1);
        assert(r[i - 1] == ts[i]);
    }
}

/// The position of the first transaction with an id.
pub(crate) fn find_transaction(ts: &Vec<LedgerTransaction>, tx_id: &str) -> (r: Option<usize>)
    ensures
        match r {
            Some(k) => k < ts@.len() && transaction_of(ts@, tx_id@) == Some(ts@[k as int]),
            None => transaction_of(ts@, tx_id@) is None,
        },
{
    let mut k: usize = 0;
    assert(ts@.skip(0) =~= ts@);
    while k < ts.len()
        invariant
            k <= ts@.len(),
            transaction_of(ts@, tx_id@) == transaction_of(ts@.skip(k as int), tx_id@),
        decreases ts@.len() - k,
    {
        assert(ts@.skip(k as int)[0] == ts@[k as int]);
        assert(ts@.skip(k as int).drop_first() =~= ts@.skip(k + 1));
        if str_eq(ts[k].tx_id.as_str(), tx_id) {
            return Some(k);
        }
        k = k + 1;
    }
    assert(ts@.skip(k as int) =~= Seq::<LedgerTransaction>::empty());
    None
}

/// The position of the first classification stored under an id.
pub(crate) fn find_index(cs: &Vec<StoredClassification>, tx_id: &str) -> (r: Option<usize>)
    ensures
        match r {
            Some(k) => first_index(cs@, tx_id@) == Some(k as int) && k < cs@.len(),
            None => first_index(cs@, tx_id@) is None,
        },
{
    let mut k: usize = 0;
    assert(cs@.skip(0) =~= cs@);
    while k < cs.len()
        invariant
            k <= cs@.len(),
            first_index(cs@, tx_id@) == match first_index(cs@.skip(k as int), tx_id@) {
                Some(j) => Some(j + k),
                None => None,
            },
        decreases cs@.len() - k,
    {
        assert(cs@.skip(k as int)[0] == cs@[k as int]);
        assert(cs@.skip(k as int).drop_first() =~= cs@.skip(k + 1));
        if str_eq(cs[k].tx_id.as_str(), tx_id) {
            return Some(k);
        }
        k = k + 1;
    }
    assert(cs@.skip(k as int) =~= Seq::<StoredClassification>::empty());
    None
}

/// The first of a list of classifications under an id is the one found by
/// its position.
pub(crate) proof fn lemma_first_index_value(cs: Seq<StoredClassification>, tx_id: Seq<char>)
    ensures
        match first_index(cs, tx_id) {
            Some(k) => 0 <= k < cs.len() && classification_of(cs, tx_id) == Some(cs[k]) && cs[k].tx_id@ == tx_id,
            None => classification_of(cs, tx_id) is None && forall|j: int|
                0 <= j < cs.len() ==> (#[trigger] cs[j]).tx_id@ != tx_id,
        },
    decreases cs.len(),
{
    if cs.len() > 0 && cs[0].tx_id@ != tx_id {
        lemma_first_index_value(cs.drop_first(), tx_id);
        if first_index(cs, tx_id) is None {
            assert forall|j: int| 0 <= j < cs.len() implies (#[trigger] cs[j]).tx_id@ != tx_id by {
                if j > 0 {
                    assert(cs[j] == cs.drop_first()[j - 1]);
                }
            }
        }
    }
}

/// Whether a date is `YYYY-MM-DD`: three pieces, each a `u32`.
fn date_ok(date: &str) -> (r: bool)
    ensures
        r == date_well_formed(date@),
{
    let parts = split_pieces(date, '-');
    let ghost pv = parts@.map_values(|p: &str| p@);
    if parts.len() != 3 {
        return false;
    }
    assert(pv[0] == parts@[0]@ && pv[1] == parts@[1]@ && pv[2] == parts@[2]@);
    let ok = parse_u32(parts[0]).is_some() && parse_u32(parts[1]).is_some() && parse_u32(parts[2]).is_some();
    proof {
        if !ok {
            assert(!(parse_int_spec(pv[0], false, 0, u32::MAX as int) is Some && parse_int_spec(
                pv[1],
                false,
                0,
                u32::MAX as int,
            ) is Some && parse_int_spec(pv[2], false, 0, u32::MAX as int) is Some));
        } else {
            assert forall|i: int| 0 <= i < 3 implies #[trigger] parse_int_spec(
                pv[i],
                false,
                0,
                u32::MAX as int,
            ) is Some by {}
        }
    }
    ok
}

/// A stored classification as values: transaction, category, confidence.
pub open spec fn stored_view(c: StoredClassification) -> (Seq<char>, Seq<char>, Dec) {
    (c.tx_id@, c.category@, c.confidence)
}

/// The stored classifications as values, in order.
pub open spec fn stored_views(cs: Seq<StoredClassification>) -> Seq<(Seq<char>, Seq<char>, Dec)> {
    cs.map_values(|c: StoredClassification| stored_view(c))
}

/// The stored classifications after storing `entry`: it replaces the first
/// stored under its transaction, or is added at the end.
pub open spec fn store_classification(
    cs: Seq<StoredClassification>,
    entry: (Seq<char>, Seq<char>, Dec),
) -> Seq<(Seq<char>, Seq<char>, Dec)> {
    match first_index(cs, entry.0) {
        Some(k) => stored_views(cs).update(k, entry),
        None => stored_views(cs).push(entry),
    }
}

/// What recording `request` at `timestamp` does to a ledger `before`,
/// leaving it `after` and answering `r`: a refused request changes nothing
/// and is answered with its error; an accepted one appends its audit
/// entries, stores the classification and reports whether it needs review.
pub open spec fn classification_recorded(
    before: ClassificationLedger,
    after: ClassificationLedger,
    transactions: Seq<LedgerTransaction>,
    request: ClassifyTransactionRequest,
    timestamp: Seq<char>,
    r: Result<ClassificationOutcome, ToolError>,
) -> bool {
    match classification_error(transactions, request) {
        Some(msg) => {
            &&& r matches Err(e) && (e matches ToolError::InvalidInput(t) && t@ == msg)
            &&& after.classifications@ == before.classifications@
            &&& after.audit_log@ == before.audit_log@
        },
        None => r matches Ok(o) && ({
            let conf = confidence_spec(request.confidence@)->Ok_0;
            let old_c = classification_of(before.classifications@, request.tx_id@);
            let entries = audit_entries_spec(old_c, request, conf, timestamp);
            &&& o.response.tx_id@ == request.tx_id@
            &&& o.response.category@ == request.category@
            &&& o.response.confidence@ == display_spec(conf, conf.scale as nat)
            &&& audit_views(o.response.audit_entries@) == entries
            &&& audit_views(after.audit_log@) == audit_views(before.audit_log@) + entries
            &&& stored_views(after.classifications@) == store_classification(
                before.classifications@,
                (request.tx_id@, request.category@, conf),
            )
            &&& after.classifications@.len() >= before.classifications@.len()
            &&& classification_of(after.classifications@, request.tx_id@) matches Some(c) && c.category@
                == request.category@ && c.confidence == conf
            &&& o.needs_review == (conf.v28() < (Dec { negative: false, magnitude: 80, scale: 2 }).v28()
                || eq_ignore_ascii_case_spec(request.category@, "uncategorized"@))
        }),
    }
}

/// Records a classification of a transaction: checks the transaction and
/// the request, writes an audit entry for each field whose value changes,
/// and stores the classification. It needs review where the confidence is
/// below 0.80 or the category is `uncategorized` (ASCII case ignored).
pub fn record_classification(
    ledger: &mut ClassificationLedger,
    transactions: &Vec<LedgerTransaction>,
    request: &ClassifyTransactionRequest,
    timestamp: &str,
) -> (r: Result<ClassificationOutcome, ToolError>)
    requires
        old(ledger).wf(),
    ensures
        final(ledger).wf(),
        classification_recorded(*old(ledger), *final(ledger), transactions@, *request, timestamp@, r),
{
    let k = match find_transaction(transactions, request.tx_id.as_str()) {
        Some(k) => k,
        None => {
            return Err(ToolError::InvalidInput(owned("unknown tx_id")));
        },
    };
    let row = &transactions[k];
    if trim(request.category.as_str()).unicode_len() == 0 {
        return Err(ToolError::InvalidInput(owned("category must not be empty")));
    }
    if parse_decimal(trim(row.amount.as_str())).is_none() {
        return Err(ToolError::InvalidInput(owned("invalid amount decimal")));
    }
    if !date_ok(row.date.as_str()) {
        return Err(ToolError::InvalidInput(owned("schema invariant violation: date must be YYYY-MM-DD")));
    }
    let confidence = match parse_confidence(request.confidence.as_str()) {
        Ok(c) => c,
        Err(e) => {
            return Err(e);
        },
    };
    let ghost old_cs = ledger.classifications@;
    let ghost old_log = ledger.audit_log@;
    let found = find_index(&ledger.classifications, request.tx_id.as_str());
    proof {
        lemma_first_index_value(old_cs, request.tx_id@);
    }
    let mut entries: Vec<AuditEntryResponse> = Vec::new();
    let (cat_changed, conf_changed, old_category, old_confidence) = match found {
        Some(i) => {
            let c = &ledger.classifications[i];
            (
                !str_eq(c.category.as_str(), request.category.as_str()),
                less_than(c.confidence, confidence) || less_than(confidence, c.confidence),
                Some(c.category.clone()),
                Some(to_text(c.confidence)),
            )
        },
        None => (true, true, None, None),
    };
    if cat_changed {
        let entry = AuditEntryResponse {
            timestamp: owned(timestamp),
            actor: request.actor.clone(),
            tx_id: request.tx_id.clone(),
            field: owned("category"),
            old_value: old_category,
            new_value: request.category.clone(),
            note: crate::events::copy_opt(&request.note),
        };
        entries.push(entry);
    }
    if conf_changed {
        let entry = AuditEntryResponse {
            timestamp: owned(timestamp),
            actor: request.actor.clone(),
            tx_id: request.tx_id.clone(),
            field: owned("confidence"),
            old_value: old_confidence,
            new_value: to_text(confidence),
            note: crate::events::copy_opt(&request.note),
        };
        entries.push(entry);
    }
    let ghost ev = audit_views(entries@);
    assert(ev =~= audit_entries_spec(classification_of(old_cs, request.tx_id@), *request, confidence, timestamp@));
    let mut i: usize = 0;
    while i < entries.len()
        invariant
            i <= entries@.len(),
            ev == audit_views(entries@),
            audit_views(ledger.audit_log@) == audit_views(old_log) + ev.take(i as int),
            ledger.classifications@ == old_cs,
        decreases entries@.len() - i,
    {
        let e = &entries[i];
        let copy = AuditEntryResponse {
            timestamp: e.timestamp.clone(),
            actor: e.actor.clone(),
            tx_id: e.tx_id.clone(),
            field: e.field.clone(),
            old_value: crate::events::copy_opt(&e.old_value),
            new_value: e.new_value.clone(),
            note: crate::events::copy_opt(&e.note),
        };
        let ghost before = audit_views(ledger.audit_log@);
        ledger.audit_log.push(copy);
        assert(audit_views(ledger.audit_log@) =~= before.push(ev[i as int]));
        assert(ev.take(i + 1) =~= ev.take(i as int).push(ev[i as int]));
        i = i + 1;
    }
    assert(ev.take(entries@.len() as int) =~= ev);
    let stored = StoredClassification {
        tx_id: request.tx_id.clone(),
        category: request.category.clone(),
        confidence,
    };
    match found {
        Some(i) => {
            ledger.classifications.set(i, stored);
            proof {
                assert(ledger.classifications@ =~= old_cs.update(i as int, ledger.classifications@[i as int]));
                assert(stored_views(ledger.classifications@) =~= stored_views(old_cs).update(
                    i as int,
                    (request.tx_id@, request.category@, confidence),
                ));
                lemma_first_index_value(ledger.classifications@, request.tx_id@);
                lemma_first_index_update(old_cs, request.tx_id@, i as int, ledger.classifications@[i as int]);
                let ncs = ledger.classifications@;
                assert forall|a: int, b: int| #![trigger ncs[a], ncs[b]] 0 <= a < b < ncs.len() implies ncs[a].tx_id@
                    != ncs[b].tx_id@ by {
                    assert(ncs[a].tx_id@ == old_cs[a].tx_id@);
                    assert(ncs[b].tx_id@ == old_cs[b].tx_id@);
                    assert(old_cs[a] == old_cs[a] && old_cs[b] == old_cs[b]);
                }
            }
        },
        None => {
            ledger.classifications.push(stored);
            proof {
                assert(stored_views(ledger.classifications@) =~= stored_views(old_cs).push(
                    (request.tx_id@, request.category@, confidence),
                ));
                lemma_classification_of_push(old_cs, request.tx_id@, ledger.classifications@.last());
                let ncs = ledger.classifications@;
                assert forall|a: int, b: int| #![trigger ncs[a], ncs[b]] 0 <= a < b < ncs.len() implies ncs[a].tx_id@
                    != ncs[b].tx_id@ by {
                    assert(ncs[a] == old_cs[a]);
                    if b < old_cs.len() {
                        assert(ncs[b] == old_cs[b]);
                    }
                }
            }
        },
    }
    let needs_review = less_than(confidence, Dec { negative: false, magnitude: 80, scale: 2 })
        || eq_ignore_ascii_case(request.category.as_str(), "uncategorized");
    Ok(
        ClassificationOutcome {
            response: ClassifyTransactionResponse {
                tx_id: request.tx_id.clone(),
                category: request.category.clone(),
                confidence: to_text(confidence),
                audit_entries: entries,
            },
            needs_review,
        },
    )
}

/// Replacing the first classification under an id keeps it the first.
proof fn lemma_first_index_update(cs: Seq<StoredClassification>, tx_id: Seq<char>, k: int, e: StoredClassification)
    requires
        first_index(cs, tx_id) == Some(k),
        0 <= k < cs.len(),
        e.tx_id@ == tx_id,
    ensures
        classification_of(cs.update(k, e), tx_id) == Some(e),
    decreases cs.len(),
{
    if k > 0 {
        assert(cs.update(k, e).drop_first() =~= cs.drop_first().update(k - 1, e));
        lemma_first_index_update(cs.drop_first(), tx_id, k - 1, e);
    }
}

/// Adding a classification under an id that has none makes it the one found.
proof fn lemma_classification_of_push(cs: Seq<StoredClassification>, tx_id: Seq<char>, e: StoredClassification)
    requires
        classification_of(cs, tx_id) is None,
        e.tx_id@ == tx_id,
    ensures
        classification_of(cs.push(e), tx_id) == Some(e),
    decreases cs.len(),
{
    if cs.len() > 0 {
        assert(cs.push(e).drop_first() =~= cs.drop_first().push(e));
        lemma_classification_of_push(cs.drop_first(), tx_id, e);
    } else {
        assert(cs.push(e)[0] == e);
    }
}

/// Recording the classification a transaction already has writes no audit
/// entry; a first classification writes one for the category and one for
/// the confidence.
pub proof fn law_audit_only_on_change(
    old: Option<StoredClassification>,
    req: ClassifyTransactionRequest,
    conf: Dec,
    ts: Seq<char>,
)
    ensures
        (old matches Some(c) && c.category@ == req.category@ && c.confidence.v28() == conf.v28())
            ==> audit_entries_spec(old, req, conf, ts).len() == 0,
        old is None ==> audit_entries_spec(old, req, conf, ts).len() == 2,
{
}

/// The payload of the lifecycle event that records a classification: the
/// actor, category and confidence of the request, the transaction's date,
/// and the note (empty where there is none).
pub open spec fn classification_payload(
    row: LedgerTransaction,
    request: ClassifyTransactionRequest,
) -> Seq<(Seq<char>, Seq<char>)> {
    let p0 = entries_insert(Seq::empty(), "actor"@, request.actor@);
    let p1 = entries_insert(p0, "category"@, request.category@);
    let p2 = entries_insert(p1, "confidence"@, request.confidence@);
    let p3 = entries_insert(p2, "date"@, row.date@);
    entries_insert(p3, "note"@, unwrap_or_empty(opt_view(request.note)))
}

/// Records a classification of a transaction, its audit entries stamped
/// with the current time of the system clock in whole seconds since the
/// Unix epoch, and appends a lifecycle event of type `event_type` for the
/// transaction, under its source document, that carries what was recorded.
/// A refused classification appends no event.
pub fn apply_classification_action(
    ledger: &mut ClassificationLedger,
    events: &mut InMemoryLifecycleEventStore,
    transactions: &Vec<LedgerTransaction>,
    request: &ClassifyTransactionRequest,
    event_type: &str,
) -> (r: Result<ClassificationOutcome, ToolError>)
    requires
        old(ledger).wf(),
        is_event_type(event_type@),
    ensures
        final(ledger).wf(),
        exists|n: nat|
            #[trigger] classification_recorded(
                *old(ledger),
                *final(ledger),
                transactions@,
                *request,
                decimal_spec(n),
                r,
            ),
        match r {
            Ok(_) => {
                let row = transaction_of(transactions@, request.tx_id@)->Some_0;
                final(events).events_view() == old(events).events_view().push(
                    appended_event(
                        old(events).last_sequence(),
                        event_type@,
                        Some(request.tx_id@),
                        Some(row.source_ref@),
                        classification_payload(row, *request),
                    ),
                )
            },
            Err(_) => final(events).events_view() == old(events).events_view() && final(events).last_sequence()
                == old(events).last_sequence(),
        },
{
    let timestamp = now_timestamp();
    let ghost n = choose|n: nat| timestamp@ == decimal_spec(n);
    let ghost before = *ledger;
    let r = record_classification(ledger, transactions, request, timestamp.as_str());
    assert(classification_recorded(before, *ledger, transactions@, *request, decimal_spec(n), r));
    if r.is_err() {
        return r;
    }
    let k = match find_transaction(transactions, request.tx_id.as_str()) {
        Some(k) => k,
        None => {
            return r;
        },
    };
    let row = &transactions[k];
    let mut payload = StringMap::new();
    payload.insert(owned("actor"), request.actor.clone());
    payload.insert(owned("category"), request.category.clone());
    payload.insert(owned("confidence"), request.confidence.clone());
    payload.insert(owned("date"), row.date.clone());
    let note = match &request.note {
        Some(n) => n.clone(),
        None => String::new(),
    };
    payload.insert(owned("note"), note);
    assert(payload@ == classification_payload(*row, *request));
    proof {
        lemma_event_type_plain(event_type@);
    }
    let appended = events.append_event(
        event_type,
        Some(request.tx_id.clone()),
        Some(row.source_ref.clone()),
        payload,
    );
    match appended {
        Ok(_) => r,
        Err(e) => Err(e),
    }
}

} // verus!
