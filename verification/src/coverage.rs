//! Coverage of accounts over a tax year: which months have postings, which
//! are missing, and which months look wrong.
use crate::capital_loss::parse_or_zero;
use crate::decimal::{
    lemma_v28_sign,
    checked_add, decimal_checked_add, decimal_from_str, display_spec, less_than, parse_decimal,
    to_text, Dec,
};
use crate::error::ToolError;
use crate::ledger::LedgerTransaction;
use crate::service::{year_month_error_text, year_month_from_date, year_month_spec};
use crate::strmap::texts_view;
use crate::text::{concat, owned, push_char, str_eq, str_lt, text_lt, zero_pad_spec, zero_padded};
use vstd::prelude::*;

verus! {

/// The postings of one account in one month.
#[derive(Debug, Clone, PartialEq, Eq)]
pub struct AccountPeriodCoverage {
    pub account_id: String,
    pub period: String,
    pub opening_balance: String,
    pub closing_balance: String,
    pub posting_sum: String,
    pub source_refs: Vec<String>,
}

/// The texts of an `AccountPeriodCoverage`, in field order.
pub type CoverageView = (Seq<char>, Seq<char>, Seq<char>, Seq<char>, Seq<char>, Seq<Seq<char>>);

impl View for AccountPeriodCoverage {
    type V = CoverageView;

    open spec fn view(&self) -> CoverageView {
        (
            self.account_id@,
            self.period@,
            self.opening_balance@,
            self.closing_balance@,
            self.posting_sum@,
            texts_view(self.source_refs@),
        )
    }
}

/// A month whose opening balance is not the previous month's closing.
#[derive(Debug, Clone, PartialEq, Eq)]
pub struct Discontinuity {
    pub account_id: String,
    pub from_period: String,
    pub to_period: String,
    pub expected_opening: String,
    pub actual_opening: String,
}

/// What the coverage check found.
#[derive(Debug, Clone, PartialEq, Eq)]
pub struct CoverageReport {
    pub complete: Vec<AccountPeriodCoverage>,
    pub gaps: Vec<(String, String)>,
    pub duplicates: Vec<AccountPeriodCoverage>,
    pub discontinuities: Vec<Discontinuity>,
    pub intra_period_failures: Vec<AccountPeriodCoverage>,
    pub has_gaps: bool,
    pub has_duplicates: bool,
    pub has_discontinuities: bool,
    pub has_intra_period_failures: bool,
}

/// The accounts and the year to check.
#[derive(Debug, Clone, PartialEq, Eq)]
pub struct CoverageRequest {
    pub account_ids: Vec<String>,
    pub tax_year: i32,
}

/// Whether an account is among those asked for.
pub open spec fn requested(ids: Seq<String>, a: Seq<char>) -> bool {
    exists|i: int| 0 <= i < ids.len() && #[trigger] ids[i]@ == a
}

/// The first problem, going through the rows in order, with a row of an
/// account asked for: a date without a year and month, or an amount of the
/// tax year that is not a decimal.
pub open spec fn validation_error(ids: Seq<String>, year: i32, rows: Seq<LedgerTransaction>) -> Option<
    Seq<char>,
>
    decreases rows.len(),
{
    if rows.len() == 0 {
        None
    } else {
        let r = rows[0];
        if !requested(ids, r.account_id@) {
            validation_error(ids, year, rows.drop_first())
        } else {
            match year_month_spec(r.date@) {
                None => Some(year_month_error_text(r.date@)),
                Some((y, m)) => if y == year && decimal_from_str(r.amount@) is None {
                    Some("bad amount: "@ + r.amount@)
                } else {
                    validation_error(ids, year, rows.drop_first())
                },
            }
        }
    }
}

/// The month of a row, where it belongs to the account and the year.
pub open spec fn row_month(r: LedgerTransaction, a: Seq<char>, year: i32) -> Option<u32> {
    if r.account_id@ == a {
        match year_month_spec(r.date@) {
            Some((y, m)) => if y == year {
                Some(m)
            } else {
                None
            },
            None => None,
        }
    } else {
        None
    }
}

/// An ascending list of months with `m` added, if it is not there.
pub open spec fn insert_month(ms: Seq<u32>, m: u32) -> Seq<u32>
    decreases ms.len(),
{
    if ms.len() == 0 {
        seq![m]
    } else if ms[0] == m {
        ms
    } else if m < ms[0] {
        seq![m] + ms
    } else {
        seq![ms[0]] + insert_month(ms.drop_first(), m)
    }
}

/// The months in which an account has rows in the year, ascending.
pub open spec fn months_of(rows: Seq<LedgerTransaction>, a: Seq<char>, year: i32) -> Seq<u32>
    decreases rows.len(),
{
    if rows.len() == 0 {
        seq![]
    } else {
        let p = months_of(rows.drop_last(), a, year);
        match row_month(rows.last(), a, year) {
            Some(m) => insert_month(p, m),
            None => p,
        }
    }
}

/// The sum of an account's amounts in a month, from zero in row order;
/// `None` where a sum overflows.
pub open spec fn month_sum(rows: Seq<LedgerTransaction>, a: Seq<char>, year: i32, m: u32) -> Option<Dec>
    decreases rows.len(),
{
    if rows.len() == 0 {
        Some(Dec::whole_spec(0))
    } else {
        let p = month_sum(rows.drop_last(), a, year, m);
        if row_month(rows.last(), a, year) == Some(m) {
            match p {
                None => None,
                Some(s) => decimal_checked_add(s, parse_or_zero(rows.last().amount@)),
            }
        } else {
            p
        }
    }
}

/// The source references of an account's rows in a month, each once, in
/// the order they first appear.
pub open spec fn month_refs(rows: Seq<LedgerTransaction>, a: Seq<char>, year: i32, m: u32) -> Seq<Seq<char>>
    decreases rows.len(),
{
    if rows.len() == 0 {
        seq![]
    } else {
        let p = month_refs(rows.drop_last(), a, year, m);
        if row_month(rows.last(), a, year) == Some(m) && !p.contains(rows.last().source_ref@) {
            p.push(rows.last().source_ref@)
        } else {
            p
        }
    }
}

/// One account month: the account, the month, its sum and its references.
pub type MonthEntry = (Seq<char>, u32, Dec, Seq<Seq<char>>);

/// The entries of an account for the given months; `None` where a sum
/// overflows.
pub open spec fn entries_for(rows: Seq<LedgerTransaction>, a: Seq<char>, year: i32, ms: Seq<u32>) -> Option<
    Seq<MonthEntry>,
>
    decreases ms.len(),
{
    if ms.len() == 0 {
        Some(seq![])
    } else {
        match entries_for(rows, a, year, ms.drop_last()) {
            None => None,
            Some(p) => match month_sum(rows, a, year, ms.last()) {
                None => None,
                Some(s) => Some(p.push((a, ms.last(), s, month_refs(rows, a, year, ms.last())))),
            },
        }
    }
}

/// The entries of every account asked for, account by account in the order
/// asked, months ascending.
pub open spec fn all_entries(rows: Seq<LedgerTransaction>, ids: Seq<String>, year: i32) -> Option<
    Seq<MonthEntry>,
>
    decreases ids.len(),
{
    if ids.len() == 0 {
        Some(seq![])
    } else {
        match all_entries(rows, ids.drop_last(), year) {
            None => None,
            Some(p) => {
                let a = ids.last()@;
                match entries_for(rows, a, year, months_of(rows, a, year)) {
                    None => None,
                    Some(e) => Some(p + e),
                }
            },
        }
    }
}

/// A year as `{:04}` writes it.
pub open spec fn year_text(y: i32) -> Seq<char> {
    if y >= 0 {
        zero_pad_spec(y as nat, 4)
    } else {
        seq!['-'] + zero_pad_spec((-y) as nat, 3)
    }
}

/// A month of a year as `YYYY-MM`.
pub open spec fn period_text(y: i32, m: u32) -> Seq<char> {
    year_text(y) + seq!['-'] + zero_pad_spec(m as nat, 2)
}

/// How an entry is reported: opening and closing balances are zero.
pub open spec fn coverage_of(e: MonthEntry, year: i32) -> CoverageView {
    (
        e.0,
        period_text(year, e.1),
        display_spec(Dec::whole_spec(0), 0),
        display_spec(Dec::whole_spec(0), 0),
        display_spec(e.2, e.2.scale as nat),
        e.3,
    )
}

/// How a list of entries is reported.
pub open spec fn coverages_of(es: Seq<MonthEntry>, year: i32) -> Seq<CoverageView> {
    es.map_values(|e: MonthEntry| coverage_of(e, year))
}

/// The entries with more than one source reference.
pub open spec fn duplicate_entries(es: Seq<MonthEntry>) -> Seq<MonthEntry>
    decreases es.len(),
{
    if es.len() == 0 {
        seq![]
    } else {
        let p = duplicate_entries(es.drop_last());
        if es.last().3.len() > 1 {
            p.push(es.last())
        } else {
            p
        }
    }
}

/// The entries whose sum is below zero.
pub open spec fn negative_entries(es: Seq<MonthEntry>) -> Seq<MonthEntry>
    decreases es.len(),
{
    if es.len() == 0 {
        seq![]
    } else {
        let p = negative_entries(es.drop_last());
        if es.last().2.v28() < 0 {
            p.push(es.last())
        } else {
            p
        }
    }
}

/// The months 1 to `k` of the year missing from `ms`, as account and period.
pub open spec fn gaps_upto(a: Seq<char>, year: i32, ms: Seq<u32>, k: nat) -> Seq<(Seq<char>, Seq<char>)>
    decreases k,
{
    if k == 0 {
        seq![]
    } else {
        let p = gaps_upto(a, year, ms, (k - 1) as nat);
        if ms.contains(k as u32) {
            p
        } else {
            p.push((a, period_text(year, k as u32)))
        }
    }
}

/// The missing months of every account asked for.
pub open spec fn all_gaps(rows: Seq<LedgerTransaction>, ids: Seq<String>, year: i32) -> Seq<(Seq<char>, Seq<char>)>
    decreases ids.len(),
{
    if ids.len() == 0 {
        seq![]
    } else {
        let a = ids.last()@;
        all_gaps(rows, ids.drop_last(), year) + gaps_upto(a, year, months_of(rows, a, year), 12)
    }
}

/// `x` sorts before `y`: by the first text, then by the second.
pub open spec fn key_before(x: (Seq<char>, Seq<char>), y: (Seq<char>, Seq<char>)) -> bool {
    text_lt(x.0, y.0) || (x.0 == y.0 && text_lt(x.1, y.1))
}

/// Where a stable insertion puts `k` among sorted keys: before the first key
/// it sorts before.
pub open spec fn key_insertion_point(s: Seq<(Seq<char>, Seq<char>)>, k: (Seq<char>, Seq<char>)) -> int
    decreases s.len(),
{
    if s.len() == 0 {
        0
    } else if key_before(k, s[0]) {
        0
    } else {
        1 + key_insertion_point(s.drop_first(), k)
    }
}

/// Pairs of texts sorted, ties keeping their order.
pub open spec fn sort_pairs(s: Seq<(Seq<char>, Seq<char>)>) -> Seq<(Seq<char>, Seq<char>)>
    decreases s.len(),
{
    if s.len() == 0 {
        seq![]
    } else {
        let o = sort_pairs(s.drop_last());
        o.insert(key_insertion_point(o, s.last()), s.last())
    }
}

/// The sort key of a coverage: account, then period.
pub open spec fn coverage_key(c: CoverageView) -> (Seq<char>, Seq<char>) {
    (c.0, c.1)
}

/// The keys of a list of coverages.
pub open spec fn coverage_keys(s: Seq<CoverageView>) -> Seq<(Seq<char>, Seq<char>)> {
    s.map_values(|c: CoverageView| coverage_key(c))
}

/// Coverages sorted by account and period, ties keeping their order.
pub open spec fn sort_coverages(s: Seq<CoverageView>) -> Seq<CoverageView>
    decreases s.len(),
{
    if s.len() == 0 {
        seq![]
    } else {
        let o = sort_coverages(s.drop_last());
        o.insert(key_insertion_point(coverage_keys(o), coverage_key(s.last())), s.last())
    }
}

/// The views of a list of coverages.
pub open spec fn coverage_views(v: Seq<AccountPeriodCoverage>) -> Seq<CoverageView> {
    v.map_values(|c: AccountPeriodCoverage| c@)
}

/// The views of a list of text pairs.
pub open spec fn pair_views(v: Seq<(String, String)>) -> Seq<(Seq<char>, Seq<char>)> {
    v.map_values(|p: (String, String)| (p.0@, p.1@))
}

/// The report for the entries and gaps: every month with postings sorted by
/// account and period, the missing months sorted, the months with several
/// sources and those with a negative sum in the order found, no
/// discontinuity (each month opens and closes at zero), and the flags.
pub open spec fn report_matches(r: CoverageReport, es: Seq<MonthEntry>, gaps: Seq<(Seq<char>, Seq<char>)>, year: i32) -> bool {
    &&& coverage_views(r.complete@) == sort_coverages(coverages_of(es, year))
    &&& pair_views(r.gaps@) == sort_pairs(gaps)
    &&& coverage_views(r.duplicates@) == coverages_of(duplicate_entries(es), year)
    &&& coverage_views(r.intra_period_failures@) == coverages_of(negative_entries(es), year)
    &&& r.discontinuities@.len() == 0
    &&& r.has_gaps == (r.gaps@.len() > 0)
    &&& r.has_duplicates == (r.duplicates@.len() > 0)
    &&& r.has_discontinuities == (r.discontinuities@.len() > 0)
    &&& r.has_intra_period_failures == (r.intra_period_failures@.len() > 0)
}

/// Whether an account is among those asked for.
fn is_requested(ids: &Vec<String>, a: &str) -> (r: bool)
    ensures
        r == requested(ids@, a@),
{
    let mut i: usize = 0;
    while i < ids.len()
        invariant
            i <= ids@.len(),
            forall|k: int| 0 <= k < i ==> #[trigger] ids@[k]@ != a@,
        decreases ids@.len() - i,
    {
        if str_eq(ids[i].as_str(), a) {
            return true;
        }
        i = i + 1;
    }
    false
}

/// Checks the rows in order; the first problem is refused with its message.
fn validate(ids: &Vec<String>, year: i32, rows: &Vec<LedgerTransaction>) -> (r: Result<(), ToolError>)
    ensures
        match r {
            Ok(()) => validation_error(ids@, year, rows@) is None,
            Err(e) => validation_error(ids@, year, rows@) matches Some(msg) && (e matches ToolError::InvalidInput(
                t,
            ) && t@ == msg),
        },
{
    let mut i: usize = 0;
    assert(rows@.skip(0) =~= rows@);
    while i < rows.len()
        invariant
            i <= rows@.len(),
            validation_error(ids@, year, rows@) == validation_error(ids@, year, rows@.skip(i as int)),
        decreases rows@.len() - i,
    {
        let row = &rows[i];
        assert(rows@.skip(i as int)[0] == *row);
        assert(rows@.skip(i as int).drop_first() =~= rows@.skip(i + 1));
        if is_requested(ids, row.account_id.as_str()) {
            match year_month_from_date(row.date.as_str()) {
                Err(e) => {
                    return Err(e);
                },
                Ok((y, _m)) => {
                    if y == year {
                        if parse_decimal(row.amount.as_str()).is_none() {
                            return Err(ToolError::InvalidInput(concat("bad amount: ", row.amount.as_str())));
                        }
                    }
                },
            }
        }
        i = i + 1;
    }
    assert(rows@.skip(rows@.len() as int) =~= Seq::<LedgerTransaction>::empty());
    Ok(())
}

/// The month of a row, where it belongs to the account and the year.
fn month_of_row(r: &LedgerTransaction, a: &str, year: i32) -> (m: Option<u32>)
    ensures
        m == row_month(*r, a@, year),
{
    if str_eq(r.account_id.as_str(), a) {
        match year_month_from_date(r.date.as_str()) {
            Ok((y, m)) => if y == year {
                Some(m)
            } else {
                None
            },
            Err(_) => None,
        }
    } else {
        None
    }
}

/// Adds a month to an ascending list, if it is not there.
fn add_month(ms: &mut Vec<u32>, m: u32)
    ensures
        final(ms)@ == insert_month(old(ms)@, m),
{
    let ghost s = ms@;
    let mut j: usize = 0;
    assert(s.take(0) + s.skip(0) =~= s);
    while j < ms.len()
        invariant
            ms@ == s,
            j <= s.len(),
            insert_month(s, m) == s.take(j as int) + insert_month(s.skip(j as int), m),
        ensures
            ms@ == s,
            j <= s.len(),
            insert_month(s, m) == s.take(j as int) + insert_month(s.skip(j as int), m),
            j < s.len() ==> (s[j as int] == m || m < s[j as int]),
        decreases s.len() - j,
    {
        let here = ms[j];
        if here == m || m < here {
            break;
        }
        assert(s.skip(j as int)[0] == here);
        assert(s.skip(j as int).drop_first() =~= s.skip(j + 1));
        assert(insert_month(s.skip(j as int), m) == seq![here] + insert_month(s.skip(j + 1), m));
        assert(s.take(j as int) + seq![here] =~= s.take(j + 1));
        assert(s.take(j as int) + (seq![here] + insert_month(s.skip(j + 1), m)) =~= s.take(j + 1)
            + insert_month(s.skip(j + 1), m));
        j = j + 1;
    }
    if j < ms.len() && ms[j] == m {
        assert(s.skip(j as int)[0] == m);
        assert(insert_month(s.skip(j as int), m) == s.skip(j as int));
        assert(s.take(j as int) + s.skip(j as int) =~= s);
    } else {
        if j < ms.len() {
            assert(s.skip(j as int)[0] == s[j as int]);
            assert(insert_month(s.skip(j as int), m) == seq![m] + s.skip(j as int));
        } else {
            assert(s.skip(j as int) =~= Seq::<u32>::empty());
            assert(insert_month(s.skip(j as int), m) == seq![m]);
            assert(seq![m] =~= seq![m] + s.skip(j as int));
        }
        ms.insert(j, m);
        assert(ms@ =~= s.take(j as int) + (seq![m] + s.skip(j as int)));
    }
}

/// The months in which an account has rows in the year, ascending.
fn months_for(rows: &Vec<LedgerTransaction>, a: &str, year: i32) -> (r: Vec<u32>)
    ensures
        r@ == months_of(rows@, a@, year),
{
    let mut ms: Vec<u32> = Vec::new();
    let mut i: usize = 0;
    while i < rows.len()
        invariant
            i <= rows@.len(),
            ms@ == months_of(rows@.take(i as int), a@, year),
        decreases rows@.len() - i,
    {
        assert(rows@.take(i + 1).drop_last() =~= rows@.take(i as int));
        assert(rows@.take(i + 1).last() == rows@[i as int]);
        match month_of_row(&rows[i], a, year) {
            Some(m) => add_month(&mut ms, m),
            None => {},
        }
        i = i + 1;
    }
    assert(rows@.take(rows@.len() as int) =~= rows@);
    ms
}

/// Whether a month is in a list.
fn has_month(ms: &Vec<u32>, m: u32) -> (r: bool)
    ensures
        r == ms@.contains(m),
{
    let mut i: usize = 0;
    while i < ms.len()
        invariant
            i <= ms@.len(),
            forall|k: int| 0 <= k < i ==> ms@[k] != m,
        decreases ms@.len() - i,
    {
        if ms[i] == m {
            assert(ms@[i as int] == m);
            return true;
        }
        i = i + 1;
    }
    false
}

/// Whether a text is in a list.
fn has_text(v: &Vec<String>, x: &str) -> (r: bool)
    ensures
        r == texts_view(v@).contains(x@),
{
    let mut i: usize = 0;
    while i < v.len()
        invariant
            i <= v@.len(),
            forall|k: int| 0 <= k < i ==> #[trigger] v@[k]@ != x@,
        decreases v@.len() - i,
    {
        if str_eq(v[i].as_str(), x) {
            assert(texts_view(v@)[i as int] == x@);
            return true;
        }
        i = i + 1;
    }
    assert forall|k: int| 0 <= k < texts_view(v@).len() implies texts_view(v@)[k] != x@ by {
        assert(texts_view(v@)[k] == v@[k]@);
    }
    false
}

/// Once a sum overflows, adding more rows does not bring it back.
proof fn lemma_month_sum_none_extends(rows: Seq<LedgerTransaction>, a: Seq<char>, year: i32, m: u32, k: int)
    requires
        0 <= k <= rows.len(),
        month_sum(rows.take(k), a, year, m) is None,
    ensures
        month_sum(rows, a, year, m) is None,
    decreases rows.len() - k,
{
    if k < rows.len() {
        assert(rows.take(k + 1).drop_last() =~= rows.take(k));
        lemma_month_sum_none_extends(rows, a, year, m, k + 1);
    } else {
        assert(rows.take(k) =~= rows);
    }
}

/// The sum and the source references of an account's month; `None` where
/// the sum overflows.
fn month_totals(rows: &Vec<LedgerTransaction>, a: &str, year: i32, m: u32) -> (r: Option<(Dec, Vec<String>)>)
    ensures
        match r {
            None => month_sum(rows@, a@, year, m) is None,
            Some((s, refs)) => month_sum(rows@, a@, year, m) == Some(s) && s.wf() && texts_view(refs@)
                == month_refs(rows@, a@, year, m),
        },
{
    let mut sum = Dec::whole(0);
    let mut refs: Vec<String> = Vec::new();
    let mut i: usize = 0;
    assert(texts_view(refs@) =~= seq![]);
    while i < rows.len()
        invariant
            i <= rows@.len(),
            sum.wf(),
            month_sum(rows@.take(i as int), a@, year, m) == Some(sum),
            texts_view(refs@) == month_refs(rows@.take(i as int), a@, year, m),
        decreases rows@.len() - i,
    {
        assert(rows@.take(i + 1).drop_last() =~= rows@.take(i as int));
        assert(rows@.take(i + 1).last() == rows@[i as int]);
        let row = &rows[i];
        if month_of_row(row, a, year) == Some(m) {
            let amount = match parse_decimal(row.amount.as_str()) {
                Some(d) => d,
                None => Dec::whole(0),
            };
            sum = match checked_add(sum, amount) {
                Some(s) => s,
                None => {
                    proof {
                        lemma_month_sum_none_extends(rows@, a@, year, m, i + 1);
                    }
                    return None;
                },
            };
            if !has_text(&refs, row.source_ref.as_str()) {
                refs.push(row.source_ref.clone());
                assert(texts_view(refs@) =~= month_refs(rows@.take(i as int), a@, year, m).push(
                    row.source_ref@,
                ));
            }
        }
        i = i + 1;
    }
    assert(rows@.take(rows@.len() as int) =~= rows@);
    Some((sum, refs))
}

/// A year as `{:04}` writes it.
fn year_digits(y: i32) -> (r: String)
    ensures
        r@ == year_text(y),
{
    if y >= 0 {
        let r = zero_padded(y as u64, 4);
        assert((y as u64) as nat == y as nat);
        r
    } else {
        let magnitude: i64 = -(y as i64);
        let digits = zero_padded(magnitude as u64, 3);
        assert((magnitude as u64) as nat == (-y) as nat);
        proof {
            reveal_strlit("-");
        }
        let r = concat("-", digits.as_str());
        assert(r@ =~= seq!['-'] + zero_pad_spec((-y) as nat, 3));
        r
    }
}

/// A month of a year as `YYYY-MM`.
fn period(y: i32, m: u32) -> (r: String)
    ensures
        r@ == period_text(y, m),
{
    let mut r = year_digits(y);
    push_char(&mut r, '-');
    let mm = zero_padded(m as u64, 2);
    r = concat(r.as_str(), mm.as_str());
    r
}

/// A copy of a list of texts.
fn copy_texts(v: &Vec<String>) -> (r: Vec<String>)
    ensures
        texts_view(r@) == texts_view(v@),
{
    let mut r: Vec<String> = Vec::new();
    let mut i: usize = 0;
    while i < v.len()
        invariant
            i <= v@.len(),
            r@.len() == i,
            texts_view(r@) == texts_view(v@.take(i as int)),
        decreases v@.len() - i,
    {
        let ghost prev = r@;
        let x = owned(v[i].as_str());
        assert(x@ == v@[i as int]@);
        r.push(x);
        assert(r@ == prev.push(x));
        assert(prev.len() == i);
        assert forall|k: int| 0 <= k < i + 1 implies #[trigger] texts_view(r@)[k] == texts_view(
            v@.take(i + 1),
        )[k] by {
            if k < i {
                assert(texts_view(prev)[k] == texts_view(v@.take(i as int))[k]);
            }
        }
        assert(texts_view(r@) =~= texts_view(v@.take(i + 1)));
        i = i + 1;
    }
    assert(v@.take(v@.len() as int) =~= v@);
    r
}

/// A copy of a coverage.
fn copy_coverage(c: &AccountPeriodCoverage) -> (r: AccountPeriodCoverage)
    ensures
        r@ == c@,
{
    AccountPeriodCoverage {
        account_id: c.account_id.clone(),
        period: c.period.clone(),
        opening_balance: c.opening_balance.clone(),
        closing_balance: c.closing_balance.clone(),
        posting_sum: c.posting_sum.clone(),
        source_refs: copy_texts(&c.source_refs),
    }
}

/// Whether `x` sorts before `y`, by first then second text.
fn pair_before(x0: &str, x1: &str, y0: &str, y1: &str) -> (r: bool)
    ensures
        r == key_before((x0@, x1@), (y0@, y1@)),
{
    str_lt(x0, y0) || (str_eq(x0, y0) && str_lt(x1, y1))
}

/// The pairs sorted, ties keeping their order.
fn sort_gap_list(v: &Vec<(String, String)>) -> (r: Vec<(String, String)>)
    ensures
        pair_views(r@) == sort_pairs(pair_views(v@)),
{
    let ghost input = pair_views(v@);
    let mut ordered: Vec<(String, String)> = Vec::new();
    let mut i: usize = 0;
    assert(input.take(0) =~= Seq::<(Seq<char>, Seq<char>)>::empty());
    assert(pair_views(ordered@) =~= Seq::<(Seq<char>, Seq<char>)>::empty());
    while i < v.len()
        invariant
            input == pair_views(v@),
            0 <= i <= v@.len(),
            pair_views(ordered@) == sort_pairs(input.take(i as int)),
        decreases v@.len() - i,
    {
        let e = &v[i];
        let ghost ek = (e.0@, e.1@);
        let ghost o = pair_views(ordered@);
        let mut j: usize = 0;
        assert(o.subrange(0, o.len() as int) =~= o);
        while j < ordered.len()
            invariant
                o == pair_views(ordered@),
                ek == (e.0@, e.1@),
                0 <= j <= o.len(),
                key_insertion_point(o, ek) == j + key_insertion_point(o.subrange(j as int, o.len() as int), ek),
            ensures
                j == key_insertion_point(o, ek),
            decreases ordered@.len() - j,
        {
            let before = pair_before(e.0.as_str(), e.1.as_str(), ordered[j].0.as_str(), ordered[j].1.as_str());
            proof {
                assert(o[j as int] == (ordered@[j as int].0@, ordered@[j as int].1@));
                let rest = o.subrange(j as int, o.len() as int);
                assert(rest[0] == o[j as int]);
                assert(rest.drop_first() =~= o.subrange(j + 1, o.len() as int));
                assert(before == key_before(ek, rest[0]));
                assert(key_insertion_point(rest, ek) == if key_before(ek, rest[0]) {
                    0
                } else {
                    1 + key_insertion_point(rest.drop_first(), ek)
                });
            }
            if before {
                break;
            }
            j = j + 1;
        }
        proof {
            assert(input.take(i + 1).drop_last() =~= input.take(i as int));
            assert(input.take(i + 1).last() == ek);
        }
        ordered.insert(j, (e.0.clone(), e.1.clone()));
        assert(pair_views(ordered@) =~= o.insert(j as int, ek));
        i = i + 1;
    }
    assert(input.take(v@.len() as int) =~= input);
    ordered
}

/// The coverages sorted by account and period, ties keeping their order.
fn sort_coverage_list(v: &Vec<AccountPeriodCoverage>) -> (r: Vec<AccountPeriodCoverage>)
    ensures
        coverage_views(r@) == sort_coverages(coverage_views(v@)),
{
    let ghost input = coverage_views(v@);
    let mut ordered: Vec<AccountPeriodCoverage> = Vec::new();
    let mut i: usize = 0;
    assert(input.take(0) =~= Seq::<CoverageView>::empty());
    assert(coverage_views(ordered@) =~= Seq::<CoverageView>::empty());
    while i < v.len()
        invariant
            input == coverage_views(v@),
            0 <= i <= v@.len(),
            coverage_views(ordered@) == sort_coverages(input.take(i as int)),
        decreases v@.len() - i,
    {
        let e = &v[i];
        let ghost ek = coverage_key(e@);
        let ghost o = coverage_views(ordered@);
        let ghost ok = coverage_keys(o);
        let mut j: usize = 0;
        assert(ok.subrange(0, ok.len() as int) =~= ok);
        while j < ordered.len()
            invariant
                o == coverage_views(ordered@),
                ok == coverage_keys(o),
                ek == coverage_key(e@),
                0 <= j <= ok.len(),
                key_insertion_point(ok, ek) == j + key_insertion_point(ok.subrange(j as int, ok.len() as int), ek),
            ensures
                j == key_insertion_point(ok, ek),
            decreases ordered@.len() - j,
        {
            let before = pair_before(
                e.account_id.as_str(),
                e.period.as_str(),
                ordered[j].account_id.as_str(),
                ordered[j].period.as_str(),
            );
            proof {
                assert(o[j as int] == ordered@[j as int]@);
                assert(ok[j as int] == coverage_key(o[j as int]));
                let rest = ok.subrange(j as int, ok.len() as int);
                assert(rest[0] == ok[j as int]);
                assert(rest.drop_first() =~= ok.subrange(j + 1, ok.len() as int));
            }
            if before {
                break;
            }
            j = j + 1;
        }
        proof {
            assert(input.take(i + 1).drop_last() =~= input.take(i as int));
            assert(input.take(i + 1).last() == e@);
        }
        let copy = copy_coverage(e);
        ordered.insert(j, copy);
        assert(coverage_views(ordered@) =~= o.insert(j as int, e@));
        i = i + 1;
    }
    assert(input.take(v@.len() as int) =~= input);
    ordered
}

/// Once the entries of some months overflow, so do those of more months.
proof fn lemma_entries_none_extends(rows: Seq<LedgerTransaction>, a: Seq<char>, year: i32, ms: Seq<u32>, k: int)
    requires
        0 <= k <= ms.len(),
        entries_for(rows, a, year, ms.take(k)) is None,
    ensures
        entries_for(rows, a, year, ms) is None,
    decreases ms.len() - k,
{
    if k < ms.len() {
        assert(ms.take(k + 1).drop_last() =~= ms.take(k));
        lemma_entries_none_extends(rows, a, year, ms, k + 1);
    } else {
        assert(ms.take(k) =~= ms);
    }
}

/// Once the entries of some accounts overflow, so do those of more accounts.
proof fn lemma_all_entries_none_extends(rows: Seq<LedgerTransaction>, ids: Seq<String>, year: i32, k: int)
    requires
        0 <= k <= ids.len(),
        all_entries(rows, ids.take(k), year) is None,
    ensures
        all_entries(rows, ids, year) is None,
    decreases ids.len() - k,
{
    if k < ids.len() {
        assert(ids.take(k + 1).drop_last() =~= ids.take(k));
        lemma_all_entries_none_extends(rows, ids, year, k + 1);
    } else {
        assert(ids.take(k) =~= ids);
    }
}

/// The message for sums that overflow.
pub open spec fn overflow_message() -> Seq<char> {
    "posting sum overflows the decimal range"@
}

/// Checks the coverage of the accounts over the tax year. A row of an
/// account asked for whose date has no year and month, or whose amount in
/// the year is not a decimal, is refused with the first such problem; sums
/// that overflow are refused too. Otherwise every account month with rows is
/// reported (sum, distinct sources), every missing month of the twelve is a
/// gap, and months with several sources or a negative sum are flagged.
pub fn check_account_coverage(request: &CoverageRequest, rows: &Vec<LedgerTransaction>) -> (r: Result<
    CoverageReport,
    ToolError,
>)
    ensures
        match validation_error(request.account_ids@, request.tax_year, rows@) {
            Some(msg) => r matches Err(e) && (e matches ToolError::InvalidInput(t) && t@ == msg),
            None => match all_entries(rows@, request.account_ids@, request.tax_year) {
                None => r matches Err(e) && (e matches ToolError::InvalidInput(t) && t@
                    == overflow_message()),
                Some(es) => r matches Ok(rep) && report_matches(
                    rep,
                    es,
                    all_gaps(rows@, request.account_ids@, request.tax_year),
                    request.tax_year,
                ),
            },
        },
{
    match validate(&request.account_ids, request.tax_year, rows) {
        Err(e) => {
            return Err(e);
        },
        Ok(()) => {},
    }
    let ids = &request.account_ids;
    let year = request.tax_year;
    let mut complete: Vec<AccountPeriodCoverage> = Vec::new();
    let mut gaps: Vec<(String, String)> = Vec::new();
    let mut duplicates: Vec<AccountPeriodCoverage> = Vec::new();
    let mut discontinuities: Vec<Discontinuity> = Vec::new();
    let mut intra_period_failures: Vec<AccountPeriodCoverage> = Vec::new();
    let ghost mut es: Seq<MonthEntry> = seq![];
    let mut k: usize = 0;
    assert(ids@.take(0) =~= Seq::<String>::empty());
    assert(coverage_views(complete@) =~= seq![]);
    assert(coverage_views(duplicates@) =~= seq![]);
    assert(coverage_views(intra_period_failures@) =~= seq![]);
    assert(pair_views(gaps@) =~= seq![]);
    while k < ids.len()
        invariant
            k <= ids@.len(),
            validation_error(request.account_ids@, request.tax_year, rows@) is None,
            ids == &request.account_ids,
            year == request.tax_year,
            all_entries(rows@, ids@.take(k as int), year) == Some(es),
            all_gaps(rows@, ids@.take(k as int), year) == pair_views(gaps@),
            coverage_views(complete@) == coverages_of(es, year),
            coverage_views(duplicates@) == coverages_of(duplicate_entries(es), year),
            coverage_views(intra_period_failures@) == coverages_of(negative_entries(es), year),
            discontinuities@.len() == 0,
        decreases ids@.len() - k,
    {
        assert(ids@.take(k + 1).drop_last() =~= ids@.take(k as int));
        assert(ids@.take(k + 1).last() == ids@[k as int]);
        let a = ids[k].as_str();
        let ms = months_for(rows, a, year);
        let ghost g0 = pair_views(gaps@);
        let mut m: u32 = 1;
        assert(g0 + gaps_upto(a@, year, ms@, 0) =~= g0);
        while m <= 12
            invariant
                1 <= m <= 13,
                pair_views(gaps@) == g0 + gaps_upto(a@, year, ms@, (m - 1) as nat),
            decreases 13 - m,
        {
            let ghost before = pair_views(gaps@);
            if !has_month(&ms, m) {
                gaps.push((owned(a), period(year, m)));
                assert(pair_views(gaps@) =~= before.push((a@, period_text(year, m))));
            }
            assert(gaps_upto(a@, year, ms@, m as nat) == if ms@.contains(m) {
                gaps_upto(a@, year, ms@, (m - 1) as nat)
            } else {
                gaps_upto(a@, year, ms@, (m - 1) as nat).push((a@, period_text(year, m)))
            });
            m = m + 1;
        }
        let ghost es0 = es;
        let ghost mut ea: Seq<MonthEntry> = seq![];
        let mut j: usize = 0;
        assert(ms@.take(0) =~= Seq::<u32>::empty());
        assert(es0 + ea =~= es0);
        while j < ms.len()
            invariant
                j <= ms@.len(),
                k < ids@.len(),
                year == request.tax_year,
                validation_error(request.account_ids@, request.tax_year, rows@) is None,
                ids == &request.account_ids,
                ms@ == months_of(rows@, a@, year),
                a@ == ids@[k as int]@,
                all_entries(rows@, ids@.take(k as int), year) == Some(es0),
                entries_for(rows@, a@, year, ms@.take(j as int)) == Some(ea),
                coverage_views(complete@) == coverages_of(es0 + ea, year),
                coverage_views(duplicates@) == coverages_of(duplicate_entries(es0 + ea), year),
                coverage_views(intra_period_failures@) == coverages_of(negative_entries(es0 + ea), year),
            decreases ms@.len() - j,
        {
            assert(ms@.take(j + 1).drop_last() =~= ms@.take(j as int));
            assert(ms@.take(j + 1).last() == ms@[j as int]);
            let month = ms[j];
            match month_totals(rows, a, year, month) {
                None => {
                    proof {
                        assert(month_sum(rows@, a@, year, ms@.take(j + 1).last()) is None);
                        assert(entries_for(rows@, a@, year, ms@.take(j + 1)) is None);
                        lemma_entries_none_extends(rows@, a@, year, ms@, j + 1);
                        assert(ids@.take(k + 1).last()@ == a@);
                        assert(all_entries(rows@, ids@.take(k + 1), year) is None);
                        lemma_all_entries_none_extends(rows@, ids@, year, k + 1);
                        assert(all_entries(rows@, request.account_ids@, request.tax_year) is None);
                    }
                    return Err(ToolError::InvalidInput(owned("posting sum overflows the decimal range")));
                },
                Some((sum, refs)) => {
                    let cov = AccountPeriodCoverage {
                        account_id: owned(a),
                        period: period(year, month),
                        opening_balance: to_text(Dec::whole(0)),
                        closing_balance: to_text(Dec::whole(0)),
                        posting_sum: to_text(sum),
                        source_refs: refs,
                    };
                    let ghost entry: MonthEntry = (a@, month, sum, month_refs(rows@, a@, year, month));
                    let ghost prev = es0 + ea;
                    assert(cov@ == coverage_of(entry, year));
                    assert((prev.push(entry)).drop_last() =~= prev);
                    let ghost cd = coverage_views(duplicates@);
                    let ghost ci = coverage_views(intra_period_failures@);
                    let ghost cc = coverage_views(complete@);
                    if less_than(sum, Dec::whole(0)) {
                        intra_period_failures.push(copy_coverage(&cov));
                        assert(coverage_views(intra_period_failures@) =~= ci.push(cov@));
                    }
                    if cov.source_refs.len() > 1 {
                        duplicates.push(copy_coverage(&cov));
                        assert(coverage_views(duplicates@) =~= cd.push(cov@));
                    }
                    complete.push(cov);
                    assert(coverage_views(complete@) =~= cc.push(coverage_of(entry, year)));
                    proof {
                        ea = ea.push(entry);
                        assert(es0 + ea =~= prev.push(entry));
                        assert(coverages_of(prev.push(entry), year) =~= coverages_of(prev, year).push(
                            coverage_of(entry, year),
                        ));
                        assert(coverages_of(duplicate_entries(prev).push(entry), year) =~= coverages_of(
                            duplicate_entries(prev),
                            year,
                        ).push(coverage_of(entry, year)));
                        assert(coverages_of(negative_entries(prev).push(entry), year) =~= coverages_of(
                            negative_entries(prev),
                            year,
                        ).push(coverage_of(entry, year)));
                        lemma_v28_zero();
                    }
                },
            }
            j = j + 1;
        }
        proof {
            assert(ms@.take(ms@.len() as int) =~= ms@);
            es = es0 + ea;
        }
        k = k + 1;
    }
    assert(ids@.take(ids@.len() as int) =~= ids@);
    let gaps = sort_gap_list(&gaps);
    let complete = sort_coverage_list(&complete);
    let has_gaps = gaps.len() > 0;
    let has_duplicates = duplicates.len() > 0;
    let has_discontinuities = discontinuities.len() > 0;
    let has_intra_period_failures = intra_period_failures.len() > 0;
    Ok(
        CoverageReport {
            complete,
            gaps,
            duplicates,
            discontinuities,
            intra_period_failures,
            has_gaps,
            has_duplicates,
            has_discontinuities,
            has_intra_period_failures,
        },
    )
}

/// The zero number's value is zero.
proof fn lemma_v28_zero()
    ensures
        Dec::whole_spec(0).v28() == 0,
{
    lemma_v28_sign(Dec::whole_spec(0));
}

/// Checks the coverage of the accounts over the tax year, for rows whose
/// monthly sums do not overflow; see `check_account_coverage`.
pub fn assert_account_coverage(request: &CoverageRequest, rows: &Vec<LedgerTransaction>) -> (r: Result<
    CoverageReport,
    ToolError,
>)
    requires
        validation_error(request.account_ids@, request.tax_year, rows@) is None ==> all_entries(
            rows@,
            request.account_ids@,
            request.tax_year,
        ) is Some,
    ensures
        match validation_error(request.account_ids@, request.tax_year, rows@) {
            Some(msg) => r matches Err(e) && (e matches ToolError::InvalidInput(t) && t@ == msg),
            None => r matches Ok(rep) && report_matches(
                rep,
                all_entries(rows@, request.account_ids@, request.tax_year).unwrap(),
                all_gaps(rows@, request.account_ids@, request.tax_year),
                request.tax_year,
            ),
        },
{
    check_account_coverage(request, rows)
}

/// A list of months strictly ascending.
pub open spec fn months_ascending(ms: Seq<u32>) -> bool {
    forall|i: int, j: int| 0 <= i < j < ms.len() ==> ms[i] < ms[j]
}

/// Adding a month keeps a list ascending and adds exactly that month.
proof fn lemma_insert_month(ms: Seq<u32>, m: u32)
    requires
        months_ascending(ms),
    ensures
        months_ascending(insert_month(ms, m)),
        forall|x: u32| #[trigger] insert_month(ms, m).contains(x) <==> (ms.contains(x) || x == m),
    decreases ms.len(),
{
    if ms.len() == 0 {
        assert(insert_month(ms, m) =~= seq![m]);
        assert forall|x: u32| insert_month(ms, m).contains(x) <==> (ms.contains(x) || x == m) by {
            if insert_month(ms, m).contains(x) {
                assert(insert_month(ms, m)[0] == m);
            }
            if x == m {
                assert(insert_month(ms, m)[0] == x);
            }
        }
    } else if ms[0] == m {
    } else if m < ms[0] {
        let r = seq![m] + ms;
        assert forall|x: u32| r.contains(x) <==> (ms.contains(x) || x == m) by {
            if r.contains(x) {
                let i = choose|i: int| 0 <= i < r.len() && r[i] == x;
                if i > 0 {
                    assert(ms[i - 1] == x);
                }
            }
            if ms.contains(x) {
                let i = choose|i: int| 0 <= i < ms.len() && ms[i] == x;
                assert(r[i + 1] == x);
            }
            if x == m {
                assert(r[0] == x);
            }
        }
        assert forall|i: int, j: int| 0 <= i < j < r.len() implies r[i] < r[j] by {
            if i > 0 {
                assert(r[i] == ms[i - 1] && r[j] == ms[j - 1]);
            } else {
                assert(r[j] == ms[j - 1]);
                assert(ms[0] <= ms[j - 1]);
            }
        }
    } else {
        let rest = ms.drop_first();
        assert(months_ascending(rest));
        lemma_insert_month(rest, m);
        let r = seq![ms[0]] + insert_month(rest, m);
        assert forall|x: u32| r.contains(x) <==> (ms.contains(x) || x == m) by {
            if r.contains(x) {
                let i = choose|i: int| 0 <= i < r.len() && r[i] == x;
                if i > 0 {
                    assert(insert_month(rest, m)[i - 1] == x);
                    assert(insert_month(rest, m).contains(x));
                    if rest.contains(x) {
                        let k = choose|k: int| 0 <= k < rest.len() && rest[k] == x;
                        assert(ms[k + 1] == x);
                    }
                } else {
                    assert(ms[0] == x);
                }
            }
            if ms.contains(x) {
                let i = choose|i: int| 0 <= i < ms.len() && ms[i] == x;
                if i > 0 {
                    assert(rest[i - 1] == x);
                    assert(rest.contains(x));
                    assert(insert_month(rest, m).contains(x));
                    let k = choose|k: int| 0 <= k < insert_month(rest, m).len() && insert_month(rest, m)[k] == x;
                    assert(r[k + 1] == x);
                } else {
                    assert(r[0] == x);
                }
            }
            if x == m {
                assert(insert_month(rest, m).contains(x));
                let k = choose|k: int| 0 <= k < insert_month(rest, m).len() && insert_month(rest, m)[k] == x;
                assert(r[k + 1] == x);
            }
        }
        assert forall|i: int, j: int| 0 <= i < j < r.len() implies r[i] < r[j] by {
            if i > 0 {
                assert(r[i] == insert_month(rest, m)[i - 1] && r[j] == insert_month(rest, m)[j - 1]);
            } else {
                let y = r[j];
                assert(y == insert_month(rest, m)[j - 1]);
                assert(insert_month(rest, m).contains(y));
                if rest.contains(y) {
                    let k = choose|k: int| 0 <= k < rest.len() && rest[k] == y;
                    assert(ms[k + 1] == y);
                }
            }
        }
    }
}

/// The months reported for an account are strictly ascending, and are
/// exactly the months of its rows in the tax year.
pub proof fn law_months_ascending(rows: Seq<LedgerTransaction>, a: Seq<char>, year: i32)
    ensures
        months_ascending(months_of(rows, a, year)),
        forall|m: u32|
            #[trigger] months_of(rows, a, year).contains(m) <==> exists|i: int|
                0 <= i < rows.len() && row_month(rows[i], a, year) == Some(m),
    decreases rows.len(),
{
    if rows.len() > 0 {
        let init = rows.drop_last();
        law_months_ascending(init, a, year);
        let p = months_of(init, a, year);
        match row_month(rows.last(), a, year) {
            Some(m) => {
                lemma_insert_month(p, m);
            },
            None => {},
        }
        assert forall|m: u32|
            #[trigger] months_of(rows, a, year).contains(m) <==> exists|i: int|
                0 <= i < rows.len() && row_month(rows[i], a, year) == Some(m) by {
            if months_of(rows, a, year).contains(m) {
                if p.contains(m) {
                    let i = choose|i: int| 0 <= i < init.len() && row_month(init[i], a, year) == Some(m);
                    assert(rows[i] == init[i]);
                } else {
                    assert(row_month(rows[rows.len() - 1], a, year) == Some(m));
                }
            }
            if exists|i: int| 0 <= i < rows.len() && row_month(rows[i], a, year) == Some(m) {
                let i = choose|i: int| 0 <= i < rows.len() && row_month(rows[i], a, year) == Some(m);
                if i < rows.len() - 1 {
                    assert(init[i] == rows[i]);
                    assert(p.contains(m));
                }
            }
        }
    } else {
        assert forall|m: u32| !(#[trigger] months_of(rows, a, year).contains(m)) by {}
    }
}

/// The gaps of an account are the months 1 to 12 without rows: every gap is
/// such a month, and every such month is a gap. An account without rows in
/// the year has twelve gaps.
pub proof fn law_gaps_are_missing_months(a: Seq<char>, year: i32, ms: Seq<u32>, k: nat)
    requires
        k <= 12,
    ensures
        forall|i: int|
            0 <= i < gaps_upto(a, year, ms, k).len() ==> exists|m: u32|
                1 <= m <= k && !ms.contains(m) && #[trigger] gaps_upto(a, year, ms, k)[i] == (
                    a,
                    period_text(year, m),
                ),
        forall|m: u32|
            1 <= m <= k && !ms.contains(m) ==> exists|i: int|
                0 <= i < gaps_upto(a, year, ms, k).len() && #[trigger] gaps_upto(a, year, ms, k)[i] == (
                    a,
                    period_text(year, m),
                ),
        ms.len() == 0 ==> gaps_upto(a, year, ms, k).len() == k,
    decreases k,
{
    if k > 0 {
        let k1 = (k - 1) as nat;
        law_gaps_are_missing_months(a, year, ms, k1);
        let p = gaps_upto(a, year, ms, k1);
        let g = gaps_upto(a, year, ms, k);
        assert forall|i: int| 0 <= i < g.len() implies exists|m: u32|
            1 <= m <= k && !ms.contains(m) && #[trigger] g[i] == (a, period_text(year, m)) by {
            if i < p.len() {
                assert(g[i] == p[i]);
                let m = choose|m: u32| 1 <= m <= k1 && !ms.contains(m) && #[trigger] p[i] == (a, period_text(year, m));
                assert(1 <= m <= k && !ms.contains(m) && g[i] == (a, period_text(year, m)));
            } else {
                assert(g[i] == (a, period_text(year, k as u32)));
            }
        }
        assert forall|m: u32| 1 <= m <= k && !ms.contains(m) implies exists|i: int|
            0 <= i < g.len() && #[trigger] g[i] == (a, period_text(year, m)) by {
            if m < k {
                let i = choose|i: int| 0 <= i < p.len() && #[trigger] p[i] == (a, period_text(year, m));
                assert(g[i] == p[i]);
            } else {
                assert(g[p.len() as int] == (a, period_text(year, k as u32)));
            }
        }
    }
}

} // verus!
