//! The foreign bank account report: each account's highest balance of the
//! year in dollars, their sum, and whether FBAR and Form 8938 are due.
use crate::decimal::{
    checked_add, checked_mul, decimal_checked_add, decimal_checked_mul, decimal_from_str,
    display_spec, lemma_pow10_positive, less_than, parse_decimal, pow10, to_text, Dec,
};
use crate::strmap::texts_view;
use crate::text::{owned, str_eq};
use vstd::prelude::*;

verus! {

/// The balance of an account on one day, as a decimal text.
#[derive(Debug, Clone)]
pub struct DailyBalance {
    pub date: String,
    pub balance: String,
}

/// A foreign account with its daily balances and the Treasury rate at the
/// end of the year.
#[derive(Debug, Clone)]
pub struct ForeignAccountInput {
    pub account_id: String,
    pub institution: String,
    pub country: String,
    pub currency: String,
    pub daily_balances: Vec<DailyBalance>,
    pub year_end_rate: Option<String>,
}

/// The accounts of one taxpayer and year.
#[derive(Debug, Clone)]
pub struct FbarInput {
    pub tax_year: u16,
    pub filing_status: String,
    pub living_abroad: bool,
    pub accounts: Vec<ForeignAccountInput>,
}

/// The highest balance of an account, in its currency and in dollars.
#[derive(Debug, Clone)]
pub struct ForeignAccountYear {
    pub account_id: String,
    pub institution: String,
    pub country: String,
    pub currency: String,
    pub max_balance_native: String,
    pub max_balance_date: String,
    pub treasury_year_end_rate: String,
    pub max_balance_usd: String,
}

/// The texts of a `ForeignAccountYear`, in field order.
pub type AccountYearView = (
    Seq<char>,
    Seq<char>,
    Seq<char>,
    Seq<char>,
    Seq<char>,
    Seq<char>,
    Seq<char>,
    Seq<char>,
);

impl View for ForeignAccountYear {
    type V = AccountYearView;

    open spec fn view(&self) -> AccountYearView {
        (
            self.account_id@,
            self.institution@,
            self.country@,
            self.currency@,
            self.max_balance_native@,
            self.max_balance_date@,
            self.treasury_year_end_rate@,
            self.max_balance_usd@,
        )
    }
}

/// The views of a list of account years.
pub open spec fn account_years_view(v: Seq<ForeignAccountYear>) -> Seq<AccountYearView> {
    v.map_values(|a: ForeignAccountYear| a@)
}

/// The report for a year.
#[derive(Debug, Clone)]
pub struct FbarDetermination {
    pub tax_year: u16,
    pub accounts: Vec<ForeignAccountYear>,
    pub aggregate_max_usd: String,
    pub filing_required: bool,
    pub incomplete_accounts: Vec<String>,
    pub form_8938_filing_required: Option<bool>,
    pub form_8938_threshold_used: Option<String>,
}

/// The date and amount of the highest balance that parses, the last of them
/// where several are equally high; `None` where no balance parses.
pub open spec fn max_balance_spec(b: Seq<DailyBalance>) -> Option<(Seq<char>, Dec)>
    decreases b.len(),
{
    if b.len() == 0 {
        None
    } else {
        let prev = max_balance_spec(b.drop_last());
        match decimal_from_str(b.last().balance@) {
            None => prev,
            Some(v) => match prev {
                Some((d, m)) => if m.v28() > v.v28() {
                    prev
                } else {
                    Some((b.last().date@, v))
                },
                None => Some((b.last().date@, v)),
            },
        }
    }
}

/// The report while the accounts are gone through: the accounts done, the
/// accounts without the data for it, and the running sum in dollars.
pub struct FbarProgress {
    pub accounts: Seq<AccountYearView>,
    pub incomplete: Seq<Seq<char>>,
    pub aggregate: Dec,
}

/// Adds one account to the report: it is incomplete without balances, a
/// rate, or a balance that parses; otherwise its highest balance times the
/// rate (one where the rate does not parse) is listed and summed. `None`
/// where the product or the sum overflows.
pub open spec fn fbar_step(p: FbarProgress, a: ForeignAccountInput) -> Option<FbarProgress> {
    if a.daily_balances@.len() == 0 || a.year_end_rate is None {
        Some(FbarProgress { incomplete: p.incomplete.push(a.account_id@), ..p })
    } else {
        match max_balance_spec(a.daily_balances@) {
            None => Some(FbarProgress { incomplete: p.incomplete.push(a.account_id@), ..p }),
            Some((date, max)) => {
                let rate_text = a.year_end_rate.unwrap()@;
                let rate = match decimal_from_str(rate_text) {
                    Some(r) => r,
                    None => Dec::whole_spec(1),
                };
                match decimal_checked_mul(max, rate) {
                    None => None,
                    Some(usd) => match decimal_checked_add(p.aggregate, usd) {
                        None => None,
                        Some(sum) => Some(
                            FbarProgress {
                                accounts: p.accounts.push(
                                    (
                                        a.account_id@,
                                        a.institution@,
                                        a.country@,
                                        a.currency@,
                                        display_spec(max, max.scale as nat),
                                        date,
                                        rate_text,
                                        display_spec(usd, usd.scale as nat),
                                    ),
                                ),
                                incomplete: p.incomplete,
                                aggregate: sum,
                            },
                        ),
                    },
                }
            },
        }
    }
}

/// The report over the accounts in order, starting from no accounts and a
/// zero sum; `None` where the arithmetic overflows.
pub open spec fn fbar_fold(accounts: Seq<ForeignAccountInput>) -> Option<FbarProgress>
    decreases accounts.len(),
{
    if accounts.len() == 0 {
        Some(FbarProgress { accounts: seq![], incomplete: seq![], aggregate: Dec::whole_spec(0) })
    } else {
        match fbar_fold(accounts.drop_last()) {
            None => None,
            Some(p) => fbar_step(p, accounts.last()),
        }
    }
}

/// The two Form 8938 thresholds (end of year, any time in the year) for a
/// filing status and residence: abroad 400,000/600,000 jointly and
/// 200,000/400,000 otherwise; at home 100,000/150,000 jointly or as a
/// surviving spouse and 50,000/75,000 otherwise.
pub open spec fn form_8938_thresholds(status: Seq<char>, abroad: bool) -> (nat, nat) {
    if abroad {
        if status == "mfj"@ {
            (400000, 600000)
        } else {
            (200000, 400000)
        }
    } else if status == "mfj"@ || status == "qss"@ {
        (100000, 150000)
    } else {
        (50000, 75000)
    }
}

/// How the thresholds are written in the report.
pub open spec fn form_8938_threshold_text(status: Seq<char>, abroad: bool) -> Seq<char> {
    if abroad {
        if status == "mfj"@ {
            "$400,000/$600,000"@
        } else {
            "$200,000/$400,000"@
        }
    } else if status == "mfj"@ || status == "qss"@ {
        "$100,000/$150,000"@
    } else {
        "$50,000/$75,000"@
    }
}

/// Form 8938 is due where the sum reaches either threshold.
pub open spec fn form_8938_required_spec(aggregate: Dec, status: Seq<char>, abroad: bool) -> bool {
    let (t0, t1) = form_8938_thresholds(status, abroad);
    aggregate.v28() >= Dec::whole_spec(t0).v28() || aggregate.v28() >= Dec::whole_spec(t1).v28()
}

/// The report matches the accounts gone through: FBAR is due where the sum
/// is over 10,000; Form 8938 is judged only where some account is complete.
pub open spec fn determination_matches(det: FbarDetermination, input: FbarInput, p: FbarProgress) -> bool {
    &&& det.tax_year == input.tax_year
    &&& account_years_view(det.accounts@) == p.accounts
    &&& texts_view(det.incomplete_accounts@) == p.incomplete
    &&& det.aggregate_max_usd@ == display_spec(p.aggregate, p.aggregate.scale as nat)
    &&& det.filing_required == (p.aggregate.v28() > Dec::whole_spec(10000).v28())
    &&& if p.accounts.len() == 0 {
        det.form_8938_filing_required is None && det.form_8938_threshold_used is None
    } else {
        &&& det.form_8938_filing_required == Some(
            form_8938_required_spec(p.aggregate, input.filing_status@, input.living_abroad),
        )
        &&& det.form_8938_threshold_used matches Some(t) && t@ == form_8938_threshold_text(
            input.filing_status@,
            input.living_abroad,
        )
    }
}

/// The written thresholds of a filing status and residence.
fn form_8938_threshold(filing_status: &str, living_abroad: bool) -> (r: &'static str)
    ensures
        r@ == form_8938_threshold_text(filing_status@, living_abroad),
{
    proof {
        reveal_strlit("mfj");
        reveal_strlit("qss");
    }
    if living_abroad {
        if str_eq(filing_status, "mfj") {
            "$400,000/$600,000"
        } else {
            "$200,000/$400,000"
        }
    } else if str_eq(filing_status, "mfj") || str_eq(filing_status, "qss") {
        "$100,000/$150,000"
    } else {
        "$50,000/$75,000"
    }
}

/// Whether the sum reaches a Form 8938 threshold.
fn form_8938_filing_required(aggregate_usd: Dec, filing_status: &str, living_abroad: bool) -> (r: bool)
    requires
        aggregate_usd.wf(),
    ensures
        r == form_8938_required_spec(aggregate_usd, filing_status@, living_abroad),
{
    proof {
        reveal_strlit("mfj");
        reveal_strlit("qss");
    }
    let (t0, t1): (u64, u64) = if living_abroad {
        if str_eq(filing_status, "mfj") {
            (400000, 600000)
        } else {
            (200000, 400000)
        }
    } else if str_eq(filing_status, "mfj") || str_eq(filing_status, "qss") {
        (100000, 150000)
    } else {
        (50000, 75000)
    };
    !less_than(aggregate_usd, Dec::whole(t0)) || !less_than(aggregate_usd, Dec::whole(t1))
}

/// The highest balance of an account that parses, with its date.
fn max_balance(balances: &Vec<DailyBalance>) -> (r: Option<(String, Dec)>)
    ensures
        match r {
            None => max_balance_spec(balances@) is None,
            Some((d, m)) => max_balance_spec(balances@) == Some((d@, m)) && m.wf(),
        },
{
    let mut best: Option<(String, Dec)> = None;
    let mut i: usize = 0;
    while i < balances.len()
        invariant
            i <= balances@.len(),
            match best {
                None => max_balance_spec(balances@.take(i as int)) is None,
                Some((d, m)) => max_balance_spec(balances@.take(i as int)) == Some((d@, m)) && m.wf(),
            },
        decreases balances@.len() - i,
    {
        assert(balances@.take(i + 1).drop_last() =~= balances@.take(i as int));
        assert(balances@.take(i + 1).last() == balances@[i as int]);
        match parse_decimal(balances[i].balance.as_str()) {
            None => {},
            Some(v) => {
                let replace = match &best {
                    Some((_, m)) => !less_than(v, *m),
                    None => true,
                };
                if replace {
                    best = Some((balances[i].date.clone(), v));
                }
            },
        }
        i = i + 1;
    }
    assert(balances@.take(balances@.len() as int) =~= balances@);
    best
}

/// Goes through the accounts; `None` exactly where a product or the running
/// sum overflows.
pub fn try_compute_fbar(input: &FbarInput) -> (r: Option<FbarDetermination>)
    ensures
        match r {
            None => fbar_fold(input.accounts@) is None,
            Some(det) => fbar_fold(input.accounts@) matches Some(p) && determination_matches(det, *input, p),
        },
{
    let mut accounts: Vec<ForeignAccountYear> = Vec::new();
    let mut incomplete_accounts: Vec<String> = Vec::new();
    let mut aggregate_usd = Dec::whole(0);
    let mut i: usize = 0;
    assert(account_years_view(accounts@) =~= seq![]);
    assert(texts_view(incomplete_accounts@) =~= seq![]);
    while i < input.accounts.len()
        invariant
            i <= input.accounts@.len(),
            aggregate_usd.wf(),
            fbar_fold(input.accounts@.take(i as int)) == Some(
                FbarProgress {
                    accounts: account_years_view(accounts@),
                    incomplete: texts_view(incomplete_accounts@),
                    aggregate: aggregate_usd,
                },
            ),
        decreases input.accounts@.len() - i,
    {
        let ghost before = FbarProgress {
            accounts: account_years_view(accounts@),
            incomplete: texts_view(incomplete_accounts@),
            aggregate: aggregate_usd,
        };
        assert(input.accounts@.take(i + 1).drop_last() =~= input.accounts@.take(i as int));
        let acct = &input.accounts[i];
        assert(input.accounts@.take(i + 1).last() == *acct);
        if acct.daily_balances.len() == 0 || acct.year_end_rate.is_none() {
            incomplete_accounts.push(acct.account_id.clone());
            assert(texts_view(incomplete_accounts@) =~= before.incomplete.push(acct.account_id@));
        } else {
            match max_balance(&acct.daily_balances) {
                None => {
                    incomplete_accounts.push(acct.account_id.clone());
                    assert(texts_view(incomplete_accounts@) =~= before.incomplete.push(acct.account_id@));
                },
                Some((max_date, max_native)) => {
                    let rate_text: &str = match &acct.year_end_rate {
                        Some(t) => t.as_str(),
                        None => "1.0",
                    };
                    let rate = match parse_decimal(rate_text) {
                        Some(v) => v,
                        None => Dec::whole(1),
                    };
                    let max_usd = match checked_mul(max_native, rate) {
                        Some(v) => v,
                        None => {
                            proof {
                                lemma_fold_none_extends(input.accounts@, i + 1);
                            }
                            return None;
                        },
                    };
                    let sum = match checked_add(aggregate_usd, max_usd) {
                        Some(v) => v,
                        None => {
                            proof {
                                lemma_fold_none_extends(input.accounts@, i + 1);
                            }
                            return None;
                        },
                    };
                    let year = ForeignAccountYear {
                        account_id: acct.account_id.clone(),
                        institution: acct.institution.clone(),
                        country: acct.country.clone(),
                        currency: acct.currency.clone(),
                        max_balance_native: to_text(max_native),
                        max_balance_date: max_date,
                        treasury_year_end_rate: owned(rate_text),
                        max_balance_usd: to_text(max_usd),
                    };
                    accounts.push(year);
                    assert(account_years_view(accounts@) =~= before.accounts.push(
                        (
                            acct.account_id@,
                            acct.institution@,
                            acct.country@,
                            acct.currency@,
                            display_spec(max_native, max_native.scale as nat),
                            max_date@,
                            rate_text@,
                            display_spec(max_usd, max_usd.scale as nat),
                        ),
                    ));
                    aggregate_usd = sum;
                },
            }
        }
        i = i + 1;
    }
    assert(input.accounts@.take(input.accounts@.len() as int) =~= input.accounts@);
    let filing_required = less_than(Dec::whole(10000), aggregate_usd);
    let (form_8938_required, form_8938_threshold_used) = if accounts.len() == 0 {
        (None, None)
    } else {
        (
            Some(form_8938_filing_required(aggregate_usd, input.filing_status.as_str(), input.living_abroad)),
            Some(owned(form_8938_threshold(input.filing_status.as_str(), input.living_abroad))),
        )
    };
    Some(
        FbarDetermination {
            tax_year: input.tax_year,
            accounts,
            aggregate_max_usd: to_text(aggregate_usd),
            filing_required,
            incomplete_accounts,
            form_8938_filing_required: form_8938_required,
            form_8938_threshold_used,
        },
    )
}

/// Goes through the accounts, for inputs on which no product or sum
/// overflows.
pub fn compute_fbar(input: &FbarInput) -> (det: FbarDetermination)
    requires
        fbar_fold(input.accounts@) is Some,
    ensures
        determination_matches(det, *input, fbar_fold(input.accounts@).unwrap()),
{
    match try_compute_fbar(input) {
        Some(det) => det,
        None => {
            proof {
                assert(false);
            }
            FbarDetermination {
                tax_year: input.tax_year,
                accounts: Vec::new(),
                aggregate_max_usd: String::new(),
                filing_required: false,
                incomplete_accounts: Vec::new(),
                form_8938_filing_required: None,
                form_8938_threshold_used: None,
            }
        },
    }
}

/// Every account lands in exactly one of the two lists: listed with its
/// highest balance, or incomplete.
pub proof fn law_accounts_partitioned(accounts: Seq<ForeignAccountInput>)
    requires
        fbar_fold(accounts) is Some,
    ensures
        fbar_fold(accounts).unwrap().accounts.len() + fbar_fold(accounts).unwrap().incomplete.len()
            == accounts.len(),
    decreases accounts.len(),
{
    if accounts.len() > 0 {
        law_accounts_partitioned(accounts.drop_last());
    }
}

/// The highest balance is at least every balance that parses, and is the
/// balance of a day of the account.
pub proof fn law_max_balance_is_highest(b: Seq<DailyBalance>)
    requires
        max_balance_spec(b) is Some,
    ensures
        ({
            let (d, m) = max_balance_spec(b).unwrap();
            &&& forall|i: int|
                0 <= i < b.len() ==> (#[trigger] decimal_from_str(b[i].balance@) matches Some(v) ==> v.v28()
                    <= m.v28())
            &&& exists|i: int|
                0 <= i < b.len() && b[i].date@ == d && #[trigger] decimal_from_str(b[i].balance@) == Some(m)
        }),
    decreases b.len(),
{
    let prev = max_balance_spec(b.drop_last());
    let (d, m) = max_balance_spec(b).unwrap();
    let n = b.len() - 1;
    if prev is Some {
        law_max_balance_is_highest(b.drop_last());
        let (pd, pm) = prev.unwrap();
        assert forall|i: int| 0 <= i < b.len() implies (#[trigger] decimal_from_str(b[i].balance@) matches Some(
            v,
        ) ==> v.v28() <= m.v28()) by {
            if i < n {
                assert(b[i] == b.drop_last()[i]);
            }
        }
        if max_balance_spec(b) == prev {
            let k = choose|k: int|
                0 <= k < b.drop_last().len() && b.drop_last()[k].date@ == pd && #[trigger] decimal_from_str(
                    b.drop_last()[k].balance@,
                ) == Some(pm);
            assert(b[k] == b.drop_last()[k]);
        } else {
            assert(decimal_from_str(b[n].balance@) == Some(m));
        }
    } else {
        assert forall|i: int| 0 <= i < b.len() implies (#[trigger] decimal_from_str(b[i].balance@) matches Some(
            v,
        ) ==> v.v28() <= m.v28()) by {
            if i < n {
                assert(b[i] == b.drop_last()[i]);
                lemma_none_means_no_parse(b.drop_last(), i);
            }
        }
        assert(decimal_from_str(b[n].balance@) == Some(m));
    }
}

/// Once the report of a prefix overflows, so does the report of the whole.
proof fn lemma_fold_none_extends(accounts: Seq<ForeignAccountInput>, k: int)
    requires
        0 <= k <= accounts.len(),
        fbar_fold(accounts.take(k)) is None,
    ensures
        fbar_fold(accounts) is None,
    decreases accounts.len() - k,
{
    if k < accounts.len() {
        assert(accounts.take(k + 1).drop_last() =~= accounts.take(k));
        lemma_fold_none_extends(accounts, k + 1);
    } else {
        assert(accounts.take(k) =~= accounts);
    }
}

/// Where no highest balance is found, no balance parses.
proof fn lemma_none_means_no_parse(b: Seq<DailyBalance>, i: int)
    requires
        max_balance_spec(b) is None,
        0 <= i < b.len(),
    ensures
        decimal_from_str(b[i].balance@) is None,
    decreases b.len(),
{
    if i < b.len() - 1 {
        assert(b[i] == b.drop_last()[i]);
        lemma_none_means_no_parse(b.drop_last(), i);
    }
}

/// Whole dollars compare as the numbers do.
proof fn lemma_whole_v28_monotone(m: nat, n: nat)
    requires
        m < n < 0x1_0000_0000,
    ensures
        Dec::whole_spec(m).v28() < Dec::whole_spec(n).v28(),
{
    lemma_pow10_positive(28);
    assert(Dec::whole_spec(m).signed() == m as int);
    assert(Dec::whole_spec(n).signed() == n as int);
    let p = pow10(28) as int;
    assert((m as int) * p < (n as int) * p) by (nonlinear_arith)
        requires
            m < n,
            p > 0,
    ;
}

/// Form 8938 is due exactly where the aggregate reaches the lower threshold
/// of the filing status and residence: living abroad, 400,000 dollars filing
/// jointly and 200,000 otherwise; at home, 100,000 filing jointly or as a
/// surviving spouse and 50,000 otherwise. The report names the threshold
/// pair that applies.
pub proof fn law_form_8938_threshold(aggregate: Dec, status: Seq<char>, abroad: bool)
    ensures
        (abroad && status == "mfj"@) ==> (form_8938_required_spec(aggregate, status, abroad)
            <==> aggregate.v28() >= Dec::whole_spec(400000).v28()),
        (abroad && status != "mfj"@) ==> (form_8938_required_spec(aggregate, status, abroad)
            <==> aggregate.v28() >= Dec::whole_spec(200000).v28()),
        (!abroad && (status == "mfj"@ || status == "qss"@)) ==> (form_8938_required_spec(
            aggregate,
            status,
            abroad,
        ) <==> aggregate.v28() >= Dec::whole_spec(100000).v28()),
        (!abroad && status != "mfj"@ && status != "qss"@) ==> (form_8938_required_spec(
            aggregate,
            status,
            abroad,
        ) <==> aggregate.v28() >= Dec::whole_spec(50000).v28()),
        (abroad && status == "mfj"@) ==> form_8938_threshold_text(status, abroad) == "$400,000/$600,000"@,
        (abroad && status != "mfj"@) ==> form_8938_threshold_text(status, abroad) == "$200,000/$400,000"@,
        (!abroad && (status == "mfj"@ || status == "qss"@)) ==> form_8938_threshold_text(status, abroad)
            == "$100,000/$150,000"@,
        (!abroad && status != "mfj"@ && status != "qss"@) ==> form_8938_threshold_text(status, abroad)
            == "$50,000/$75,000"@,
{
    lemma_whole_v28_monotone(400000, 600000);
    lemma_whole_v28_monotone(200000, 400000);
    lemma_whole_v28_monotone(100000, 150000);
    lemma_whole_v28_monotone(50000, 75000);
}

/// An FBAR is due exactly where the aggregate of the highest balances, in
/// dollars, is over 10,000; Form 8938 is judged only where some account is
/// complete.
pub proof fn law_fbar_due_over_10000(det: FbarDetermination, input: FbarInput, p: FbarProgress)
    requires
        determination_matches(det, input, p),
    ensures
        det.filing_required <==> p.aggregate.v28() > Dec::whole_spec(10000).v28(),
        det.form_8938_filing_required is Some <==> p.accounts.len() > 0,
{
}

/// An account without daily balances, without a year-end rate, or without a
/// balance that parses is listed as incomplete and changes nothing else;
/// any other account is listed once, after those before it, with its own
/// id, institution, country and currency, the date of its highest balance
/// and its rate as written, and is not listed as incomplete.
pub proof fn law_fbar_account_step(p: FbarProgress, a: ForeignAccountInput)
    ensures
        (a.daily_balances@.len() == 0 || a.year_end_rate is None || max_balance_spec(a.daily_balances@) is None)
            ==> fbar_step(p, a) == Some(
            FbarProgress { accounts: p.accounts, incomplete: p.incomplete.push(a.account_id@), aggregate: p.aggregate },
        ),
        (a.daily_balances@.len() > 0 && a.year_end_rate is Some && max_balance_spec(a.daily_balances@) is Some)
            ==> (fbar_step(p, a) matches Some(q) ==> {
            &&& q.incomplete == p.incomplete
            &&& q.accounts.len() == p.accounts.len() + 1
            &&& q.accounts.drop_last() == p.accounts
            &&& q.accounts.last().0 == a.account_id@
            &&& q.accounts.last().1 == a.institution@
            &&& q.accounts.last().2 == a.country@
            &&& q.accounts.last().3 == a.currency@
            &&& q.accounts.last().5 == max_balance_spec(a.daily_balances@)->Some_0.0
            &&& q.accounts.last().6 == a.year_end_rate->Some_0@
        }),
{
    if a.daily_balances@.len() > 0 && a.year_end_rate is Some && max_balance_spec(a.daily_balances@) is Some {
        if fbar_step(p, a) is Some {
            let q = fbar_step(p, a)->Some_0;
            assert(q.accounts.drop_last() =~= p.accounts);
        }
    }
}

} // verus!
