//! Capital loss netting, the annual deduction limit and the carryforward
//! split between short and long term.
use crate::decimal::{
    add_exact, lemma_abs_v28, lemma_v28_sign, sub_exact, sum_fits,
    checked_add, checked_div, checked_mul, checked_sub, decimal_checked_add, decimal_checked_div,
    decimal_checked_mul, decimal_checked_sub, decimal_from_str, display_spec, less_than,
    parse_decimal, round_dp, round_dp_spec, to_text_2dp, Dec,
};
use crate::strmap::texts_view;
use crate::text::{concat, owned, str_eq};
use vstd::prelude::*;

verus! {

/// The filing status of a return.
#[derive(Debug, Clone, Copy, PartialEq, Eq, Structural)]
pub enum FilingStatus {
    Single,
    MarriedFilingJointly,
    MarriedFilingSeparately,
    HeadOfHousehold,
    QualifyingSurvivingSpouse,
}

/// The wire name of a filing status.
pub open spec fn filing_status_name(s: FilingStatus) -> Seq<char> {
    match s {
        FilingStatus::Single => "single"@,
        FilingStatus::MarriedFilingJointly => "married_filing_jointly"@,
        FilingStatus::MarriedFilingSeparately => "married_filing_separately"@,
        FilingStatus::HeadOfHousehold => "head_of_household"@,
        FilingStatus::QualifyingSurvivingSpouse => "qualifying_surviving_spouse"@,
    }
}

/// The yearly deduction limit of a filing status, in whole dollars: 1,500
/// when married filing separately, 3,000 otherwise.
pub open spec fn capital_loss_limit_spec(s: FilingStatus) -> Dec {
    match s {
        FilingStatus::MarriedFilingSeparately => Dec::whole_spec(1500),
        _ => Dec::whole_spec(3000),
    }
}

impl FilingStatus {
    /// The yearly limit on the net capital loss that can be deducted.
    pub fn capital_loss_limit(&self) -> (r: Dec)
        ensures
            r == capital_loss_limit_spec(*self),
            r.wf(),
    {
        match self {
            FilingStatus::MarriedFilingSeparately => Dec::whole(1500),
            _ => Dec::whole(3000),
        }
    }

    /// The status with the given wire name, if there is one.
    pub fn from_str(s: &str) -> (r: Option<Self>)
        ensures
            match r {
                Some(st) => filing_status_name(st) == s@,
                None => forall|st: FilingStatus| filing_status_name(st) != s@,
            },
    {
        proof {
            reveal_strlit("single");
            reveal_strlit("married_filing_jointly");
            reveal_strlit("married_filing_separately");
            reveal_strlit("head_of_household");
            reveal_strlit("qualifying_surviving_spouse");
        }
        if str_eq(s, "single") {
            Some(Self::Single)
        } else if str_eq(s, "married_filing_jointly") {
            Some(Self::MarriedFilingJointly)
        } else if str_eq(s, "married_filing_separately") {
            Some(Self::MarriedFilingSeparately)
        } else if str_eq(s, "head_of_household") {
            Some(Self::HeadOfHousehold)
        } else if str_eq(s, "qualifying_surviving_spouse") {
            Some(Self::QualifyingSurvivingSpouse)
        } else {
            None
        }
    }

    /// The wire name of the status.
    pub fn as_str(&self) -> (r: &'static str)
        ensures
            r@ == filing_status_name(*self),
    {
        match self {
            Self::Single => "single",
            Self::MarriedFilingJointly => "married_filing_jointly",
            Self::MarriedFilingSeparately => "married_filing_separately",
            Self::HeadOfHousehold => "head_of_household",
            Self::QualifyingSurvivingSpouse => "qualifying_surviving_spouse",
        }
    }
}

/// Two filing statuses with the same wire name are the same status, so
/// reading back a status's name gives the status.
pub proof fn lemma_filing_status_round_trip(s: FilingStatus, t: FilingStatus)
    ensures
        filing_status_name(s) == filing_status_name(t) ==> s == t,
{
    reveal_strlit("single");
    reveal_strlit("married_filing_jointly");
    reveal_strlit("married_filing_separately");
    reveal_strlit("head_of_household");
    reveal_strlit("qualifying_surviving_spouse");
    if filing_status_name(s) == filing_status_name(t) {
        assert(filing_status_name(s).len() == filing_status_name(t).len());
        assert(filing_status_name(s)[0] == filing_status_name(t)[0]);
        assert(filing_status_name(s)[8] == filing_status_name(t)[8]);
    }
}

/// A loss carried from one year to the next.
#[derive(Debug, Clone)]
pub struct CapitalLossCarryforward {
    pub tax_year: u16,
    pub short_term: String,
    pub long_term: String,
    pub applied_this_year: String,
    pub carried_forward: String,
}

/// The amounts of one year, as decimal texts.
pub struct CapitalLossInput {
    pub tax_year: u16,
    pub filing_status: FilingStatus,
    pub short_term_losses: String,
    pub long_term_losses: String,
    pub short_term_gains: String,
    pub long_term_gains: String,
    pub prior_short_term_carryforward: String,
    pub prior_long_term_carryforward: String,
    pub nonbusiness_bad_debt: Option<String>,
}

/// The netting of one year, amounts written with two decimals.
#[derive(Debug, Clone)]
pub struct CapitalLossOutcome {
    pub net_short_term: String,
    pub net_long_term: String,
    pub total_net_loss: String,
    pub deductible_amount: String,
    pub carryforward_short_term: String,
    pub carryforward_long_term: String,
    pub filing_status_used: String,
    pub warnings: Vec<String>,
}

/// The numbers behind an outcome.
#[derive(Debug, Clone, Copy, PartialEq, Eq, Structural)]
pub struct CapitalLossAmounts {
    pub net_short: Dec,
    pub net_long: Dec,
    pub total: Dec,
    pub deductible: Dec,
    pub remaining: Dec,
    pub carry_short: Dec,
    pub carry_long: Dec,
}

/// A decimal text read as a number, zero where it does not parse.
pub open spec fn parse_or_zero(s: Seq<char>) -> Dec {
    match decimal_from_str(s) {
        Some(d) => d,
        None => Dec::whole_spec(0),
    }
}

/// The number with its sign made positive.
pub open spec fn abs_spec(d: Dec) -> Dec {
    Dec { negative: false, ..d }
}

/// Net short term (gains less losses, bad debt and prior carryforward), net
/// long term, and their total; `None` where a step overflows.
pub open spec fn net_positions_spec(
    st_losses: Dec,
    lt_losses: Dec,
    st_gains: Dec,
    lt_gains: Dec,
    prior_st: Dec,
    prior_lt: Dec,
    bad_debt: Option<Dec>,
) -> Option<(Dec, Dec, Dec)> {
    let losses = match bad_debt {
        Some(b) => decimal_checked_add(st_losses, b),
        None => Some(st_losses),
    };
    match losses {
        None => None,
        Some(l) => match decimal_checked_sub(st_gains, l) {
            None => None,
            Some(x) => match decimal_checked_sub(x, prior_st) {
                None => None,
                Some(net_short) => match decimal_checked_sub(lt_gains, lt_losses) {
                    None => None,
                    Some(y) => match decimal_checked_sub(y, prior_lt) {
                        None => None,
                        Some(net_long) => match decimal_checked_add(net_short, net_long) {
                            None => None,
                            Some(total) => Some((net_short, net_long, total)),
                        },
                    },
                },
            },
        },
    }
}

/// The deductible part of a total: nothing unless the total's sign is
/// negative, then its magnitude up to the limit.
pub open spec fn deductible_spec(total: Dec, limit: Dec) -> Dec {
    if total.negative {
        let a = abs_spec(total);
        if a.v28() <= limit.v28() {
            a
        } else {
            limit
        }
    } else {
        Dec::whole_spec(0)
    }
}

/// What is left of a loss after the deduction.
pub open spec fn remaining_spec(total: Dec, limit: Dec) -> Option<Dec> {
    if total.negative {
        decimal_checked_sub(abs_spec(total), deductible_spec(total, limit))
    } else {
        Some(Dec::whole_spec(0))
    }
}

/// The remaining loss split between short and long term by the share of the
/// net short term position in the total, each part rounded to cents.
pub open spec fn carry_split_spec(net_short: Dec, total: Dec, remaining: Dec) -> Option<(Dec, Dec)> {
    if total.negative && total.magnitude != 0 {
        match decimal_checked_div(abs_spec(net_short), abs_spec(total)) {
            None => None,
            Some(ws) => match decimal_checked_sub(Dec::whole_spec(1), ws) {
                None => None,
                Some(wl) => match decimal_checked_mul(remaining, ws) {
                    None => None,
                    Some(cs) => match decimal_checked_mul(remaining, wl) {
                        None => None,
                        Some(cl) => Some((round_dp_spec(cs, 2), round_dp_spec(cl, 2))),
                    },
                },
            },
        }
    } else {
        Some((Dec::whole_spec(0), Dec::whole_spec(0)))
    }
}

/// The short-term losses with the bad debt added, where there is one.
pub open spec fn short_losses_spec(st_losses: Dec, bad_debt: Option<Dec>) -> Option<Dec> {
    match bad_debt {
        Some(b) => decimal_checked_add(st_losses, b),
        None => Some(st_losses),
    }
}

/// Every step of the netting fits without rounding: adding the bad debt to
/// the short-term losses, taking them and the prior carryforward from the
/// short-term gains, and the long-term losses and prior carryforward from
/// the long-term gains.
pub open spec fn netting_fits(
    st_losses: Dec,
    lt_losses: Dec,
    st_gains: Dec,
    lt_gains: Dec,
    prior_st: Dec,
    prior_lt: Dec,
    bad_debt: Option<Dec>,
) -> bool {
    let losses = short_losses_spec(st_losses, bad_debt);
    &&& (bad_debt matches Some(b) ==> sum_fits(st_losses, b, false))
    &&& losses is Some
    &&& sum_fits(st_gains, losses->Some_0, true)
    &&& sum_fits(decimal_checked_sub(st_gains, losses->Some_0)->Some_0, prior_st, true)
    &&& sum_fits(lt_gains, lt_losses, true)
    &&& sum_fits(decimal_checked_sub(lt_gains, lt_losses)->Some_0, prior_lt, true)
}

/// `rust_decimal` computes every step of the netting exactly.
pub open spec fn netting_exact(
    st_losses: Dec,
    lt_losses: Dec,
    st_gains: Dec,
    lt_gains: Dec,
    prior_st: Dec,
    prior_lt: Dec,
    bad_debt: Option<Dec>,
) -> bool {
    let losses = short_losses_spec(st_losses, bad_debt);
    &&& (bad_debt matches Some(b) ==> add_exact(st_losses, b))
    &&& losses is Some
    &&& sub_exact(st_gains, losses->Some_0)
    &&& sub_exact(decimal_checked_sub(st_gains, losses->Some_0)->Some_0, prior_st)
    &&& sub_exact(lt_gains, lt_losses)
    &&& sub_exact(decimal_checked_sub(lt_gains, lt_losses)->Some_0, prior_lt)
}

/// All the amounts of a year; `None` where a step overflows.
pub open spec fn capital_loss_amounts_spec(
    limit: Dec,
    st_losses: Dec,
    lt_losses: Dec,
    st_gains: Dec,
    lt_gains: Dec,
    prior_st: Dec,
    prior_lt: Dec,
    bad_debt: Option<Dec>,
) -> Option<CapitalLossAmounts> {
    match net_positions_spec(st_losses, lt_losses, st_gains, lt_gains, prior_st, prior_lt, bad_debt) {
        None => None,
        Some((net_short, net_long, total)) => match remaining_spec(total, limit) {
            None => None,
            Some(remaining) => match carry_split_spec(net_short, total, remaining) {
                None => None,
                Some((carry_short, carry_long)) => Some(
                    CapitalLossAmounts {
                        net_short,
                        net_long,
                        total,
                        deductible: deductible_spec(total, limit),
                        remaining,
                        carry_short,
                        carry_long,
                    },
                ),
            },
        },
    }
}

/// The amounts of an input, its texts read as numbers.
pub open spec fn input_amounts_spec(input: CapitalLossInput) -> Option<CapitalLossAmounts> {
    capital_loss_amounts_spec(
        capital_loss_limit_spec(input.filing_status),
        parse_or_zero(input.short_term_losses@),
        parse_or_zero(input.long_term_losses@),
        parse_or_zero(input.short_term_gains@),
        parse_or_zero(input.long_term_gains@),
        parse_or_zero(input.prior_short_term_carryforward@),
        parse_or_zero(input.prior_long_term_carryforward@),
        match input.nonbusiness_bad_debt {
            Some(b) => Some(parse_or_zero(b@)),
            None => None,
        },
    )
}

/// An amount written in cents: rounded to two decimals, then shown with two.
pub open spec fn cents_text(d: Dec) -> Seq<char> {
    display_spec(round_dp_spec(d, 2), 2)
}

/// The warning given when the carryforward is more than twenty years of the
/// limit, if it is.
pub open spec fn carryforward_warnings_spec(remaining: Dec, limit: Dec) -> Seq<Seq<char>> {
    if remaining.v28() > Dec::whole_spec((20 * limit.magnitude) as nat).v28() {
        seq![
            "Carryforward of $"@ + display_spec(remaining, 2)
                + " exceeds approximately 20 years of absorption at $"@ + display_spec(limit, 2)
                + "/year limit"@,
        ]
    } else {
        seq![]
    }
}

/// The outcome is the amounts written in cents, the status's name and the
/// warnings.
pub open spec fn outcome_matches(out: CapitalLossOutcome, status: FilingStatus, a: CapitalLossAmounts) -> bool {
    &&& out.net_short_term@ == cents_text(a.net_short)
    &&& out.net_long_term@ == cents_text(a.net_long)
    &&& out.total_net_loss@ == cents_text(a.total)
    &&& out.deductible_amount@ == cents_text(a.deductible)
    &&& out.carryforward_short_term@ == cents_text(a.carry_short)
    &&& out.carryforward_long_term@ == cents_text(a.carry_long)
    &&& out.filing_status_used@ == filing_status_name(status)
    &&& texts_view(out.warnings@) == carryforward_warnings_spec(a.remaining, capital_loss_limit_spec(status))
}

/// A decimal text read as a number, zero where it does not parse.
fn amount(s: &str) -> (r: Dec)
    ensures
        r == parse_or_zero(s@),
        r.wf(),
{
    match parse_decimal(s) {
        Some(d) => d,
        None => Dec::whole(0),
    }
}

/// Nets the positions and splits the loss that is left; `None` exactly
/// where a step overflows.
pub fn capital_loss_amounts(
    limit: Dec,
    st_losses: Dec,
    lt_losses: Dec,
    st_gains: Dec,
    lt_gains: Dec,
    prior_st: Dec,
    prior_lt: Dec,
    bad_debt: Option<Dec>,
) -> (r: Option<CapitalLossAmounts>)
    requires
        limit.wf(),
        st_losses.wf(),
        lt_losses.wf(),
        st_gains.wf(),
        lt_gains.wf(),
        prior_st.wf(),
        prior_lt.wf(),
        bad_debt matches Some(b) ==> b.wf(),
    ensures
        r == capital_loss_amounts_spec(
            limit,
            st_losses,
            lt_losses,
            st_gains,
            lt_gains,
            prior_st,
            prior_lt,
            bad_debt,
        ),
        r matches Some(a) ==> a.remaining.wf() && a.net_short.wf() && a.net_long.wf()
            && a.total.wf() && a.deductible.wf() && a.carry_short.wf() && a.carry_long.wf(),
        r matches Some(a) ==> (a.total.negative && sum_fits(abs_spec(a.total), a.deductible, true)
            ==> a.remaining.v28() == abs_spec(a.total).v28() - a.deductible.v28()),
        r is Some && netting_fits(st_losses, lt_losses, st_gains, lt_gains, prior_st, prior_lt, bad_debt)
            ==> netting_exact(st_losses, lt_losses, st_gains, lt_gains, prior_st, prior_lt, bad_debt),
        r matches Some(a) ==> (sum_fits(a.net_short, a.net_long, false) ==> add_exact(a.net_short, a.net_long)),
        r matches Some(a) ==> (a.total.negative && sum_fits(abs_spec(a.total), a.deductible, true)
            ==> sub_exact(abs_spec(a.total), a.deductible)),
        r matches Some(a) ==> (a.net_short.magnitude == 0 ==> a.carry_short.v28() == 0),
        r matches Some(a) ==> (a.remaining.magnitude == 0 ==> a.carry_short.v28() == 0 && a.carry_long.v28() == 0),
{
    let losses = match bad_debt {
        Some(b) => checked_add(st_losses, b),
        None => Some(st_losses),
    };
    let losses = match losses {
        Some(l) => l,
        None => return None,
    };
    let x = match checked_sub(st_gains, losses) {
        Some(x) => x,
        None => return None,
    };
    let net_short = match checked_sub(x, prior_st) {
        Some(v) => v,
        None => return None,
    };
    let y = match checked_sub(lt_gains, lt_losses) {
        Some(y) => y,
        None => return None,
    };
    let net_long = match checked_sub(y, prior_lt) {
        Some(v) => v,
        None => return None,
    };
    let total = match checked_add(net_short, net_long) {
        Some(v) => v,
        None => return None,
    };
    let is_loss = total.is_sign_negative();
    let abs_loss = total.abs();
    let deductible = if is_loss {
        if !less_than(limit, abs_loss) {
            abs_loss
        } else {
            limit
        }
    } else {
        Dec::whole(0)
    };
    let remaining = if is_loss {
        match checked_sub(abs_loss, deductible) {
            Some(v) => v,
            None => return None,
        }
    } else {
        Dec::whole(0)
    };
    let (carry_short, carry_long) = if is_loss && !total.is_zero() {
        let weight_st = match checked_div(net_short.abs(), abs_loss) {
            Some(v) => v,
            None => return None,
        };
        let weight_lt = match checked_sub(Dec::whole(1), weight_st) {
            Some(v) => v,
            None => return None,
        };
        let cs = match checked_mul(remaining, weight_st) {
            Some(v) => v,
            None => return None,
        };
        let cl = match checked_mul(remaining, weight_lt) {
            Some(v) => v,
            None => return None,
        };
        proof {
            lemma_v28_sign(Dec::whole_spec(0));
            if net_short.magnitude == 0 {
                assert(weight_st == Dec::whole_spec(0));
                assert(cs == Dec::whole_spec(0));
            }
            if remaining.magnitude == 0 {
                assert(cs == Dec::whole_spec(0));
                assert(cl == Dec::whole_spec(0));
            }
        }
        (round_dp(cs, 2), round_dp(cl, 2))
    } else {
        proof {
            lemma_v28_sign(Dec::whole_spec(0));
        }
        (Dec::whole(0), Dec::whole(0))
    };
    Some(
        CapitalLossAmounts {
            net_short,
            net_long,
            total,
            deductible,
            remaining,
            carry_short,
            carry_long,
        },
    )
}

/// An amount in cents: `format!("{:.2}", d.round_dp(2))`.
fn cents(d: Dec) -> (r: String)
    requires
        d.wf(),
    ensures
        r@ == cents_text(d),
{
    to_text_2dp(round_dp(d, 2))
}

/// Nets a year's positions and writes the outcome; `None` exactly where a
/// step of the arithmetic overflows.
pub fn try_compute_capital_loss(input: &CapitalLossInput) -> (r: Option<CapitalLossOutcome>)
    ensures
        match r {
            Some(out) => input_amounts_spec(*input) matches Some(a) && outcome_matches(
                out,
                input.filing_status,
                a,
            ),
            None => input_amounts_spec(*input) is None,
        },
{
    let limit = input.filing_status.capital_loss_limit();
    let bad_debt = match &input.nonbusiness_bad_debt {
        Some(b) => Some(amount(b.as_str())),
        None => None,
    };
    let a = match capital_loss_amounts(
        limit,
        amount(input.short_term_losses.as_str()),
        amount(input.long_term_losses.as_str()),
        amount(input.short_term_gains.as_str()),
        amount(input.long_term_gains.as_str()),
        amount(input.prior_short_term_carryforward.as_str()),
        amount(input.prior_long_term_carryforward.as_str()),
        bad_debt,
    ) {
        Some(a) => a,
        None => return None,
    };
    let mut warnings: Vec<String> = Vec::new();
    let twenty_years = match checked_mul(limit, Dec::whole(20)) {
        Some(v) => v,
        None => {
            return None;
        },
    };
    if less_than(twenty_years, a.remaining) {
        let mut w = concat("Carryforward of $", to_text_2dp(a.remaining).as_str());
        w = concat(w.as_str(), " exceeds approximately 20 years of absorption at $");
        w = concat(w.as_str(), to_text_2dp(limit).as_str());
        w = concat(w.as_str(), "/year limit");
        warnings.push(w);
    }
    let out = CapitalLossOutcome {
        net_short_term: cents(a.net_short),
        net_long_term: cents(a.net_long),
        total_net_loss: cents(a.total),
        deductible_amount: cents(a.deductible),
        carryforward_short_term: cents(a.carry_short),
        carryforward_long_term: cents(a.carry_long),
        filing_status_used: owned(input.filing_status.as_str()),
        warnings,
    };
    assert(texts_view(out.warnings@) =~= carryforward_warnings_spec(a.remaining, limit));
    Some(out)
}

/// Nets a year's positions and writes the outcome, for inputs on which no
/// step of the arithmetic overflows.
pub fn compute_capital_loss(input: &CapitalLossInput) -> (out: CapitalLossOutcome)
    requires
        input_amounts_spec(*input) is Some,
    ensures
        outcome_matches(out, input.filing_status, input_amounts_spec(*input).unwrap()),
{
    match try_compute_capital_loss(input) {
        Some(out) => out,
        None => {
            proof {
                assert(false);
            }
            CapitalLossOutcome {
                net_short_term: String::new(),
                net_long_term: String::new(),
                total_net_loss: String::new(),
                deductible_amount: String::new(),
                carryforward_short_term: String::new(),
                carryforward_long_term: String::new(),
                filing_status_used: String::new(),
                warnings: Vec::new(),
            }
        },
    }
}

/// The filing status with a wire name, if there is one.
pub open spec fn filing_status_named(s: Seq<char>) -> Option<FilingStatus> {
    if exists|st: FilingStatus| filing_status_name(st) == s {
        Some(choose|st: FilingStatus| filing_status_name(st) == s)
    } else {
        None
    }
}

/// The handler of the capital loss tool: a missing prior carryforward is
/// zero. An unknown filing status is refused with `unknown filing_status: `
/// and the name; amounts whose arithmetic overflows are refused too.
pub fn handle_compute_capital_loss(
    tax_year: u16,
    filing_status: &str,
    short_term_losses: &str,
    long_term_losses: &str,
    short_term_gains: &str,
    long_term_gains: &str,
    prior_short_term_carryforward: Option<&str>,
    prior_long_term_carryforward: Option<&str>,
) -> (r: Result<CapitalLossOutcome, String>)
    ensures
        match filing_status_named(filing_status@) {
            None => r matches Err(e) && e@ == "unknown filing_status: "@ + filing_status@,
            Some(status) => {
                let amounts = capital_loss_amounts_spec(
                    capital_loss_limit_spec(status),
                    parse_or_zero(short_term_losses@),
                    parse_or_zero(long_term_losses@),
                    parse_or_zero(short_term_gains@),
                    parse_or_zero(long_term_gains@),
                    parse_or_zero(
                        match prior_short_term_carryforward {
                            Some(p) => p@,
                            None => "0"@,
                        },
                    ),
                    parse_or_zero(
                        match prior_long_term_carryforward {
                            Some(p) => p@,
                            None => "0"@,
                        },
                    ),
                    None,
                );
                match amounts {
                    None => r matches Err(e) && e@ == "amounts overflow the decimal range"@,
                    Some(a) => r matches Ok(out) && outcome_matches(out, status, a),
                }
            },
        },
{
    let status = match FilingStatus::from_str(filing_status) {
        Some(s) => s,
        None => {
            return Err(concat("unknown filing_status: ", filing_status));
        },
    };
    proof {
        lemma_filing_status_round_trip(status, filing_status_named(filing_status@).unwrap());
    }
    let input = CapitalLossInput {
        tax_year,
        filing_status: status,
        short_term_losses: owned(short_term_losses),
        long_term_losses: owned(long_term_losses),
        short_term_gains: owned(short_term_gains),
        long_term_gains: owned(long_term_gains),
        prior_short_term_carryforward: match prior_short_term_carryforward {
            Some(p) => owned(p),
            None => owned("0"),
        },
        prior_long_term_carryforward: match prior_long_term_carryforward {
            Some(p) => owned(p),
            None => owned("0"),
        },
        nonbusiness_bad_debt: None,
    };
    match try_compute_capital_loss(&input) {
        Some(out) => Ok(out),
        None => Err(owned("amounts overflow the decimal range")),
    }
}

/// The deduction of a year is never negative, never more than the loss and
/// never more than the limit of the filing status.
pub proof fn law_deduction_within_limit(
    status: FilingStatus,
    st_losses: Dec,
    lt_losses: Dec,
    st_gains: Dec,
    lt_gains: Dec,
    prior_st: Dec,
    prior_lt: Dec,
    bad_debt: Option<Dec>,
)
    requires
        capital_loss_amounts_spec(
            capital_loss_limit_spec(status),
            st_losses,
            lt_losses,
            st_gains,
            lt_gains,
            prior_st,
            prior_lt,
            bad_debt,
        ) is Some,
        net_positions_spec(st_losses, lt_losses, st_gains, lt_gains, prior_st, prior_lt, bad_debt)
            matches Some(p) && p.2.wf(),
    ensures
        ({
            let a = capital_loss_amounts_spec(
                capital_loss_limit_spec(status),
                st_losses,
                lt_losses,
                st_gains,
                lt_gains,
                prior_st,
                prior_lt,
                bad_debt,
            ).unwrap();
            &&& 0 <= a.deductible.v28()
            &&& a.deductible.v28() <= capital_loss_limit_spec(status).v28()
            &&& a.deductible.v28() <= abs_spec(a.total).v28()
        }),
{
    let limit = capital_loss_limit_spec(status);
    let total = net_positions_spec(st_losses, lt_losses, st_gains, lt_gains, prior_st, prior_lt, bad_debt).unwrap().2;
    lemma_v28_sign(total);
    lemma_v28_sign(limit);
    lemma_v28_sign(Dec::whole_spec(0));
}

/// A year whose total is not a loss deducts nothing and carries nothing
/// forward.
pub proof fn law_no_loss_no_deduction(
    limit: Dec,
    st_losses: Dec,
    lt_losses: Dec,
    st_gains: Dec,
    lt_gains: Dec,
    prior_st: Dec,
    prior_lt: Dec,
    bad_debt: Option<Dec>,
)
    requires
        capital_loss_amounts_spec(limit, st_losses, lt_losses, st_gains, lt_gains, prior_st, prior_lt, bad_debt)
            matches Some(a) && !a.total.negative,
    ensures
        ({
            let a = capital_loss_amounts_spec(
                limit,
                st_losses,
                lt_losses,
                st_gains,
                lt_gains,
                prior_st,
                prior_lt,
                bad_debt,
            ).unwrap();
            &&& a.deductible == Dec::whole_spec(0)
            &&& a.remaining == Dec::whole_spec(0)
            &&& a.carry_short == Dec::whole_spec(0)
            &&& a.carry_long == Dec::whole_spec(0)
        }),
{
}

/// The netting and the deduction of a year, stated over the inputs: the
/// net short-term position is the short-term gains less the short-term
/// losses, the bad debt and the prior short-term carryforward; the net
/// long-term position is the long-term gains less the long-term losses and
/// the prior long-term carryforward (each where `rust_decimal` computes the
/// step exactly); the total is their sum; a loss is deducted up to the limit
/// and the rest of it carried forward, and a year without a loss deducts
/// nothing.
pub proof fn law_capital_loss_netting(
    limit: Dec,
    st_losses: Dec,
    lt_losses: Dec,
    st_gains: Dec,
    lt_gains: Dec,
    prior_st: Dec,
    prior_lt: Dec,
    bad_debt: Option<Dec>,
)
    requires
        capital_loss_amounts_spec(limit, st_losses, lt_losses, st_gains, lt_gains, prior_st, prior_lt, bad_debt)
            is Some,
    ensures
        ({
            let a = capital_loss_amounts_spec(
                limit,
                st_losses,
                lt_losses,
                st_gains,
                lt_gains,
                prior_st,
                prior_lt,
                bad_debt,
            ).unwrap();
            let bad = match bad_debt {
                Some(b) => b.v28(),
                None => 0,
            };
            &&& netting_exact(st_losses, lt_losses, st_gains, lt_gains, prior_st, prior_lt, bad_debt) ==> {
                &&& a.net_short.v28() == st_gains.v28() - st_losses.v28() - bad - prior_st.v28()
                &&& a.net_long.v28() == lt_gains.v28() - lt_losses.v28() - prior_lt.v28()
            }
            &&& add_exact(a.net_short, a.net_long) ==> a.total.v28() == a.net_short.v28() + a.net_long.v28()
            &&& a.total.negative ==> a.deductible.v28() == if -a.total.v28() <= limit.v28() {
                -a.total.v28()
            } else {
                limit.v28()
            }
            &&& !a.total.negative ==> a.deductible.v28() == 0 && a.remaining.v28() == 0
            &&& (a.total.negative && sub_exact(abs_spec(a.total), a.deductible)) ==> a.remaining.v28()
                == -a.total.v28() - a.deductible.v28()
        }),
{
    let a = capital_loss_amounts_spec(limit, st_losses, lt_losses, st_gains, lt_gains, prior_st, prior_lt, bad_debt).unwrap();
    lemma_abs_v28(a.total);
    lemma_v28_sign(Dec::whole_spec(0));
}

/// What an outcome writes: each amount rounded to cents and shown with two
/// decimals, the name of the filing status, and one warning exactly where
/// the loss carried forward is more than twenty times the yearly limit.
pub proof fn law_capital_loss_outcome(out: CapitalLossOutcome, status: FilingStatus, a: CapitalLossAmounts)
    requires
        outcome_matches(out, status, a),
    ensures
        out.net_long_term@ == display_spec(round_dp_spec(a.net_long, 2), 2),
        out.net_short_term@ == display_spec(round_dp_spec(a.net_short, 2), 2),
        out.total_net_loss@ == display_spec(round_dp_spec(a.total, 2), 2),
        out.deductible_amount@ == display_spec(round_dp_spec(a.deductible, 2), 2),
        out.carryforward_short_term@ == display_spec(round_dp_spec(a.carry_short, 2), 2),
        out.carryforward_long_term@ == display_spec(round_dp_spec(a.carry_long, 2), 2),
        out.filing_status_used@ == filing_status_name(status),
        out.warnings@.len() == 1 <==> a.remaining.v28() > Dec::whole_spec(
            (20 * capital_loss_limit_spec(status).magnitude) as nat,
        ).v28(),
        out.warnings@.len() <= 1,
{
    assert(texts_view(out.warnings@).len() == out.warnings@.len());
}

/// The limit is 1,500 for a married person filing separately and 3,000 for
/// every other status.
pub proof fn law_limit_by_status(status: FilingStatus)
    ensures
        capital_loss_limit_spec(status) == if status == FilingStatus::MarriedFilingSeparately {
            Dec::whole_spec(1500)
        } else {
            Dec::whole_spec(3000)
        },
{
}

} // verus!
