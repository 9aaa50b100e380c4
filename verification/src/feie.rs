//! The foreign earned income exclusion: the yearly limit, pro-rated by the
//! qualifying days, and what stays taxable.
use crate::capital_loss::parse_or_zero;
use crate::decimal::{
    checked_div, checked_mul, checked_sub, decimal_checked_div, decimal_checked_mul,
    decimal_checked_sub, display_spec, less_than, lemma_v28_sign, min, parse_decimal, sub_exact, sum_fits,
    to_text, magnitude_bound, Dec,
};
use crate::strmap::texts_view;
use crate::text::{concat, owned, str_eq};
use vstd::prelude::*;

verus! {

/// How the taxpayer qualifies as living abroad.
pub enum ForeignResidenceTest {
    BonaFideResidence { start: String, end: Option<String> },
    PhysicalPresence { qualifying_days: u16, window: (String, String) },
}

/// The facts of one year.
pub struct FeieInput {
    pub tax_year: u16,
    pub test: ForeignResidenceTest,
    pub foreign_earned_income: String,
    pub days_qualified: u16,
    pub housing_exclusion: Option<String>,
}

/// The exclusion and what stays taxable, as decimal texts.
#[derive(Debug, Clone)]
pub struct FeieOutcome {
    pub excluded_amount: String,
    pub income_subject_to_income_tax: String,
    pub income_subject_to_se_tax: String,
    pub warnings: Vec<String>,
}

/// The numbers behind an outcome.
#[derive(Debug, Clone, Copy, PartialEq, Eq, Structural)]
pub struct FeieAmounts {
    pub prorated_limit: Dec,
    pub excluded: Dec,
    pub subject_to_income_tax: Dec,
    pub subject_to_se_tax: Dec,
}

/// The yearly exclusion limit in dollars: 120,000 for 2023, 126,500 for
/// 2024, 130,000 for 2025 and 120,000 for any other year.
pub open spec fn exclusion_limit_spec(year: u16) -> Dec {
    Dec::whole_spec(
        if year == 2023 {
            120000
        } else if year == 2024 {
            126500
        } else if year == 2025 {
            130000
        } else {
            120000
        },
    )
}

/// The limit times the qualifying days over 365.
pub open spec fn prorated_limit_spec(year: u16, days: u16) -> Dec {
    decimal_checked_div(
        decimal_checked_mul(exclusion_limit_spec(year), Dec::whole_spec(days as nat)).unwrap(),
        Dec::whole_spec(365),
    ).unwrap()
}

/// The exclusion is the income up to the pro-rated limit; the rest of the
/// income stays subject to income tax, and all of it to self-employment
/// tax. `None` where the subtraction overflows.
pub open spec fn feie_amounts_spec(year: u16, days: u16, income: Dec) -> Option<FeieAmounts> {
    let prorated = prorated_limit_spec(year, days);
    let excluded = if income.v28() > prorated.v28() {
        prorated
    } else {
        income
    };
    match decimal_checked_sub(income, excluded) {
        None => None,
        Some(rest) => Some(
            FeieAmounts {
                prorated_limit: prorated,
                excluded,
                subject_to_income_tax: rest,
                subject_to_se_tax: income,
            },
        ),
    }
}

/// The amounts of an input, its income text read as a number.
pub open spec fn input_feie_spec(input: FeieInput) -> Option<FeieAmounts> {
    feie_amounts_spec(input.tax_year, input.days_qualified, parse_or_zero(input.foreign_earned_income@))
}

/// The warning that the exclusion leaves self-employment tax alone.
pub open spec fn se_tax_warning() -> Seq<char> {
    "FEIE does not reduce self-employment tax. SE tax applies to foreign earned income even when FEIE excludes it from income tax."@
}

/// The outcome writes the amounts and warns where the income is positive.
pub open spec fn feie_outcome_matches(out: FeieOutcome, a: FeieAmounts) -> bool {
    &&& out.excluded_amount@ == display_spec(a.excluded, a.excluded.scale as nat)
    &&& out.income_subject_to_income_tax@ == display_spec(
        a.subject_to_income_tax,
        a.subject_to_income_tax.scale as nat,
    )
    &&& out.income_subject_to_se_tax@ == display_spec(a.subject_to_se_tax, a.subject_to_se_tax.scale as nat)
    &&& texts_view(out.warnings@) == if a.subject_to_se_tax.v28() > 0 {
        seq![se_tax_warning()]
    } else {
        seq![]
    }
}

/// The yearly exclusion limit.
fn exclusion_limit_for_year(year: u16) -> (r: Dec)
    ensures
        r == exclusion_limit_spec(year),
        r.wf(),
{
    if year == 2023 {
        Dec::whole(120000)
    } else if year == 2024 {
        Dec::whole(126500)
    } else if year == 2025 {
        Dec::whole(130000)
    } else {
        Dec::whole(120000)
    }
}

/// Computes the exclusion of a year; `None` exactly where the subtraction
/// overflows. The pro-rated limit is the year's limit times the qualifying
/// days, divided by 365.
pub fn feie_amounts(year: u16, days: u16, income: Dec) -> (r: Option<FeieAmounts>)
    requires
        income.wf(),
    ensures
        r == feie_amounts_spec(year, days, income),
        r matches Some(a) ==> a.excluded.wf() && a.subject_to_income_tax.wf() && a.subject_to_se_tax.wf()
            && a.prorated_limit.wf(),
        r matches Some(a) ==> sum_fits(income, a.excluded, true)
            ==> a.subject_to_income_tax.v28() == income.v28() - a.excluded.v28(),
        r matches Some(a) ==> sum_fits(income, a.excluded, true) ==> sub_exact(income, a.excluded),
        r matches Some(a) ==> a.prorated_limit == decimal_checked_div(
            Dec { negative: false, magnitude: (exclusion_limit_spec(year).magnitude * days) as u128, scale: 0 },
            Dec::whole_spec(365),
        ).unwrap(),
{
    let limit = exclusion_limit_for_year(year);
    proof {
        assert(limit.magnitude * (days as nat) < 0x1_0000_0000_0000_0000) by (nonlinear_arith)
            requires
                limit.magnitude <= 130000,
                days < 0x1_0000,
        ;
    }
    let product = match checked_mul(limit, Dec::whole(days as u64)) {
        Some(v) => v,
        None => {
            proof {
                assert(limit.magnitude * (days as nat) < 0x1_0000_0000_0000_0000) by (nonlinear_arith)
                    requires
                        limit.magnitude <= 130000,
                        days < 0x1_0000,
                ;
            }
            return None;
        },
    };
    proof {
        let dd = Dec::whole_spec(days as nat);
        assert(limit == exclusion_limit_spec(year));
        if days == 0 {
            assert(limit.magnitude * dd.magnitude == 0);
        } else {
            assert(limit.magnitude != 0);
            assert(limit.magnitude * dd.magnitude < magnitude_bound());
        }
        assert(product == Dec { negative: false, magnitude: (exclusion_limit_spec(year).magnitude * days) as u128, scale: 0 });
    }
    let prorated = match checked_div(product, Dec::whole(365)) {
        Some(v) => v,
        None => {
            return None;
        },
    };
    let excluded = min(income, prorated);
    let rest = match checked_sub(income, excluded) {
        Some(v) => v,
        None => return None,
    };
    Some(
        FeieAmounts {
            prorated_limit: prorated,
            excluded,
            subject_to_income_tax: rest,
            subject_to_se_tax: income,
        },
    )
}

/// Computes the exclusion of a year and writes the outcome; `None` exactly
/// where the subtraction overflows.
pub fn try_compute_feie(input: &FeieInput) -> (r: Option<FeieOutcome>)
    ensures
        match r {
            Some(out) => input_feie_spec(*input) matches Some(a) && feie_outcome_matches(out, a),
            None => input_feie_spec(*input) is None,
        },
{
    let income = match parse_decimal(input.foreign_earned_income.as_str()) {
        Some(d) => d,
        None => Dec::whole(0),
    };
    let a = match feie_amounts(input.tax_year, input.days_qualified, income) {
        Some(a) => a,
        None => return None,
    };
    let mut warnings: Vec<String> = Vec::new();
    if less_than(Dec::whole(0), a.subject_to_se_tax) {
        warnings.push(
            owned(
                "FEIE does not reduce self-employment tax. SE tax applies to foreign earned income even when FEIE excludes it from income tax.",
            ),
        );
    }
    proof {
        lemma_v28_sign(Dec::whole_spec(0));
        assert(texts_view(warnings@) =~= if a.subject_to_se_tax.v28() > 0 {
            seq![se_tax_warning()]
        } else {
            seq![]
        });
    }
    Some(
        FeieOutcome {
            excluded_amount: to_text(a.excluded),
            income_subject_to_income_tax: to_text(a.subject_to_income_tax),
            income_subject_to_se_tax: to_text(a.subject_to_se_tax),
            warnings,
        },
    )
}

/// Computes the exclusion of a year and writes the outcome, for inputs on
/// which the subtraction does not overflow.
pub fn compute_feie(input: &FeieInput) -> (out: FeieOutcome)
    requires
        input_feie_spec(*input) is Some,
    ensures
        feie_outcome_matches(out, input_feie_spec(*input).unwrap()),
{
    match try_compute_feie(input) {
        Some(out) => out,
        None => {
            proof {
                assert(false);
            }
            FeieOutcome {
                excluded_amount: String::new(),
                income_subject_to_income_tax: String::new(),
                income_subject_to_se_tax: String::new(),
                warnings: Vec::new(),
            }
        },
    }
}

/// The yearly exclusion limit in dollars: 120,000 for tax year 2023,
/// 126,500 for 2024, 130,000 for 2025, and 120,000 for any other year; a
/// whole number of dollars.
pub proof fn law_exclusion_limit_by_year(year: u16)
    ensures
        exclusion_limit_spec(year).scale == 0,
        !exclusion_limit_spec(year).negative,
        year == 2023 ==> exclusion_limit_spec(year).magnitude == 120000,
        year == 2024 ==> exclusion_limit_spec(year).magnitude == 126500,
        year == 2025 ==> exclusion_limit_spec(year).magnitude == 130000,
        (year != 2023 && year != 2024 && year != 2025) ==> exclusion_limit_spec(year).magnitude == 120000,
{
}

/// The exclusion is the income where it is within the pro-rated limit and
/// the limit otherwise; the income left subject to income tax is the
/// income less the exclusion (where `rust_decimal` subtracts exactly); and
/// all of the income stays subject to self-employment tax.
pub proof fn law_exclusion_is_income_up_to_limit(year: u16, days: u16, income: Dec)
    requires
        feie_amounts_spec(year, days, income) is Some,
    ensures
        ({
            let a = feie_amounts_spec(year, days, income).unwrap();
            &&& a.excluded.v28() == if income.v28() <= a.prorated_limit.v28() {
                income.v28()
            } else {
                a.prorated_limit.v28()
            }
            &&& sub_exact(income, a.excluded) ==> a.subject_to_income_tax.v28() == income.v28()
                - a.excluded.v28()
            &&& a.subject_to_se_tax == income
        }),
{
}

/// What an outcome writes: the excluded amount, the income left subject to
/// income tax and the income subject to self-employment tax, each as
/// `rust_decimal` shows it, and the self-employment warning exactly where
/// the income is positive.
pub proof fn law_feie_outcome(out: FeieOutcome, a: FeieAmounts)
    requires
        feie_outcome_matches(out, a),
    ensures
        out.excluded_amount@ == display_spec(a.excluded, a.excluded.scale as nat),
        out.income_subject_to_income_tax@ == display_spec(a.subject_to_income_tax, a.subject_to_income_tax.scale as nat),
        out.income_subject_to_se_tax@ == display_spec(a.subject_to_se_tax, a.subject_to_se_tax.scale as nat),
        out.warnings@.len() == 1 <==> a.subject_to_se_tax.v28() > 0,
        out.warnings@.len() == 1 ==> out.warnings@[0]@ == se_tax_warning(),
        out.warnings@.len() <= 1,
{
    assert(texts_view(out.warnings@).len() == out.warnings@.len());
    if out.warnings@.len() == 1 {
        assert(texts_view(out.warnings@)[0] == out.warnings@[0]@);
    }
}

/// The exclusion never exceeds the income nor the pro-rated limit, and the
/// whole income stays subject to self-employment tax.
pub proof fn law_exclusion_bounded(year: u16, days: u16, income: Dec)
    requires
        feie_amounts_spec(year, days, income) is Some,
    ensures
        ({
            let a = feie_amounts_spec(year, days, income).unwrap();
            &&& a.excluded.v28() <= income.v28()
            &&& a.excluded.v28() <= a.prorated_limit.v28()
            &&& a.subject_to_se_tax == income
        }),
{
}

/// How the residence test was asked for, before it is checked.
pub open spec fn residence_test_error(
    test: Seq<char>,
    qualifying_days: Option<u16>,
    window_start: Option<Seq<char>>,
    window_end: Option<Seq<char>>,
) -> Option<Seq<char>> {
    if test == "bona_fide"@ {
        None
    } else if test == "physical_presence"@ {
        if qualifying_days is None {
            Some("qualifying_days required for physical_presence test"@)
        } else if window_start is None {
            Some("window_start required for physical_presence test"@)
        } else if window_end is None {
            Some("window_end required for physical_presence test"@)
        } else {
            None
        }
    } else {
        Some("unknown test: "@ + test)
    }
}

/// The handler of the exclusion tool. The test must be `bona_fide`, or
/// `physical_presence` with its qualifying days and window; otherwise the
/// request is refused with the message the tool gives. An income whose
/// arithmetic overflows is refused too.
pub fn handle_compute_feie(
    tax_year: u16,
    foreign_earned_income: &str,
    days_qualified: u16,
    housing_exclusion: Option<&str>,
    test: &str,
    test_start: &str,
    test_end: Option<&str>,
    qualifying_days: Option<u16>,
    window_start: Option<&str>,
    window_end: Option<&str>,
) -> (r: Result<FeieOutcome, String>)
    ensures
        match residence_test_error(
            test@,
            qualifying_days,
            match window_start {
                Some(s) => Some(s@),
                None => None,
            },
            match window_end {
                Some(s) => Some(s@),
                None => None,
            },
        ) {
            Some(msg) => r matches Err(e) && e@ == msg,
            None => match feie_amounts_spec(tax_year, days_qualified, parse_or_zero(foreign_earned_income@)) {
                None => r matches Err(e) && e@ == "amounts overflow the decimal range"@,
                Some(a) => r matches Ok(out) && feie_outcome_matches(out, a),
            },
        },
{
    proof {
        reveal_strlit("bona_fide");
        reveal_strlit("physical_presence");
    }
    let feie_test = if str_eq(test, "bona_fide") {
        ForeignResidenceTest::BonaFideResidence {
            start: owned(test_start),
            end: match test_end {
                Some(s) => Some(owned(s)),
                None => None,
            },
        }
    } else if str_eq(test, "physical_presence") {
        let qd = match qualifying_days {
            Some(d) => d,
            None => {
                return Err(owned("qualifying_days required for physical_presence test"));
            },
        };
        let ws = match window_start {
            Some(s) => owned(s),
            None => {
                return Err(owned("window_start required for physical_presence test"));
            },
        };
        let we = match window_end {
            Some(s) => owned(s),
            None => {
                return Err(owned("window_end required for physical_presence test"));
            },
        };
        ForeignResidenceTest::PhysicalPresence { qualifying_days: qd, window: (ws, we) }
    } else {
        return Err(concat("unknown test: ", test));
    };
    let input = FeieInput {
        tax_year,
        test: feie_test,
        foreign_earned_income: owned(foreign_earned_income),
        days_qualified,
        housing_exclusion: match housing_exclusion {
            Some(s) => Some(owned(s)),
            None => None,
        },
    };
    match try_compute_feie(&input) {
        Some(out) => Ok(out),
        None => Err(owned("amounts overflow the decimal range")),
    }
}

} // verus!
