use ledgerr_mcp::capital_loss::{
    compute_capital_loss, handle_compute_capital_loss, CapitalLossInput, FilingStatus,
};
use ledgerr_mcp::fbar::{compute_fbar, DailyBalance, FbarInput, ForeignAccountInput};
use ledgerr_mcp::feie::{compute_feie, handle_compute_feie, FeieInput, ForeignResidenceTest};

fn input(status: FilingStatus, stl: &str, ltl: &str, stg: &str, ltg: &str) -> CapitalLossInput {
    CapitalLossInput {
        tax_year: 2024,
        filing_status: status,
        short_term_losses: stl.to_string(),
        long_term_losses: ltl.to_string(),
        short_term_gains: stg.to_string(),
        long_term_gains: ltg.to_string(),
        prior_short_term_carryforward: "0".to_string(),
        prior_long_term_carryforward: "0".to_string(),
        nonbusiness_bad_debt: None,
    }
}

#[test]
fn capital_loss_limited_to_3000_and_split() {
    let out = compute_capital_loss(&input(FilingStatus::Single, "5000", "2000", "1000", "500"));
    assert_eq!(out.net_short_term, "-4000.00");
    assert_eq!(out.net_long_term, "-1500.00");
    assert_eq!(out.total_net_loss, "-5500.00");
    assert_eq!(out.deductible_amount, "3000.00");
    assert_eq!(out.carryforward_short_term, "1818.18");
    assert_eq!(out.carryforward_long_term, "681.82");
    assert_eq!(out.filing_status_used, "single");
    assert!(out.warnings.is_empty());
}

#[test]
fn capital_loss_gain_deducts_nothing() {
    let out = compute_capital_loss(&input(FilingStatus::Single, "0", "0", "100", "0"));
    assert_eq!(out.net_short_term, "100.00");
    assert_eq!(out.total_net_loss, "100.00");
    assert_eq!(out.deductible_amount, "0.00");
    assert_eq!(out.carryforward_short_term, "0.00");
    assert_eq!(out.carryforward_long_term, "0.00");
}

#[test]
fn capital_loss_married_filing_separately_limit() {
    let out = compute_capital_loss(&input(FilingStatus::MarriedFilingSeparately, "10000", "0", "0", "0"));
    assert_eq!(out.deductible_amount, "1500.00");
    assert_eq!(out.carryforward_short_term, "8500.00");
    assert_eq!(out.carryforward_long_term, "0.00");
    assert_eq!(out.filing_status_used, "married_filing_separately");
}

#[test]
fn capital_loss_warns_on_long_carryforward() {
    let out = compute_capital_loss(&input(FilingStatus::Single, "100000", "0", "0", "0"));
    assert_eq!(out.deductible_amount, "3000.00");
    assert_eq!(
        out.warnings,
        vec![
            "Carryforward of $97000.00 exceeds approximately 20 years of absorption at $3000.00/year limit"
                .to_string()
        ]
    );
}

#[test]
fn capital_loss_bad_debt_is_short_term_loss() {
    let mut i = input(FilingStatus::HeadOfHousehold, "0", "0", "0", "0");
    i.nonbusiness_bad_debt = Some("1000".to_string());
    let out = compute_capital_loss(&i);
    assert_eq!(out.net_short_term, "-1000.00");
    assert_eq!(out.deductible_amount, "1000.00");
    assert_eq!(out.carryforward_short_term, "0.00");
    assert_eq!(out.carryforward_long_term, "0.00");
}

#[test]
fn capital_loss_unparsable_amount_is_zero() {
    let out = compute_capital_loss(&input(FilingStatus::Single, "abc", "0", "0", "0"));
    assert_eq!(out.total_net_loss, "0.00");
    assert_eq!(out.deductible_amount, "0.00");
}

#[test]
fn capital_loss_handler_rejects_unknown_status() {
    let r = handle_compute_capital_loss(2024, "bogus", "1", "0", "0", "0", None, None);
    assert_eq!(r.err(), Some("unknown filing_status: bogus".to_string()));
}

#[test]
fn capital_loss_handler_uses_prior_carryforward() {
    let r = handle_compute_capital_loss(
        2024,
        "married_filing_jointly",
        "0",
        "0",
        "0",
        "0",
        Some("500"),
        None,
    )
    .unwrap();
    assert_eq!(r.net_short_term, "-500.00");
    assert_eq!(r.deductible_amount, "500.00");
    assert_eq!(r.filing_status_used, "married_filing_jointly");
}

#[test]
fn filing_status_names_round_trip() {
    for s in [
        FilingStatus::Single,
        FilingStatus::MarriedFilingJointly,
        FilingStatus::MarriedFilingSeparately,
        FilingStatus::HeadOfHousehold,
        FilingStatus::QualifyingSurvivingSpouse,
    ] {
        assert_eq!(FilingStatus::from_str(s.as_str()), Some(s));
    }
    assert_eq!(FilingStatus::from_str("mfj"), None);
}

#[test]
fn capital_loss_limits_by_status() {
    let mfs = FilingStatus::MarriedFilingSeparately.capital_loss_limit();
    assert_eq!((mfs.magnitude, mfs.scale, mfs.negative), (1500, 0, false));
    let single = FilingStatus::Single.capital_loss_limit();
    assert_eq!((single.magnitude, single.scale, single.negative), (3000, 0, false));
}

fn feie_input(year: u16, income: &str, days: u16) -> FeieInput {
    FeieInput {
        tax_year: year,
        test: ForeignResidenceTest::BonaFideResidence { start: "2024-01-01".to_string(), end: None },
        foreign_earned_income: income.to_string(),
        days_qualified: days,
        housing_exclusion: None,
    }
}

#[test]
fn feie_full_year_excludes_income_under_limit() {
    let out = compute_feie(&feie_input(2024, "100000", 365));
    assert_eq!(out.excluded_amount, "100000");
    assert_eq!(out.income_subject_to_income_tax, "0");
    assert_eq!(out.income_subject_to_se_tax, "100000");
    assert_eq!(out.warnings.len(), 1);
    assert!(out.warnings[0].starts_with("FEIE does not reduce self-employment tax."));
}

#[test]
fn feie_prorated_limit() {
    let out = compute_feie(&feie_input(2025, "30000.50", 73));
    assert_eq!(out.excluded_amount, "26000");
    assert_eq!(out.income_subject_to_income_tax, "4000.50");
    assert_eq!(out.income_subject_to_se_tax, "30000.50");
}

#[test]
fn feie_zero_income_has_no_warning() {
    let out = compute_feie(&feie_input(2023, "0", 365));
    assert_eq!(out.excluded_amount, "0");
    assert!(out.warnings.is_empty());
}

#[test]
fn feie_handler_requires_presence_fields() {
    let r = handle_compute_feie(2024, "1000", 365, None, "physical_presence", "", None, None, None, None);
    assert_eq!(r.err(), Some("qualifying_days required for physical_presence test".to_string()));
    let r = handle_compute_feie(2024, "1000", 365, None, "physical_presence", "", None, Some(330), None, None);
    assert_eq!(r.err(), Some("window_start required for physical_presence test".to_string()));
    let r = handle_compute_feie(
        2024,
        "1000",
        365,
        None,
        "physical_presence",
        "",
        None,
        Some(330),
        Some("2024-01-01"),
        None,
    );
    assert_eq!(r.err(), Some("window_end required for physical_presence test".to_string()));
    let r = handle_compute_feie(2024, "1000", 365, None, "other", "", None, None, None, None);
    assert_eq!(r.err(), Some("unknown test: other".to_string()));
}

#[test]
fn feie_handler_bona_fide() {
    let out = handle_compute_feie(2024, "1000", 365, None, "bona_fide", "2024-01-01", None, None, None, None).unwrap();
    assert_eq!(out.excluded_amount, "1000");
    assert_eq!(out.income_subject_to_income_tax, "0");
}

fn balance(date: &str, amount: &str) -> DailyBalance {
    DailyBalance { date: date.to_string(), balance: amount.to_string() }
}

fn account(id: &str, balances: Vec<DailyBalance>, rate: Option<&str>) -> ForeignAccountInput {
    ForeignAccountInput {
        account_id: id.to_string(),
        institution: "Bank".to_string(),
        country: "DE".to_string(),
        currency: "EUR".to_string(),
        daily_balances: balances,
        year_end_rate: rate.map(|r| r.to_string()),
    }
}

#[test]
fn fbar_sums_highest_balances() {
    let input = FbarInput {
        tax_year: 2024,
        filing_status: "single".to_string(),
        living_abroad: false,
        accounts: vec![
            account(
                "A1",
                vec![
                    balance("2024-01-01", "5000"),
                    balance("2024-06-01", "8000.50"),
                    balance("2024-07-01", "bad"),
                    balance("2024-09-01", "8000.50"),
                ],
                Some("1.10"),
            ),
            account("A2", vec![], Some("1.0")),
            account("A3", vec![balance("2024-02-01", "3000")], None),
            account("A4", vec![balance("2024-02-01", "x")], Some("1")),
            account("A5", vec![balance("2024-03-01", "20000")], Some("0.5")),
        ],
    };
    let det = compute_fbar(&input);
    assert_eq!(det.tax_year, 2024);
    assert_eq!(det.accounts.len(), 2);
    assert_eq!(det.accounts[0].account_id, "A1");
    assert_eq!(det.accounts[0].max_balance_native, "8000.50");
    assert_eq!(det.accounts[0].max_balance_date, "2024-09-01");
    assert_eq!(det.accounts[0].treasury_year_end_rate, "1.10");
    assert_eq!(det.accounts[0].max_balance_usd, "8800.5500");
    assert_eq!(det.accounts[1].account_id, "A5");
    assert_eq!(det.accounts[1].max_balance_usd, "10000.0");
    assert_eq!(det.incomplete_accounts, vec!["A2".to_string(), "A3".to_string(), "A4".to_string()]);
    assert_eq!(det.aggregate_max_usd, "18800.5500");
    assert!(det.filing_required);
    assert_eq!(det.form_8938_filing_required, Some(false));
    assert_eq!(det.form_8938_threshold_used, Some("$50,000/$75,000".to_string()));
}

#[test]
fn fbar_without_accounts_makes_no_8938_determination() {
    let input = FbarInput {
        tax_year: 2024,
        filing_status: "mfj".to_string(),
        living_abroad: true,
        accounts: vec![account("A2", vec![], None)],
    };
    let det = compute_fbar(&input);
    assert!(det.accounts.is_empty());
    assert_eq!(det.aggregate_max_usd, "0");
    assert!(!det.filing_required);
    assert_eq!(det.form_8938_filing_required, None);
    assert_eq!(det.form_8938_threshold_used, None);
}

#[test]
fn fbar_8938_threshold_abroad_joint() {
    let input = FbarInput {
        tax_year: 2024,
        filing_status: "mfj".to_string(),
        living_abroad: true,
        accounts: vec![account("A", vec![balance("2024-01-01", "400000")], Some("1"))],
    };
    let det = compute_fbar(&input);
    assert_eq!(det.form_8938_filing_required, Some(true));
    assert_eq!(det.form_8938_threshold_used, Some("$400,000/$600,000".to_string()));
}

#[test]
fn capital_loss_tiny_net_loss_rounds_to_unsigned_zero() {
    let out = compute_capital_loss(&input(FilingStatus::Single, "0.001", "0", "0", "0"));
    assert_eq!(out.net_short_term, "0.00");
    assert_eq!(out.total_net_loss, "0.00");
}
