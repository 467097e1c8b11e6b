//! Planning engine: the seeded PRNG, loan amortization and the retirement
//! solver and summary.

use ultimate_finance::amortize::{amortization_schedule, compare, total_interest, AmortRow, ScheduleError};
use ultimate_finance::planning::{percentile_at, required_annual_savings, summarize_paths, PathOutcome};
use ultimate_finance::rng::Rng;

/// Round half away from zero, as statements present amounts.
fn round_cents(x: f64) -> i64 {
    if x >= 0.0 {
        (x + 0.5).floor() as i64
    } else {
        (x - 0.5).ceil() as i64
    }
}

/// Standard fully-amortizing monthly payment.
fn monthly_payment(principal_cents: i64, annual_rate_pct: f64, months: u32) -> i64 {
    let r = annual_rate_pct / 100.0 / 12.0;
    let n = f64::from(months);
    let p = principal_cents as f64;
    let raw = if r.abs() < f64::EPSILON { p / n } else { p * r / (1.0 - (1.0 + r).powf(-n)) };
    round_cents(raw)
}

/// Monthly interest on a balance at an annual percentage rate.
fn interest_at(annual_rate_pct: f64) -> impl Fn(i64) -> i64 {
    let r = annual_rate_pct / 100.0 / 12.0;
    move |balance: i64| round_cents(balance as f64 * r)
}

fn classic_30y_rows(extra: i64) -> Vec<AmortRow> {
    let base = monthly_payment(30_000_000, 6.0, 360);
    amortization_schedule(30_000_000, 360, base, extra, interest_at(6.0)).unwrap()
}

#[test]
fn rng_is_reproducible() {
    let mut a = Rng::new(42);
    let mut b = Rng::new(42);
    for _ in 0..1000 {
        assert_eq!(a.next_u64(), b.next_u64());
    }
}

#[test]
fn rng_first_outputs_are_xorshift64_star() {
    let mut a = Rng::new(42);
    assert_eq!(a.next_u64(), 6_255_019_084_209_693_600);
    assert_eq!(a.next_u64(), 14_430_073_426_741_505_498);
}

#[test]
fn rng_zero_seed_avoids_the_fixed_point() {
    let mut zero = Rng::new(0);
    let mut one = Rng::new(1);
    assert_eq!(zero.next_u64(), 5_180_492_295_206_395_165);
    assert_eq!(one.next_u64(), 5_180_492_295_206_395_165);
    assert_ne!(zero.next_u64(), 0);
}

#[test]
fn schedule_amortizes_exactly() {
    let rows = classic_30y_rows(0);
    assert_eq!(rows.len(), 360);
    assert_eq!(rows.last().unwrap().balance_cents, 0);
    let principal_paid: i64 = rows.iter().map(|r| r.principal_cents).sum();
    assert_eq!(principal_paid, 30_000_000);
    // Interest ≈ $347,515 over 30 years (±$5 tolerance for cent rounding).
    let interest = total_interest(&rows);
    assert!((interest - 34_751_500).abs() <= 500, "interest {interest}");
}

#[test]
fn extra_payments_save_interest_and_time() {
    let base_payment = monthly_payment(30_000_000, 6.0, 360);
    let base = compare(30_000_000, 360, base_payment, 0, interest_at(6.0)).unwrap();
    let extra = compare(30_000_000, 360, base_payment, 20_000, interest_at(6.0)).unwrap();
    assert!(extra.total_interest_cents < base.total_interest_cents);
    assert!(extra.months_to_payoff < base.months_to_payoff);
    assert!(base.total_interest_cents - extra.total_interest_cents > 50_000_00);
}

#[test]
fn zero_rate_loan() {
    assert_eq!(monthly_payment(12_000, 0.0, 12), 1_000);
    let rows = amortization_schedule(12_000, 12, 1_000, 0, interest_at(0.0)).unwrap();
    assert_eq!(total_interest(&rows), 0);
    assert_eq!(rows.len(), 12);
}

#[test]
fn early_payoff_adjusts_final_payment() {
    let base = monthly_payment(10_000_000, 5.0, 360);
    let rows = amortization_schedule(10_000_000, 360, base, 90_000, interest_at(5.0)).unwrap();
    assert!(rows.len() < 360);
    assert_eq!(rows.last().unwrap().balance_cents, 0);
    assert_eq!(rows.iter().map(|r| r.principal_cents).sum::<i64>(), 10_000_000);
}

#[test]
fn each_row_pays_interest_plus_principal() {
    let rows = classic_30y_rows(0);
    let mut balance = 30_000_000;
    for (i, r) in rows.iter().enumerate() {
        assert_eq!(r.month as usize, i + 1);
        assert_eq!(r.payment_cents, r.interest_cents + r.principal_cents);
        assert_eq!(r.balance_cents, balance - r.principal_cents);
        balance = r.balance_cents;
    }
    // First month at 6%: $1,500.00 interest on $300k.
    assert_eq!(rows[0].interest_cents, 150_000);
    assert_eq!(rows[0].principal_cents, 179_865 - 150_000);
}

#[test]
fn final_month_absorbs_the_residual() {
    // A payment too small to finish: the last month pays off the rest.
    let rows = amortization_schedule(1_000, 3, 100, 0, |_: i64| 0).unwrap();
    assert_eq!(rows.len(), 3);
    assert_eq!(rows[0].principal_cents, 100);
    assert_eq!(rows[1].principal_cents, 100);
    assert_eq!(rows[2].principal_cents, 800);
    assert_eq!(rows[2].balance_cents, 0);
}

#[test]
fn payment_below_interest_is_refused() {
    let r = amortization_schedule(1_000_000, 12, 100, 0, |_: i64| 5_000);
    assert_eq!(r.unwrap_err(), ScheduleError::PaymentBelowInterest);
}

#[test]
fn overflowing_payment_is_refused() {
    let r = amortization_schedule(1_000, 12, i64::MAX, 1, |_: i64| 0);
    assert_eq!(r.unwrap_err(), ScheduleError::Overflow);
}

#[test]
fn total_interest_sums_rows() {
    let rows = [
        AmortRow { month: 1, payment_cents: 150, interest_cents: 50, principal_cents: 100, balance_cents: 100 },
        AmortRow { month: 2, payment_cents: 125, interest_cents: 25, principal_cents: 100, balance_cents: 0 },
    ];
    assert_eq!(total_interest(&rows), 75);
    assert_eq!(total_interest(&[]), 0);
}

#[test]
fn solver_returns_zero_when_no_saving_is_needed() {
    assert_eq!(required_annual_savings(4_000_000, |_c: i64| true), 0);
}

#[test]
fn solver_returns_the_cap_when_unreachable() {
    assert_eq!(required_annual_savings(4_000_000, |_c: i64| false), 4_000_000);
    // The cap is at least $10,000.
    assert_eq!(required_annual_savings(500, |_c: i64| false), 1_000_000);
}

#[test]
fn solver_answer_meets_threshold() {
    let need = required_annual_savings(4_000_000, |c: i64| c >= 1_234_567);
    assert_eq!(need, 1_234_619);
    assert!(need >= 1_234_567 && need - 100 < 1_234_567);
    assert_eq!(required_annual_savings(4_000_000, |c: i64| c >= 250_000), 250_000);
}

#[test]
fn summary_percentiles_are_ordered() {
    let paths: Vec<PathOutcome> = [(false, 10, 500), (true, 20, 0), (false, 30, 900), (false, 40, 100), (false, 50, 700)]
        .iter()
        .map(|&(d, n, t)| PathOutcome { depleted: d, nest_egg_cents: n, terminal_cents: t })
        .collect();
    let a = summarize_paths(&paths);
    let b = summarize_paths(&paths);
    assert_eq!(a.paths, 5);
    assert_eq!(a.successes, 4);
    assert_eq!(a.terminal_p05_cents, 0);
    assert_eq!(a.terminal_p50_cents, 500);
    assert_eq!(a.terminal_p95_cents, 900);
    assert_eq!(a.nest_egg_p50_cents, 30);
    assert_eq!(a.terminal_p50_cents, b.terminal_p50_cents);
    assert!(a.terminal_p05_cents <= a.terminal_p50_cents && a.terminal_p50_cents <= a.terminal_p95_cents);
}

#[test]
fn percentile_index_rounds_half_up() {
    assert_eq!(percentile_at(3_000, 5), 150);
    assert_eq!(percentile_at(3_000, 50), 1_500);
    assert_eq!(percentile_at(3_000, 95), 2_849);
    assert_eq!(percentile_at(11, 5), 1);
    assert_eq!(percentile_at(1, 95), 0);
}

#[test]
fn total_interest_adds_up_over_joined_runs() {
    let rows = classic_30y_rows(0);
    let (a, b) = rows.split_at(120);
    assert_eq!(total_interest(&[]), 0);
    assert_eq!(total_interest(&[a, b].concat()), total_interest(a) + total_interest(b));
    assert_eq!(total_interest(&rows), total_interest(a) + total_interest(b));
}

#[test]
fn larger_extra_payments_never_lengthen_or_cost_more() {
    let base = monthly_payment(10_000_000, 5.0, 240);
    let mut last: Option<(u32, i64)> = None;
    for extra in [0, 5_000, 10_000, 50_000] {
        let c = compare(10_000_000, 240, base, extra, interest_at(5.0)).unwrap();
        if let Some((months, interest)) = last {
            assert!(c.months_to_payoff <= months);
            assert!(c.total_interest_cents <= interest);
        }
        last = Some((c.months_to_payoff, c.total_interest_cents));
    }
}
