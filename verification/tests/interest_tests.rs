use lending::interest::{accrued_interest_usd, checked_accrued_interest_usd};
use lending::types::{Position, PositionStatus};
use soroban_sdk::{Address, Env, IntoVal, Symbol, TryFromVal, Val, Vec};

const ADDRESS: &str = "GAAAAAAAAAAAAAAAAAAAAAAAAAAAAAAAAAAAAAAAAAAAAAAAAAAAAWHF";

fn schedule(env: &Env, rates: &[u32]) -> Vec<u32> {
    let mut v = Vec::new(env);
    for r in rates {
        v.push_back(*r);
    }
    v
}

/// Build a position with the given price (7-decimal fixed point),
/// interest schedule (bps per month) and start time.
fn position(env: &Env, price: i128, schedule: Vec<u32>, start: u64) -> Position {
    Position {
        id: 1,
        listing_id: 1,
        lender: Address::from_str(env, ADDRESS),
        borrower: Address::from_str(env, ADDRESS),
        nft_contract: Address::from_str(env, ADDRESS),
        token_id: 1,
        declared_price_usd: price,
        collateral_currency: Address::from_str(env, ADDRESS),
        collateral_amount: 0,
        interest_schedule_bps: schedule,
        liquidation_threshold_bps: 0,
        start_time: start,
        max_duration_secs: 0,
        status: PositionStatus::Active,
    }
}

#[test]
fn elapsed_zero_returns_zero() {
    let env = Env::default();
    let pos = position(&env, 100_000_000, schedule(&env, &[500, 600]), 1_000_000);

    assert_eq!(accrued_interest_usd(&pos, 1_000_000), 0);
    assert_eq!(accrued_interest_usd(&pos, 999_999), 0);
}

#[test]
fn partial_first_month_is_prorated() {
    // 500 bps = 5% / month. 15 days into month 1:
    // 100_000_000 * 500 / 10_000 * 15 / 30 = 2_500_000
    let env = Env::default();
    let pos = position(&env, 100_000_000, schedule(&env, &[500, 600]), 0);

    assert_eq!(accrued_interest_usd(&pos, 15 * 86_400), 2_500_000);
}

#[test]
fn full_first_month_uses_first_rate() {
    // Exactly 30 days: one full month at 500 bps.
    let env = Env::default();
    let pos = position(&env, 100_000_000, schedule(&env, &[500, 600]), 0);

    assert_eq!(accrued_interest_usd(&pos, 30 * 86_400), 5_000_000);
}

#[test]
fn month_two_rate_kicks_in_for_partial_month() {
    // 45 days: month 1 full (500 bps) + 15 days of month 2 (600 bps):
    // 5_000_000 + 100_000_000 * 600 / 10_000 * 15 / 30 = 8_000_000
    let env = Env::default();
    let pos = position(&env, 100_000_000, schedule(&env, &[500, 600]), 0);

    assert_eq!(accrued_interest_usd(&pos, 45 * 86_400), 8_000_000);
}

#[test]
fn full_month_two_uses_second_rate() {
    // 60 days: month 1 (500 bps) + month 2 (600 bps).
    let env = Env::default();
    let pos = position(&env, 100_000_000, schedule(&env, &[500, 600]), 0);

    assert_eq!(accrued_interest_usd(&pos, 60 * 86_400), 11_000_000);
}

#[test]
fn last_rate_repeats_after_schedule_end() {
    // 90 days = 3 months. Rates: month 1 = 500, month 2 = 600,
    // month 3 = last entry repeats = 600. Total = 17_000_000.
    let env = Env::default();
    let pos = position(&env, 100_000_000, schedule(&env, &[500, 600]), 0);

    assert_eq!(accrued_interest_usd(&pos, 90 * 86_400), 17_000_000);
}

#[test]
fn empty_schedule_is_refused() {
    let env = Env::default();
    let pos = position(&env, 100_000_000, schedule(&env, &[]), 0);

    assert_eq!(checked_accrued_interest_usd(&pos, 15 * 86_400), None);
    // Before any time has elapsed the schedule is never read.
    assert_eq!(checked_accrued_interest_usd(&pos, 0), Some(0));
}

#[test]
fn checked_interest_matches_on_defined_inputs() {
    let env = Env::default();
    let pos = position(&env, 100_000_000, schedule(&env, &[500, 600]), 0);

    assert_eq!(checked_accrued_interest_usd(&pos, 45 * 86_400), Some(8_000_000));
}

#[test]
fn overflowing_accrual_is_refused() {
    let env = Env::default();
    let pos = position(&env, i128::MAX / 2, schedule(&env, &[u32::MAX]), 0);

    assert_eq!(checked_accrued_interest_usd(&pos, 31 * 86_400), None);
}

#[test]
fn partial_days_ignore_seconds_within_a_day() {
    let env = Env::default();
    let pos = position(&env, 100_000_000, schedule(&env, &[500, 600]), 1_000);

    let at_day_start = accrued_interest_usd(&pos, 1_000 + 15 * 86_400);
    let late_same_day = accrued_interest_usd(&pos, 1_000 + 15 * 86_400 + 86_399);
    assert_eq!(at_day_start, late_same_day);
    // Less than one day elapsed: nothing accrues yet.
    assert_eq!(accrued_interest_usd(&pos, 1_000 + 86_399), 0);
}

#[test]
fn interest_never_decreases_over_time() {
    let env = Env::default();
    let pos = position(&env, 123_456_789, schedule(&env, &[700, 300, 900]), 0);

    let mut previous = 0;
    for day in 0..200u64 {
        let now = day * 86_400 + 1;
        let interest = accrued_interest_usd(&pos, now);
        assert!(interest >= previous);
        previous = interest;
    }
}

#[test]
fn month_boundary_does_not_drop_interest() {
    // 29 days prorated at 500 bps versus the full month.
    let env = Env::default();
    let pos = position(&env, 100_000_000, schedule(&env, &[500]), 0);

    assert_eq!(accrued_interest_usd(&pos, 29 * 86_400), 4_833_333);
    assert_eq!(accrued_interest_usd(&pos, 30 * 86_400), 5_000_000);
}

#[test]
fn negative_price_rounds_toward_zero() {
    // -100_000_007 * 500 / 10_000 = -5_000_000 (rounded toward zero),
    // then * 15 / 30 = -2_500_000.
    let env = Env::default();
    let pos = position(&env, -100_000_007, schedule(&env, &[500]), 0);

    assert_eq!(accrued_interest_usd(&pos, 15 * 86_400), -2_500_000);
}

#[test]
fn single_rate_schedule_repeats_every_month() {
    let env = Env::default();
    let pos = position(&env, 10_000, schedule(&env, &[100]), 0);

    // 100 bps of 10_000 is 100 per month; 12 months.
    assert_eq!(accrued_interest_usd(&pos, 360 * 86_400), 1_200);
}

#[test]
fn unreadable_rate_is_refused_only_when_read() {
    // A schedule decoded from a host value whose second item is not a u32.
    let env = Env::default();
    let mut raw: Vec<Val> = Vec::new(&env);
    raw.push_back(500u32.into_val(&env));
    raw.push_back(Symbol::new(&env, "x").into_val(&env));
    let decoded: Vec<u32> = Vec::try_from_val(&env, &raw.to_val()).unwrap();
    let pos = position(&env, 100_000_000, decoded, 0);

    // 15 days only read the first rate.
    assert_eq!(checked_accrued_interest_usd(&pos, 15 * 86_400), Some(2_500_000));
    // 45 days read the second position, which holds no u32.
    assert_eq!(checked_accrued_interest_usd(&pos, 45 * 86_400), None);
}
