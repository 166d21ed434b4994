use lending::oracle::{
    get_price, token_to_usd, usd_to_token_amount, validated_price, PriceData, PriceError,
};
use lending::types::PlatformConfig;
use soroban_sdk::{Address, Env};

const ADDRESS: &str = "GAAAAAAAAAAAAAAAAAAAAAAAAAAAAAAAAAAAAAAAAAAAAAAAAAAAAWHF";

fn config(env: &Env, max_price_staleness_secs: u64) -> PlatformConfig {
    PlatformConfig {
        admin: Address::from_str(env, ADDRESS),
        fee_receiver: Address::from_str(env, ADDRESS),
        platform_fee_bps: 100,
        liquidator_fee_bps: 100,
        min_buffer_bps: 100,
        max_buffer_bps: 1000,
        min_liq_threshold_bps: 100,
        max_liq_threshold_bps: 1000,
        oracle_address: Address::from_str(env, ADDRESS),
        max_price_staleness_secs,
    }
}

#[test]
fn test_get_price_success() {
    // The oracle's reading for XLM: $0.10 published at 1000; the ledger is at 1050.
    let env = Env::default();
    let config = config(&env, 100);
    let reading = Some(PriceData { price: 1_000_000, timestamp: 1000 });

    let price = get_price(&config, reading, 1050);
    assert_eq!(price, 1_000_000);
}

#[test]
fn get_price_at_the_staleness_bound() {
    let env = Env::default();
    let config = config(&env, 100);
    let reading = Some(PriceData { price: 7, timestamp: 1000 });

    assert_eq!(get_price(&config, reading, 1100), 7);
    assert_eq!(get_price(&config, reading, 1000), 7);
}

#[test]
fn test_usd_to_token_amount() {
    let amount = usd_to_token_amount(50_000_000, 10_000_000, 7);
    assert_eq!(amount, 50_000_000);

    let amount_eth = usd_to_token_amount(10_000_000_000, 20_000_000_000, 18);
    assert_eq!(amount_eth, 500_000_000_000_000_000);

    assert_eq!(usd_to_token_amount(0, 10_000_000, 7), 0);
}

#[test]
fn test_token_to_usd() {
    let usd = token_to_usd(50_000_000, 10_000_000, 7);
    assert_eq!(usd, 50_000_000);

    let usd_eth = token_to_usd(500_000_000_000_000_000, 20_000_000_000, 18);
    assert_eq!(usd_eth, 10_000_000_000);

    assert_eq!(token_to_usd(0, 10_000_000, 7), 0);
}

#[test]
fn usd_to_token_rounds_down() {
    // 1 USD (7 decimals) at a price of 3 USD, token with 7 decimals:
    // 10_000_000 * 10^7 / 30_000_000 = 3_333_333.33...
    assert_eq!(usd_to_token_amount(10_000_000, 30_000_000, 7), 3_333_333);
}

#[test]
fn token_to_usd_rounds_down() {
    // 1 token unit (smallest) at 0.1 USD with 7 decimals: 1 * 1_000_000 / 10^7 = 0.
    assert_eq!(token_to_usd(1, 1_000_000, 7), 0);
    assert_eq!(token_to_usd(3_333_333, 30_000_000, 7), 9_999_999);
}

#[test]
fn zero_decimals_token() {
    assert_eq!(usd_to_token_amount(50_000_000, 10_000_000, 0), 5);
    assert_eq!(token_to_usd(5, 10_000_000, 0), 50_000_000);
}

#[test]
fn usd_round_trip_never_gains() {
    for &(usd, price, decimals) in &[
        (10_000_000i128, 30_000_000i128, 7u32),
        (123_456_789, 987_654_321, 18),
        (1, 7, 0),
        (999_999_999, 1, 6),
    ] {
        let tokens = usd_to_token_amount(usd, price, decimals);
        let back = token_to_usd(tokens, price, decimals);
        assert!(0 <= back && back <= usd);
    }
}

#[test]
fn token_round_trip_never_gains() {
    for &(tokens, price, decimals) in &[
        (3_333_333i128, 30_000_000i128, 7u32),
        (1, 1_000_000, 7),
        (500_000_000_000_000_000, 20_000_000_000, 18),
    ] {
        let usd = token_to_usd(tokens, price, decimals);
        let back = usd_to_token_amount(usd, price, decimals);
        assert!(0 <= back && back <= tokens);
    }
}

#[test]
fn higher_price_buys_fewer_tokens() {
    let cheap = usd_to_token_amount(50_000_000, 10_000_000, 7);
    let dear = usd_to_token_amount(50_000_000, 20_000_000, 7);
    assert_eq!(cheap, 50_000_000);
    assert_eq!(dear, 25_000_000);
    assert!(dear <= cheap);
}

#[test]
fn fresh_price_is_accepted() {
    let reading = Some(PriceData { price: 1_000_000, timestamp: 1000 });
    assert_eq!(validated_price(reading, 1050, 100), Ok(1_000_000));
    // Exactly at the staleness bound is still fresh.
    assert_eq!(validated_price(reading, 1100, 100), Ok(1_000_000));
}

#[test]
fn missing_price_is_refused() {
    assert_eq!(validated_price(None, 1050, 100), Err(PriceError::NotFound));
}

#[test]
fn stale_price_is_refused() {
    let reading = Some(PriceData { price: 1_000_000, timestamp: 500 });
    assert_eq!(validated_price(reading, 1050, 100), Err(PriceError::TooStale));
    assert_eq!(validated_price(Some(PriceData { price: 1, timestamp: 1000 }), 1101, 100), Err(PriceError::TooStale));
}

#[test]
fn future_price_is_refused() {
    let reading = Some(PriceData { price: 1_000_000, timestamp: 2000 });
    assert_eq!(validated_price(reading, 1050, 100), Err(PriceError::FutureTimestamp));
}
