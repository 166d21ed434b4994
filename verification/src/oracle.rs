use vstd::prelude::*;

use crate::types::PlatformConfig;

verus! {

/// A price reading: a 7-decimal fixed-point USD price and the ledger time it was published at.
#[derive(Clone, Copy, Debug, PartialEq, Eq, Structural)]
pub struct PriceData {
    pub price: i128,
    pub timestamp: u64,
}

/// `10^n` as a mathematical integer.
pub open spec fn pow10(n: nat) -> int
    decreases n,
{
    if n == 0 {
        1
    } else {
        10 * pow10((n - 1) as nat)
    }
}

/// Tokens (with `decimals` decimals) worth `usd` at `price`, rounded down:
/// `usd * 10^decimals / price`.
pub open spec fn token_amount_of(usd: int, price: int, decimals: nat) -> int {
    if usd == 0 {
        0
    } else {
        (usd * pow10(decimals)) / price
    }
}

/// USD value (7-decimal fixed point) of `tokens` at `price`, rounded down:
/// `tokens * price / 10^decimals`.
pub open spec fn usd_value_of(tokens: int, price: int, decimals: nat) -> int {
    if tokens == 0 {
        0
    } else {
        (tokens * price) / pow10(decimals)
    }
}

pub proof fn lemma_pow10_positive(n: nat)
    ensures
        pow10(n) >= 1,
    decreases n,
{
    if n > 0 {
        lemma_pow10_positive((n - 1) as nat);
    }
}

pub proof fn lemma_pow10_monotone(m: nat, n: nat)
    requires
        m <= n,
    ensures
        pow10(m) <= pow10(n),
    decreases n,
{
    if m < n {
        lemma_pow10_monotone(m, (n - 1) as nat);
        lemma_pow10_positive((n - 1) as nat);
    }
}

/// `10^decimals` as an `i128`.
fn pow10_i128(decimals: u32) -> (p: i128)
    requires
        pow10(decimals as nat) <= i128::MAX,
    ensures
        p == pow10(decimals as nat),
{
    let mut p: i128 = 1;
    let mut i: u32 = 0;
    while i < decimals
        invariant
            i <= decimals,
            p == pow10(i as nat),
            pow10(decimals as nat) <= i128::MAX,
        decreases decimals - i,
    {
        proof {
            lemma_pow10_monotone((i + 1) as nat, decimals as nat);
            lemma_pow10_positive(i as nat);
            assert(pow10((i + 1) as nat) == 10 * pow10(i as nat));
        }
        p = p * 10;
        i = i + 1;
    }
    p
}

/// Converts a USD value to a token amount.
/// Both `usd` and `price` are 7-decimal fixed-point values; `decimals` is the
/// token's number of decimals. The amount is `usd * 10^decimals / price`, rounded down.
pub fn usd_to_token_amount(usd: i128, price: i128, decimals: u32) -> (amount: i128)
    requires
        price > 0,
        usd >= 0,
        usd > 0 ==> usd * pow10(decimals as nat) <= i128::MAX,
    ensures
        amount == token_amount_of(usd as int, price as int, decimals as nat),
{
    if usd == 0 {
        return 0;
    }
    proof {
        lemma_pow10_positive(decimals as nat);
        assert(pow10(decimals as nat) <= usd * pow10(decimals as nat)) by (nonlinear_arith)
            requires
                usd >= 1,
                pow10(decimals as nat) >= 1,
        ;
    }
    let multiplier = pow10_i128(decimals);
    let numerator = usd * multiplier;
    numerator / price
}

/// Converts a token amount to its USD value.
/// `tokens` has `decimals` decimals, `price` is 7-decimal fixed point, and the
/// result is 7-decimal fixed point: `tokens * price / 10^decimals`, rounded down.
pub fn token_to_usd(tokens: i128, price: i128, decimals: u32) -> (usd: i128)
    requires
        price > 0,
        tokens >= 0,
        tokens > 0 ==> pow10(decimals as nat) <= i128::MAX,
        tokens > 0 ==> tokens * price <= i128::MAX,
    ensures
        usd == usd_value_of(tokens as int, price as int, decimals as nat),
{
    if tokens == 0 {
        return 0;
    }
    let divisor = pow10_i128(decimals);
    proof {
        lemma_pow10_positive(decimals as nat);
    }
    let numerator = tokens * price;
    numerator / divisor
}

/// Why a price reading was refused.
#[derive(Clone, Copy, Debug, PartialEq, Eq, Structural)]
pub enum PriceError {
    /// The oracle holds no price for the asset.
    NotFound,
    /// The reading is older than the configured staleness bound.
    TooStale,
    /// The reading claims a time after the current ledger time.
    FutureTimestamp,
}

/// The verdict on an oracle reading taken at ledger time `now`.
pub open spec fn price_verdict(
    reading: Option<PriceData>,
    now: u64,
    max_price_staleness_secs: u64,
) -> Result<i128, PriceError> {
    match reading {
        None => Err(PriceError::NotFound),
        Some(data) => if now >= data.timestamp {
            if now - data.timestamp > max_price_staleness_secs {
                Err(PriceError::TooStale)
            } else {
                Ok(data.price)
            }
        } else {
            Err(PriceError::FutureTimestamp)
        },
    }
}

/// Accepts an oracle reading taken at ledger time `now` and returns its price,
/// or says why the reading is refused: no reading, a reading older than
/// `max_price_staleness_secs`, or a reading from the future.
pub fn validated_price(reading: Option<PriceData>, now: u64, max_price_staleness_secs: u64) -> (r:
    Result<i128, PriceError>)
    ensures
        r == price_verdict(reading, now, max_price_staleness_secs),
{
    let price_data = match reading {
        None => return Err(PriceError::NotFound),
        Some(data) => data,
    };
    if now >= price_data.timestamp {
        let age = now - price_data.timestamp;
        if age > max_price_staleness_secs {
            return Err(PriceError::TooStale);
        }
    } else {
        return Err(PriceError::FutureTimestamp);
    }
    Ok(price_data.price)
}

/// The price of `reading`, the oracle's latest reading for an asset, taken at
/// ledger time `now`. The reading must be accepted under the configured
/// staleness bound: present, not from the future, and not older than
/// `config.max_price_staleness_secs` (`validated_price` tells whether it is).
pub fn get_price(config: &PlatformConfig, reading: Option<PriceData>, now: u64) -> (price: i128)
    requires
        price_verdict(reading, now, config.max_price_staleness_secs) is Ok,
    ensures
        price_verdict(reading, now, config.max_price_staleness_secs) == Ok::<i128, PriceError>(
            price,
        ),
        price == reading->0.price,
{
    match validated_price(reading, now, config.max_price_staleness_secs) {
        Ok(price) => price,
        Err(_) => {
            proof {
                assert(false);
            }
            0
        },
    }
}

/// An accepted price is the price of the reading, which is neither from the
/// future nor older than the staleness bound.
pub proof fn lemma_accepted_price_is_fresh(
    reading: Option<PriceData>,
    now: u64,
    max_price_staleness_secs: u64,
    price: i128,
)
    requires
        price_verdict(reading, now, max_price_staleness_secs) == Ok::<i128, PriceError>(price),
    ensures
        reading is Some,
        reading->0.price == price,
        reading->0.timestamp <= now <= reading->0.timestamp + max_price_staleness_secs,
{
}

proof fn lemma_floor_div_times(x: int, d: int)
    requires
        0 <= x,
        0 < d,
    ensures
        0 <= x / d,
        (x / d) * d <= x,
{
    vstd::arithmetic::div_mod::lemma_fundamental_div_mod(x, d);
    vstd::arithmetic::div_mod::lemma_mod_pos_bound(x, d);
    vstd::arithmetic::div_mod::lemma_div_is_ordered(0, x, d);
    assert(d * (x / d) == (x / d) * d) by (nonlinear_arith);
}

/// Converting USD to tokens and back never yields more USD than was converted.
pub proof fn lemma_usd_round_trip_never_gains(usd: int, price: int, decimals: nat)
    requires
        usd >= 0,
        price > 0,
    ensures
        0 <= usd_value_of(token_amount_of(usd, price, decimals), price, decimals) <= usd,
{
    let scale = pow10(decimals);
    lemma_pow10_positive(decimals);
    if usd > 0 {
        assert(usd * scale >= 0) by (nonlinear_arith)
            requires
                usd > 0,
                scale >= 1,
        ;
        let amount = (usd * scale) / price;
        lemma_floor_div_times(usd * scale, price);
        if amount != 0 {
            assert(amount * price == price * amount) by (nonlinear_arith);
            assert(amount * price >= 0) by (nonlinear_arith)
                requires
                    amount >= 0,
                    price > 0,
            ;
            vstd::arithmetic::div_mod::lemma_div_is_ordered(amount * price, usd * scale, scale);
            vstd::arithmetic::div_mod::lemma_div_is_ordered(0, amount * price, scale);
            vstd::arithmetic::div_mod::lemma_div_by_multiple(usd, scale);
        }
    }
}

/// Converting tokens to USD and back never yields more tokens than were converted.
pub proof fn lemma_token_round_trip_never_gains(tokens: int, price: int, decimals: nat)
    requires
        tokens >= 0,
        price > 0,
    ensures
        0 <= token_amount_of(usd_value_of(tokens, price, decimals), price, decimals) <= tokens,
{
    let scale = pow10(decimals);
    lemma_pow10_positive(decimals);
    if tokens > 0 {
        assert(tokens * price >= 0) by (nonlinear_arith)
            requires
                tokens > 0,
                price > 0,
        ;
        let usd = (tokens * price) / scale;
        lemma_floor_div_times(tokens * price, scale);
        if usd != 0 {
            assert(usd * scale >= 0) by (nonlinear_arith)
                requires
                    usd >= 0,
                    scale > 0,
            ;
            vstd::arithmetic::div_mod::lemma_div_is_ordered(usd * scale, tokens * price, price);
            vstd::arithmetic::div_mod::lemma_div_is_ordered(0, usd * scale, price);
            vstd::arithmetic::div_mod::lemma_div_by_multiple(tokens, price);
        }
    }
}

/// More USD never buys fewer tokens, and a higher price never buys more tokens.
pub proof fn lemma_token_amount_monotone(
    usd1: int,
    usd2: int,
    price1: int,
    price2: int,
    decimals: nat,
)
    requires
        0 <= usd1 <= usd2,
        0 < price2 <= price1,
    ensures
        token_amount_of(usd1, price1, decimals) <= token_amount_of(usd2, price2, decimals),
{
    let scale = pow10(decimals);
    lemma_pow10_positive(decimals);
    assert(0 <= usd1 * scale <= usd2 * scale) by (nonlinear_arith)
        requires
            0 <= usd1 <= usd2,
            scale >= 1,
    ;
    vstd::arithmetic::div_mod::lemma_div_is_ordered(usd1 * scale, usd2 * scale, price1);
    vstd::arithmetic::div_mod::lemma_div_is_ordered_by_denominator(usd2 * scale, price2, price1);
    vstd::arithmetic::div_mod::lemma_div_is_ordered(0, usd2 * scale, price2);
}

/// More tokens are never worth less, and a higher price never makes them worth less.
pub proof fn lemma_usd_value_monotone(
    tokens1: int,
    tokens2: int,
    price1: int,
    price2: int,
    decimals: nat,
)
    requires
        0 <= tokens1 <= tokens2,
        0 < price1 <= price2,
    ensures
        usd_value_of(tokens1, price1, decimals) <= usd_value_of(tokens2, price2, decimals),
{
    let scale = pow10(decimals);
    lemma_pow10_positive(decimals);
    assert(0 <= tokens1 * price1 <= tokens2 * price2) by (nonlinear_arith)
        requires
            0 <= tokens1 <= tokens2,
            0 < price1 <= price2,
    ;
    vstd::arithmetic::div_mod::lemma_div_is_ordered(tokens1 * price1, tokens2 * price2, scale);
    vstd::arithmetic::div_mod::lemma_div_is_ordered(0, tokens2 * price2, scale);
}

/// The verdict on a reading, over every input: a missing reading is not
/// found, a reading stamped after `now` is from the future, a reading more than
/// `max_price_staleness_secs` old is too stale, and every other reading (from
/// its own timestamp up to that bound, inclusive) is accepted at its price.
pub proof fn lemma_price_verdict_decides(
    reading: Option<PriceData>,
    now: u64,
    max_price_staleness_secs: u64,
)
    ensures
        reading is None ==> price_verdict(reading, now, max_price_staleness_secs) == Err::<
            i128,
            PriceError,
        >(PriceError::NotFound),
        reading is Some && now < reading->0.timestamp ==> price_verdict(
            reading,
            now,
            max_price_staleness_secs,
        ) == Err::<i128, PriceError>(PriceError::FutureTimestamp),
        reading is Some && reading->0.timestamp + max_price_staleness_secs < now ==> price_verdict(
            reading,
            now,
            max_price_staleness_secs,
        ) == Err::<i128, PriceError>(PriceError::TooStale),
        reading is Some && reading->0.timestamp <= now <= reading->0.timestamp
            + max_price_staleness_secs ==> price_verdict(reading, now, max_price_staleness_secs)
            == Ok::<i128, PriceError>(reading->0.price),
{
}

/// `10^n` is fixed by `10^1 == 10` and `10^(a + b) == 10^a * 10^b`.
pub proof fn lemma_pow10_laws(a: nat, b: nat)
    ensures
        pow10(0) == 1,
        pow10(1) == 10,
        pow10(a + b) == pow10(a) * pow10(b),
    decreases a,
{
    if a > 0 {
        lemma_pow10_laws((a - 1) as nat, b);
        assert(pow10(a + b) == 10 * pow10((a - 1 + b) as nat));
        assert(10 * (pow10((a - 1) as nat) * pow10(b)) == (10 * pow10((a - 1) as nat)) * pow10(b))
            by (nonlinear_arith);
    }
}

/// The token amount is the largest whole amount whose price does not exceed
/// the USD value: `amount * price <= usd * 10^decimals < (amount + 1) * price`.
pub proof fn lemma_token_amount_is_floor(usd: int, price: int, decimals: nat)
    requires
        usd >= 0,
        price > 0,
    ensures
        token_amount_of(usd, price, decimals) * price <= usd * pow10(decimals) < (token_amount_of(
            usd,
            price,
            decimals,
        ) + 1) * price,
{
    let scale = pow10(decimals);
    lemma_pow10_positive(decimals);
    assert(usd * scale >= 0) by (nonlinear_arith)
        requires
            usd >= 0,
            scale >= 1,
    ;
    let x = usd * scale;
    vstd::arithmetic::div_mod::lemma_fundamental_div_mod(x, price);
    vstd::arithmetic::div_mod::lemma_mod_pos_bound(x, price);
    let q = x / price;
    assert(price * q == q * price) by (nonlinear_arith);
    assert((q + 1) * price == q * price + price) by (nonlinear_arith);
    if usd == 0 {
        assert(x == 0) by (nonlinear_arith)
            requires
                usd == 0,
                x == usd * scale,
        ;
    }
}

/// The USD value is the largest whole value not exceeding the tokens' worth:
/// `usd * 10^decimals <= tokens * price < (usd + 1) * 10^decimals`.
pub proof fn lemma_usd_value_is_floor(tokens: int, price: int, decimals: nat)
    requires
        tokens >= 0,
        price > 0,
    ensures
        usd_value_of(tokens, price, decimals) * pow10(decimals) <= tokens * price < (usd_value_of(
            tokens,
            price,
            decimals,
        ) + 1) * pow10(decimals),
{
    let scale = pow10(decimals);
    lemma_pow10_positive(decimals);
    assert(tokens * price >= 0) by (nonlinear_arith)
        requires
            tokens >= 0,
            price > 0,
    ;
    let x = tokens * price;
    vstd::arithmetic::div_mod::lemma_fundamental_div_mod(x, scale);
    vstd::arithmetic::div_mod::lemma_mod_pos_bound(x, scale);
    let q = x / scale;
    assert(scale * q == q * scale) by (nonlinear_arith);
    assert((q + 1) * scale == q * scale + scale) by (nonlinear_arith);
    if tokens == 0 {
        assert(x == 0) by (nonlinear_arith)
            requires
                tokens == 0,
                x == tokens * price,
        ;
    }
}

} // verus!
