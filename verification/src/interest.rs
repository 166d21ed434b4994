//! Per-month interest accrual schedule with partial-month proration.
//!
//! Loans are priced on a per-month schedule (basis points per 30-day month)
//! rather than a flat APR, so longer loans are progressively more expensive.
//! The last entry in the schedule repeats for any month beyond its length.
use vstd::prelude::*;

use crate::host::{host_u32_items, host_vec_is_empty, host_vec_len, host_vec_try_get};
use crate::types::Position;

verus! {

/// Seconds in one day (24h).
const SECONDS_PER_DAY: u64 = 86_400;

/// Days in one month for the accrual schedule.
const DAYS_PER_MONTH: u64 = 30;

/// One basis point denominator (10_000 bps = 100%).
const BPS_DENOMINATOR: i128 = 10_000;

/// Integer division rounding toward zero (the rounding of `/` on signed integers), for `d > 0`.
pub open spec fn div_toward_zero(a: int, d: int) -> int {
    if a >= 0 {
        a / d
    } else {
        -((-a) / d)
    }
}

/// Whether `x` is representable as an `i128`.
pub open spec fn fits_i128(x: int) -> bool {
    i128::MIN <= x <= i128::MAX
}

/// The rate (bps) in effect during month `month` (0-based); the last entry repeats.
pub open spec fn rate_for_month(schedule: Seq<u32>, month: int) -> int {
    if month >= schedule.len() - 1 {
        schedule.last() as int
    } else {
        schedule[month] as int
    }
}

/// Interest of one full month at `rate` bps on `price`.
pub open spec fn month_interest(price: int, rate: int) -> int {
    div_toward_zero(price * rate, 10_000)
}

/// Interest of the first `months` full months.
pub open spec fn full_months_interest(price: int, schedule: Seq<u32>, months: nat) -> int
    decreases months,
{
    if months == 0 {
        0
    } else {
        full_months_interest(price, schedule, (months - 1) as nat) + month_interest(
            price,
            rate_for_month(schedule, months - 1),
        )
    }
}

/// Interest of `days` days (out of 30) of a month at `rate` bps.
pub open spec fn prorated_interest(price: int, rate: int, days: int) -> int {
    div_toward_zero(month_interest(price, rate) * days, 30)
}

/// Interest accrued after `days` whole elapsed days.
pub open spec fn interest_after_days(price: int, schedule: Seq<u32>, days: nat) -> int {
    let months = days / 30;
    full_months_interest(price, schedule, months) + prorated_interest(
        price,
        rate_for_month(schedule, months as int),
        (days % 30) as int,
    )
}

/// Whole days elapsed between `start` and `now` (when `now > start`).
pub open spec fn elapsed_days(start: u64, now: u64) -> nat {
    ((now - start) / 86_400) as nat
}

/// Interest (USD) accrued at `now` on `price` under `schedule` for a loan started at `start`.
pub open spec fn accrued_interest(price: int, schedule: Seq<u32>, start: u64, now: u64) -> int {
    if now <= start {
        0
    } else {
        interest_after_days(price, schedule, elapsed_days(start, now))
    }
}

/// Every step of the first `months` full months stays within `i128`.
pub open spec fn full_months_fit(price: int, schedule: Seq<u32>, months: nat) -> bool
    decreases months,
{
    months == 0 || {
        &&& full_months_fit(price, schedule, (months - 1) as nat)
        &&& fits_i128(price * rate_for_month(schedule, months - 1))
        &&& fits_i128(full_months_interest(price, schedule, months))
    }
}

/// The rates of a schedule read from the host: the `u32` at each position, or
/// 0 where the stored value is not a `u32` (such a position is never read by a
/// defined accrual, see `rates_present`).
pub open spec fn schedule_rates(items: Seq<Option<u32>>) -> Seq<u32> {
    items.map_values(
        |item: Option<u32>|
            match item {
                Some(rate) => rate,
                None => 0u32,
            },
    )
}

/// Every position of the schedule up to `upto` (and within its length) holds a `u32`.
pub open spec fn rates_present(items: Seq<Option<u32>>, upto: int) -> bool {
    forall|j: int| 0 <= j <= upto && j < items.len() ==> #[trigger] items[j] is Some
}

/// The accrual at `now` is defined: either nothing has elapsed, or the schedule
/// is non-empty, every position it reads (the months elapsed so far, capped at
/// the last entry) holds a `u32`, and every intermediate value fits in `i128`.
pub open spec fn accrual_defined(price: int, items: Seq<Option<u32>>, start: u64, now: u64) -> bool {
    now <= start || {
        let schedule = schedule_rates(items);
        let days = elapsed_days(start, now);
        let months = days / 30;
        let rate = rate_for_month(schedule, months as int);
        &&& items.len() > 0
        &&& rates_present(items, months as int)
        &&& full_months_fit(price, schedule, months)
        &&& fits_i128(price * rate)
        &&& fits_i128(month_interest(price, rate) * (days % 30))
        &&& fits_i128(accrued_interest(price, schedule, start, now))
    }
}

proof fn lemma_full_months_fit_prefix(price: int, schedule: Seq<u32>, m: nat, n: nat)
    requires
        m <= n,
        full_months_fit(price, schedule, n),
    ensures
        full_months_fit(price, schedule, m),
    decreases n,
{
    if m < n {
        lemma_full_months_fit_prefix(price, schedule, m, (n - 1) as nat);
    }
}

proof fn lemma_month_interest_nonnegative(price: int, rate: int)
    requires
        price >= 0,
        rate >= 0,
    ensures
        month_interest(price, rate) >= 0,
{
    assert(price * rate >= 0) by (nonlinear_arith)
        requires
            price >= 0,
            rate >= 0,
    ;
}

/// For a non-negative monthly amount, proration grows with the days of the
/// month and never exceeds the full month.
proof fn lemma_prorated_step(price: int, rate: int, days: int)
    requires
        price >= 0,
        rate >= 0,
        0 <= days < 30,
    ensures
        0 <= prorated_interest(price, rate, days),
        prorated_interest(price, rate, days) <= prorated_interest(price, rate, days + 1),
        prorated_interest(price, rate, days) <= month_interest(price, rate),
{
    let q = month_interest(price, rate);
    lemma_month_interest_nonnegative(price, rate);
    assert(0 <= q * days <= q * (days + 1) <= q * 30) by (nonlinear_arith)
        requires
            q >= 0,
            0 <= days < 30,
    ;
    vstd::arithmetic::div_mod::lemma_div_is_ordered(q * days, q * (days + 1), 30);
    vstd::arithmetic::div_mod::lemma_div_is_ordered(q * days, q * 30, 30);
    vstd::arithmetic::div_mod::lemma_div_is_ordered(0, q * days, 30);
    assert((q * 30) / 30 == q) by (nonlinear_arith);
}

proof fn lemma_interest_after_days_step(price: int, schedule: Seq<u32>, days: nat)
    requires
        price >= 0,
    ensures
        interest_after_days(price, schedule, days) <= interest_after_days(
            price,
            schedule,
            days + 1,
        ),
{
    let m = days / 30;
    let r = rate_for_month(schedule, m as int);
    lemma_prorated_step(price, r, (days % 30) as int);
    if (days + 1) % 30 == 0 {
        assert((days + 1) / 30 == m + 1);
        assert(days % 30 == 29);
        assert(prorated_interest(price, rate_for_month(schedule, (m + 1) as int), 0) == 0);
    } else {
        assert((days + 1) / 30 == m);
        assert((days + 1) % 30 == days % 30 + 1);
    }
}

proof fn lemma_interest_after_days_monotone(price: int, schedule: Seq<u32>, d1: nat, d2: nat)
    requires
        price >= 0,
        d1 <= d2,
    ensures
        interest_after_days(price, schedule, d1) <= interest_after_days(price, schedule, d2),
    decreases d2 - d1,
{
    if d1 < d2 {
        lemma_interest_after_days_step(price, schedule, d1);
        lemma_interest_after_days_monotone(price, schedule, d1 + 1, d2);
    }
}

/// Longer loans are never cheaper: for a non-negative declared price, the
/// accrued interest never decreases as time advances.
pub proof fn lemma_accrued_interest_monotone(
    price: int,
    schedule: Seq<u32>,
    start: u64,
    now1: u64,
    now2: u64,
)
    requires
        price >= 0,
        now1 <= now2,
    ensures
        accrued_interest(price, schedule, start, now1) <= accrued_interest(
            price,
            schedule,
            start,
            now2,
        ),
{
    if now2 > start {
        if now1 > start {
            vstd::arithmetic::div_mod::lemma_div_is_ordered(
                now1 - start,
                now2 - start,
                86_400,
            );
            lemma_interest_after_days_monotone(
                price,
                schedule,
                elapsed_days(start, now1),
                elapsed_days(start, now2),
            );
        } else {
            assert(interest_after_days(price, schedule, 0) == 0);
            lemma_interest_after_days_monotone(price, schedule, 0, elapsed_days(start, now2));
        }
    }
}

/// Interest on a non-negative declared price is never negative.
pub proof fn lemma_accrued_interest_nonnegative(
    price: int,
    schedule: Seq<u32>,
    start: u64,
    now: u64,
)
    requires
        price >= 0,
    ensures
        accrued_interest(price, schedule, start, now) >= 0,
{
    lemma_accrued_interest_monotone(price, schedule, start, 0, now);
}

/// Interest accrues by whole elapsed days: two instants in the same elapsed
/// day give the same interest.
pub proof fn lemma_accrued_interest_daily(
    price: int,
    schedule: Seq<u32>,
    start: u64,
    now1: u64,
    now2: u64,
)
    requires
        now1 > start,
        now2 > start,
        (now1 - start) / 86_400 == (now2 - start) / 86_400,
    ensures
        accrued_interest(price, schedule, start, now1) == accrued_interest(
            price,
            schedule,
            start,
            now2,
        ),
{
}

/// The last entry of the schedule repeats: every full month from the end of
/// the schedule on adds the interest of the last rate.
pub proof fn lemma_last_rate_repeats(price: int, schedule: Seq<u32>, months: nat)
    requires
        schedule.len() > 0,
        months >= schedule.len() - 1,
    ensures
        full_months_interest(price, schedule, months + 1) == full_months_interest(
            price,
            schedule,
            months,
        ) + month_interest(price, schedule.last() as int),
{
}

/// `q` is `x / d` rounded toward zero (for `d > 0`), stated by the bounds it meets.
pub open spec fn is_quotient_toward_zero(q: int, x: int, d: int) -> bool {
    if x >= 0 {
        q * d <= x < (q + 1) * d
    } else {
        (q - 1) * d < x <= q * d
    }
}

proof fn lemma_div_toward_zero_bounds(x: int, d: int)
    requires
        d > 0,
    ensures
        is_quotient_toward_zero(div_toward_zero(x, d), x, d),
{
    let y = if x >= 0 {
        x
    } else {
        -x
    };
    vstd::arithmetic::div_mod::lemma_fundamental_div_mod(y, d);
    vstd::arithmetic::div_mod::lemma_mod_pos_bound(y, d);
    let k = y / d;
    assert(d * k == k * d) by (nonlinear_arith);
    assert((k + 1) * d == k * d + d) by (nonlinear_arith);
    assert((-k - 1) * d == -(k * d) - d) by (nonlinear_arith);
    assert((-k) * d == -(k * d)) by (nonlinear_arith);
}

proof fn lemma_elapsed_whole_days(start: u64, days: nat)
    requires
        start + 86_400 * days <= u64::MAX,
    ensures
        ((start + 86_400 * days) as u64 <= start) <==> days == 0,
        days > 0 ==> elapsed_days(start, (start + 86_400 * days) as u64) == days,
{
    assert(86_400 * days >= 0) by (nonlinear_arith);
    if days > 0 {
        assert(86_400 * days >= 86_400) by (nonlinear_arith)
            requires
                days > 0,
        ;
        vstd::arithmetic::div_mod::lemma_div_by_multiple(days as int, 86_400);
        assert(86_400 * days == days * 86_400) by (nonlinear_arith);
    }
}

/// The spec of the accrual at `30 * months + days` whole days after the start.
proof fn lemma_accrued_at_day(price: int, schedule: Seq<u32>, start: u64, months: nat, days: nat)
    requires
        days < 30,
        start + 86_400 * (30 * months + days) <= u64::MAX,
    ensures
        accrued_interest(price, schedule, start, (start + 86_400 * (30 * months + days)) as u64)
            == full_months_interest(price, schedule, months) + prorated_interest(
            price,
            rate_for_month(schedule, months as int),
            days as int,
        ),
{
    let total: nat = 30 * months + days;
    lemma_elapsed_whole_days(start, total);
    assert(total / 30 == months && total % 30 == days) by {
        vstd::arithmetic::div_mod::lemma_fundamental_div_mod_converse(
            total as int,
            30,
            months as int,
            days as int,
        );
    }
    assert(div_toward_zero(month_interest(price, rate_for_month(schedule, months as int)) * 0, 30)
        == 0);
    if total == 0 {
        assert(months == 0 && days == 0);
    }
}

/// A full month before the last schedule entry is billed at its own tier:
/// from the start of month `month` to the start of month `month + 1` the
/// accrual grows by `price * schedule[month] / 10_000`, rounded toward zero.
pub proof fn lemma_month_bills_its_own_tier(price: int, schedule: Seq<u32>, start: u64, month: nat)
    requires
        month + 1 < schedule.len(),
        start + 86_400 * (30 * (month + 1)) <= u64::MAX,
    ensures
        is_quotient_toward_zero(
            accrued_interest(price, schedule, start, (start + 86_400 * (30 * (month + 1)))
                as u64) - accrued_interest(
                price,
                schedule,
                start,
                (start + 86_400 * (30 * month)) as u64,
            ),
            price * schedule[month as int],
            10_000,
        ),
{
    lemma_accrued_at_day(price, schedule, start, month + 1, 0);
    lemma_accrued_at_day(price, schedule, start, month, 0);
    assert(30 * month + 0 == 30 * month);
    assert(30 * (month + 1) + 0 == 30 * (month + 1));
    lemma_div_toward_zero_bounds(price * schedule[month as int], 10_000);
}

/// Every full month from the last schedule entry on is billed at the last
/// entry: the accrual grows by `price * schedule.last() / 10_000`, rounded
/// toward zero.
pub proof fn lemma_month_past_schedule_bills_last_tier(
    price: int,
    schedule: Seq<u32>,
    start: u64,
    month: nat,
)
    requires
        schedule.len() > 0,
        month + 1 >= schedule.len(),
        start + 86_400 * (30 * (month + 1)) <= u64::MAX,
    ensures
        is_quotient_toward_zero(
            accrued_interest(price, schedule, start, (start + 86_400 * (30 * (month + 1)))
                as u64) - accrued_interest(
                price,
                schedule,
                start,
                (start + 86_400 * (30 * month)) as u64,
            ),
            price * schedule[schedule.len() - 1],
            10_000,
        ),
{
    lemma_accrued_at_day(price, schedule, start, month + 1, 0);
    lemma_accrued_at_day(price, schedule, start, month, 0);
    assert(30 * month + 0 == 30 * month);
    assert(30 * (month + 1) + 0 == 30 * (month + 1));
    lemma_div_toward_zero_bounds(price * schedule[schedule.len() - 1], 10_000);
}

/// A partial month is the month's full interest prorated by whole days: `days`
/// days into month `month` the accrual exceeds that at the month's start by
/// `full * days / 30`, rounded toward zero, where `full` is what the whole month
/// adds.
pub proof fn lemma_partial_month_is_prorated(
    price: int,
    schedule: Seq<u32>,
    start: u64,
    month: nat,
    days: nat,
)
    requires
        days < 30,
        start + 86_400 * (30 * (month + 1)) <= u64::MAX,
    ensures
        ({
            let at_start = accrued_interest(
                price,
                schedule,
                start,
                (start + 86_400 * (30 * month)) as u64,
            );
            let full = accrued_interest(
                price,
                schedule,
                start,
                (start + 86_400 * (30 * (month + 1))) as u64,
            ) - at_start;
            let part = accrued_interest(
                price,
                schedule,
                start,
                (start + 86_400 * (30 * month + days)) as u64,
            ) - at_start;
            is_quotient_toward_zero(part, full * days, 30)
        }),
{
    lemma_accrued_at_day(price, schedule, start, month + 1, 0);
    lemma_accrued_at_day(price, schedule, start, month, 0);
    lemma_accrued_at_day(price, schedule, start, month, days);
    assert(30 * month + 0 == 30 * month);
    assert(30 * (month + 1) + 0 == 30 * (month + 1));
    let full = month_interest(price, rate_for_month(schedule, month as int));
    lemma_div_toward_zero_bounds(full * days, 30);
}

/// The rates the accrual uses are the schedule's stored `u32`s, position by position.
pub proof fn lemma_schedule_rates_are_the_items(items: Seq<Option<u32>>)
    ensures
        schedule_rates(items).len() == items.len(),
        forall|j: int|
            0 <= j < items.len() && #[trigger] items[j] is Some ==> schedule_rates(items)[j]
                == items[j]->0,
{
}

/// A defined accrual never reads a position that does not hold a `u32`: every
/// position from the first month to the current one (capped at the last entry)
/// holds one, and the schedule is not empty.
pub proof fn lemma_defined_accrual_reads_only_rates(
    price: int,
    items: Seq<Option<u32>>,
    start: u64,
    now: u64,
)
    requires
        now > start,
        accrual_defined(price, items, start, now),
    ensures
        items.len() > 0,
        forall|j: int|
            0 <= j < items.len() && j <= ((now - start) / 86_400) / 30 ==> #[trigger] items[j]
                is Some,
{
}

proof fn lemma_full_months_bounded(price: int, schedule: Seq<u32>, months: nat)
    requires
        price >= 0,
        months * (price * 4_294_967_295) <= i128::MAX,
    ensures
        0 <= full_months_interest(price, schedule, months) <= months * (price * 4_294_967_295),
        full_months_fit(price, schedule, months),
    decreases months,
{
    let bound = price * 4_294_967_295;
    assert(bound >= 0) by (nonlinear_arith)
        requires
            price >= 0,
            bound == price * 4_294_967_295,
    ;
    if months > 0 {
        let m1 = (months - 1) as nat;
        assert(m1 * bound <= months * bound) by (nonlinear_arith)
            requires
                bound >= 0,
                m1 + 1 == months,
        ;
        lemma_full_months_bounded(price, schedule, m1);
        let rate = rate_for_month(schedule, months - 1);
        assert(0 <= rate <= 4_294_967_295);
        assert(0 <= price * rate <= bound) by (nonlinear_arith)
            requires
                price >= 0,
                0 <= rate <= 4_294_967_295,
                bound == price * 4_294_967_295,
        ;
        assert(0 <= month_interest(price, rate) <= price * rate) by {
            vstd::arithmetic::div_mod::lemma_div_is_ordered(0, price * rate, 10_000);
            vstd::arithmetic::div_mod::lemma_div_is_ordered_by_denominator(price * rate, 1, 10_000);
        }
        assert(months * bound == m1 * bound + bound) by (nonlinear_arith)
            requires
                m1 + 1 == months,
        ;
        assert(bound <= months * bound) by (nonlinear_arith)
            requires
                bound >= 0,
                months >= 1,
        ;
    }
}

/// The accrual is defined whenever the schedule holds only `u32`s and the
/// declared price is small enough that even the highest possible rate cannot
/// overflow: `price * u32::MAX * (elapsed days + 30) <= i128::MAX`.
pub proof fn lemma_small_accrual_is_defined(
    price: int,
    items: Seq<Option<u32>>,
    start: u64,
    now: u64,
)
    requires
        price >= 0,
        items.len() > 0,
        forall|j: int| 0 <= j < items.len() ==> #[trigger] items[j] is Some,
        price * 4_294_967_295 * ((now - start) / 86_400 + 30) <= i128::MAX,
    ensures
        accrual_defined(price, items, start, now),
{
    if now > start {
        let schedule = schedule_rates(items);
        let days = elapsed_days(start, now);
        let months = days / 30;
        let partial = days % 30;
        let bound = price * 4_294_967_295;
        assert(bound >= 0) by (nonlinear_arith)
            requires
                price >= 0,
                bound == price * 4_294_967_295,
        ;
        assert(months <= days);
        assert(bound * (days + 30) == (days + 30) * bound) by (nonlinear_arith);
        assert((months + 30) * bound <= (days + 30) * bound) by (nonlinear_arith)
            requires
                months <= days,
                bound >= 0,
        ;
        assert(months * bound + 30 * bound == (months + 30) * bound) by (nonlinear_arith);
        assert(0 <= 30 * bound) by (nonlinear_arith)
            requires
                bound >= 0,
        ;
        lemma_full_months_bounded(price, schedule, months);
        let rate = rate_for_month(schedule, months as int);
        assert(0 <= rate <= 4_294_967_295);
        assert(0 <= price * rate <= bound) by (nonlinear_arith)
            requires
                price >= 0,
                0 <= rate <= 4_294_967_295,
                bound == price * 4_294_967_295,
        ;
        let q = month_interest(price, rate);
        assert(0 <= q <= price * rate) by {
            vstd::arithmetic::div_mod::lemma_div_is_ordered(0, price * rate, 10_000);
            vstd::arithmetic::div_mod::lemma_div_is_ordered_by_denominator(price * rate, 1, 10_000);
        }
        assert(0 <= q * partial <= 30 * bound) by (nonlinear_arith)
            requires
                0 <= q <= bound,
                0 <= partial < 30,
        ;
        let pr = prorated_interest(price, rate, partial as int);
        assert(0 <= pr <= q * partial) by {
            vstd::arithmetic::div_mod::lemma_div_is_ordered(0, q * partial, 30);
            vstd::arithmetic::div_mod::lemma_div_is_ordered_by_denominator(q * partial, 1, 30);
        }
        assert forall|j: int| 0 <= j <= months && j < items.len() implies #[trigger] items[j]
            is Some by {}
    }
}

/// Nothing accrues at or before the start of the loan, nor within its first day.
pub proof fn lemma_nothing_accrues_in_first_day(price: int, schedule: Seq<u32>, start: u64, now: u64)
    requires
        now < start + 86_400,
    ensures
        accrued_interest(price, schedule, start, now) == 0,
{
    if now > start {
        assert(elapsed_days(start, now) == 0);
        assert(div_toward_zero(month_interest(price, rate_for_month(schedule, 0)) * 0, 30) == 0);
    }
}

/// Runs the accrual with every step checked: the accrued interest if it is
/// defined (see `accrual_defined`), else `None`.
fn accrual_checked(position: &Position, now: u64) -> (interest: Option<i128>)
    ensures
        interest == (if accrual_defined(
            position.declared_price_usd as int,
            host_u32_items(position.interest_schedule_bps),
            position.start_time,
            now,
        ) {
            Some(
                accrued_interest(
                    position.declared_price_usd as int,
                    schedule_rates(host_u32_items(position.interest_schedule_bps)),
                    position.start_time,
                    now,
                ) as i128,
            )
        } else {
            None::<i128>
        }),
{
    if now <= position.start_time {
        return Some(0);
    }
    let schedule = &position.interest_schedule_bps;
    let ghost items = host_u32_items(*schedule);
    let ghost rates = schedule_rates(items);
    if host_vec_is_empty(schedule) {
        return None;
    }
    let days = (now - position.start_time) / SECONDS_PER_DAY;
    let full_months = days / DAYS_PER_MONTH;
    let partial_days = days % DAYS_PER_MONTH;

    let price = position.declared_price_usd;
    let len = host_vec_len(schedule);
    let last = len - 1;
    let ghost p = price as int;

    // Full months: the rate for month `m` repeats the final entry
    // once the schedule length is exhausted.
    let mut total: i128 = 0;
    let mut month: u64 = 0;
    while month < full_months
        invariant
            items == host_u32_items(position.interest_schedule_bps),
            rates == schedule_rates(items),
            rates.len() == items.len(),
            schedule == &position.interest_schedule_bps,
            price == position.declared_price_usd,
            now > position.start_time,
            full_months as nat == elapsed_days(position.start_time, now) / 30,
            len == items.len(),
            len > 0,
            last == len - 1,
            p == price,
            month <= full_months,
            rates_present(items, month as int - 1),
            full_months_fit(p, rates, month as nat),
            total == full_months_interest(p, rates, month as nat),
        decreases full_months - month,
    {
        let idx = if month >= last as u64 {
            last
        } else {
            month as u32
        };
        let rate = match host_vec_try_get(schedule, idx) {
            Ok(Some(rate)) => rate,
            _ => {
                // The stored value at `idx` is not a `u32`.
                return None;
            },
        };
        assert(rate == rate_for_month(rates, month as int));
        let product = match price.checked_mul(rate as i128) {
            Some(v) => v,
            None => {
                proof {
                    if accrual_defined(p, items, position.start_time, now) {
                        lemma_full_months_fit_prefix(p, rates, (month + 1) as nat, full_months as nat);
                    }
                }
                return None;
            },
        };
        let term = product / BPS_DENOMINATOR;
        total = match total.checked_add(term) {
            Some(v) => v,
            None => {
                proof {
                    if accrual_defined(p, items, position.start_time, now) {
                        lemma_full_months_fit_prefix(p, rates, (month + 1) as nat, full_months as nat);
                    }
                }
                return None;
            },
        };
        month = month + 1;
    }

    // Partial month: prorate the rate in effect during the partial
    // month by the fraction of the month that has elapsed.
    let partial_idx = if full_months >= last as u64 {
        last
    } else {
        full_months as u32
    };
    let partial_rate = match host_vec_try_get(schedule, partial_idx) {
        Ok(Some(rate)) => rate,
        _ => {
            // The stored value at `partial_idx` is not a `u32`.
            return None;
        },
    };
    assert(partial_rate == rate_for_month(rates, full_months as int));
    let product = match price.checked_mul(partial_rate as i128) {
        Some(v) => v,
        None => return None,
    };
    let monthly = product / BPS_DENOMINATOR;
    let scaled = match monthly.checked_mul(partial_days as i128) {
        Some(v) => v,
        None => return None,
    };
    let prorated = scaled / (DAYS_PER_MONTH as i128);
    total.checked_add(prorated)
}

/// Compute the accrued interest in USD for a position at `now`.
///
/// Returns 0 if `now` is at or before the position start time. Once time has
/// elapsed, the schedule must not be empty, the rates read must be `u32`s, and
/// every step must fit in `i128` (`accrual_defined`);
/// `checked_accrued_interest_usd` answers on every input.
pub fn accrued_interest_usd(position: &Position, now: u64) -> (interest: i128)
    requires
        accrual_defined(
            position.declared_price_usd as int,
            host_u32_items(position.interest_schedule_bps),
            position.start_time,
            now,
        ),
    ensures
        interest == accrued_interest(
            position.declared_price_usd as int,
            schedule_rates(host_u32_items(position.interest_schedule_bps)),
            position.start_time,
            now,
        ),
        now <= position.start_time ==> interest == 0,
{
    accrual_checked(position, now).unwrap()
}

/// The accrued interest where `accrued_interest_usd` is defined on these
/// inputs (see `accrual_defined`), else `None`: `None` when time has elapsed on
/// an empty schedule, when a rate it reads is not a `u32`, or when some step of
/// the computation would leave `i128`.
pub fn checked_accrued_interest_usd(position: &Position, now: u64) -> (interest: Option<i128>)
    ensures
        interest == (if accrual_defined(
            position.declared_price_usd as int,
            host_u32_items(position.interest_schedule_bps),
            position.start_time,
            now,
        ) {
            Some(
                accrued_interest(
                    position.declared_price_usd as int,
                    schedule_rates(host_u32_items(position.interest_schedule_bps)),
                    position.start_time,
                    now,
                ) as i128,
            )
        } else {
            None::<i128>
        }),
{
    if accrual_checked(position, now).is_some() {
        Some(accrued_interest_usd(position, now))
    } else {
        None
    }
}

} // verus!
