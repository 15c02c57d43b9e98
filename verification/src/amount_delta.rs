use crate::decimals::{div_up, pow10, Liquidity, TokenAmount, DENOM12};
use crate::errors::ErrorCode;
use crate::pool::Pool;
use crate::u256::{div_rem_u128, mul_u128, radix128};
use vstd::prelude::*;

verus! {

/// The token amount moved when `delta` units of liquidity are spread over
/// `ticks` ticks of price distance: rounded up when the tokens are being
/// supplied (so the protocol is never under-paid), down when they are being
/// returned.
pub open spec fn amount_for_width(delta: nat, ticks: nat, round_up: bool) -> nat {
    if round_up {
        div_up(delta * ticks, pow10(12))
    } else {
        (delta * ticks) / pow10(12)
    }
}

/// The amount of asset X moved by a liquidity change on `[lower, upper)`
/// with the price at `current`: X moves over the part of the range above the
/// price.
pub open spec fn amount_x_spec(
    delta: nat,
    lower: int,
    upper: int,
    current: int,
    round_up: bool,
) -> nat {
    if current < lower {
        amount_for_width(delta, (upper - lower) as nat, round_up)
    } else if current < upper {
        amount_for_width(delta, (upper - current) as nat, round_up)
    } else {
        0
    }
}

/// The amount of asset Y moved by a liquidity change on `[lower, upper)`
/// with the price at `current`: Y moves over the part of the range below the
/// price.
pub open spec fn amount_y_spec(
    delta: nat,
    lower: int,
    upper: int,
    current: int,
    round_up: bool,
) -> nat {
    if current < lower {
        0
    } else if current < upper {
        amount_for_width(delta, (current - lower) as nat, round_up)
    } else {
        amount_for_width(delta, (upper - lower) as nat, round_up)
    }
}

/// Converts a liquidity magnitude spread over a tick width into a token
/// amount; `None` when it does not fit the 64-bit token width.
fn amount_for(delta: Liquidity, ticks: u32, round_up: bool) -> (r: Option<TokenAmount>)
    ensures
        match r {
            Some(t) => t.0 as nat == amount_for_width(delta.v as nat, ticks as nat, round_up),
            None => amount_for_width(delta.v as nat, ticks as nat, round_up) > u64::MAX,
        },
{
    proof {
        crate::decimals::lemma_pow10_vals();
    }
    let prod = mul_u128(delta.v, ticks as u128);
    let (q, rem) = div_rem_u128(prod, DENOM12);
    if q.hi != 0 {
        proof {
            vstd::arithmetic::mul::lemma_mul_inequality(1, q.hi as int, radix128() as int);
        }
        return None;
    }
    let mut v: u128 = q.lo;
    if round_up && rem != 0 {
        if v >= u64::MAX as u128 {
            return None;
        }
        v = v + 1;
    }
    if v > u64::MAX as u128 {
        None
    } else {
        Some(TokenAmount(v as u64))
    }
}

/// A zero liquidity change moves no tokens, whatever the width and
/// rounding.
pub proof fn lemma_amount_for_width_zero(ticks: nat, round_up: bool)
    ensures
        amount_for_width(0, ticks, round_up) == 0,
{
    crate::decimals::lemma_pow10_vals();
    assert(0nat * ticks == 0) by (nonlinear_arith);
}

/// A zero liquidity change moves no tokens on either asset, wherever the
/// current tick sits.
pub proof fn lemma_amounts_zero(lower: int, upper: int, current: int, round_up: bool)
    ensures
        amount_x_spec(0, lower, upper, current, round_up) == 0,
        amount_y_spec(0, lower, upper, current, round_up) == 0,
{
    lemma_amount_for_width_zero((upper - lower) as nat, round_up);
    lemma_amount_for_width_zero((upper - current) as nat, round_up);
    lemma_amount_for_width_zero((current - lower) as nat, round_up);
}

/// Whether the pool's in-range liquidity can absorb the change when the
/// range straddles the active tick.
pub open spec fn pool_liquidity_ok(pool: Pool, delta: nat, add: bool, inside: bool) -> bool {
    !inside || (if add {
        pool.liquidity.v + delta <= u128::MAX
    } else {
        pool.liquidity.v >= delta
    })
}

/// The pool after a liquidity change: its in-range liquidity moves only when
/// the range straddles the active tick.
pub open spec fn pool_after_amount_delta(pool: Pool, delta: nat, add: bool, inside: bool) -> Pool {
    if inside {
        Pool {
            liquidity: Liquidity {
                v: (if add {
                    pool.liquidity.v + delta
                } else {
                    pool.liquidity.v - delta
                }) as u128,
            },
            ..pool
        }
    } else {
        pool
    }
}

/// Computes the exact token amounts of each asset a signed liquidity change
/// on `[lower, upper)` must be supplied with (on increase) or returns (on
/// decrease), and moves the pool's in-range liquidity when the range
/// straddles the active tick. On any failure the pool is left exactly as it
/// was.
pub fn calculate_amount_delta(
    pool: &mut Pool,
    liquidity_delta: Liquidity,
    add: bool,
    upper_tick_index: i32,
    lower_tick_index: i32,
) -> (r: Result<(TokenAmount, TokenAmount), ErrorCode>)
    requires
        lower_tick_index < upper_tick_index,
    ensures
        ({
            let d = liquidity_delta.v as nat;
            let lower = lower_tick_index as int;
            let upper = upper_tick_index as int;
            let current = old(pool).current_tick_index as int;
            let inside = lower <= current < upper;
            let ax = amount_x_spec(d, lower, upper, current, add);
            let ay = amount_y_spec(d, lower, upper, current, add);
            let liq_ok = pool_liquidity_ok(*old(pool), d, add, inside);
            match r {
                Ok(amounts) => {
                    &&& ax <= u64::MAX
                    &&& ay <= u64::MAX
                    &&& liq_ok
                    &&& amounts.0.0 as nat == ax
                    &&& amounts.1.0 as nat == ay
                    &&& *final(pool) == pool_after_amount_delta(*old(pool), d, add, inside)
                },
                Err(e) => {
                    &&& !(ax <= u64::MAX && ay <= u64::MAX && liq_ok)
                    &&& *final(pool) == *old(pool)
                    &&& (e == ErrorCode::Underflow <==> (ax <= u64::MAX && ay <= u64::MAX && inside
                        && !add && old(pool).liquidity.v < d))
                    &&& (e == ErrorCode::Overflow <==> !(ax <= u64::MAX && ay <= u64::MAX && inside
                        && !add && old(pool).liquidity.v < d))
                },
            }
        }),
{
    let current = pool.current_tick_index;
    let amount_x: TokenAmount;
    let amount_y: TokenAmount;
    let inside: bool;
    if current < lower_tick_index {
        inside = false;
        amount_x = match amount_for(liquidity_delta, ((upper_tick_index as i64) - (lower_tick_index as i64)) as u32, add) {
            Some(t) => t,
            None => {
                return Err(ErrorCode::Overflow);
            },
        };
        amount_y = TokenAmount(0);
    } else if current < upper_tick_index {
        inside = true;
        amount_x = match amount_for(liquidity_delta, ((upper_tick_index as i64) - (current as i64)) as u32, add) {
            Some(t) => t,
            None => {
                return Err(ErrorCode::Overflow);
            },
        };
        amount_y = match amount_for(liquidity_delta, ((current as i64) - (lower_tick_index as i64)) as u32, add) {
            Some(t) => t,
            None => {
                return Err(ErrorCode::Overflow);
            },
        };
    } else {
        inside = false;
        amount_x = TokenAmount(0);
        amount_y = match amount_for(liquidity_delta, ((upper_tick_index as i64) - (lower_tick_index as i64)) as u32, add) {
            Some(t) => t,
            None => {
                return Err(ErrorCode::Overflow);
            },
        };
    }
    if inside {
        if add {
            match pool.liquidity.checked_add(liquidity_delta) {
                Some(l) => {
                    pool.liquidity = l;
                },
                None => {
                    return Err(ErrorCode::Overflow);
                },
            }
        } else {
            match pool.liquidity.checked_sub(liquidity_delta) {
                Some(l) => {
                    pool.liquidity = l;
                },
                None => {
                    return Err(ErrorCode::Underflow);
                },
            }
        }
    }
    Ok((amount_x, amount_y))
}

} // verus!
