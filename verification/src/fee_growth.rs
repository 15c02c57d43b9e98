use crate::decimals::{wrapped_diff, FeeGrowth};
use crate::tick::Tick;
use crate::u256::radix128;
use vstd::prelude::*;

verus! {

/// The fee growth accrued inside a range, for one asset, from the global
/// counter and the two boundary ticks' outside counters. All subtraction is
/// modular: the counters wrap at the maximum magnitude by design, so a
/// "negative" intermediate is the correct accrued amount once wrapped.
pub open spec fn fee_growth_inside_one(
    lower_index: int,
    lower_outside: nat,
    upper_index: int,
    upper_outside: nat,
    current_tick_index: int,
    global: nat,
) -> nat {
    let below = if current_tick_index >= lower_index {
        lower_outside
    } else {
        wrapped_diff(global, lower_outside)
    };
    let above = if current_tick_index < upper_index {
        upper_outside
    } else {
        wrapped_diff(global, upper_outside)
    };
    wrapped_diff(wrapped_diff(global, below), above)
}

/// Converts the global, monotonically growing fee counters into the fee
/// growth accrued strictly inside `[lower, upper)`, for both assets. Total:
/// no input is rejected.
pub fn calculate_fee_growth_inside(
    lower_tick: Tick,
    upper_tick: Tick,
    current_tick_index: i32,
    fee_growth_global_x: FeeGrowth,
    fee_growth_global_y: FeeGrowth,
) -> (r: (FeeGrowth, FeeGrowth))
    ensures
        r.0.v as nat == fee_growth_inside_one(
            lower_tick.index as int,
            lower_tick.fee_growth_outside_x.v as nat,
            upper_tick.index as int,
            upper_tick.fee_growth_outside_x.v as nat,
            current_tick_index as int,
            fee_growth_global_x.v as nat,
        ),
        r.1.v as nat == fee_growth_inside_one(
            lower_tick.index as int,
            lower_tick.fee_growth_outside_y.v as nat,
            upper_tick.index as int,
            upper_tick.fee_growth_outside_y.v as nat,
            current_tick_index as int,
            fee_growth_global_y.v as nat,
        ),
{
    let current_above_lower: bool = current_tick_index >= lower_tick.index;
    let current_below_upper: bool = current_tick_index < upper_tick.index;

    let fee_growth_below_x = if current_above_lower {
        lower_tick.fee_growth_outside_x
    } else {
        fee_growth_global_x.wrapping_sub(lower_tick.fee_growth_outside_x)
    };
    let fee_growth_below_y = if current_above_lower {
        lower_tick.fee_growth_outside_y
    } else {
        fee_growth_global_y.wrapping_sub(lower_tick.fee_growth_outside_y)
    };

    let fee_growth_above_x = if current_below_upper {
        upper_tick.fee_growth_outside_x
    } else {
        fee_growth_global_x.wrapping_sub(upper_tick.fee_growth_outside_x)
    };
    let fee_growth_above_y = if current_below_upper {
        upper_tick.fee_growth_outside_y
    } else {
        fee_growth_global_y.wrapping_sub(upper_tick.fee_growth_outside_y)
    };

    let fee_growth_inside_x = fee_growth_global_x.wrapping_sub(fee_growth_below_x).wrapping_sub(
        fee_growth_above_x,
    );
    let fee_growth_inside_y = fee_growth_global_y.wrapping_sub(fee_growth_below_y).wrapping_sub(
        fee_growth_above_y,
    );

    (fee_growth_inside_x, fee_growth_inside_y)
}

/// For a range whose boundary ticks have recorded no outside growth, and
/// which contains the current tick, the growth inside is the whole global
/// counter: no special-casing is needed at the boundaries.
pub proof fn lemma_fee_growth_inside_is_global(
    lower_index: int,
    upper_index: int,
    current_tick_index: int,
    global: nat,
)
    requires
        lower_index <= current_tick_index < upper_index,
        global < radix128(),
    ensures
        fee_growth_inside_one(lower_index, 0, upper_index, 0, current_tick_index, global)
            == global,
{
}

} // verus!
