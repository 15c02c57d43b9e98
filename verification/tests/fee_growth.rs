use invariant_core::decimals::FeeGrowth;
use invariant_core::fee_growth::calculate_fee_growth_inside;
use invariant_core::tick::Tick;

#[test]
fn test_fee_growth_inside_equals_global() {
    // both boundary ticks carry no outside growth and the current tick is
    // inside the range: the whole global counter accrued inside
    let lower_tick = Tick {
        index: -10,
        ..Default::default()
    };
    let upper_tick = Tick {
        index: 10,
        ..Default::default()
    };
    let global_x = FeeGrowth::from_integer(15);
    let global_y = FeeGrowth::from_integer(20);
    let (inside_x, inside_y) =
        calculate_fee_growth_inside(lower_tick, upper_tick, 0, global_x, global_y);
    assert_eq!(inside_x, global_x);
    assert_eq!(inside_y, global_y);
}

#[test]
fn test_fee_growth_inside_wraps() {
    // price above the range: growth below is the global minus the lower
    // outside, growth above is the upper outside flipped; the result wraps
    // below zero and stays valid
    let lower_tick = Tick {
        index: -20,
        fee_growth_outside_x: FeeGrowth::from_integer(20),
        fee_growth_outside_y: FeeGrowth::from_integer(20),
        ..Default::default()
    };
    let upper_tick = Tick {
        index: -10,
        fee_growth_outside_x: FeeGrowth::from_integer(15),
        fee_growth_outside_y: FeeGrowth::from_integer(15),
        ..Default::default()
    };
    let global = FeeGrowth::from_integer(20);
    let (inside_x, inside_y) =
        calculate_fee_growth_inside(lower_tick, upper_tick, 0, global, global);
    // 20 - 20 - (20 - 15) wraps to -5 whole units modulo 2^128
    let expected = 0u128.wrapping_sub(5_000000_000000_000000_000000);
    assert_eq!(inside_x.get(), expected);
    assert_eq!(inside_y.get(), expected);
}

#[test]
fn test_fee_growth_inside_is_total() {
    // no combination of inputs is rejected: even a degenerate range answers
    let lower_tick = Tick {
        index: 5,
        fee_growth_outside_x: FeeGrowth::new(u128::MAX),
        ..Default::default()
    };
    let upper_tick = Tick {
        index: 6,
        fee_growth_outside_y: FeeGrowth::new(u128::MAX),
        ..Default::default()
    };
    let (inside_x, inside_y) = calculate_fee_growth_inside(
        lower_tick,
        upper_tick,
        -100,
        FeeGrowth::new(0),
        FeeGrowth::new(1),
    );
    // below_x = 0 - MAX wraps to 1, so inside_x = 0 - 1 - 0 wraps to MAX
    assert_eq!(inside_x.get(), u128::MAX);
    // below_y = 1 - 0 = 1 and above_y = MAX, so inside_y = 1 - 1 - MAX wraps to 1
    assert_eq!(inside_y.get(), 1);
}
