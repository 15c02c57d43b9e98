use invariant_core::amount_delta::calculate_amount_delta;
use invariant_core::decimals::{Liquidity, TokenAmount};
use invariant_core::errors::ErrorCode;
use invariant_core::pool::Pool;

#[test]
fn test_amounts_below_inside_above() {
    let delta = Liquidity::from_integer(1);
    // price below the range: only X moves
    {
        let mut pool = Pool {
            current_tick_index: -15,
            liquidity: Liquidity::from_integer(5),
            ..Default::default()
        };
        let (x, y) = calculate_amount_delta(&mut pool, delta, true, 10, -10).unwrap();
        assert_eq!(x, TokenAmount(20));
        assert_eq!(y, TokenAmount(0));
        assert_eq!(pool.liquidity, Liquidity::from_integer(5));
    }
    // price inside the range: both move, and the pool's active liquidity too
    {
        let mut pool = Pool {
            current_tick_index: 0,
            liquidity: Liquidity::from_integer(5),
            ..Default::default()
        };
        let (x, y) = calculate_amount_delta(&mut pool, delta, true, 10, -10).unwrap();
        assert_eq!(x, TokenAmount(10));
        assert_eq!(y, TokenAmount(10));
        assert_eq!(pool.liquidity, Liquidity::from_integer(6));
    }
    // price above the range: only Y moves
    {
        let mut pool = Pool {
            current_tick_index: 10,
            liquidity: Liquidity::from_integer(5),
            ..Default::default()
        };
        let (x, y) = calculate_amount_delta(&mut pool, delta, true, 10, -10).unwrap();
        assert_eq!(x, TokenAmount(0));
        assert_eq!(y, TokenAmount(20));
        assert_eq!(pool.liquidity, Liquidity::from_integer(5));
    }
}

#[test]
fn test_amount_rounding_favors_protocol() {
    // one raw drop of liquidity over one tick: rounds up to a whole token
    // when supplied, down to nothing when returned
    let drop = Liquidity::new(1);
    let mut pool = Pool {
        current_tick_index: -5,
        ..Default::default()
    };
    let (supplied_x, _) = calculate_amount_delta(&mut pool, drop, true, 10, -4).unwrap();
    assert_eq!(supplied_x, TokenAmount(1));
    let (returned_x, _) = calculate_amount_delta(&mut pool, drop, false, 10, -4).unwrap();
    assert_eq!(returned_x, TokenAmount(0));
}

#[test]
fn test_amount_overflow_rejected() {
    let mut pool = Pool {
        current_tick_index: -15,
        ..Default::default()
    };
    let before = pool;
    let result = calculate_amount_delta(&mut pool, Liquidity::new(u128::MAX), true, 10, -10);
    assert_eq!(result, Err(ErrorCode::Overflow));
    assert_eq!(pool, before);
}

#[test]
fn test_pool_liquidity_underflow_rejected() {
    let mut pool = Pool {
        current_tick_index: 0,
        liquidity: Liquidity::new(0),
        ..Default::default()
    };
    let before = pool;
    let result = calculate_amount_delta(&mut pool, Liquidity::from_integer(1), false, 10, -10);
    assert_eq!(result, Err(ErrorCode::Underflow));
    assert_eq!(pool, before);
}
