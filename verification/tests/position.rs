use invariant_core::address::Address;
use invariant_core::decimals::{FeeGrowth, Liquidity, TokenAmount};
use invariant_core::errors::ErrorCode;
use invariant_core::pool::Pool;
use invariant_core::position::Position;
use invariant_core::tick::Tick;

#[test]
fn test_calculate_new_liquidity_safely() {
    // negative liquidity error
    {
        let mut position = Position {
            liquidity: Liquidity::from_integer(1),
            ..Default::default()
        };
        let sign: bool = false;
        let liquidity_delta = Liquidity::from_integer(2);

        let result = position.calculate_new_liquidity_safely(sign, liquidity_delta);

        assert!(result.is_err());
    }
    // adding liquidity
    {
        let mut position = Position {
            liquidity: Liquidity::from_integer(2),
            ..Default::default()
        };
        let sign: bool = true;
        let liquidity_delta = Liquidity::from_integer(2);

        let new_liquidity = position
            .calculate_new_liquidity_safely(sign, liquidity_delta)
            .unwrap();

        assert_eq!(new_liquidity, Liquidity::from_integer(4));
    }
    // subtracting liquidity
    {
        let mut position = Position {
            liquidity: Liquidity::from_integer(2),
            ..Default::default()
        };
        let sign: bool = false;
        let liquidity_delta = Liquidity::from_integer(2);

        let new_liquidity = position
            .calculate_new_liquidity_safely(sign, liquidity_delta)
            .unwrap();

        assert_eq!(new_liquidity, Liquidity::from_integer(0));
    }
}

#[test]
fn test_update() {
    // Disable empty position pokes error
    {
        let mut position = Position {
            liquidity: Liquidity::from_integer(0),
            ..Default::default()
        };
        let sign = true;
        let liquidity_delta = Liquidity::from_integer(0);
        let fee_growth_inside_x = FeeGrowth::from_integer(1);
        let fee_growth_inside_y = FeeGrowth::from_integer(1);

        let result = position.update(
            sign,
            liquidity_delta,
            fee_growth_inside_x,
            fee_growth_inside_y,
        );

        assert!(result.is_err());
    }
    // zero liquidity fee shouldn't change
    {
        let mut position = Position {
            liquidity: Liquidity::from_integer(0),
            fee_growth_inside_x: FeeGrowth::from_integer(4),
            fee_growth_inside_y: FeeGrowth::from_integer(4),
            tokens_owed_x: Liquidity::from_integer(100),
            tokens_owed_y: Liquidity::from_integer(100),
            ..Default::default()
        };
        let sign = true;
        let liquidity_delta = Liquidity::from_integer(1);
        let fee_growth_inside_x = FeeGrowth::from_integer(5);
        let fee_growth_inside_y = FeeGrowth::from_integer(5);

        position
            .update(
                sign,
                liquidity_delta,
                fee_growth_inside_x,
                fee_growth_inside_y,
            )
            .unwrap();

        assert_eq!({ position.liquidity }, Liquidity::from_integer(1));
        assert_eq!({ position.fee_growth_inside_x }, FeeGrowth::from_integer(5));
        assert_eq!({ position.fee_growth_inside_y }, FeeGrowth::from_integer(5));
        assert_eq!({ position.tokens_owed_x }, Liquidity::from_integer(100));
        assert_eq!({ position.tokens_owed_y }, Liquidity::from_integer(100));
    }
    // fee should change
    {
        let mut position = Position {
            liquidity: Liquidity::from_integer(1),
            fee_growth_inside_x: FeeGrowth::from_integer(4),
            fee_growth_inside_y: FeeGrowth::from_integer(4),
            tokens_owed_x: Liquidity::from_integer(100),
            tokens_owed_y: Liquidity::from_integer(100),
            ..Default::default()
        };
        let sign = true;
        let liquidity_delta = Liquidity::from_integer(1);
        let fee_growth_inside_x = FeeGrowth::from_integer(5);
        let fee_growth_inside_y = FeeGrowth::from_integer(5);

        position
            .update(
                sign,
                liquidity_delta,
                fee_growth_inside_x,
                fee_growth_inside_y,
            )
            .unwrap();

        assert_eq!({ position.liquidity }, Liquidity::from_integer(2));
        assert_eq!({ position.fee_growth_inside_x }, FeeGrowth::from_integer(5));
        assert_eq!({ position.fee_growth_inside_y }, FeeGrowth::from_integer(5));
        assert_eq!({ position.tokens_owed_x }, Liquidity::from_integer(101));
        assert_eq!({ position.tokens_owed_y }, Liquidity::from_integer(101));
    }
}

#[test]
fn test_modify() {
    // owed tokens after overflow
    {
        let mut position = Position {
            liquidity: Liquidity::from_integer(123),
            fee_growth_inside_x: FeeGrowth::new(u128::MAX).wrapping_sub(FeeGrowth::from_integer(1234)),
            fee_growth_inside_y: FeeGrowth::new(u128::MAX).wrapping_sub(FeeGrowth::from_integer(1234)),
            tokens_owed_x: Liquidity::from_integer(0),
            tokens_owed_y: Liquidity::from_integer(0),
            ..Default::default()
        };
        let mut pool = Pool {
            current_tick_index: 0,
            fee_growth_global_x: FeeGrowth::from_integer(20),
            fee_growth_global_y: FeeGrowth::from_integer(20),
            ..Default::default()
        };
        let mut upper_tick = Tick {
            index: -10,
            fee_growth_outside_x: FeeGrowth::from_integer(15),
            fee_growth_outside_y: FeeGrowth::from_integer(15),
            liquidity_gross: Liquidity::from_integer(123),
            ..Default::default()
        };
        let mut lower_tick = Tick {
            index: -20,
            fee_growth_outside_x: FeeGrowth::from_integer(20),
            fee_growth_outside_y: FeeGrowth::from_integer(20),
            liquidity_gross: Liquidity::from_integer(123),
            ..Default::default()
        };
        let liquidity_delta = Liquidity::new(0);
        let add = true;
        let current_timestamp: u64 = 1234567890;

        position
            .modify(
                &mut pool,
                &mut upper_tick,
                &mut lower_tick,
                liquidity_delta,
                add,
                current_timestamp,
            )
            .unwrap();

        // the wrapped snapshot delta is 1229 * 10^24 + 1 raw units; settled
        // against 123 whole units of liquidity and ceiling-rounded, the one
        // extra raw unit of growth still owes one raw token unit
        assert_eq!(
            { position.tokens_owed_x },
            Liquidity::new(151167000000000001)
        );
    }
}

#[test]
fn test_poke_settles_exactly() {
    // a zero-delta poke of a live position: growth (5 - 4) on liquidity 2
    // owes exactly 2 whole units per asset, on top of what was owed
    let mut position = Position {
        liquidity: Liquidity::from_integer(2),
        fee_growth_inside_x: FeeGrowth::from_integer(4),
        fee_growth_inside_y: FeeGrowth::from_integer(4),
        tokens_owed_x: Liquidity::from_integer(1),
        tokens_owed_y: Liquidity::from_integer(1),
        ..Default::default()
    };
    let result = position.update(
        true,
        Liquidity::from_integer(1),
        FeeGrowth::from_integer(5),
        FeeGrowth::from_integer(5),
    );
    assert!(result.is_ok());
    assert_eq!({ position.liquidity }, Liquidity::from_integer(3));
    assert_eq!({ position.tokens_owed_x }, Liquidity::from_integer(3));
    assert_eq!({ position.tokens_owed_y }, Liquidity::from_integer(3));
}

#[test]
fn test_settlement_rounds_up() {
    // the smallest possible accrual: one raw unit of growth on one raw unit
    // of liquidity still owes one raw token unit after the ceiling
    let mut position = Position {
        liquidity: Liquidity::new(1),
        ..Default::default()
    };
    position
        .update(true, Liquidity::new(0), FeeGrowth::new(1), FeeGrowth::new(1))
        .unwrap();
    assert_eq!({ position.tokens_owed_x }, Liquidity::new(1));
    assert_eq!({ position.tokens_owed_y }, Liquidity::new(1));
}

#[test]
fn test_empty_position_poke_rejected() {
    let mut position = Position {
        liquidity: Liquidity::from_integer(0),
        ..Default::default()
    };
    let before = position;
    let result = position.update(
        true,
        Liquidity::new(0),
        FeeGrowth::from_integer(1),
        FeeGrowth::from_integer(1),
    );
    assert_eq!(result, Err(ErrorCode::EmptyPositionPokes));
    assert_eq!(position, before);
}

#[test]
fn test_excess_decrease_rejected() {
    let mut position = Position {
        liquidity: Liquidity::from_integer(1),
        tokens_owed_x: Liquidity::from_integer(9),
        tokens_owed_y: Liquidity::from_integer(9),
        ..Default::default()
    };
    let before = position;
    let result = position.update(
        false,
        Liquidity::from_integer(2),
        FeeGrowth::new(0),
        FeeGrowth::new(0),
    );
    assert_eq!(result, Err(ErrorCode::InvalidPositionLiquidity));
    assert_eq!(position, before);
}

#[test]
fn test_modify_poke_inside_range() {
    // boundary ticks with no outside growth and the current tick inside the
    // range: the growth inside is the whole global counter, and a poke
    // settles it in full
    let mut position = Position {
        liquidity: Liquidity::from_integer(1),
        ..Default::default()
    };
    let mut pool = Pool {
        current_tick_index: 0,
        fee_growth_global_x: FeeGrowth::from_integer(20),
        fee_growth_global_y: FeeGrowth::from_integer(20),
        ..Default::default()
    };
    let mut upper_tick = Tick {
        index: 10,
        ..Default::default()
    };
    let mut lower_tick = Tick {
        index: -10,
        ..Default::default()
    };
    let amounts = position
        .modify(
            &mut pool,
            &mut upper_tick,
            &mut lower_tick,
            Liquidity::new(0),
            true,
            7,
        )
        .unwrap();
    assert_eq!(amounts, (TokenAmount(0), TokenAmount(0)));
    assert_eq!({ position.fee_growth_inside_x }, FeeGrowth::from_integer(20));
    assert_eq!({ position.fee_growth_inside_y }, FeeGrowth::from_integer(20));
    assert_eq!({ position.tokens_owed_x }, Liquidity::from_integer(20));
    assert_eq!({ position.tokens_owed_y }, Liquidity::from_integer(20));
    assert_eq!(pool.last_timestamp, 7);
}

#[test]
fn test_modify_rejects_gross_underflow() {
    // removing more than the ticks carry: the first failing step reports,
    // and nothing changes
    let mut position = Position {
        liquidity: Liquidity::from_integer(5),
        ..Default::default()
    };
    let mut pool = Pool {
        current_tick_index: 0,
        ..Default::default()
    };
    let mut upper_tick = Tick {
        index: 10,
        liquidity_gross: Liquidity::from_integer(1),
        ..Default::default()
    };
    let mut lower_tick = Tick {
        index: -10,
        liquidity_gross: Liquidity::from_integer(1),
        ..Default::default()
    };
    let before_pool = pool;
    let before_lower = lower_tick;
    let before_upper = upper_tick;
    let result = position.modify(
        &mut pool,
        &mut upper_tick,
        &mut lower_tick,
        Liquidity::from_integer(2),
        false,
        9,
    );
    assert_eq!(result, Err(ErrorCode::Underflow));
    assert_eq!(pool, before_pool);
    assert_eq!(lower_tick, before_lower);
    assert_eq!(upper_tick, before_upper);
}

#[test]
fn test_initialized_id() {
    let mut pool = Pool {
        position_iterator: 7,
        ..Default::default()
    };
    let mut position = Position::default();
    position.initialized_id(&mut pool);
    assert_eq!(position.id, 7);
    assert_eq!(pool.position_iterator, 8);
    let mut next = Position::default();
    next.initialized_id(&mut pool);
    assert_eq!(next.id, 8);
    assert_eq!(pool.position_iterator, 9);
}

#[test]
fn test_get_id() {
    let position = Position {
        pool: Address::new([0; 32]),
        id: 45,
        ..Default::default()
    };
    let expected = format!("{}{}", "0".repeat(64), 45);
    assert_eq!(position.get_id(), expected);

    let position2 = Position {
        pool: Address::new([0xab; 32]),
        id: 0,
        ..Default::default()
    };
    let expected2 = format!("{}{}", "ab".repeat(32), 0);
    assert_eq!(position2.get_id(), expected2);
}

#[test]
fn test_init_oracle_once() {
    let mut pool = Pool::default();
    let oracle = Address::new([3; 32]);
    assert!(pool.init_oracle(oracle).is_ok());
    assert!(pool.oracle_initialized);
    assert_eq!(pool.oracle_address, oracle);
    let again = pool.init_oracle(Address::new([4; 32]));
    assert_eq!(again, Err(ErrorCode::OracleAlreadyInitialized));
    assert_eq!(pool.oracle_address, oracle);
}
