use invariant_core::decimals::{Decimal, FeeGrowth, FixedPoint, Liquidity, Price, TokenAmount};

#[test]
pub fn test_denominator() {
    assert_eq!(Price::from_integer(1).get(), 1_000000_000000_000000_000000);
    assert_eq!(Liquidity::from_integer(1).get(), 1_000000_000000);
    assert_eq!(
        FeeGrowth::from_integer(1).get(),
        1_000000_000000_000000_000000
    );
    assert_eq!(TokenAmount::from_integer(1).get(), 1);
}

#[test]
pub fn test_ops() {
    let result = TokenAmount::from_integer(1).big_mul(Price::from_integer(1));
    assert_eq!(result.get(), 1);
}

#[test]
fn test_new() {
    // One
    {
        let fee_growth = FeeGrowth::from_fee(Liquidity::from_integer(1), TokenAmount(1));
        assert_eq!(fee_growth, FeeGrowth::from_integer(1));
    }
    // Half
    {
        let fee_growth = FeeGrowth::from_fee(Liquidity::from_integer(2), TokenAmount(1));
        assert_eq!(fee_growth, FeeGrowth::from_scale(5, 1))
    }
    // Little
    {
        let fee_growth = FeeGrowth::from_fee(Liquidity::from_integer(u64::MAX.into()), TokenAmount(1));
        assert_eq!(fee_growth, FeeGrowth::new(54211))
    }
    // Fairly big
    {
        let fee_growth = FeeGrowth::from_fee(Liquidity::from_integer(100), TokenAmount(1_000_000));
        assert_eq!(fee_growth, FeeGrowth::from_integer(10000))
    }
}

#[test]
fn test_from_integer_magnitudes() {
    assert_eq!(Price::from_integer(7).get(), 7_000000_000000_000000_000000);
    assert_eq!(Liquidity::from_integer(7).get(), 7_000000_000000);
    assert_eq!(FeeGrowth::from_integer(7).get(), 7_000000_000000_000000_000000);
    assert_eq!(FixedPoint::from_integer(7).get(), 7);
    assert_eq!(TokenAmount::from_integer(7).get(), 7);
    assert_eq!(Decimal::from_integer(7).get(), 7_000000_000000);
    assert_eq!(Decimal::one().get(), 1_000000_000000);
}

#[test]
fn test_from_scale() {
    // half a unit written as 5 tenths
    assert_eq!(FeeGrowth::from_scale(5, 1).get(), 500_000_000_000_000_000_000_000);
    assert_eq!(Price::from_scale(5, 1).get(), 500_000_000_000_000_000_000_000);
    assert_eq!(Liquidity::from_scale(5, 1).get(), 500_000_000_000);
    // dropping digits rounds down
    assert_eq!(FixedPoint::from_scale(19, 1).get(), 1);
    assert_eq!(TokenAmount::from_scale(150, 1).get(), 15);
    assert_eq!(TokenAmount::from_scale(19, 1).get(), 1);
    assert_eq!(Decimal::from_scale(5, 1).get(), 500_000_000_000);
}

#[test]
fn test_big_div_rounding() {
    // 10 / 3 at scale 12: the up-rounded quotient is one more
    let a = FeeGrowth::new(10);
    let b = Liquidity::new(3);
    assert_eq!(a.big_div(b).get(), 3_333_333_333_333);
    assert_eq!(a.big_div_up(b).get(), 3_333_333_333_334);
    // 9 / 3 is exact: both roundings agree
    let c = FeeGrowth::new(9);
    assert_eq!(c.big_div(b).get(), 3_000_000_000_000);
    assert_eq!(c.big_div_up(b).get(), c.big_div(b).get());
}

#[test]
fn test_wrapping_sub() {
    let a = FeeGrowth::new(0);
    let b = FeeGrowth::new(1);
    assert_eq!(a.wrapping_sub(b).get(), u128::MAX);
    assert_eq!(b.wrapping_sub(a).get(), 1);
    assert_eq!(a.wrapping_sub(a).get(), 0);
}

#[test]
fn test_fee_growth_conversion_one_unit() {
    // one full token paid to one full unit of liquidity is one full unit of
    // fee growth
    let fee_growth = FeeGrowth::from_fee(Liquidity::from_integer(1), TokenAmount(1));
    assert_eq!(fee_growth, FeeGrowth::from_integer(1));
    // and back: one unit of growth on one unit of liquidity owes one token
    let owed = FeeGrowth::from_integer(1)
        .to_fee(Liquidity::from_integer(1))
        .unwrap();
    assert_eq!(owed, Liquidity::from_integer(1));
}

#[test]
fn test_to_fee_rounds_up() {
    // an inexact conversion rounds towards the position
    let owed = FeeGrowth::new(1).to_fee(Liquidity::new(1)).unwrap();
    assert_eq!(owed, Liquidity::new(1));
    // an exact conversion is untouched
    let exact = FeeGrowth::from_integer(2)
        .to_fee(Liquidity::from_integer(3))
        .unwrap();
    assert_eq!(exact, Liquidity::from_integer(6));
}

#[test]
fn test_checked_ops() {
    assert_eq!(
        Liquidity::new(u128::MAX).checked_add(Liquidity::new(1)),
        None
    );
    assert_eq!(
        Liquidity::new(1).checked_add(Liquidity::new(2)),
        Some(Liquidity::new(3))
    );
    assert_eq!(Liquidity::new(1).checked_sub(Liquidity::new(2)), None);
    assert_eq!(
        Liquidity::new(5).checked_sub(Liquidity::new(2)),
        Some(Liquidity::new(3))
    );
    assert_eq!(TokenAmount(u64::MAX).checked_add(TokenAmount(1)), None);
    assert_eq!(FixedPoint::new(u128::MAX).checked_add(FixedPoint::new(1)), None);
}
