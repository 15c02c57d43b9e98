use invariant_core::decimals::Decimal;
use invariant_core::log::decimal_to_x128;
use invariant_core::u256::U256;

#[test]
fn test_decimal_to_binary() {
    // max_sqrt_price = ceil(sqrt(2^64 - 1))
    // min_sqrt_price = floor(sqrt_price(1/(2^64-1)))

    let max_sqrt_price = Decimal::new(4294967295999999999884);
    let min_sqrt_price = Decimal::new(232);

    // base: 2^128
    {
        let max_sqrt_price_x128 = decimal_to_x128(max_sqrt_price);
        let min_sqrt_price_x128 = decimal_to_x128(min_sqrt_price);

        let expected_max_sqrt_price_x128 =
            U256::from_dec_str("1461501637330902918164212078153454157894181088513").unwrap();
        let expected_min_sqrt_price_x128 =
            U256::from_dec_str("78945509125657723523502908924").unwrap();

        assert!(max_sqrt_price_x128.eq(&expected_max_sqrt_price_x128));
        assert!(min_sqrt_price_x128.eq(&expected_min_sqrt_price_x128));
    }
    // base: 2^96
    {
        let max_sqrt_price_x96 = decimal_to_x128(max_sqrt_price).shr_small(32);
        let min_sqrt_price_x96 = decimal_to_x128(min_sqrt_price).shr_small(32);

        let expected_max_sqrt_price_x96 =
            U256::from_dec_str("340282366920938463454184140580113548295").unwrap();

        let expected_min_sqrt_price_x96 = U256::from_dec_str("18380933703309326321").unwrap();

        assert!(max_sqrt_price_x96.eq(&expected_max_sqrt_price_x96));
        assert!(min_sqrt_price_x96.eq(&expected_min_sqrt_price_x96));
    }
}

#[test]
fn test_from_dec_str() {
    // 2^128 parses into the high half exactly
    let v = U256::from_dec_str("340282366920938463463374607431768211456").unwrap();
    assert_eq!(v, U256 { hi: 1, lo: 0 });
    // the empty string parses to zero
    assert_eq!(U256::from_dec_str(""), Some(U256 { hi: 0, lo: 0 }));
    assert_eq!(U256::from_dec_str("0"), Some(U256 { hi: 0, lo: 0 }));
    // a non-digit is rejected
    assert_eq!(U256::from_dec_str("12x3"), None);
    // 2^256 needs a 257th bit and is rejected
    assert_eq!(
        U256::from_dec_str(
            "115792089237316195423570985008687907853269984665640564039457584007913129639936"
        ),
        None
    );
    // 2^256 - 1 still fits
    assert_eq!(
        U256::from_dec_str(
            "115792089237316195423570985008687907853269984665640564039457584007913129639935"
        ),
        Some(U256 {
            hi: u128::MAX,
            lo: u128::MAX
        })
    );
}

#[test]
fn test_widening_round_trip() {
    let v = U256::from_u128(123456789);
    assert_eq!(v.to_u128(), 123456789);
    let one_unit = decimal_to_x128(Decimal::one());
    // one whole unit is exactly 2^128: hi = 1, lo = 0
    assert_eq!(one_unit, U256 { hi: 1, lo: 0 });
}
