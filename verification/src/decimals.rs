use crate::u256::{div_rem_u128, mul_u128, radix128};
use vstd::prelude::*;

verus! {

/// Powers of ten: the denominators of the scaled fixed-point types.
pub open spec fn pow10(n: nat) -> nat
    decreases n,
{
    if n == 0 {
        1
    } else {
        10 * pow10((n - 1) as nat)
    }
}

/// 10^12, the denominator of the scale-12 types.
pub const DENOM12: u128 = 1_000_000_000_000;

/// 10^24, the denominator of the scale-24 types.
pub const DENOM24: u128 = 1_000_000_000_000_000_000_000_000;

/// The quotient of `a` by `b`, rounded towards positive infinity.
pub open spec fn div_up(a: nat, b: nat) -> nat {
    a / b + if a % b == 0 {
        0nat
    } else {
        1nat
    }
}

/// The value a magnitude takes when moved from one decimal scale to another:
/// exact when digits are added, rounded down when digits are dropped.
pub open spec fn rescaled(val: nat, from_scale: nat, to_scale: nat) -> nat {
    if from_scale <= to_scale {
        val * pow10((to_scale - from_scale) as nat)
    } else {
        val / pow10((from_scale - to_scale) as nat)
    }
}

/// The spec constants above as values of `pow10`.
pub proof fn lemma_pow10_vals()
    ensures
        pow10(0) == 1,
        pow10(1) == 10,
        pow10(12) == DENOM12,
        pow10(24) == DENOM24,
        pow10(36) == (DENOM12 as nat) * (DENOM24 as nat),
        pow10(38) < radix128(),
{
    assert(pow10(0) == 1 && pow10(1) == 10 && pow10(12) == 1_000_000_000_000 && pow10(24)
        == 1_000_000_000_000_000_000_000_000 && pow10(36)
        == 1_000_000_000_000_000_000_000_000_000_000_000_000 && pow10(38)
        == 100_000_000_000_000_000_000_000_000_000_000_000_000) by {
        reveal_with_fuel(pow10, 40);
    };
}

/// Every power of ten is positive.
pub proof fn lemma_pow10_pos(n: nat)
    ensures
        pow10(n) >= 1,
    decreases n,
{
    if n > 0 {
        lemma_pow10_pos((n - 1) as nat);
    }
}

/// Powers of ten do not shrink as the exponent grows.
pub proof fn lemma_pow10_increases(a: nat, b: nat)
    requires
        a <= b,
    ensures
        pow10(a) <= pow10(b),
    decreases b,
{
    if a < b {
        lemma_pow10_increases(a, (b - 1) as nat);
        lemma_pow10_pos((b - 1) as nat);
    }
}

/// `pow10` turns addition of exponents into multiplication.
pub proof fn lemma_pow10_adds(a: nat, b: nat)
    ensures
        pow10(a + b) == pow10(a) * pow10(b),
    decreases a,
{
    if a == 0 {
        assert(pow10(0) == 1) by {
            reveal_with_fuel(pow10, 1);
        };
        assert(pow10(a + b) == 1 * pow10(b));
    } else {
        lemma_pow10_adds((a - 1) as nat, b);
        assert(pow10((a + b - 1) as nat) == pow10((a - 1) as nat) * pow10(b));
        assert(pow10(a + b) == 10 * pow10((a + b - 1) as nat)) by {
            reveal_with_fuel(pow10, 2);
        };
        assert(pow10(a) == 10 * pow10((a - 1) as nat)) by {
            reveal_with_fuel(pow10, 2);
        };
        assert(pow10(a) * pow10(b) == 10 * (pow10((a - 1) as nat) * pow10(b)))
            by (nonlinear_arith)
            requires
                pow10(a) == 10 * pow10((a - 1) as nat),
        ;
    }
}

/// The rounding law of the widened divisions: dividing up agrees with
/// dividing down exactly on exact multiples, exceeds it by exactly one
/// otherwise, and never falls below the true mathematical quotient.
pub proof fn lemma_div_up_rounding(a: nat, b: nat)
    requires
        b >= 1,
    ensures
        a % b == 0 ==> div_up(a, b) == a / b,
        a % b != 0 ==> div_up(a, b) == a / b + 1,
        div_up(a, b) * b >= a,
{
    vstd::arithmetic::div_mod::lemma_fundamental_div_mod(a as int, b as int);
    vstd::arithmetic::div_mod::lemma_mod_division_less_than_divisor(a as int, b as int);
    vstd::arithmetic::mul::lemma_mul_is_commutative((a / b) as int, b as int);
    if a % b != 0 {
        vstd::arithmetic::mul::lemma_mul_is_distributive_add_other_way(
            b as int,
            (a / b) as int,
            1,
        );
    }
}

/// `pow10(n)` as an executable value.
fn pow10_u128(n: u8) -> (r: u128)
    requires
        n <= 38,
    ensures
        r as nat == pow10(n as nat),
{
    let mut r: u128 = 1;
    let mut j: u8 = 0;
    while j < n
        invariant
            j <= n <= 38,
            r as nat == pow10(j as nat),
        decreases n - j,
    {
        proof {
            lemma_pow10_increases((j + 1) as nat, 38);
            lemma_pow10_vals();
        }
        r = r * 10;
        j = j + 1;
    }
    r
}

/// Moves a raw magnitude from one decimal scale to another.
fn rescale_exec(val: u128, from_scale: u8, to_scale: u8) -> (r: u128)
    requires
        from_scale <= 38,
        to_scale <= 38,
        rescaled(val as nat, from_scale as nat, to_scale as nat) <= u128::MAX,
    ensures
        r as nat == rescaled(val as nat, from_scale as nat, to_scale as nat),
{
    if from_scale <= to_scale {
        let m: u128 = pow10_u128(to_scale - from_scale);
        val * m
    } else {
        let m: u128 = pow10_u128(from_scale - to_scale);
        proof {
            lemma_pow10_pos((from_scale - to_scale) as nat);
        }
        val / m
    }
}

/// A price, with 24 decimal digits of fraction.
#[derive(Clone, Copy, Debug, Default, PartialEq, Eq, Structural)]
pub struct Price {
    pub v: u128,
}

/// A depth-of-market contribution, with 12 decimal digits of fraction.
#[derive(Clone, Copy, Debug, Default, PartialEq, Eq, Structural)]
pub struct Liquidity {
    pub v: u128,
}

/// A cumulative fee-per-unit-of-liquidity counter, with 24 decimal digits of
/// fraction.
///
/// Pool-global counters of this type wrap around at the maximum magnitude by
/// design; they are combined with [`FeeGrowth::wrapping_sub`], never with a
/// checked subtraction.
#[derive(Clone, Copy, Debug, Default, PartialEq, Eq, Structural)]
pub struct FeeGrowth {
    pub v: u128,
}

/// A dimensionless fixed-point value with no fractional digits.
#[derive(Clone, Copy, Debug, Default, PartialEq, Eq, Structural)]
pub struct FixedPoint {
    pub v: u128,
}

/// A raw token amount: no fractional digits, 64-bit magnitude.
#[derive(Clone, Copy, Debug, Default, PartialEq, Eq, Structural)]
pub struct TokenAmount(pub u64);

/// The square-root-price decimal of the binary-conversion helpers, with 12
/// decimal digits of fraction.
#[derive(Clone, Copy, Debug, Default, PartialEq, Eq, Structural)]
pub struct Decimal {
    pub v: u128,
}

impl Price {
    /// Wraps a raw magnitude.
    pub fn new(v: u128) -> (r: Self)
        ensures
            r.v == v,
    {
        Price { v }
    }

    /// The raw magnitude.
    pub fn get(self) -> (r: u128)
        ensures
            r == self.v,
    {
        self.v
    }

    /// `n` whole units: the magnitude `n * 10^24`.
    pub fn from_integer(n: u128) -> (r: Self)
        requires
            n * pow10(24) <= u128::MAX,
        ensures
            r.v as nat == n * pow10(24),
    {
        proof {
            lemma_pow10_vals();
        }
        Price { v: n * DENOM24 }
    }

    /// A value given at another decimal scale.
    pub fn from_scale(val: u128, scale: u8) -> (r: Self)
        requires
            scale <= 38,
            rescaled(val as nat, scale as nat, 24) <= u128::MAX,
        ensures
            r.v as nat == rescaled(val as nat, scale as nat, 24),
    {
        Price { v: rescale_exec(val, scale, 24) }
    }
}

impl Liquidity {
    /// Wraps a raw magnitude.
    pub fn new(v: u128) -> (r: Self)
        ensures
            r.v == v,
    {
        Liquidity { v }
    }

    /// The raw magnitude.
    pub fn get(self) -> (r: u128)
        ensures
            r == self.v,
    {
        self.v
    }

    /// `n` whole units: the magnitude `n * 10^12`.
    pub fn from_integer(n: u128) -> (r: Self)
        requires
            n * pow10(12) <= u128::MAX,
        ensures
            r.v as nat == n * pow10(12),
    {
        proof {
            lemma_pow10_vals();
        }
        Liquidity { v: n * DENOM12 }
    }

    /// A value given at another decimal scale.
    pub fn from_scale(val: u128, scale: u8) -> (r: Self)
        requires
            scale <= 38,
            rescaled(val as nat, scale as nat, 12) <= u128::MAX,
        ensures
            r.v as nat == rescaled(val as nat, scale as nat, 12),
    {
        Liquidity { v: rescale_exec(val, scale, 12) }
    }

    /// Whether the magnitude is zero.
    pub fn is_zero(self) -> (r: bool)
        ensures
            r == (self.v == 0),
    {
        self.v == 0
    }

    /// Checked addition: `None` when the sum does not fit.
    pub fn checked_add(self, other: Liquidity) -> (r: Option<Liquidity>)
        ensures
            match r {
                Some(l) => self.v + other.v <= u128::MAX && l.v == self.v + other.v,
                None => self.v + other.v > u128::MAX,
            },
    {
        if self.v <= u128::MAX - other.v {
            Some(Liquidity { v: self.v + other.v })
        } else {
            None
        }
    }

    /// Checked subtraction: `None` when the result would be negative.
    pub fn checked_sub(self, other: Liquidity) -> (r: Option<Liquidity>)
        ensures
            match r {
                Some(l) => self.v >= other.v && l.v == self.v - other.v,
                None => self.v < other.v,
            },
    {
        if self.v >= other.v {
            Some(Liquidity { v: self.v - other.v })
        } else {
            None
        }
    }
}

impl FeeGrowth {
    /// Wraps a raw magnitude.
    pub fn new(v: u128) -> (r: Self)
        ensures
            r.v == v,
    {
        FeeGrowth { v }
    }

    /// The raw magnitude.
    pub fn get(self) -> (r: u128)
        ensures
            r == self.v,
    {
        self.v
    }

    /// `n` whole units: the magnitude `n * 10^24`.
    pub fn from_integer(n: u128) -> (r: Self)
        requires
            n * pow10(24) <= u128::MAX,
        ensures
            r.v as nat == n * pow10(24),
    {
        proof {
            lemma_pow10_vals();
        }
        FeeGrowth { v: n * DENOM24 }
    }

    /// A value given at another decimal scale.
    pub fn from_scale(val: u128, scale: u8) -> (r: Self)
        requires
            scale <= 38,
            rescaled(val as nat, scale as nat, 24) <= u128::MAX,
        ensures
            r.v as nat == rescaled(val as nat, scale as nat, 24),
    {
        FeeGrowth { v: rescale_exec(val, scale, 24) }
    }

    /// A raw token amount taken up to fee-growth scale.
    pub fn from_decimal(fee: TokenAmount) -> (r: Self)
        requires
            (fee.0 as nat) * pow10(24) <= u128::MAX,
        ensures
            r.v as nat == (fee.0 as nat) * pow10(24),
    {
        proof {
            lemma_pow10_vals();
        }
        FeeGrowth { v: (fee.0 as u128) * DENOM24 }
    }

    /// Modular subtraction: the global fee-growth counters wrap at the
    /// maximum magnitude by design, so a smaller minuend is not an error.
    pub fn wrapping_sub(self, other: FeeGrowth) -> (r: FeeGrowth)
        ensures
            r.v as nat == wrapped_diff(self.v as nat, other.v as nat),
    {
        if self.v >= other.v {
            FeeGrowth { v: self.v - other.v }
        } else {
            FeeGrowth { v: self.v + (u128::MAX - other.v) + 1 }
        }
    }

    /// Division widened through 256 bits, rounded down.
    pub fn big_div(self, other: Liquidity) -> (r: FeeGrowth)
        requires
            other.v > 0,
            (self.v as nat) * pow10(12) / (other.v as nat) <= u128::MAX,
        ensures
            r.v as nat == (self.v as nat) * pow10(12) / (other.v as nat),
    {
        proof {
            lemma_pow10_vals();
        }
        let prod = mul_u128(self.v, DENOM12);
        let (q, _rem) = div_rem_u128(prod, other.v);
        FeeGrowth { v: q.to_u128() }
    }

    /// Division widened through 256 bits, rounded up: used wherever
    /// under-crediting the protocol would be an exploitable rounding error.
    pub fn big_div_up(self, other: Liquidity) -> (r: FeeGrowth)
        requires
            other.v > 0,
            div_up((self.v as nat) * pow10(12), other.v as nat) <= u128::MAX,
        ensures
            r.v as nat == div_up((self.v as nat) * pow10(12), other.v as nat),
    {
        proof {
            lemma_pow10_vals();
        }
        let prod = mul_u128(self.v, DENOM12);
        let (q, rem) = div_rem_u128(prod, other.v);
        if rem == 0 {
            FeeGrowth { v: q.to_u128() }
        } else {
            FeeGrowth { v: q.to_u128() + 1 }
        }
    }

    /// The fee-growth gained when `fee` tokens are paid to `liquidity` units
    /// of depth: `fee / liquidity` at fee-growth scale, rounded up so the
    /// rounding never under-credits the protocol.
    pub fn from_fee(liquidity: Liquidity, fee: TokenAmount) -> (r: Self)
        requires
            liquidity.v > 0,
            (fee.0 as nat) * pow10(24) <= u128::MAX,
            div_up((fee.0 as nat) * pow10(36), liquidity.v as nat) <= u128::MAX,
        ensures
            r.v as nat == div_up((fee.0 as nat) * pow10(36), liquidity.v as nat),
    {
        proof {
            lemma_pow10_adds(24, 12);
            vstd::arithmetic::mul::lemma_mul_is_associative(
                fee.0 as int,
                pow10(24) as int,
                pow10(12) as int,
            );
        }
        Self::from_decimal(fee).big_div_up(liquidity)
    }

    /// The tokens owed when this fee-growth delta is applied to `liquidity`
    /// units of depth: `self * liquidity` at token scale, ceiling-rounded —
    /// a settlement never under-credits the position. `None` when the amount
    /// does not fit.
    pub fn to_fee(self, liquidity: Liquidity) -> (r: Option<Liquidity>)
        ensures
            match r {
                Some(l) => l.v as nat == div_up((self.v as nat) * (liquidity.v as nat), pow10(24)),
                None => div_up((self.v as nat) * (liquidity.v as nat), pow10(24)) > u128::MAX,
            },
    {
        proof {
            lemma_pow10_vals();
        }
        let prod = mul_u128(self.v, liquidity.v);
        let (q, rem) = div_rem_u128(prod, DENOM24);
        if q.hi != 0 {
            proof {
                vstd::arithmetic::mul::lemma_mul_inequality(1, q.hi as int, radix128() as int);
            }
            return None;
        }
        if rem == 0 {
            Some(Liquidity { v: q.lo })
        } else if q.lo == u128::MAX {
            None
        } else {
            Some(Liquidity { v: q.lo + 1 })
        }
    }
}

/// `a - b` modulo 2^128: the difference of two wrapping counters.
pub open spec fn wrapped_diff(a: nat, b: nat) -> nat {
    if a >= b {
        (a - b) as nat
    } else {
        (a + radix128() - b) as nat
    }
}

impl FixedPoint {
    /// Wraps a raw magnitude.
    pub fn new(v: u128) -> (r: Self)
        ensures
            r.v == v,
    {
        FixedPoint { v }
    }

    /// The raw magnitude.
    pub fn get(self) -> (r: u128)
        ensures
            r == self.v,
    {
        self.v
    }

    /// `n` whole units: the scale is zero, so the magnitude is `n` itself.
    pub fn from_integer(n: u128) -> (r: Self)
        ensures
            r.v == n,
    {
        FixedPoint { v: n }
    }

    /// A value given at another decimal scale.
    pub fn from_scale(val: u128, scale: u8) -> (r: Self)
        requires
            scale <= 38,
        ensures
            r.v as nat == rescaled(val as nat, scale as nat, 0),
    {
        proof {
            lemma_pow10_vals();
            if scale > 0 {
                lemma_pow10_pos(scale as nat);
                vstd::arithmetic::div_mod::lemma_div_nonincreasing(
                    val as int,
                    pow10(scale as nat) as int,
                );
                assert(rescaled(val as nat, scale as nat, 0) == (val as nat) / pow10(
                    scale as nat,
                ));
            } else {
                assert(rescaled(val as nat, scale as nat, 0) == (val as nat) * pow10(0));
            }
            assert(rescaled(val as nat, scale as nat, 0) <= u128::MAX);
        }
        FixedPoint { v: rescale_exec(val, scale, 0) }
    }

    /// Checked addition: `None` when the sum does not fit.
    pub fn checked_add(self, other: FixedPoint) -> (r: Option<FixedPoint>)
        ensures
            match r {
                Some(f) => self.v + other.v <= u128::MAX && f.v == self.v + other.v,
                None => self.v + other.v > u128::MAX,
            },
    {
        if self.v <= u128::MAX - other.v {
            Some(FixedPoint { v: self.v + other.v })
        } else {
            None
        }
    }

    /// Division widened through 256 bits, rounded down: seconds divided by
    /// liquidity units.
    pub fn big_div(self, other: Liquidity) -> (r: FixedPoint)
        requires
            other.v > 0,
            (self.v as nat) * pow10(12) / (other.v as nat) <= u128::MAX,
        ensures
            r.v as nat == (self.v as nat) * pow10(12) / (other.v as nat),
    {
        proof {
            lemma_pow10_vals();
        }
        let prod = mul_u128(self.v, DENOM12);
        let (q, _rem) = div_rem_u128(prod, other.v);
        FixedPoint { v: q.to_u128() }
    }
}

impl TokenAmount {
    /// The raw magnitude.
    pub fn get(self) -> (r: u64)
        ensures
            r == self.0,
    {
        self.0
    }

    /// `n` whole units: the scale is zero, so the magnitude is `n` itself.
    pub fn from_integer(n: u64) -> (r: Self)
        ensures
            r.0 == n,
    {
        TokenAmount(n)
    }

    /// A value given at another decimal scale; the scale here is zero.
    pub fn from_scale(val: u64, scale: u8) -> (r: Self)
        requires
            scale <= 38,
        ensures
            r.0 as nat == rescaled(val as nat, scale as nat, 0),
    {
        proof {
            lemma_pow10_vals();
            if scale > 0 {
                lemma_pow10_pos(scale as nat);
                vstd::arithmetic::div_mod::lemma_div_nonincreasing(
                    val as int,
                    pow10(scale as nat) as int,
                );
                assert(rescaled(val as nat, scale as nat, 0) == (val as nat) / pow10(scale as nat));
            } else {
                assert(rescaled(val as nat, scale as nat, 0) == (val as nat) * pow10(0));
            }
            assert(rescaled(val as nat, scale as nat, 0) <= val as nat);
        }
        TokenAmount(rescale_exec(val as u128, scale, 0) as u64)
    }

    /// Checked addition: `None` when the sum does not fit.
    pub fn checked_add(self, other: TokenAmount) -> (r: Option<TokenAmount>)
        ensures
            match r {
                Some(t) => self.0 + other.0 <= u64::MAX && t.0 == self.0 + other.0,
                None => self.0 + other.0 > u64::MAX,
            },
    {
        if self.0 <= u64::MAX - other.0 {
            Some(TokenAmount(self.0 + other.0))
        } else {
            None
        }
    }

    /// Multiplication by a price widened through 256 bits, rounded down.
    pub fn big_mul(self, price: Price) -> (r: TokenAmount)
        requires
            (self.0 as nat) * (price.v as nat) / pow10(24) <= u64::MAX,
        ensures
            r.0 as nat == (self.0 as nat) * (price.v as nat) / pow10(24),
    {
        proof {
            lemma_pow10_vals();
        }
        let prod = mul_u128(self.0 as u128, price.v);
        let (q, _rem) = div_rem_u128(prod, DENOM24);
        TokenAmount(q.to_u128() as u64)
    }
}

impl Decimal {
    /// Wraps a raw magnitude.
    pub fn new(v: u128) -> (r: Self)
        ensures
            r.v == v,
    {
        Decimal { v }
    }

    /// The raw magnitude.
    pub fn get(self) -> (r: u128)
        ensures
            r == self.v,
    {
        self.v
    }

    /// One whole unit: the magnitude `10^12`.
    pub fn one() -> (r: Self)
        ensures
            r.v as nat == pow10(12),
    {
        proof {
            lemma_pow10_vals();
        }
        Decimal { v: DENOM12 }
    }

    /// `n` whole units: the magnitude `n * 10^12`.
    pub fn from_integer(n: u128) -> (r: Self)
        requires
            n * pow10(12) <= u128::MAX,
        ensures
            r.v as nat == n * pow10(12),
    {
        proof {
            lemma_pow10_vals();
        }
        Decimal { v: n * DENOM12 }
    }

    /// A value given at another decimal scale.
    pub fn from_scale(val: u128, scale: u8) -> (r: Self)
        requires
            scale <= 38,
            rescaled(val as nat, scale as nat, 12) <= u128::MAX,
        ensures
            r.v as nat == rescaled(val as nat, scale as nat, 12),
    {
        Decimal { v: rescale_exec(val, scale, 12) }
    }
}

} // verus!
