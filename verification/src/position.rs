use crate::address::Address;
use crate::amount_delta::{
    amount_x_spec, amount_y_spec, calculate_amount_delta, pool_after_amount_delta,
    pool_liquidity_ok,
};
use crate::decimals::{div_up, pow10, wrapped_diff, FeeGrowth, FixedPoint, Liquidity, TokenAmount};
use crate::errors::ErrorCode;
use crate::fee_growth::{calculate_fee_growth_inside, fee_growth_inside_one};
use crate::pool::Pool;
use crate::tick::Tick;
use vstd::prelude::*;
use vstd::string::StrSliceExecFns;
use vstd::string::StringExecFns;

verus! {

/// The decimal digit character of a value below ten.
pub open spec fn dec_char(d: nat) -> char {
    if d == 0 {
        '0'
    } else if d == 1 {
        '1'
    } else if d == 2 {
        '2'
    } else if d == 3 {
        '3'
    } else if d == 4 {
        '4'
    } else if d == 5 {
        '5'
    } else if d == 6 {
        '6'
    } else if d == 7 {
        '7'
    } else if d == 8 {
        '8'
    } else {
        '9'
    }
}

/// The decimal rendering of a number, most significant digit first, with no
/// leading zeroes (zero itself renders as one digit).
pub open spec fn dec_chars_of(n: nat) -> Seq<char>
    decreases n,
{
    if n < 10 {
        seq![dec_char(n)]
    } else {
        dec_chars_of(n / 10).push(dec_char(n % 10))
    }
}

/// The digit characters of a digit string read back to front: phase one of
/// the rendering collects digits least significant first.
pub open spec fn rev_dec_chars(s: Seq<u8>) -> Seq<char> {
    Seq::new(s.len(), |i: int| dec_char(s[s.len() - 1 - i] as nat))
}

/// A one-character string holding the decimal digit of `d`.
fn dec_digit_str(d: u8) -> (r: &'static str)
    requires
        d < 10,
    ensures
        r@ == seq![dec_char(d as nat)],
{
    let table: &'static str = "0123456789";
    proof {
        reveal_strlit("0123456789");
    }
    let r = table.substring_char(d as usize, d as usize + 1);
    proof {
        assert(r@ =~= seq![dec_char(d as nat)]);
    }
    r
}

/// Per-range-per-provider ledger entry: the record of one provider's
/// liquidity on one price range of one pool.
#[derive(Clone, Copy, Debug, Default, PartialEq)]
pub struct Position {
    /// The providing party's key.
    pub owner: Address,
    /// The owning pool's key.
    pub pool: Address,
    /// Unique within the owning pool, assigned at creation, never reused.
    pub id: u128,
    /// The liquidity this position currently provides.
    pub liquidity: Liquidity,
    /// Lower bound of the range; immutable after creation.
    pub lower_tick_index: i32,
    /// Upper bound of the range; immutable after creation.
    pub upper_tick_index: i32,
    /// Fee-growth-inside snapshot of asset X taken at the last settlement.
    pub fee_growth_inside_x: FeeGrowth,
    /// Fee-growth-inside snapshot of asset Y taken at the last settlement.
    pub fee_growth_inside_y: FeeGrowth,
    /// Seconds-per-liquidity snapshot used by the reward side-programs.
    pub seconds_per_liquidity_inside: FixedPoint,
    /// The slot of the last reward-relevant touch.
    pub last_slot: u64,
    /// Accrued but unwithdrawn balance of asset X, at liquidity scale.
    pub tokens_owed_x: Liquidity,
    /// Accrued but unwithdrawn balance of asset Y, at liquidity scale.
    pub tokens_owed_y: Liquidity,
    /// The address-derivation bump of the surrounding ledger.
    pub bump: u8,
}

impl Position {
    /// The tokens newly owed in asset X when the inside snapshot moves to
    /// `fee_growth_inside_x`: the (wrapping) growth since the last snapshot
    /// times the liquidity held before the change, ceiling-rounded.
    pub open spec fn owed_increment_x(self, fee_growth_inside_x: FeeGrowth) -> nat {
        div_up(
            wrapped_diff((fee_growth_inside_x.v as nat), (self.fee_growth_inside_x.v as nat)) * (
            self.liquidity.v as nat),
            pow10(24),
        )
    }

    /// The tokens newly owed in asset Y; see [`Position::owed_increment_x`].
    pub open spec fn owed_increment_y(self, fee_growth_inside_y: FeeGrowth) -> nat {
        div_up(
            wrapped_diff((fee_growth_inside_y.v as nat), (self.fee_growth_inside_y.v as nat)) * (
            self.liquidity.v as nat),
            pow10(24),
        )
    }

    /// Whether the liquidity change itself is sound: an increase must fit
    /// the width, a decrease must not exceed what is held.
    pub open spec fn new_liquidity_ok(self, sign: bool, d: nat) -> bool {
        if sign {
            self.liquidity.v + d <= u128::MAX
        } else {
            d <= self.liquidity.v
        }
    }

    /// Whether a settlement-and-change request is accepted whole.
    pub open spec fn update_ok(self, sign: bool, d: nat, fgx: FeeGrowth, fgy: FeeGrowth) -> bool {
        &&& !(d == 0 && self.liquidity.v == 0)
        &&& self.owed_increment_x(fgx) <= u128::MAX
        &&& self.owed_increment_y(fgy) <= u128::MAX
        &&& self.new_liquidity_ok(sign, d)
        &&& self.tokens_owed_x.v + self.owed_increment_x(fgx) <= u128::MAX
        &&& self.tokens_owed_y.v + self.owed_increment_y(fgy) <= u128::MAX
    }

    /// The error a rejected request reports, in the order the checks run.
    pub open spec fn update_err(self, sign: bool, d: nat, fgx: FeeGrowth, fgy: FeeGrowth) -> ErrorCode {
        if d == 0 && self.liquidity.v == 0 {
            ErrorCode::EmptyPositionPokes
        } else if self.owed_increment_x(fgx) > u128::MAX || self.owed_increment_y(fgy)
            > u128::MAX {
            ErrorCode::Overflow
        } else if !self.new_liquidity_ok(sign, d) {
            if sign {
                ErrorCode::Overflow
            } else {
                ErrorCode::InvalidPositionLiquidity
            }
        } else {
            ErrorCode::Overflow
        }
    }

    /// The position after an accepted settlement-and-change: fees accrued
    /// since the snapshots are added to the owed balances, the snapshots are
    /// replaced, and the liquidity moves by `d`.
    pub open spec fn updated(self, sign: bool, d: nat, fgx: FeeGrowth, fgy: FeeGrowth) -> Position {
        Position {
            liquidity: Liquidity {
                v: (if sign {
                    self.liquidity.v + d
                } else {
                    self.liquidity.v - d
                }) as u128,
            },
            fee_growth_inside_x: fgx,
            fee_growth_inside_y: fgy,
            tokens_owed_x: Liquidity {
                v: (self.tokens_owed_x.v + self.owed_increment_x(fgx)) as u128,
            },
            tokens_owed_y: Liquidity {
                v: (self.tokens_owed_y.v + self.owed_increment_y(fgy)) as u128,
            },
            ..self
        }
    }

    /// The new liquidity after a signed change: rejects a decrease past what
    /// is held, and an increase past the type's width. Reads only; the
    /// position is left as it was.
    pub fn calculate_new_liquidity_safely(&mut self, sign: bool, liquidity_delta: Liquidity) -> (r:
        Result<Liquidity, ErrorCode>)
        ensures
            *final(self) == *old(self),
            match r {
                Ok(l) => old(self).new_liquidity_ok(sign, liquidity_delta.v as nat) && l.v as int
                    == (if sign {
                    old(self).liquidity.v + liquidity_delta.v
                } else {
                    old(self).liquidity.v - liquidity_delta.v
                }),
                Err(e) => !old(self).new_liquidity_ok(sign, liquidity_delta.v as nat) && e == (
                if sign {
                    ErrorCode::Overflow
                } else {
                    ErrorCode::InvalidPositionLiquidity
                }),
            },
    {
        if !sign && self.liquidity.v < liquidity_delta.v {
            return Err(ErrorCode::InvalidPositionLiquidity);
        }
        if sign {
            match self.liquidity.checked_add(liquidity_delta) {
                Some(l) => Ok(l),
                None => Err(ErrorCode::Overflow),
            }
        } else {
            Ok(Liquidity::new(self.liquidity.v - liquidity_delta.v))
        }
    }

    /// Settles the fees accrued since the last snapshots against the
    /// liquidity held before the call, replaces the snapshots, and applies
    /// the liquidity change. A poke of an empty position is rejected: with
    /// no liquidity and no change there is nothing to account for. On any
    /// failure the position is left exactly as it was.
    pub fn update(
        &mut self,
        sign: bool,
        liquidity_delta: Liquidity,
        fee_growth_inside_x: FeeGrowth,
        fee_growth_inside_y: FeeGrowth,
    ) -> (r: Result<(), ErrorCode>)
        ensures
            ({
                let d = liquidity_delta.v as nat;
                match r {
                    Ok(_) => old(self).update_ok(sign, d, fee_growth_inside_x, fee_growth_inside_y)
                        && *final(self) == old(self).updated(
                        sign,
                        d,
                        fee_growth_inside_x,
                        fee_growth_inside_y,
                    ),
                    Err(e) => !old(self).update_ok(
                        sign,
                        d,
                        fee_growth_inside_x,
                        fee_growth_inside_y,
                    ) && *final(self) == *old(self) && e == old(self).update_err(
                        sign,
                        d,
                        fee_growth_inside_x,
                        fee_growth_inside_y,
                    ),
                }
            }),
            // a decrease past the held liquidity is rejected as such, and
            // leaves liquidity and owed balances untouched
            (!sign && liquidity_delta.v > old(self).liquidity.v && old(self).owed_increment_x(
                fee_growth_inside_x,
            ) <= u128::MAX && old(self).owed_increment_y(fee_growth_inside_y) <= u128::MAX) ==> (r
                == Result::<(), ErrorCode>::Err(ErrorCode::InvalidPositionLiquidity) && *final(self)
                == *old(self)),
    {
        if liquidity_delta.v == 0 && self.liquidity.v == 0 {
            return Err(ErrorCode::EmptyPositionPokes);
        }
        let delta_x = fee_growth_inside_x.wrapping_sub(self.fee_growth_inside_x);
        let owed_x = match delta_x.to_fee(self.liquidity) {
            Some(t) => t,
            None => {
                return Err(ErrorCode::Overflow);
            },
        };
        let delta_y = fee_growth_inside_y.wrapping_sub(self.fee_growth_inside_y);
        let owed_y = match delta_y.to_fee(self.liquidity) {
            Some(t) => t,
            None => {
                return Err(ErrorCode::Overflow);
            },
        };
        let new_liquidity = match self.calculate_new_liquidity_safely(sign, liquidity_delta) {
            Ok(l) => l,
            Err(e) => {
                return Err(e);
            },
        };
        let new_owed_x = match self.tokens_owed_x.checked_add(owed_x) {
            Some(t) => t,
            None => {
                return Err(ErrorCode::Overflow);
            },
        };
        let new_owed_y = match self.tokens_owed_y.checked_add(owed_y) {
            Some(t) => t,
            None => {
                return Err(ErrorCode::Overflow);
            },
        };
        self.liquidity = new_liquidity;
        self.fee_growth_inside_x = fee_growth_inside_x;
        self.fee_growth_inside_y = fee_growth_inside_y;
        self.tokens_owed_x = new_owed_x;
        self.tokens_owed_y = new_owed_y;
        Ok(())
    }

    /// Assigns this position the pool's next id; ids within a pool are
    /// unique and monotonically increasing, never reused.
    pub fn initialized_id(&mut self, pool: &mut Pool)
        requires
            old(pool).position_iterator < u128::MAX,
        ensures
            *final(self) == (Position { id: old(pool).position_iterator, ..*old(self) }),
            *final(pool) == (Pool {
                position_iterator: (old(pool).position_iterator + 1) as u128,
                ..*old(pool)
            }),
    {
        self.id = pool.position_iterator;
        pool.position_iterator = pool.position_iterator + 1;
    }

    /// A display identifier: the owning pool's key in lower-case
    /// hexadecimal, followed by the pool-local position id in decimal. The
    /// hexadecimal form is this core's own choice of rendering; a
    /// surrounding layer that displays keys in another encoding converts
    /// before comparing identifiers.
    pub fn get_id(self) -> (r: String)
        ensures
            r@ == crate::address::hex_chars_of(self.pool.bytes@) + dec_chars_of(self.id as nat),
    {
        let mut id: String = self.pool.to_hex();
        let ghost hex_part: Seq<char> = id@;
        if self.id == 0 {
            id.append(dec_digit_str(0));
            proof {
                assert(id@ =~= hex_part + dec_chars_of(0));
            }
            return id;
        }
        let mut digits: Vec<u8> = Vec::new();
        let mut m: u128 = self.id;
        proof {
            assert(dec_chars_of(self.id as nat) =~= dec_chars_of(m as nat) + rev_dec_chars(
                digits@,
            ));
        }
        while m > 0
            invariant
                m > 0 ==> dec_chars_of(self.id as nat) == dec_chars_of(m as nat) + rev_dec_chars(
                    digits@,
                ),
                m == 0 ==> dec_chars_of(self.id as nat) == rev_dec_chars(digits@),
                forall|j: int| 0 <= j < digits@.len() ==> #[trigger] digits@[j] < 10,
            decreases m,
        {
            let d0: u8 = (m % 10) as u8;
            let ghost old_digits = digits@;
            let ghost old_m = m as nat;
            digits.push(d0);
            m = m / 10;
            proof {
                assert(rev_dec_chars(old_digits.push(d0)) =~= seq![dec_char(d0 as nat)]
                    + rev_dec_chars(old_digits));
                if m > 0 {
                    assert(dec_chars_of(old_m) == dec_chars_of(old_m / 10).push(
                        dec_char(old_m % 10),
                    ));
                    assert(dec_chars_of(old_m) + rev_dec_chars(old_digits) =~= dec_chars_of(
                        m as nat,
                    ) + rev_dec_chars(digits@));
                } else {
                    assert(dec_chars_of(old_m) =~= seq![dec_char(d0 as nat)]);
                    assert(dec_chars_of(old_m) + rev_dec_chars(old_digits) =~= rev_dec_chars(
                        digits@,
                    ));
                }
            }
        }
        let mut k: usize = digits.len();
        proof {
            assert(rev_dec_chars(digits@).take(0) =~= Seq::<char>::empty());
            assert(id@ =~= hex_part + rev_dec_chars(digits@).take(0));
        }
        while k > 0
            invariant
                k <= digits@.len(),
                forall|j: int| 0 <= j < digits@.len() ==> #[trigger] digits@[j] < 10,
                dec_chars_of(self.id as nat) == rev_dec_chars(digits@),
                id@ == hex_part + rev_dec_chars(digits@).take(digits@.len() - k),
            decreases k,
        {
            k = k - 1;
            id.append(dec_digit_str(digits[k]));
            proof {
                let n = digits@.len() as int;
                assert(rev_dec_chars(digits@)[n - 1 - k] == dec_char(digits@[k as int] as nat));
                assert(rev_dec_chars(digits@).take(n - k) =~= rev_dec_chars(digits@).take(
                    n - k - 1,
                ).push(dec_char(digits@[k as int] as nat)));
                assert(id@ =~= hex_part + rev_dec_chars(digits@).take(n - k));
            }
        }
        proof {
            assert(rev_dec_chars(digits@).take(digits@.len() as int) =~= rev_dec_chars(digits@));
        }
        id
    }

    /// Applies a signed liquidity change to this position now: rolls the
    /// pool's clock forward, books the change on both boundary ticks,
    /// recomputes the fee growth inside the range, settles this position,
    /// and prices the change in tokens. Either every step commits, or the
    /// first failure is returned and nothing is changed.
    pub fn modify(
        &mut self,
        pool: &mut Pool,
        upper_tick: &mut Tick,
        lower_tick: &mut Tick,
        liquidity_delta: Liquidity,
        add: bool,
        current_timestamp: u64,
    ) -> (r: Result<(TokenAmount, TokenAmount), ErrorCode>)
        requires
            old(lower_tick).index < old(upper_tick).index,
            current_timestamp >= old(pool).last_timestamp,
        ensures
            ({
                let d = liquidity_delta.v as nat;
                let ok_spl = old(pool).seconds_per_liquidity_fits(current_timestamp);
                let pool1 = old(pool).rolled_forward(current_timestamp);
                let ok_lower = old(lower_tick).can_apply(d, false, add);
                let lower1 = old(lower_tick).applied(d, false, add);
                let ok_upper = old(upper_tick).can_apply(d, true, add);
                let upper1 = old(upper_tick).applied(d, true, add);
                let fgx = FeeGrowth {
                    v: fee_growth_inside_one(
                        lower1.index as int,
                        lower1.fee_growth_outside_x.v as nat,
                        upper1.index as int,
                        upper1.fee_growth_outside_x.v as nat,
                        pool1.current_tick_index as int,
                        pool1.fee_growth_global_x.v as nat,
                    ) as u128,
                };
                let fgy = FeeGrowth {
                    v: fee_growth_inside_one(
                        lower1.index as int,
                        lower1.fee_growth_outside_y.v as nat,
                        upper1.index as int,
                        upper1.fee_growth_outside_y.v as nat,
                        pool1.current_tick_index as int,
                        pool1.fee_growth_global_y.v as nat,
                    ) as u128,
                };
                let ok_pos = old(self).update_ok(add, d, fgx, fgy);
                let lower = old(lower_tick).index as int;
                let upper = old(upper_tick).index as int;
                let current = old(pool).current_tick_index as int;
                let inside = lower <= current < upper;
                let ax = amount_x_spec(d, lower, upper, current, add);
                let ay = amount_y_spec(d, lower, upper, current, add);
                let ok_amount = ax <= u64::MAX && ay <= u64::MAX && pool_liquidity_ok(
                    pool1,
                    d,
                    add,
                    inside,
                );
                let main = match r {
                    Ok(amounts) => {
                        &&& ok_spl
                        &&& ok_lower
                        &&& ok_upper
                        &&& ok_pos
                        &&& ok_amount
                        &&& *final(lower_tick) == lower1
                        &&& *final(upper_tick) == upper1
                        &&& *final(self) == old(self).updated(add, d, fgx, fgy)
                        &&& *final(pool) == pool_after_amount_delta(pool1, d, add, inside)
                        &&& amounts.0.0 as nat == ax
                        &&& amounts.1.0 as nat == ay
                    },
                    Err(e) => {
                        &&& *final(self) == *old(self)
                        &&& *final(pool) == *old(pool)
                        &&& *final(lower_tick) == *old(lower_tick)
                        &&& *final(upper_tick) == *old(upper_tick)
                        &&& !(ok_spl && ok_lower && ok_upper && ok_pos && ok_amount)
                        &&& e == (if !ok_spl {
                            ErrorCode::Overflow
                        } else if !ok_lower {
                            old(lower_tick).apply_err(d, false, add)
                        } else if !ok_upper {
                            old(upper_tick).apply_err(d, true, add)
                        } else if !ok_pos {
                            old(self).update_err(add, d, fgx, fgy)
                        } else if (ax <= u64::MAX && ay <= u64::MAX && inside && !add
                            && pool1.liquidity.v < d) {
                            ErrorCode::Underflow
                        } else {
                            ErrorCode::Overflow
                        })
                    },
                };
                // a poke — a zero delta — of a position holding liquidity
                // never errors, as long as the owed balances fit their width
                let live_poke = (d == 0 && ok_spl && old(self).liquidity.v > 0 && old(
                    self,
                ).owed_increment_x(fgx) <= u128::MAX && old(self).owed_increment_y(fgy)
                    <= u128::MAX && old(self).tokens_owed_x.v + old(self).owed_increment_x(fgx)
                    <= u128::MAX && old(self).tokens_owed_y.v + old(self).owed_increment_y(fgy)
                    <= u128::MAX) ==> (r is Ok);
                // a poke of a position holding nothing is rejected as empty
                let empty_poke = (d == 0 && ok_spl && old(self).liquidity.v == 0) ==> r == Result::<
                    (TokenAmount, TokenAmount),
                    ErrorCode,
                >::Err(ErrorCode::EmptyPositionPokes);
                main && live_poke && empty_poke
            }),
    {
        let mut new_pool: Pool = *pool;
        if !new_pool.liquidity.is_zero() {
            match new_pool.update_seconds_per_liquidity_global(current_timestamp) {
                Ok(_) => {},
                Err(e) => {
                    return Err(e);
                },
            }
        } else {
            new_pool.last_timestamp = current_timestamp;
        }
        let mut new_lower: Tick = *lower_tick;
        match new_lower.update(liquidity_delta, false, add) {
            Ok(_) => {},
            Err(e) => {
                return Err(e);
            },
        }
        let mut new_upper: Tick = *upper_tick;
        match new_upper.update(liquidity_delta, true, add) {
            Ok(_) => {},
            Err(e) => {
                return Err(e);
            },
        }
        let (fee_growth_inside_x, fee_growth_inside_y) = calculate_fee_growth_inside(
            new_lower,
            new_upper,
            new_pool.current_tick_index,
            new_pool.fee_growth_global_x,
            new_pool.fee_growth_global_y,
        );
        let mut new_self: Position = *self;
        match new_self.update(add, liquidity_delta, fee_growth_inside_x, fee_growth_inside_y) {
            Ok(_) => {},
            Err(e) => {
                return Err(e);
            },
        }
        let amounts = match calculate_amount_delta(
            &mut new_pool,
            liquidity_delta,
            add,
            new_upper.index,
            new_lower.index,
        ) {
            Ok(a) => a,
            Err(e) => {
                proof {
                    if liquidity_delta.v == 0 {
                        crate::amount_delta::lemma_amounts_zero(
                            new_lower.index as int,
                            new_upper.index as int,
                            old(pool).current_tick_index as int,
                            add,
                        );
                    }
                }
                return Err(e);
            },
        };
        *pool = new_pool;
        *lower_tick = new_lower;
        *upper_tick = new_upper;
        *self = new_self;
        Ok(amounts)
    }
}

} // verus!
