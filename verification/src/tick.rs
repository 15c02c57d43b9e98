use crate::decimals::{FeeGrowth, Liquidity};
use crate::errors::ErrorCode;
use vstd::prelude::*;

verus! {

/// Per-price-tick ledger entry: the accounting record of one boundary of the
/// price curve.
#[derive(Clone, Copy, Debug, Default, PartialEq, Eq)]
pub struct Tick {
    /// The tick's index on the price curve.
    pub index: i32,
    /// Gross liquidity of all ranges that have this tick as a boundary.
    pub liquidity_gross: Liquidity,
    /// Magnitude of the net liquidity change applied when the price crosses
    /// this tick; its sign is `sign`.
    pub liquidity_change: Liquidity,
    /// Sign of the net liquidity change: `true` for positive.
    pub sign: bool,
    /// Cumulative global fee growth of asset X recorded while the price was
    /// on the far side of this tick.
    pub fee_growth_outside_x: FeeGrowth,
    /// Cumulative global fee growth of asset Y recorded while the price was
    /// on the far side of this tick.
    pub fee_growth_outside_y: FeeGrowth,
}

impl Tick {
    /// The signed net liquidity change at this tick.
    pub open spec fn net_liquidity(self) -> int {
        if self.sign {
            self.liquidity_change.v as int
        } else {
            -(self.liquidity_change.v as int)
        }
    }

    /// Whether a liquidity change of magnitude `d` can be applied: the gross
    /// liquidity must stay within its width, and a net magnitude growing in
    /// its own direction must fit too.
    pub open spec fn can_apply(self, d: nat, is_upper: bool, add: bool) -> bool {
        &&& (if add {
            self.liquidity_gross.v + d <= u128::MAX
        } else {
            self.liquidity_gross.v >= d
        })
        &&& ((add != is_upper) == self.sign ==> self.liquidity_change.v + d <= u128::MAX)
    }

    /// The error reported when a liquidity change cannot be applied: a gross
    /// underflow first, any overflow after.
    pub open spec fn apply_err(self, d: nat, is_upper: bool, add: bool) -> ErrorCode {
        if !add && self.liquidity_gross.v < d {
            ErrorCode::Underflow
        } else {
            ErrorCode::Overflow
        }
    }

    /// The entry after a liquidity change of magnitude `d` on a range bounded
    /// by this tick: gross moves with the change, the net moves up at a lower
    /// bound and down at an upper bound (and the other way on removal).
    pub open spec fn applied(self, d: nat, is_upper: bool, add: bool) -> Tick {
        let plus = add != is_upper;
        let gross = if add {
            (self.liquidity_gross.v + d) as nat
        } else {
            (self.liquidity_gross.v - d) as nat
        };
        let (change, sign): (nat, bool) = if plus == self.sign {
            ((self.liquidity_change.v + d) as nat, self.sign)
        } else if self.liquidity_change.v >= d {
            ((self.liquidity_change.v - d) as nat, self.sign)
        } else {
            ((d - self.liquidity_change.v) as nat, plus)
        };
        Tick {
            liquidity_gross: Liquidity { v: gross as u128 },
            liquidity_change: Liquidity { v: change as u128 },
            sign,
            ..self
        }
    }

    /// Applies a liquidity change whose range has this tick as one boundary.
    /// On any failure the entry is left exactly as it was.
    pub fn update(&mut self, liquidity_delta: Liquidity, is_upper: bool, add: bool) -> (r: Result<
        (),
        ErrorCode,
    >)
        ensures
            ({
                let d = liquidity_delta.v as nat;
                let signed_d: int = if add != is_upper {
                    d as int
                } else {
                    -(d as int)
                };
                match r {
                    Ok(_) => {
                        &&& old(self).can_apply(d, is_upper, add)
                        &&& *final(self) == old(self).applied(d, is_upper, add)
                        &&& final(self).net_liquidity() == old(self).net_liquidity() + signed_d
                    },
                    Err(e) => {
                        &&& !old(self).can_apply(d, is_upper, add)
                        &&& *final(self) == *old(self)
                        &&& e == old(self).apply_err(d, is_upper, add)
                    },
                }
            }),
    {
        let new_gross: Liquidity;
        if add {
            match self.liquidity_gross.checked_add(liquidity_delta) {
                Some(g) => {
                    new_gross = g;
                },
                None => {
                    return Err(ErrorCode::Overflow);
                },
            }
        } else {
            match self.liquidity_gross.checked_sub(liquidity_delta) {
                Some(g) => {
                    new_gross = g;
                },
                None => {
                    return Err(ErrorCode::Underflow);
                },
            }
        }
        let plus: bool = add != is_upper;
        let new_change: Liquidity;
        let new_sign: bool;
        if plus == self.sign {
            match self.liquidity_change.checked_add(liquidity_delta) {
                Some(c) => {
                    new_change = c;
                    new_sign = self.sign;
                },
                None => {
                    return Err(ErrorCode::Overflow);
                },
            }
        } else if self.liquidity_change.v >= liquidity_delta.v {
            new_change = Liquidity::new(self.liquidity_change.v - liquidity_delta.v);
            new_sign = self.sign;
        } else {
            new_change = Liquidity::new(liquidity_delta.v - self.liquidity_change.v);
            new_sign = plus;
        }
        self.liquidity_gross = new_gross;
        self.liquidity_change = new_change;
        self.sign = new_sign;
        Ok(())
    }
}

} // verus!
