use crate::address::Address;
use crate::decimals::{lemma_pow10_vals, pow10, FeeGrowth, FixedPoint, Liquidity};
use crate::errors::ErrorCode;
use vstd::prelude::*;

verus! {

/// Global per-pool accumulators: one instance per trading pair and fee tier.
#[derive(Clone, Copy, Debug, Default, PartialEq, Eq)]
pub struct Pool {
    /// The currently active tick index.
    pub current_tick_index: i32,
    /// Total liquidity currently in range.
    pub liquidity: Liquidity,
    /// Cumulative fee growth per unit of liquidity for asset X. Wraps at the
    /// maximum magnitude by design.
    pub fee_growth_global_x: FeeGrowth,
    /// Cumulative fee growth per unit of liquidity for asset Y. Wraps at the
    /// maximum magnitude by design.
    pub fee_growth_global_y: FeeGrowth,
    /// Time-weighted seconds per unit of in-range liquidity.
    pub seconds_per_liquidity_global: FixedPoint,
    /// The timestamp of the last accumulator update.
    pub last_timestamp: u64,
    /// The next position id this pool will assign; ids are never reused.
    pub position_iterator: u128,
    /// Whether an oracle has been linked to this pool.
    pub oracle_initialized: bool,
    /// The linked oracle's key; meaningful only when initialized.
    pub oracle_address: Address,
}

impl Pool {
    /// The seconds-per-liquidity gained between the last update and
    /// `current_timestamp`, at the pool's current liquidity.
    pub open spec fn seconds_per_liquidity_gain(self, current_timestamp: u64) -> nat {
        (((current_timestamp - self.last_timestamp) as nat) * pow10(12)) / (self.liquidity.v as nat)
    }

    /// The pool with its time-weighted accumulator rolled forward to
    /// `current_timestamp`: a pool holding no liquidity accrues nothing and
    /// only records the new timestamp.
    pub open spec fn rolled_forward(self, current_timestamp: u64) -> Pool {
        if self.liquidity.v == 0 {
            Pool { last_timestamp: current_timestamp, ..self }
        } else {
            Pool {
                last_timestamp: current_timestamp,
                seconds_per_liquidity_global: FixedPoint {
                    v: (self.seconds_per_liquidity_global.v + self.seconds_per_liquidity_gain(
                        current_timestamp,
                    )) as u128,
                },
                ..self
            }
        }
    }

    /// Whether the accumulator has room for the gain up to
    /// `current_timestamp`.
    pub open spec fn seconds_per_liquidity_fits(self, current_timestamp: u64) -> bool {
        self.liquidity.v == 0 || self.seconds_per_liquidity_global.v
            + self.seconds_per_liquidity_gain(current_timestamp) <= u128::MAX
    }

    /// Rolls the time-weighted seconds-per-liquidity accumulator forward. An
    /// accumulator with no room for the gain reports an overflow and changes
    /// nothing.
    pub fn update_seconds_per_liquidity_global(&mut self, current_timestamp: u64) -> (r: Result<
        (),
        ErrorCode,
    >)
        requires
            old(self).liquidity.v > 0,
            current_timestamp >= old(self).last_timestamp,
        ensures
            match r {
                Ok(_) => old(self).seconds_per_liquidity_fits(current_timestamp) && *final(self)
                    == old(self).rolled_forward(current_timestamp),
                Err(e) => !old(self).seconds_per_liquidity_fits(current_timestamp) && *final(self)
                    == *old(self) && e == ErrorCode::Overflow,
            },
    {
        let elapsed: u64 = current_timestamp - self.last_timestamp;
        proof {
            lemma_pow10_vals();
            vstd::arithmetic::div_mod::lemma_div_nonincreasing(
                (elapsed as int) * (pow10(12) as int),
                self.liquidity.v as int,
            );
        }
        let gain = FixedPoint::from_integer(elapsed as u128).big_div(self.liquidity);
        match self.seconds_per_liquidity_global.checked_add(gain) {
            Some(s) => {
                self.seconds_per_liquidity_global = s;
                self.last_timestamp = current_timestamp;
                Ok(())
            },
            None => Err(ErrorCode::Overflow),
        }
    }

    /// Links an oracle to this pool unconditionally.
    pub fn set_oracle(&mut self, address: Address)
        ensures
            *final(self) == (Pool {
                oracle_initialized: true,
                oracle_address: address,
                ..*old(self)
            }),
    {
        self.oracle_initialized = true;
        self.oracle_address = address;
    }

    /// Links an oracle to this pool once: a second initialization is
    /// rejected and changes nothing.
    pub fn init_oracle(&mut self, address: Address) -> (r: Result<(), ErrorCode>)
        ensures
            match r {
                Ok(_) => !old(self).oracle_initialized && *final(self) == (Pool {
                    oracle_initialized: true,
                    oracle_address: address,
                    ..*old(self)
                }),
                Err(e) => old(self).oracle_initialized && *final(self) == *old(self) && e
                    == ErrorCode::OracleAlreadyInitialized,
            },
    {
        if self.oracle_initialized {
            return Err(ErrorCode::OracleAlreadyInitialized);
        }
        self.set_oracle(address);
        Ok(())
    }
}

} // verus!
