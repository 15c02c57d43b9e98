use crate::decimals::{pow10, Decimal};
use crate::u256::{div_rem_u128, radix128, U256};
use vstd::prelude::*;

verus! {

/// Converts a scale-12 decimal to a binary fixed-point value with 128
/// fractional bits: the magnitude of `d * 2^128`, divided by one whole unit,
/// rounded down. Total: every decimal converts.
pub fn decimal_to_x128(decimal: Decimal) -> (r: U256)
    ensures
        r.as_nat() == ((decimal.v as nat) * radix128()) / pow10(12),
{
    proof {
        crate::decimals::lemma_pow10_vals();
    }
    let widened = U256 { hi: decimal.v, lo: 0 };
    proof {
        assert(widened.as_nat() == (decimal.v as nat) * radix128());
    }
    let (q, _rem) = div_rem_u128(widened, crate::decimals::DENOM12);
    q
}

} // verus!
