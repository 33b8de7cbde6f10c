//! On-chain amounts: a 256-bit unsigned value modeled as two 128-bit
//! halves, its fallible narrowing to the ledger's 64-bit signed column,
//! and the rescaling between the chain's 18-decimal convention and the
//! ledger's 6-decimal one.

use vstd::prelude::*;

verus! {

/// Ten to the twelfth: the factor between 18-decimal and 6-decimal fixed
/// point.
pub const DECIMAL_RESCALE: u64 = 1_000_000_000_000;

/// A 256-bit unsigned on-chain integer, as its two 128-bit halves.
#[derive(Debug, Clone, Copy, PartialEq, Eq, Structural)]
pub struct Uint256 {
    pub hi: u128,
    pub lo: u128,
}

impl Uint256 {
    /// The numeric value: `hi * 2^128 + lo`.
    pub open spec fn value(self) -> int {
        self.hi * 0x100000000000000000000000000000000 + self.lo
    }

    /// A value small enough to fit one 128-bit half.
    pub fn from_u128(lo: u128) -> (r: Uint256)
        ensures
            r.value() == lo,
    {
        Uint256 { hi: 0, lo }
    }
}

/// Narrows an on-chain integer to the ledger's signed 64-bit column;
/// values past `i64::MAX` do not fit and are reported as such.
pub fn u256_to_i64(v: &Uint256) -> (r: Option<i64>)
    ensures
        r matches Some(x) ==> x == v.value(),
        r is Some <==> v.value() <= i64::MAX as int,
{
    if v.hi != 0 {
        proof {
            assert(v.hi * 0x100000000000000000000000000000000
                >= 0x100000000000000000000000000000000) by (nonlinear_arith)
                requires
                    v.hi >= 1,
            ;
        }
        None
    } else if v.lo > i64::MAX as u128 {
        None
    } else {
        Some(v.lo as i64)
    }
}

/// Rescales an 18-decimal on-chain amount to the ledger's 6 decimals
/// (dividing by `10^12`, truncating), then narrows it; an amount whose
/// rescaled value still exceeds `i64::MAX` does not fit.
pub fn to_6_decimals_i64(v: &Uint256) -> (r: Option<i64>)
    ensures
        r matches Some(x) ==> x == v.value() / (DECIMAL_RESCALE as int),
        r is Some <==> v.value() / (DECIMAL_RESCALE as int) <= i64::MAX as int,
{
    if v.hi != 0 {
        proof {
            let d = DECIMAL_RESCALE as int;
            let big = 0x100000000000000000000000000000000int;
            assert(v.hi * 0x100000000000000000000000000000000
                >= 0x100000000000000000000000000000000) by (nonlinear_arith)
                requires
                    v.hi >= 1,
            ;
            assert(v.value() >= big);
            vstd::arithmetic::div_mod::lemma_div_is_ordered(big, v.value(), d);
            assert(big / d > i64::MAX as int) by {
                vstd::arithmetic::div_mod::lemma_div_multiples_vanish(9223372036854775808, d);
                vstd::arithmetic::div_mod::lemma_div_is_ordered(
                    9223372036854775808 * d,
                    big,
                    d,
                );
            }
        }
        None
    } else {
        let q: u128 = v.lo / (DECIMAL_RESCALE as u128);
        if q > i64::MAX as u128 {
            None
        } else {
            Some(q as i64)
        }
    }
}

/// Widens a 6-decimal ledger amount back to the chain's 18 decimals.
pub fn to_18_decimals(amount: i64) -> (r: u128)
    requires
        amount >= 0,
    ensures
        r == amount * (DECIMAL_RESCALE as int),
{
    proof {
        assert(amount * (DECIMAL_RESCALE as int) <= i64::MAX * (DECIMAL_RESCALE as int)
            && amount * (DECIMAL_RESCALE as int) >= 0) by (nonlinear_arith)
            requires
                0 <= amount <= i64::MAX,
        ;
    }
    (amount as u128) * (DECIMAL_RESCALE as u128)
}

} // verus!
