use vstd::prelude::*;
use crate::fixed_point::{SCALE, U64F64};
use crate::state::YEAR;

verus! {

/// Bit pattern of the utilization at which the rate curve bends: 0.7.
pub const OPTIMAL_UTIL_BITS: u128 = 0xB333_3333_3333_3000;

/// Bit pattern of the yearly rate at the bend: 0.10.
pub const OPTIMAL_YEARLY_BITS: u128 = 0x1999_9999_9999_9A00;

/// Bit pattern of the rate per second at the bend: 0.10 a year.
pub const OPTIMAL_RATE_BITS: u128 = 58494241735;

/// Bit pattern of the rate per second at full utilization: 1.0 a year.
pub const MAX_RATE_BITS: u128 = 584942417355;

/// Bit pattern of the curve's slope below the bend.
pub const LOW_SLOPE_BITS: u128 = 83563202478;

/// Bit pattern of the curve's slope above the bend.
pub const HIGH_SLOPE_BITS: u128 = 1754827252066;

pub open spec fn optimal_util() -> U64F64 {
    U64F64 { bits: OPTIMAL_UTIL_BITS }
}

pub open spec fn optimal_rate() -> U64F64 {
    U64F64 { bits: OPTIMAL_RATE_BITS }
}

pub open spec fn max_rate() -> U64F64 {
    U64F64 { bits: MAX_RATE_BITS }
}

/// The borrow rate per second at a utilization of at most one: it rises in a
/// straight line from zero to the optimal rate at the bend, and in a steeper
/// one from there to the maximum rate at full utilization. Each product is
/// rounded down to a multiple of 2^-64.
pub open spec fn rate_curve(utilization: U64F64) -> U64F64 {
    if utilization.bits > OPTIMAL_UTIL_BITS {
        U64F64 {
            bits: (OPTIMAL_RATE_BITS + HIGH_SLOPE_BITS * (utilization.bits - OPTIMAL_UTIL_BITS)
                / SCALE as int) as u128,
        }
    } else {
        U64F64 { bits: (LOW_SLOPE_BITS as int * utilization.bits as int / SCALE as int) as u128 }
    }
}

/// The rates per second are the yearly rates divided by the seconds of a
/// year, and the slopes are the rises of the two segments divided by their
/// widths, each quotient rounded down.
pub proof fn lemma_rate_constants()
    ensures
        (U64F64 { bits: OPTIMAL_YEARLY_BITS }).quot(U64F64::of_int(YEAR)) == Some(optimal_rate()),
        (U64F64 { bits: SCALE }).quot(U64F64::of_int(YEAR)) == Some(max_rate()),
        optimal_rate().quot(optimal_util()) == Some(U64F64 { bits: LOW_SLOPE_BITS }),
        max_rate().diff(optimal_rate()) == Some(U64F64 { bits: 526448175620 }),
        (U64F64 { bits: SCALE }).diff(optimal_util()) == Some(U64F64 { bits: 0x4CCC_CCCC_CCCC_D000 }),
        (U64F64 { bits: 526448175620 }).quot(U64F64 { bits: 0x4CCC_CCCC_CCCC_D000 }) == Some(
            U64F64 { bits: HIGH_SLOPE_BITS },
        ),
{
}

/// The curve never leaves the range from zero to the maximum rate, and at a
/// utilization of at most one every step of its computation is representable.
pub proof fn lemma_rate_curve_steps(utilization: U64F64)
    requires
        utilization.bits <= SCALE,
    ensures
        rate_curve(utilization).bits <= MAX_RATE_BITS,
        utilization.bits > OPTIMAL_UTIL_BITS ==> {
            &&& utilization.diff(optimal_util()) is Some
            &&& (U64F64 { bits: HIGH_SLOPE_BITS }).prod(utilization.diff(optimal_util())->0) is Some
            &&& optimal_rate().sum(
                (U64F64 { bits: HIGH_SLOPE_BITS }).prod(utilization.diff(optimal_util())->0)->0,
            ) == Some(rate_curve(utilization))
        },
        utilization.bits <= OPTIMAL_UTIL_BITS ==> (U64F64 { bits: LOW_SLOPE_BITS }).prod(
            utilization,
        ) == Some(rate_curve(utilization)),
{
}

/// The rate never falls as the utilization rises, and it reaches the
/// optimal rate at the bend without ever stepping down there.
pub proof fn lemma_rate_curve_rises(lower: U64F64, higher: U64F64)
    requires
        lower.bits <= higher.bits <= SCALE,
    ensures
        rate_curve(lower).bits <= rate_curve(higher).bits,
        rate_curve(U64F64 { bits: 0 }).bits == 0,
        rate_curve(optimal_util()).bits <= OPTIMAL_RATE_BITS,
{
}

} // verus!
