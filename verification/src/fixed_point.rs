use vstd::prelude::*;

verus! {

/// The weight of one integer unit in the bit pattern: 2^64.
pub const SCALE: u128 = 0x1_0000_0000_0000_0000;

/// An unsigned fixed-point number with 64 integer and 64 fractional bits.
/// The number it stands for is `bits / 2^64`.
#[derive(Clone, Copy, PartialEq, Eq, Structural, Debug)]
pub struct U64F64 {
    pub bits: u128,
}

impl U64F64 {
    /// The number `n`.
    pub open spec fn of_int(n: u64) -> U64F64 {
        U64F64 { bits: (n * SCALE) as u128 }
    }

    /// The integer part.
    pub open spec fn int_part(self) -> u64 {
        (self.bits / SCALE) as u64
    }

    /// The fractional part, in units of 2^-64.
    pub open spec fn frac_part(self) -> int {
        self.bits as int % SCALE as int
    }

    /// The sum, where it is representable.
    pub open spec fn sum(self, rhs: U64F64) -> Option<U64F64> {
        if self.bits + rhs.bits <= u128::MAX {
            Some(U64F64 { bits: (self.bits + rhs.bits) as u128 })
        } else {
            None
        }
    }

    /// The difference, where it is not negative.
    pub open spec fn diff(self, rhs: U64F64) -> Option<U64F64> {
        if rhs.bits <= self.bits {
            Some(U64F64 { bits: (self.bits - rhs.bits) as u128 })
        } else {
            None
        }
    }

    /// The product rounded down to a multiple of 2^-64, where it is representable.
    pub open spec fn prod(self, rhs: U64F64) -> Option<U64F64> {
        let p = self.bits as int * rhs.bits as int / SCALE as int;
        if p <= u128::MAX {
            Some(U64F64 { bits: p as u128 })
        } else {
            None
        }
    }

    /// The quotient rounded down to a multiple of 2^-64, where the divisor is
    /// not zero and the quotient is representable.
    pub open spec fn quot(self, rhs: U64F64) -> Option<U64F64> {
        if rhs.bits == 0 {
            None
        } else {
            let q = self.bits as int * SCALE as int / rhs.bits as int;
            if q <= u128::MAX {
                Some(U64F64 { bits: q as u128 })
            } else {
                None
            }
        }
    }

    /// The largest integer not above the number.
    pub open spec fn floor(self) -> U64F64 {
        U64F64 { bits: (self.bits - self.frac_part()) as u128 }
    }

    /// The smallest integer not below the number, where it is representable.
    pub open spec fn ceil(self) -> Option<U64F64> {
        if self.frac_part() == 0 {
            Some(self)
        } else {
            self.floor().sum(U64F64 { bits: SCALE })
        }
    }

    pub fn from_bits(bits: u128) -> (r: U64F64)
        ensures
            r.bits == bits,
    {
        U64F64 { bits }
    }

    pub fn to_bits(self) -> (r: u128)
        ensures
            r == self.bits,
    {
        self.bits
    }

    pub fn zero() -> (r: U64F64)
        ensures
            r.bits == 0,
    {
        U64F64 { bits: 0 }
    }

    pub fn one() -> (r: U64F64)
        ensures
            r.bits == SCALE,
    {
        U64F64 { bits: SCALE }
    }

    /// The largest representable number.
    pub fn max_value() -> (r: U64F64)
        ensures
            r.bits == u128::MAX,
    {
        U64F64 { bits: u128::MAX }
    }

    /// The number `n`.
    pub fn from_num(n: u64) -> (r: U64F64)
        ensures
            r == U64F64::of_int(n),
    {
        U64F64 { bits: (n as u128) * SCALE }
    }

    /// Rounds down.
    pub fn to_num(self) -> (r: u64)
        ensures
            r == self.int_part(),
    {
        (self.bits / SCALE) as u64
    }

    /// The sum; `None` where it is not representable.
    pub fn checked_add(self, rhs: U64F64) -> (r: Option<U64F64>)
        ensures
            r == self.sum(rhs),
    {
        match self.bits.checked_add(rhs.bits) {
            Some(bits) => Some(U64F64 { bits }),
            None => None,
        }
    }

    /// The difference; `None` where it would be negative.
    pub fn checked_sub(self, rhs: U64F64) -> (r: Option<U64F64>)
        ensures
            r == self.diff(rhs),
    {
        match self.bits.checked_sub(rhs.bits) {
            Some(bits) => Some(U64F64 { bits }),
            None => None,
        }
    }

    /// The product, rounded down; `None` where it is not representable.
    pub fn checked_mul(self, rhs: U64F64) -> (r: Option<U64F64>)
        ensures
            r == self.prod(rhs),
    {
        fixed_checked_mul(self, rhs)
    }

    /// The quotient, rounded down; `None` for a zero divisor and where the
    /// quotient is not representable.
    pub fn checked_div(self, rhs: U64F64) -> (r: Option<U64F64>)
        ensures
            r == self.quot(rhs),
    {
        fixed_checked_div(self, rhs)
    }

    /// The number rounded down to an integer, which is always representable.
    pub fn checked_floor(self) -> (r: Option<U64F64>)
        ensures
            r == Some(self.floor()),
    {
        Some(U64F64 { bits: self.bits - self.bits % SCALE })
    }

    /// The number rounded up to an integer; `None` where that is not
    /// representable.
    pub fn checked_ceil(self) -> (r: Option<U64F64>)
        ensures
            r == self.ceil(),
    {
        let frac: u128 = self.bits % SCALE;
        if frac == 0 {
            Some(self)
        } else {
            match (self.bits - frac).checked_add(SCALE) {
                Some(bits) => Some(U64F64 { bits }),
                None => None,
            }
        }
    }
}

/// `fixed::types::U64F64::checked_mul`: multiplies the two bit patterns as
/// integers, drops the low 64 bits of the product, and reports overflow when
/// what remains does not fit in 128 bits.
#[verifier::external_body]
fn fixed_checked_mul(a: U64F64, b: U64F64) -> (r: Option<U64F64>)
    ensures
        r == a.prod(b),
{
    let x = fixed::types::U64F64::from_bits(a.bits);
    let y = fixed::types::U64F64::from_bits(b.bits);
    match x.checked_mul(y) {
        Some(p) => Some(U64F64 { bits: p.to_bits() }),
        None => None,
    }
}

/// `fixed::types::U64F64::checked_div`: returns `None` for a zero divisor;
/// otherwise shifts the dividend's bit pattern left by 64 bits, divides it by
/// the divisor's as integers, rounding down, and reports overflow when the
/// quotient does not fit in 128 bits.
#[verifier::external_body]
fn fixed_checked_div(a: U64F64, b: U64F64) -> (r: Option<U64F64>)
    ensures
        r == a.quot(b),
{
    let x = fixed::types::U64F64::from_bits(a.bits);
    let y = fixed::types::U64F64::from_bits(b.bits);
    match x.checked_div(y) {
        Some(q) => Some(U64F64 { bits: q.to_bits() }),
        None => None,
    }
}

} // verus!
