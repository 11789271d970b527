//! Numbers as they reach the library: IEEE-754 doubles carried by their bit
//! pattern. Comparison goes through an integer order key, which orders every
//! non-NaN double exactly as the double itself compares (`-0.0` and `0.0`
//! share a key), and NaN compares false against everything.

use vstd::prelude::*;

verus! {

/// Mask for everything but the sign bit.
pub const MAGNITUDE_MASK: u64 = 0x7FFF_FFFF_FFFF_FFFF;

/// Bit pattern of positive infinity: every magnitude above it is a NaN.
pub const INFINITY_MAGNITUDE: u64 = 0x7FF0_0000_0000_0000;

/// An IEEE-754 double, held as its bit pattern.
#[derive(Debug, Clone, Copy, PartialEq, Eq, Structural)]
pub struct Num {
    pub bits: u64,
}

pub open spec fn magnitude(bits: u64) -> u64 {
    bits & MAGNITUDE_MASK
}

pub open spec fn negative(bits: u64) -> bool {
    bits >> 63u64 == 1
}

/// The order key of a double: its magnitude bits, negated for a negative
/// sign. For non-NaN doubles `a <= b` holds exactly when
/// `order_key(a) <= order_key(b)`.
pub open spec fn order_key(n: Num) -> int {
    if negative(n.bits) {
        -(magnitude(n.bits) as int)
    } else {
        magnitude(n.bits) as int
    }
}

pub open spec fn num_is_nan(n: Num) -> bool {
    magnitude(n.bits) > INFINITY_MAGNITUDE
}

pub open spec fn num_is_finite(n: Num) -> bool {
    magnitude(n.bits) < INFINITY_MAGNITUDE
}

/// `a <= b` on doubles.
pub open spec fn num_le(a: Num, b: Num) -> bool {
    !num_is_nan(a) && !num_is_nan(b) && order_key(a) <= order_key(b)
}

/// `a < b` on doubles.
pub open spec fn num_lt(a: Num, b: Num) -> bool {
    !num_is_nan(a) && !num_is_nan(b) && order_key(a) < order_key(b)
}

proof fn lemma_magnitude_bound(bits: u64)
    ensures
        magnitude(bits) <= MAGNITUDE_MASK,
{
    assert(bits & 0x7FFF_FFFF_FFFF_FFFFu64 <= 0x7FFF_FFFF_FFFF_FFFFu64) by (bit_vector);
}

impl Num {
    pub fn from_bits(bits: u64) -> (n: Num)
        ensures
            n.bits == bits,
    {
        Num { bits }
    }

    pub fn to_bits(self) -> (b: u64)
        ensures
            b == self.bits,
    {
        self.bits
    }

    /// The order key, see [`order_key`].
    pub fn key(self) -> (k: i64)
        ensures
            k == order_key(self),
    {
        proof {
            lemma_magnitude_bound(self.bits);
        }
        let mag = self.bits & MAGNITUDE_MASK;
        if self.bits >> 63u64 == 1 {
            -(mag as i64)
        } else {
            mag as i64
        }
    }

    pub fn is_nan(self) -> (r: bool)
        ensures
            r == num_is_nan(self),
    {
        (self.bits & MAGNITUDE_MASK) > INFINITY_MAGNITUDE
    }

    pub fn is_finite(self) -> (r: bool)
        ensures
            r == num_is_finite(self),
    {
        (self.bits & MAGNITUDE_MASK) < INFINITY_MAGNITUDE
    }

    /// `self <= other` as doubles compare.
    pub fn le(self, other: Num) -> (r: bool)
        ensures
            r == num_le(self, other),
    {
        !self.is_nan() && !other.is_nan() && self.key() <= other.key()
    }

    /// `self < other` as doubles compare.
    pub fn lt(self, other: Num) -> (r: bool)
        ensures
            r == num_lt(self, other),
    {
        !self.is_nan() && !other.is_nan() && self.key() < other.key()
    }
}

} // verus!
