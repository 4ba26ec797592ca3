//! Single-precision numbers by their bits.
//!
//! The rules of this library ask of such a number only whether it is finite,
//! where it stands among others, and whether it lies between zero and one.
//! All of that can be read off its bits.

use vstd::prelude::*;

verus! {

/// The bits of a number in the IEEE 754 binary32 format.
#[derive(Clone, Copy, Debug, PartialEq, Eq, Hash, Structural)]
pub struct FloatBits(pub u32);

/// The bits of the number one.
pub const ONE_BITS: u32 = 0x3f80_0000;

impl FloatBits {
    /// The bits but for the sign.
    pub open spec fn magnitude(self) -> int {
        self.0 as int % 0x8000_0000
    }

    /// The sign bit is set.
    pub open spec fn negative(self) -> bool {
        self.0 >= 0x8000_0000
    }

    /// Neither infinite nor not a number: the exponent is not all ones.
    pub open spec fn finite(self) -> bool {
        self.magnitude() < 0x7f80_0000
    }

    /// Where a finite number stands: of two finite numbers the smaller has the
    /// smaller rank, and both zeros have rank zero.
    pub open spec fn rank(self) -> int {
        if self.negative() {
            -self.magnitude()
        } else {
            self.magnitude()
        }
    }

    /// From zero to one, both included.
    pub open spec fn in_unit_range(self) -> bool {
        self.finite() && 0 <= self.rank() <= ONE_BITS
    }

    /// Whether the number is neither infinite nor not a number.
    pub fn is_finite(self) -> (finite: bool)
        ensures
            finite == self.finite(),
    {
        self.0 % 0x8000_0000 < 0x7f80_0000
    }

    /// Where a number stands.
    pub fn order(self) -> (rank: i64)
        ensures
            rank == self.rank(),
    {
        let magnitude: i64 = (self.0 % 0x8000_0000) as i64;
        if self.0 >= 0x8000_0000 {
            -magnitude
        } else {
            magnitude
        }
    }

    /// Whether the number is from zero to one.
    pub fn is_normalized(self) -> (normalized: bool)
        ensures
            normalized == self.in_unit_range(),
    {
        self.is_finite() && 0 <= self.order() && self.order() <= ONE_BITS as i64
    }

    /// A number that is finite, or another one.
    pub open spec fn or_finite(self, fallback: FloatBits) -> FloatBits {
        if self.finite() {
            self
        } else {
            fallback
        }
    }

    /// The number itself where it is finite, and another one where it is not.
    pub fn finite_or(self, fallback: FloatBits) -> (value: FloatBits)
        ensures
            value == self.or_finite(fallback),
    {
        if self.is_finite() {
            self
        } else {
            fallback
        }
    }

    /// The number, or the bound that it is beyond.
    pub open spec fn within(self, low: FloatBits, high: FloatBits) -> FloatBits {
        if self.rank() < low.rank() {
            low
        } else if self.rank() > high.rank() {
            high
        } else {
            self
        }
    }

    /// The number, or the bound that it is beyond.
    pub fn clamped(self, low: FloatBits, high: FloatBits) -> (value: FloatBits)
        requires
            low.rank() <= high.rank(),
        ensures
            value == self.within(low, high),
            low.rank() <= value.rank() <= high.rank(),
    {
        if self.order() < low.order() {
            low
        } else if self.order() > high.order() {
            high
        } else {
            self
        }
    }

    /// The number, or a bound that it is above.
    pub open spec fn up_to(self, bound: FloatBits) -> FloatBits {
        if self.rank() <= bound.rank() {
            self
        } else {
            bound
        }
    }

    /// The number, or a bound that it is above.
    pub fn at_most(self, bound: FloatBits) -> (value: FloatBits)
        ensures
            value == self.up_to(bound),
    {
        if self.order() <= bound.order() {
            self
        } else {
            bound
        }
    }

    /// The number, or a bound that it is below.
    pub open spec fn from_bound(self, bound: FloatBits) -> FloatBits {
        if self.rank() >= bound.rank() {
            self
        } else {
            bound
        }
    }

    /// The number, or a bound that it is below.
    pub fn at_least(self, bound: FloatBits) -> (value: FloatBits)
        ensures
            value == self.from_bound(bound),
    {
        if self.order() >= bound.order() {
            self
        } else {
            bound
        }
    }

    /// The number with the other sign.
    pub open spec fn opposite(self) -> FloatBits {
        if self.negative() {
            FloatBits((self.0 - 0x8000_0000) as u32)
        } else {
            FloatBits((self.0 + 0x8000_0000) as u32)
        }
    }

    /// The number with the other sign.
    pub fn negated(self) -> (value: FloatBits)
        ensures
            value == self.opposite(),
            value.rank() == -self.rank(),
            value.finite() == self.finite(),
    {
        if self.0 >= 0x8000_0000 {
            FloatBits(self.0 - 0x8000_0000)
        } else {
            FloatBits(self.0 + 0x8000_0000)
        }
    }

    /// A finite number above zero.
    pub open spec fn is_positive(self) -> bool {
        self.finite() && self.rank() > 0
    }

    /// Whether the number is finite and above zero.
    pub fn positive(self) -> (positive: bool)
        ensures
            positive == self.is_positive(),
    {
        self.is_finite() && self.order() > 0
    }

    /// Whether two finite numbers are equal. Both zeros are.
    pub fn same_value(self, other: FloatBits) -> (same: bool)
        ensures
            same == (self.rank() == other.rank()),
    {
        self.order() == other.order()
    }
}

/// A number is finite unless its exponent is all ones, that is unless its bits but for the
/// sign are those of infinity or above. It is above zero if and only if it is finite, has
/// no sign and is not zero, and from zero to one if and only if it is a zero or its bits
/// are no more than those of one.
pub proof fn law_bits_tell_what_a_number_is(value: FloatBits)
    ensures
        value.finite() <==> value.0 < 0x7f80_0000 || 0x8000_0000 <= value.0 < 0xff80_0000,
        value.is_positive() <==> 0 < value.0 < 0x7f80_0000,
        value.in_unit_range() <==> value.0 <= 0x3f80_0000 || value.0 == 0x8000_0000,
        value.rank() == 0 <==> value.0 == 0 || value.0 == 0x8000_0000,
{
}

/// Of two numbers without a sign the one with the greater bits is the greater, of two with
/// a sign the one with the smaller bits, and one with a sign is never the greater.
pub proof fn law_ranks_are_in_the_order_of_numbers(a: FloatBits, b: FloatBits)
    ensures
        a.0 < 0x8000_0000 && b.0 < 0x8000_0000 ==> (a.rank() < b.rank() <==> a.0 < b.0),
        a.0 >= 0x8000_0000 && b.0 >= 0x8000_0000 ==> (a.rank() < b.rank() <==> a.0 > b.0),
        a.0 >= 0x8000_0000 && b.0 < 0x8000_0000 ==> a.rank() <= b.rank(),
{
}

/// The opposite of a number is as far from zero on the other side, and its opposite is the
/// number again.
pub proof fn law_opposites_are_mirrored(value: FloatBits)
    ensures
        value.opposite().rank() == -value.rank(),
        value.opposite().opposite() == value,
        value.opposite() != value,
        value.opposite().finite() == value.finite(),
{
}

/// A number that is brought within bounds is the number where it lies within them, and else
/// the bound that is nearer.
pub proof fn law_bounded_numbers_are_the_nearest(
    value: FloatBits,
    low: FloatBits,
    high: FloatBits,
    fallback: FloatBits,
)
    requires
        low.rank() <= high.rank(),
    ensures
        low.rank() <= value.within(low, high).rank() <= high.rank(),
        low.rank() <= value.rank() <= high.rank() ==> value.within(low, high) == value,
        value.rank() < low.rank() ==> value.within(low, high) == low,
        value.rank() > high.rank() ==> value.within(low, high) == high,
        value.up_to(high).rank() <= high.rank() && value.up_to(high).rank() <= value.rank(),
        value.up_to(high) == value || value.up_to(high) == high,
        value.from_bound(low).rank() >= low.rank() && value.from_bound(low).rank()
            >= value.rank(),
        value.from_bound(low) == value || value.from_bound(low) == low,
        value.finite() ==> value.or_finite(fallback) == value,
        !value.finite() ==> value.or_finite(fallback) == fallback,
{
}

} // verus!
