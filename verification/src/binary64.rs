use vstd::prelude::*;
use vstd::std_specs::cmp::PartialEqSpecImpl;

verus! {

/// Mask that clears the sign bit of a binary64 bit pattern.
pub const MAGNITUDE_MASK: u64 = 0x7fff_ffff_ffff_ffff;

/// Magnitude of the two infinities; every larger magnitude is a NaN.
pub const INFINITY_MAGNITUDE: u64 = 0x7ff0_0000_0000_0000;

/// An IEEE 754 binary64 value, held as its bit pattern.
///
/// The library never computes with such a value itself: it compares values,
/// classifies them, and hands arithmetic to the caller as a [`crate::formula::Formula`].
#[derive(Clone, Copy, Debug)]
pub struct Binary64 {
    pub bits: u64,
}

impl Binary64 {
    /// The bit pattern without its sign.
    pub open spec fn magnitude(self) -> u64 {
        self.bits & MAGNITUDE_MASK
    }

    pub open spec fn is_nan(self) -> bool {
        self.magnitude() > INFINITY_MAGNITUDE
    }

    pub open spec fn is_infinite(self) -> bool {
        self.magnitude() == INFINITY_MAGNITUDE
    }

    pub open spec fn is_zero(self) -> bool {
        self.magnitude() == 0
    }

    /// IEEE 754 equality: a NaN equals nothing, the two zeros equal each
    /// other, and any other two values are equal when their bits are.
    pub open spec fn same_value(self, other: Binary64) -> bool {
        &&& !self.is_nan()
        &&& !other.is_nan()
        &&& (self.bits == other.bits || (self.is_zero() && other.is_zero()))
    }

    pub fn from_bits(bits: u64) -> (value: Binary64)
        ensures
            value.bits == bits,
    {
        Binary64 { bits }
    }

    pub fn to_bits(&self) -> (bits: u64)
        ensures
            bits == self.bits,
    {
        self.bits
    }

    pub fn nan(&self) -> (r: bool)
        ensures
            r == self.is_nan(),
    {
        (self.bits & MAGNITUDE_MASK) > INFINITY_MAGNITUDE
    }

    pub fn infinite(&self) -> (r: bool)
        ensures
            r == self.is_infinite(),
    {
        (self.bits & MAGNITUDE_MASK) == INFINITY_MAGNITUDE
    }

    pub fn zero(&self) -> (r: bool)
        ensures
            r == self.is_zero(),
    {
        (self.bits & MAGNITUDE_MASK) == 0
    }

    pub fn equals(&self, other: &Binary64) -> (r: bool)
        ensures
            r == self.same_value(*other),
    {
        !self.nan() && !other.nan() && (self.bits == other.bits || (self.zero() && other.zero()))
    }
}

impl PartialEq for Binary64 {
    fn eq(&self, other: &Self) -> (r: bool) {
        self.equals(other)
    }
}

impl PartialEqSpecImpl for Binary64 {
    open spec fn obeys_eq_spec() -> bool {
        true
    }

    open spec fn eq_spec(&self, other: &Self) -> bool {
        self.same_value(*other)
    }
}

} // verus!
