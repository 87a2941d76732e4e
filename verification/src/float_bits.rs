//! A 64-bit floating point number held by its bit pattern.
use vstd::prelude::*;
use vstd::std_specs::cmp::PartialEqSpecImpl;

verus! {

/// A 64-bit IEEE-754 floating point number, held by its bit pattern. Two of
/// them are equal as floating point numbers are: positive and negative zero
/// are equal, and a NaN is equal to nothing, itself included.
#[derive(Clone, Copy, Debug)]
pub struct FloatBits(pub u64);

/// Whether the bit pattern `x` is a NaN: all exponent bits set and a
/// mantissa other than zero.
pub open spec fn is_nan_bits(x: u64) -> bool {
    (x & 0x7ff0_0000_0000_0000u64) == 0x7ff0_0000_0000_0000u64 && (x & 0x000f_ffff_ffff_ffffu64) != 0
}

/// Whether the floating point numbers with bit patterns `a` and `b` are
/// equal: neither is a NaN, and either both are zeros (of any sign) or the
/// patterns are the same.
pub open spec fn float_bits_eq(a: u64, b: u64) -> bool {
    !is_nan_bits(a) && !is_nan_bits(b) && (
        ((a & 0x7fff_ffff_ffff_ffffu64) == 0 && (b & 0x7fff_ffff_ffff_ffffu64) == 0) || a == b)
}

impl PartialEq for FloatBits {
    fn eq(&self, other: &FloatBits) -> (r: bool) {
        let a = self.0;
        let b = other.0;
        let a_nan = (a & 0x7ff0_0000_0000_0000u64) == 0x7ff0_0000_0000_0000u64 && (a & 0x000f_ffff_ffff_ffffu64) != 0;
        let b_nan = (b & 0x7ff0_0000_0000_0000u64) == 0x7ff0_0000_0000_0000u64 && (b & 0x000f_ffff_ffff_ffffu64) != 0;
        let zeros = (a & 0x7fff_ffff_ffff_ffffu64) == 0 && (b & 0x7fff_ffff_ffff_ffffu64) == 0;
        !a_nan && !b_nan && (zeros || a == b)
    }
}

impl PartialEqSpecImpl for FloatBits {
    open spec fn obeys_eq_spec() -> bool {
        true
    }

    open spec fn eq_spec(&self, other: &FloatBits) -> bool {
        float_bits_eq(self.0, other.0)
    }
}

} // verus!
