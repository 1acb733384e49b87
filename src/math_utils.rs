use vstd::prelude::*;

verus! {

/// Addition of a signed offset to an unsigned integer, wrapping around at the
/// width of the unsigned type in both directions.
pub trait MixedIntegerOps: Sized {
    /// The mathematical sum `self + rhs`, reduced into the range of `Self`.
    spec fn add_signed_wrapped(self, rhs: i32) -> Self;

    fn wrapping_add_signed(self, rhs: i32) -> (r: Self)
        ensures
            r == self.add_signed_wrapped(rhs),
    ;
}

/// `x` brought into `[0, modulus)` by adding or subtracting `modulus` once;
/// enough for the sum of a value of the type and an `i32`.
pub open spec fn wrap_once(x: int, modulus: int) -> int {
    if x >= modulus {
        x - modulus
    } else if x < 0 {
        x + modulus
    } else {
        x
    }
}

impl MixedIntegerOps for u32 {
    open spec fn add_signed_wrapped(self, rhs: i32) -> u32 {
        wrap_once(self + rhs, 0x1_0000_0000) as u32
    }

    fn wrapping_add_signed(self, rhs: i32) -> (r: u32) {
        if rhs >= 0 {
            self.wrapping_add(rhs as u32)
        } else {
            let magnitude: u32 = (0 - (rhs as i64)) as u32;
            self.wrapping_sub(magnitude)
        }
    }
}

impl MixedIntegerOps for usize {
    open spec fn add_signed_wrapped(self, rhs: i32) -> usize {
        wrap_once(self + rhs, usize::MAX + 1) as usize
    }

    fn wrapping_add_signed(self, rhs: i32) -> (r: usize) {
        if rhs >= 0 {
            self.wrapping_add(rhs as usize)
        } else {
            let magnitude: usize = (0 - (rhs as i64)) as usize;
            self.wrapping_sub(magnitude)
        }
    }
}

} // verus!
