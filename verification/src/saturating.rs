use vstd::prelude::*;

verus! {

/// The value `value` saturated into the range `0..=max`.
pub open spec fn clamp_to(value: int, max: int) -> int {
    if value < 0 {
        0
    } else if value > max {
        max
    } else {
        value
    }
}

/// Adding a signed amount to an unsigned value, clamped to the value's range.
pub trait SaturatingAddSigned: Sized {
    type Signed;

    /// The sum of `self` and `other`, clamped to the range of `Self`.
    spec fn spec_saturating_add_signed(&self, other: &Self::Signed) -> Self;

    #[must_use]
    fn saturating_add_signed(&self, other: &Self::Signed) -> (res: Self)
        ensures
            res == self.spec_saturating_add_signed(other),
    ;
}

/// Subtraction that stops at the smallest value instead of wrapping.
pub trait SaturatingSub: Sized {
    spec fn spec_saturating_sub(&self, other: &Self) -> Self;

    #[must_use]
    fn saturating_sub(&self, other: &Self) -> (res: Self)
        ensures
            res == self.spec_saturating_sub(other),
    ;
}

impl SaturatingAddSigned for u8 {
    type Signed = i8;

    open spec fn spec_saturating_add_signed(&self, other: &i8) -> u8 {
        clamp_to(*self + *other, u8::MAX as int) as u8
    }

    fn saturating_add_signed(&self, other: &i8) -> (res: u8) {
        match self.checked_add_signed(*other) {
            Some(value) => value,
            None => if *other < 0 {
                0
            } else {
                u8::MAX
            },
        }
    }
}

impl SaturatingSub for u8 {
    open spec fn spec_saturating_sub(&self, other: &u8) -> u8 {
        clamp_to(*self - *other, u8::MAX as int) as u8
    }

    fn saturating_sub(&self, other: &u8) -> (res: u8) {
        u8::saturating_sub(*self, *other)
    }
}

impl SaturatingAddSigned for u16 {
    type Signed = i16;

    open spec fn spec_saturating_add_signed(&self, other: &i16) -> u16 {
        clamp_to(*self + *other, u16::MAX as int) as u16
    }

    fn saturating_add_signed(&self, other: &i16) -> (res: u16) {
        match self.checked_add_signed(*other) {
            Some(value) => value,
            None => if *other < 0 {
                0
            } else {
                u16::MAX
            },
        }
    }
}

impl SaturatingSub for u16 {
    open spec fn spec_saturating_sub(&self, other: &u16) -> u16 {
        clamp_to(*self - *other, u16::MAX as int) as u16
    }

    fn saturating_sub(&self, other: &u16) -> (res: u16) {
        u16::saturating_sub(*self, *other)
    }
}

impl SaturatingAddSigned for u32 {
    type Signed = i32;

    open spec fn spec_saturating_add_signed(&self, other: &i32) -> u32 {
        clamp_to(*self + *other, u32::MAX as int) as u32
    }

    fn saturating_add_signed(&self, other: &i32) -> (res: u32) {
        match self.checked_add_signed(*other) {
            Some(value) => value,
            None => if *other < 0 {
                0
            } else {
                u32::MAX
            },
        }
    }
}

impl SaturatingSub for u32 {
    open spec fn spec_saturating_sub(&self, other: &u32) -> u32 {
        clamp_to(*self - *other, u32::MAX as int) as u32
    }

    fn saturating_sub(&self, other: &u32) -> (res: u32) {
        u32::saturating_sub(*self, *other)
    }
}

impl SaturatingAddSigned for u64 {
    type Signed = i64;

    open spec fn spec_saturating_add_signed(&self, other: &i64) -> u64 {
        clamp_to(*self + *other, u64::MAX as int) as u64
    }

    fn saturating_add_signed(&self, other: &i64) -> (res: u64) {
        match self.checked_add_signed(*other) {
            Some(value) => value,
            None => if *other < 0 {
                0
            } else {
                u64::MAX
            },
        }
    }
}

impl SaturatingSub for u64 {
    open spec fn spec_saturating_sub(&self, other: &u64) -> u64 {
        clamp_to(*self - *other, u64::MAX as int) as u64
    }

    fn saturating_sub(&self, other: &u64) -> (res: u64) {
        u64::saturating_sub(*self, *other)
    }
}

impl SaturatingAddSigned for u128 {
    type Signed = i128;

    open spec fn spec_saturating_add_signed(&self, other: &i128) -> u128 {
        clamp_to(*self + *other, u128::MAX as int) as u128
    }

    fn saturating_add_signed(&self, other: &i128) -> (res: u128) {
        match self.checked_add_signed(*other) {
            Some(value) => value,
            None => if *other < 0 {
                0
            } else {
                u128::MAX
            },
        }
    }
}

impl SaturatingSub for u128 {
    open spec fn spec_saturating_sub(&self, other: &u128) -> u128 {
        clamp_to(*self - *other, u128::MAX as int) as u128
    }

    fn saturating_sub(&self, other: &u128) -> (res: u128) {
        u128::saturating_sub(*self, *other)
    }
}

impl SaturatingAddSigned for usize {
    type Signed = isize;

    open spec fn spec_saturating_add_signed(&self, other: &isize) -> usize {
        clamp_to(*self + *other, usize::MAX as int) as usize
    }

    fn saturating_add_signed(&self, other: &isize) -> (res: usize) {
        match self.checked_add_signed(*other) {
            Some(value) => value,
            None => if *other < 0 {
                0
            } else {
                usize::MAX
            },
        }
    }
}

impl SaturatingSub for usize {
    open spec fn spec_saturating_sub(&self, other: &usize) -> usize {
        clamp_to(*self - *other, usize::MAX as int) as usize
    }

    fn saturating_sub(&self, other: &usize) -> (res: usize) {
        usize::saturating_sub(*self, *other)
    }
}

} // verus!
