//! The primitive types of samples, with their zeros from `num_traits`.

use vstd::prelude::*;

use crate::color::Primitive;

verus! {

/// `num_traits::Zero::zero` for `u8` returns the number zero.
pub assume_specification[ <u8 as num_traits::Zero>::zero ]() -> (r: u8)
    ensures
        r == 0,
;

/// `num_traits::Zero::zero` for `u16` returns the number zero.
pub assume_specification[ <u16 as num_traits::Zero>::zero ]() -> (r: u16)
    ensures
        r == 0,
;

/// `num_traits::Zero::zero` for `u32` returns the number zero.
pub assume_specification[ <u32 as num_traits::Zero>::zero ]() -> (r: u32)
    ensures
        r == 0,
;

/// `num_traits::Zero::zero` for `u64` returns the number zero.
pub assume_specification[ <u64 as num_traits::Zero>::zero ]() -> (r: u64)
    ensures
        r == 0,
;

/// `num_traits::Zero::zero` for `usize` returns the number zero.
pub assume_specification[ <usize as num_traits::Zero>::zero ]() -> (r: usize)
    ensures
        r == 0,
;

/// `num_traits::Zero::zero` for `i8` returns the number zero.
pub assume_specification[ <i8 as num_traits::Zero>::zero ]() -> (r: i8)
    ensures
        r == 0,
;

/// `num_traits::Zero::zero` for `i16` returns the number zero.
pub assume_specification[ <i16 as num_traits::Zero>::zero ]() -> (r: i16)
    ensures
        r == 0,
;

/// `num_traits::Zero::zero` for `i32` returns the number zero.
pub assume_specification[ <i32 as num_traits::Zero>::zero ]() -> (r: i32)
    ensures
        r == 0,
;

/// `num_traits::Zero::zero` for `i64` returns the number zero.
pub assume_specification[ <i64 as num_traits::Zero>::zero ]() -> (r: i64)
    ensures
        r == 0,
;

/// `num_traits::Zero::zero` for `isize` returns the number zero.
pub assume_specification[ <isize as num_traits::Zero>::zero ]() -> (r: isize)
    ensures
        r == 0,
;

impl Primitive for u8 {
    open spec fn spec_bits() -> u8 {
        8
    }

    open spec fn spec_blank() -> u8 {
        0
    }

    fn bits() -> (bits: u8) {
        8
    }

    fn blank() -> (blank: u8) {
        <u8 as num_traits::Zero>::zero()
    }
}

impl Primitive for u16 {
    open spec fn spec_bits() -> u8 {
        16
    }

    open spec fn spec_blank() -> u16 {
        0
    }

    fn bits() -> (bits: u8) {
        16
    }

    fn blank() -> (blank: u16) {
        <u16 as num_traits::Zero>::zero()
    }
}

impl Primitive for u32 {
    open spec fn spec_bits() -> u8 {
        32
    }

    open spec fn spec_blank() -> u32 {
        0
    }

    fn bits() -> (bits: u8) {
        32
    }

    fn blank() -> (blank: u32) {
        <u32 as num_traits::Zero>::zero()
    }
}

impl Primitive for u64 {
    open spec fn spec_bits() -> u8 {
        64
    }

    open spec fn spec_blank() -> u64 {
        0
    }

    fn bits() -> (bits: u8) {
        64
    }

    fn blank() -> (blank: u64) {
        <u64 as num_traits::Zero>::zero()
    }
}

impl Primitive for usize {
    open spec fn spec_bits() -> u8 {
        usize::BITS as u8
    }

    open spec fn spec_blank() -> usize {
        0
    }

    fn bits() -> (bits: u8) {
        usize::BITS as u8
    }

    fn blank() -> (blank: usize) {
        <usize as num_traits::Zero>::zero()
    }
}

impl Primitive for i8 {
    open spec fn spec_bits() -> u8 {
        8
    }

    open spec fn spec_blank() -> i8 {
        0
    }

    fn bits() -> (bits: u8) {
        8
    }

    fn blank() -> (blank: i8) {
        <i8 as num_traits::Zero>::zero()
    }
}

impl Primitive for i16 {
    open spec fn spec_bits() -> u8 {
        16
    }

    open spec fn spec_blank() -> i16 {
        0
    }

    fn bits() -> (bits: u8) {
        16
    }

    fn blank() -> (blank: i16) {
        <i16 as num_traits::Zero>::zero()
    }
}

impl Primitive for i32 {
    open spec fn spec_bits() -> u8 {
        32
    }

    open spec fn spec_blank() -> i32 {
        0
    }

    fn bits() -> (bits: u8) {
        32
    }

    fn blank() -> (blank: i32) {
        <i32 as num_traits::Zero>::zero()
    }
}

impl Primitive for i64 {
    open spec fn spec_bits() -> u8 {
        64
    }

    open spec fn spec_blank() -> i64 {
        0
    }

    fn bits() -> (bits: u8) {
        64
    }

    fn blank() -> (blank: i64) {
        <i64 as num_traits::Zero>::zero()
    }
}

impl Primitive for isize {
    open spec fn spec_bits() -> u8 {
        usize::BITS as u8
    }

    open spec fn spec_blank() -> isize {
        0
    }

    fn bits() -> (bits: u8) {
        usize::BITS as u8
    }

    fn blank() -> (blank: isize) {
        <isize as num_traits::Zero>::zero()
    }
}

} // verus!
