//! Unsigned words of a fixed width, seen through their bit patterns.

use vstd::prelude::*;

verus! {

/// The low `w` bits set, for `1 <= w <= 64`.
pub open spec fn mask(w: u64) -> u64 {
    0xffff_ffff_ffff_ffffu64 >> ((64 - w) as u64)
}

/// Bit `k` (counted from the least significant end) of `v`.
pub open spec fn bit_of(v: u64, k: u64) -> bool {
    (v >> k) & 1u64 == 1u64
}

/// An unsigned integer container of a fixed width: the operations a repacking
/// needs, each stated over the word's bit pattern zero-extended to 64 bits.
pub trait BitWord: Sized + Copy {
    /// Number of bits in a word of this type.
    spec fn spec_width() -> u64;

    /// The word's bit pattern, zero-extended to 64 bits.
    spec fn spec_bits(&self) -> u64;

    /// Number of bits in a word of this type.
    fn width() -> (r: usize)
        ensures
            r as u64 == Self::spec_width(),
            1 <= r <= 64,
    ;

    /// The word with no bit set.
    fn zero() -> (r: Self)
        ensures
            r.spec_bits() == 0,
    ;

    /// The word with only bit 0 set.
    fn one() -> (r: Self)
        ensures
            r.spec_bits() == 1,
    ;

    /// The word's bit pattern, zero-extended to 64 bits.
    fn to_u64(&self) -> (r: u64)
        ensures
            r == self.spec_bits(),
    ;

    /// The word that holds `v`, where it fits.
    fn from_u64(v: u64) -> (r: Option<Self>)
        ensures
            r is Some <==> v <= mask(Self::spec_width()),
            r matches Some(w) ==> w.spec_bits() == v,
    ;

    /// Logical shift right by `amount`.
    fn shift_right(&self, amount: &Self) -> (r: Self)
        requires
            amount.spec_bits() < Self::spec_width(),
        ensures
            r.spec_bits() == self.spec_bits() >> amount.spec_bits(),
    ;

    /// Shift left by `amount`; bits pushed past the width are lost.
    fn shift_left(&self, amount: &Self) -> (r: Self)
        requires
            amount.spec_bits() < Self::spec_width(),
        ensures
            r.spec_bits() == (self.spec_bits() << amount.spec_bits()) & mask(Self::spec_width()),
    ;

    /// Bitwise and.
    fn bit_and(&self, other: &Self) -> (r: Self)
        ensures
            r.spec_bits() == self.spec_bits() & other.spec_bits(),
    ;

    /// Bitwise or.
    fn bit_or(&self, other: &Self) -> (r: Self)
        ensures
            r.spec_bits() == self.spec_bits() | other.spec_bits(),
    ;
}

impl BitWord for u8 {
    open spec fn spec_width() -> u64 {
        8
    }

    open spec fn spec_bits(&self) -> u64 {
        *self as u64
    }

    fn width() -> (r: usize) {
        8
    }

    fn zero() -> (r: Self) {
        0
    }

    fn one() -> (r: Self) {
        1
    }

    fn to_u64(&self) -> (r: u64) {
        *self as u64
    }

    fn from_u64(v: u64) -> (r: Option<Self>) {
        assert(mask(8) == 0xff) by (bit_vector);
        if v <= 0xff {
            Some(v as u8)
        } else {
            None
        }
    }

    fn shift_right(&self, amount: &Self) -> (r: Self) {
        let (x, a) = (*self, *amount);
        assert((x >> a) as u64 == (x as u64) >> (a as u64)) by (bit_vector)
            requires
                a < 8,
        ;
        x >> a
    }

    fn shift_left(&self, amount: &Self) -> (r: Self) {
        let (x, a) = (*self, *amount);
        assert((x << a) as u64 == ((x as u64) << (a as u64)) & mask(8)) by (bit_vector)
            requires
                a < 8,
        ;
        x << a
    }

    fn bit_and(&self, other: &Self) -> (r: Self) {
        *self & *other
    }

    fn bit_or(&self, other: &Self) -> (r: Self) {
        *self | *other
    }
}

impl BitWord for u16 {
    open spec fn spec_width() -> u64 {
        16
    }

    open spec fn spec_bits(&self) -> u64 {
        *self as u64
    }

    fn width() -> (r: usize) {
        16
    }

    fn zero() -> (r: Self) {
        0
    }

    fn one() -> (r: Self) {
        1
    }

    fn to_u64(&self) -> (r: u64) {
        *self as u64
    }

    fn from_u64(v: u64) -> (r: Option<Self>) {
        assert(mask(16) == 0xffff) by (bit_vector);
        if v <= 0xffff {
            Some(v as u16)
        } else {
            None
        }
    }

    fn shift_right(&self, amount: &Self) -> (r: Self) {
        let (x, a) = (*self, *amount);
        assert((x >> a) as u64 == (x as u64) >> (a as u64)) by (bit_vector)
            requires
                a < 16,
        ;
        x >> a
    }

    fn shift_left(&self, amount: &Self) -> (r: Self) {
        let (x, a) = (*self, *amount);
        assert((x << a) as u64 == ((x as u64) << (a as u64)) & mask(16)) by (bit_vector)
            requires
                a < 16,
        ;
        x << a
    }

    fn bit_and(&self, other: &Self) -> (r: Self) {
        *self & *other
    }

    fn bit_or(&self, other: &Self) -> (r: Self) {
        *self | *other
    }
}

impl BitWord for u32 {
    open spec fn spec_width() -> u64 {
        32
    }

    open spec fn spec_bits(&self) -> u64 {
        *self as u64
    }

    fn width() -> (r: usize) {
        32
    }

    fn zero() -> (r: Self) {
        0
    }

    fn one() -> (r: Self) {
        1
    }

    fn to_u64(&self) -> (r: u64) {
        *self as u64
    }

    fn from_u64(v: u64) -> (r: Option<Self>) {
        assert(mask(32) == 0xffff_ffff) by (bit_vector);
        if v <= 0xffff_ffff {
            Some(v as u32)
        } else {
            None
        }
    }

    fn shift_right(&self, amount: &Self) -> (r: Self) {
        let (x, a) = (*self, *amount);
        assert((x >> a) as u64 == (x as u64) >> (a as u64)) by (bit_vector)
            requires
                a < 32,
        ;
        x >> a
    }

    fn shift_left(&self, amount: &Self) -> (r: Self) {
        let (x, a) = (*self, *amount);
        assert((x << a) as u64 == ((x as u64) << (a as u64)) & mask(32)) by (bit_vector)
            requires
                a < 32,
        ;
        x << a
    }

    fn bit_and(&self, other: &Self) -> (r: Self) {
        *self & *other
    }

    fn bit_or(&self, other: &Self) -> (r: Self) {
        *self | *other
    }
}

impl BitWord for u64 {
    open spec fn spec_width() -> u64 {
        64
    }

    open spec fn spec_bits(&self) -> u64 {
        *self
    }

    fn width() -> (r: usize) {
        64
    }

    fn zero() -> (r: Self) {
        0
    }

    fn one() -> (r: Self) {
        1
    }

    fn to_u64(&self) -> (r: u64) {
        *self
    }

    fn from_u64(v: u64) -> (r: Option<Self>) {
        assert(v <= mask(64)) by (bit_vector);
        Some(v)
    }

    fn shift_right(&self, amount: &Self) -> (r: Self) {
        *self >> *amount
    }

    fn shift_left(&self, amount: &Self) -> (r: Self) {
        let (x, a) = (*self, *amount);
        assert(x << a == (x << a) & mask(64)) by (bit_vector);
        x << a
    }

    fn bit_and(&self, other: &Self) -> (r: Self) {
        *self & *other
    }

    fn bit_or(&self, other: &Self) -> (r: Self) {
        *self | *other
    }
}

} // verus!
