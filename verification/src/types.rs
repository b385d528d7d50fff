use crate::private::Sealed;
use vstd::arithmetic::power2::{lemma2_to64, lemma_pow2_adds, pow2};
use vstd::prelude::*;

verus! {

/// Whether `width` is the byte width of a register type.
pub open spec fn is_register_width(width: nat) -> bool {
    width == 1 || width == 2 || width == 4 || width == 8 || width == 16
}

/// Number of distinct bit patterns of an element `width` bytes wide.
pub open spec fn pattern_count(width: nat) -> nat {
    pow2(8 * width)
}

/// The pattern counts of the five register widths, as numbers.
pub proof fn lemma_pattern_counts()
    ensures
        pattern_count(1) == 0x100,
        pattern_count(2) == 0x1_0000,
        pattern_count(4) == 0x1_0000_0000,
        pattern_count(8) == 0x1_0000_0000_0000_0000,
        pattern_count(16) == 0x1_0000_0000_0000_0000_0000_0000_0000_0000,
{
    lemma2_to64();
    lemma_pow2_adds(64, 64);
}

/// An element type that the bulk operations accept: a fixed-width number that
/// fits a register. The set is closed; it holds the signed and unsigned
/// integers of 8 to 128 bits and the two binary floating-point formats.
///
/// Two elements are compared by their bit patterns. For the integers that is
/// the same as `==`; for the floating-point formats it is not.
pub trait RegisterType: Sealed + Copy + PartialEq {
    /// Width of one element in bytes.
    spec fn spec_width() -> nat;

    /// The bit pattern that the element has in memory, read as an unsigned
    /// number.
    spec fn bits(&self) -> nat;

    /// The width is 1, 2, 4, 8 or 16.
    proof fn lemma_width()
        ensures
            is_register_width(Self::spec_width()),
    ;

    /// The bit pattern fits the element's width.
    proof fn lemma_bits_fit(&self)
        ensures
            self.bits() < pattern_count(Self::spec_width()),
    ;

    /// Elements with the same bit pattern are the same element, and only they.
    proof fn lemma_bits_determine_value(&self, other: &Self)
        ensures
            (self.bits() == other.bits()) == (*self == *other),
    ;

    /// Width of one element in bytes.
    fn width() -> (w: usize)
        ensures
            w == Self::spec_width(),
    ;

    /// Whether `self` and `other` have the same bit pattern.
    fn bitwise_eq(&self, other: &Self) -> (eq: bool)
        ensures
            eq == (self.bits() == other.bits()),
    ;
}

impl RegisterType for u8 {
    open spec fn spec_width() -> nat {
        1
    }

    open spec fn bits(&self) -> nat {
        *self as nat
    }

    proof fn lemma_width() {
    }

    proof fn lemma_bits_fit(&self) {
        lemma_pattern_counts();
    }

    proof fn lemma_bits_determine_value(&self, other: &Self) {
    }

    fn width() -> (w: usize) {
        1
    }

    fn bitwise_eq(&self, other: &Self) -> (eq: bool)
        ensures
            eq == (*self == *other),
    {
        self == other
    }
}

impl RegisterType for i8 {
    open spec fn spec_width() -> nat {
        1
    }

    open spec fn bits(&self) -> nat {
        if *self < 0 {
            (*self + 0x100) as nat
        } else {
            *self as nat
        }
    }

    proof fn lemma_width() {
    }

    proof fn lemma_bits_fit(&self) {
        lemma_pattern_counts();
    }

    proof fn lemma_bits_determine_value(&self, other: &Self) {
    }

    fn width() -> (w: usize) {
        1
    }

    fn bitwise_eq(&self, other: &Self) -> (eq: bool)
        ensures
            eq == (*self == *other),
    {
        self == other
    }
}

impl RegisterType for u16 {
    open spec fn spec_width() -> nat {
        2
    }

    open spec fn bits(&self) -> nat {
        *self as nat
    }

    proof fn lemma_width() {
    }

    proof fn lemma_bits_fit(&self) {
        lemma_pattern_counts();
    }

    proof fn lemma_bits_determine_value(&self, other: &Self) {
    }

    fn width() -> (w: usize) {
        2
    }

    fn bitwise_eq(&self, other: &Self) -> (eq: bool)
        ensures
            eq == (*self == *other),
    {
        self == other
    }
}

impl RegisterType for i16 {
    open spec fn spec_width() -> nat {
        2
    }

    open spec fn bits(&self) -> nat {
        if *self < 0 {
            (*self + 0x1_0000) as nat
        } else {
            *self as nat
        }
    }

    proof fn lemma_width() {
    }

    proof fn lemma_bits_fit(&self) {
        lemma_pattern_counts();
    }

    proof fn lemma_bits_determine_value(&self, other: &Self) {
    }

    fn width() -> (w: usize) {
        2
    }

    fn bitwise_eq(&self, other: &Self) -> (eq: bool)
        ensures
            eq == (*self == *other),
    {
        self == other
    }
}

impl RegisterType for u32 {
    open spec fn spec_width() -> nat {
        4
    }

    open spec fn bits(&self) -> nat {
        *self as nat
    }

    proof fn lemma_width() {
    }

    proof fn lemma_bits_fit(&self) {
        lemma_pattern_counts();
    }

    proof fn lemma_bits_determine_value(&self, other: &Self) {
    }

    fn width() -> (w: usize) {
        4
    }

    fn bitwise_eq(&self, other: &Self) -> (eq: bool)
        ensures
            eq == (*self == *other),
    {
        self == other
    }
}

impl RegisterType for i32 {
    open spec fn spec_width() -> nat {
        4
    }

    open spec fn bits(&self) -> nat {
        if *self < 0 {
            (*self + 0x1_0000_0000) as nat
        } else {
            *self as nat
        }
    }

    proof fn lemma_width() {
    }

    proof fn lemma_bits_fit(&self) {
        lemma_pattern_counts();
    }

    proof fn lemma_bits_determine_value(&self, other: &Self) {
    }

    fn width() -> (w: usize) {
        4
    }

    fn bitwise_eq(&self, other: &Self) -> (eq: bool)
        ensures
            eq == (*self == *other),
    {
        self == other
    }
}

impl RegisterType for u64 {
    open spec fn spec_width() -> nat {
        8
    }

    open spec fn bits(&self) -> nat {
        *self as nat
    }

    proof fn lemma_width() {
    }

    proof fn lemma_bits_fit(&self) {
        lemma_pattern_counts();
    }

    proof fn lemma_bits_determine_value(&self, other: &Self) {
    }

    fn width() -> (w: usize) {
        8
    }

    fn bitwise_eq(&self, other: &Self) -> (eq: bool)
        ensures
            eq == (*self == *other),
    {
        self == other
    }
}

impl RegisterType for i64 {
    open spec fn spec_width() -> nat {
        8
    }

    open spec fn bits(&self) -> nat {
        if *self < 0 {
            (*self + 0x1_0000_0000_0000_0000) as nat
        } else {
            *self as nat
        }
    }

    proof fn lemma_width() {
    }

    proof fn lemma_bits_fit(&self) {
        lemma_pattern_counts();
    }

    proof fn lemma_bits_determine_value(&self, other: &Self) {
    }

    fn width() -> (w: usize) {
        8
    }

    fn bitwise_eq(&self, other: &Self) -> (eq: bool)
        ensures
            eq == (*self == *other),
    {
        self == other
    }
}

impl RegisterType for u128 {
    open spec fn spec_width() -> nat {
        16
    }

    open spec fn bits(&self) -> nat {
        *self as nat
    }

    proof fn lemma_width() {
    }

    proof fn lemma_bits_fit(&self) {
        lemma_pattern_counts();
    }

    proof fn lemma_bits_determine_value(&self, other: &Self) {
    }

    fn width() -> (w: usize) {
        16
    }

    fn bitwise_eq(&self, other: &Self) -> (eq: bool)
        ensures
            eq == (*self == *other),
    {
        self == other
    }
}

impl RegisterType for i128 {
    open spec fn spec_width() -> nat {
        16
    }

    open spec fn bits(&self) -> nat {
        if *self < 0 {
            (*self + 0x1_0000_0000_0000_0000_0000_0000_0000_0000) as nat
        } else {
            *self as nat
        }
    }

    proof fn lemma_width() {
    }

    proof fn lemma_bits_fit(&self) {
        lemma_pattern_counts();
    }

    proof fn lemma_bits_determine_value(&self, other: &Self) {
    }

    fn width() -> (w: usize) {
        16
    }

    fn bitwise_eq(&self, other: &Self) -> (eq: bool)
        ensures
            eq == (*self == *other),
    {
        self == other
    }
}

} // verus!
