use crate::primitive::{agree_before, first_mismatch, lemma_first_mismatch_is};
use crate::types::{lemma_pattern_counts, RegisterType};
use vstd::prelude::*;
use vstd::std_specs::cmp::PartialEqSpecImpl;

verus! {

/// A single-precision floating-point number, held as its 32-bit pattern: one
/// sign bit, eight exponent bits, twenty-three fraction bits.
///
/// `==` on this type is the equality of the numbers: no NaN equals anything,
/// and the two zeros are equal. [`RegisterType::bitwise_eq`] is the equality of
/// the patterns.
#[derive(Clone, Copy, Debug)]
pub struct Binary32(pub u32);

/// A double-precision floating-point number, held as its 64-bit pattern: one
/// sign bit, eleven exponent bits, fifty-two fraction bits.
///
/// `==` on this type is the equality of the numbers: no NaN equals anything,
/// and the two zeros are equal. [`RegisterType::bitwise_eq`] is the equality of
/// the patterns.
#[derive(Clone, Copy, Debug)]
pub struct Binary64(pub u64);

impl Binary32 {
    /// The pattern without its sign bit.
    pub open spec fn magnitude(self) -> u32 {
        self.0 & 0x7fff_ffff
    }

    /// Whether the pattern is a NaN: all exponent bits set, and some fraction
    /// bit.
    pub open spec fn spec_is_nan(self) -> bool {
        self.magnitude() > 0x7f80_0000
    }

    /// Whether the pattern is one of the two zeros.
    pub open spec fn spec_is_zero(self) -> bool {
        self.magnitude() == 0
    }

    /// Whether the sign bit is set.
    pub open spec fn sign(self) -> bool {
        self.0 & 0x8000_0000 != 0
    }

    /// Whether the two patterns stand for equal numbers.
    pub open spec fn value_eq(self, other: Self) -> bool {
        &&& !self.spec_is_nan()
        &&& !other.spec_is_nan()
        &&& (self.0 == other.0 || (self.spec_is_zero() && other.spec_is_zero()))
    }

    /// Zeros of different sign are equal numbers, yet a comparison of two
    /// regions reports them as a mismatch.
    pub proof fn lemma_signed_zeros_mismatch(a: Seq<Self>, b: Seq<Self>, len: usize, k: usize)
        requires
            k < len,
            agree_before(a, b, k),
            a[k as int].spec_is_zero(),
            b[k as int].spec_is_zero(),
            a[k as int].sign() != b[k as int].sign(),
        ensures
            a[k as int].value_eq(b[k as int]),
            first_mismatch(a, b, len) == Some(k),
    {
        lemma_first_mismatch_is(a, b, len, k);
    }

    /// NaNs with the same bit pattern are unequal numbers, yet a comparison
    /// of two regions reports no mismatch between them.
    pub proof fn lemma_same_nans_match(a: Seq<Self>, b: Seq<Self>, len: usize)
        requires
            forall|j: int| 0 <= j < len ==> a[j].spec_is_nan() && a[j].0 == b[j].0,
        ensures
            forall|j: int| 0 <= j < len ==> !a[j].value_eq(b[j]),
            first_mismatch(a, b, len) == None::<usize>,
    {
        assert(agree_before(a, b, len));
    }

    /// The number with the given bit pattern.
    pub fn from_bits(bits: u32) -> (r: Self)
        ensures
            r == Binary32(bits),
    {
        Binary32(bits)
    }

    /// The bit pattern of the number.
    pub fn to_bits(self) -> (bits: u32)
        ensures
            bits == self.0,
    {
        self.0
    }

    /// Whether the number is a NaN.
    #[verifier::when_used_as_spec(spec_is_nan)]
    pub fn is_nan(self) -> (r: bool)
        ensures
            r == self.spec_is_nan(),
    {
        (self.0 & 0x7fff_ffff) > 0x7f80_0000
    }

    /// Whether the number is zero, of either sign.
    #[verifier::when_used_as_spec(spec_is_zero)]
    pub fn is_zero(self) -> (r: bool)
        ensures
            r == self.spec_is_zero(),
    {
        (self.0 & 0x7fff_ffff) == 0
    }
}

impl PartialEq for Binary32 {
    fn eq(&self, other: &Self) -> (r: bool) {
        !self.is_nan() && !other.is_nan() && (self.0 == other.0 || (self.is_zero()
            && other.is_zero()))
    }
}

impl PartialEqSpecImpl for Binary32 {
    open spec fn obeys_eq_spec() -> bool {
        true
    }

    open spec fn eq_spec(&self, other: &Self) -> bool {
        self.value_eq(*other)
    }
}

impl RegisterType for Binary32 {
    open spec fn spec_width() -> nat {
        4
    }

    open spec fn bits(&self) -> nat {
        self.0 as nat
    }

    proof fn lemma_width() {
    }

    proof fn lemma_bits_fit(&self) {
        lemma_pattern_counts();
    }

    proof fn lemma_bits_determine_value(&self, other: &Self) {
    }

    fn width() -> (w: usize) {
        4
    }

    fn bitwise_eq(&self, other: &Self) -> (eq: bool) {
        self.0 == other.0
    }
}

impl Binary64 {
    /// The pattern without its sign bit.
    pub open spec fn magnitude(self) -> u64 {
        self.0 & 0x7fff_ffff_ffff_ffff
    }

    /// Whether the pattern is a NaN: all exponent bits set, and some fraction
    /// bit.
    pub open spec fn spec_is_nan(self) -> bool {
        self.magnitude() > 0x7ff0_0000_0000_0000
    }

    /// Whether the pattern is one of the two zeros.
    pub open spec fn spec_is_zero(self) -> bool {
        self.magnitude() == 0
    }

    /// Whether the sign bit is set.
    pub open spec fn sign(self) -> bool {
        self.0 & 0x8000_0000_0000_0000 != 0
    }

    /// Whether the two patterns stand for equal numbers.
    pub open spec fn value_eq(self, other: Self) -> bool {
        &&& !self.spec_is_nan()
        &&& !other.spec_is_nan()
        &&& (self.0 == other.0 || (self.spec_is_zero() && other.spec_is_zero()))
    }

    /// Zeros of different sign are equal numbers, yet a comparison of two
    /// regions reports them as a mismatch.
    pub proof fn lemma_signed_zeros_mismatch(a: Seq<Self>, b: Seq<Self>, len: usize, k: usize)
        requires
            k < len,
            agree_before(a, b, k),
            a[k as int].spec_is_zero(),
            b[k as int].spec_is_zero(),
            a[k as int].sign() != b[k as int].sign(),
        ensures
            a[k as int].value_eq(b[k as int]),
            first_mismatch(a, b, len) == Some(k),
    {
        lemma_first_mismatch_is(a, b, len, k);
    }

    /// NaNs with the same bit pattern are unequal numbers, yet a comparison
    /// of two regions reports no mismatch between them.
    pub proof fn lemma_same_nans_match(a: Seq<Self>, b: Seq<Self>, len: usize)
        requires
            forall|j: int| 0 <= j < len ==> a[j].spec_is_nan() && a[j].0 == b[j].0,
        ensures
            forall|j: int| 0 <= j < len ==> !a[j].value_eq(b[j]),
            first_mismatch(a, b, len) == None::<usize>,
    {
        assert(agree_before(a, b, len));
    }

    /// The number with the given bit pattern.
    pub fn from_bits(bits: u64) -> (r: Self)
        ensures
            r == Binary64(bits),
    {
        Binary64(bits)
    }

    /// The bit pattern of the number.
    pub fn to_bits(self) -> (bits: u64)
        ensures
            bits == self.0,
    {
        self.0
    }

    /// Whether the number is a NaN.
    #[verifier::when_used_as_spec(spec_is_nan)]
    pub fn is_nan(self) -> (r: bool)
        ensures
            r == self.spec_is_nan(),
    {
        (self.0 & 0x7fff_ffff_ffff_ffff) > 0x7ff0_0000_0000_0000
    }

    /// Whether the number is zero, of either sign.
    #[verifier::when_used_as_spec(spec_is_zero)]
    pub fn is_zero(self) -> (r: bool)
        ensures
            r == self.spec_is_zero(),
    {
        (self.0 & 0x7fff_ffff_ffff_ffff) == 0
    }
}

impl PartialEq for Binary64 {
    fn eq(&self, other: &Self) -> (r: bool) {
        !self.is_nan() && !other.is_nan() && (self.0 == other.0 || (self.is_zero()
            && other.is_zero()))
    }
}

impl PartialEqSpecImpl for Binary64 {
    open spec fn obeys_eq_spec() -> bool {
        true
    }

    open spec fn eq_spec(&self, other: &Self) -> bool {
        self.value_eq(*other)
    }
}

impl RegisterType for Binary64 {
    open spec fn spec_width() -> nat {
        8
    }

    open spec fn bits(&self) -> nat {
        self.0 as nat
    }

    proof fn lemma_width() {
    }

    proof fn lemma_bits_fit(&self) {
        lemma_pattern_counts();
    }

    proof fn lemma_bits_determine_value(&self, other: &Self) {
    }

    fn width() -> (w: usize) {
        8
    }

    fn bitwise_eq(&self, other: &Self) -> (eq: bool) {
        self.0 == other.0
    }
}

} // verus!
