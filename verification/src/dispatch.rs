use crate::primitive::{
    first_mismatch, first_occurrence, lemma_first_mismatch_is, lemma_first_occurrence_is,
};
use crate::types::{lemma_pattern_counts, pattern_count, RegisterType};
use vstd::arithmetic::div_mod::lemma_small_mod;
use vstd::arithmetic::power2::lemma2_to64;
use vstd::prelude::*;

verus! {

/// The unit sizes in which the repeated move, store, compare and scan
/// instructions work.
#[derive(Clone, Copy, Debug, PartialEq, Eq, Structural)]
pub enum Granularity {
    Byte,
    Word,
    Doubleword,
    Quadword,
}

impl Granularity {
    /// Size of one unit in bytes.
    pub open spec fn spec_bytes(self) -> nat {
        match self {
            Granularity::Byte => 1,
            Granularity::Word => 2,
            Granularity::Doubleword => 4,
            Granularity::Quadword => 8,
        }
    }

    /// Whether the unit size of `self` evenly divides `width`, and that of no
    /// wider granularity does.
    pub open spec fn is_widest_for(self, width: nat) -> bool {
        &&& width % self.spec_bytes() == 0
        &&& forall|g: Granularity|
            width % (#[trigger] g.spec_bytes()) == 0 ==> g.spec_bytes() <= self.spec_bytes()
    }

    /// The widest granularity whose unit size evenly divides `width`.
    pub open spec fn spec_widest_for(width: nat) -> Granularity {
        if width % 8 == 0 {
            Granularity::Quadword
        } else if width % 4 == 0 {
            Granularity::Doubleword
        } else if width % 2 == 0 {
            Granularity::Word
        } else {
            Granularity::Byte
        }
    }

    /// Number of units of the widest granularity for `width` that make up
    /// `width` bytes.
    pub open spec fn spec_units_in(width: nat) -> nat {
        match Self::spec_widest_for(width) {
            Granularity::Byte => width,
            Granularity::Word => width / 2,
            Granularity::Doubleword => width / 4,
            Granularity::Quadword => width / 8,
        }
    }

    /// For every width there is one widest granularity that evenly divides
    /// it, the one that `spec_widest_for` gives, and `spec_units_in` units of
    /// it are exactly the width.
    pub proof fn lemma_widest_for(width: nat, g: Granularity)
        ensures
            g.is_widest_for(width) <==> g == Self::spec_widest_for(width),
            Self::spec_units_in(width) * Self::spec_widest_for(width).spec_bytes() == width,
    {
        assert(Granularity::Byte.spec_bytes() == 1);
        assert(Granularity::Word.spec_bytes() == 2);
        assert(Granularity::Doubleword.spec_bytes() == 4);
        assert(Granularity::Quadword.spec_bytes() == 8);
        match Self::spec_widest_for(width) {
            Granularity::Byte => {
                assert(width * 1 == width);
            },
            Granularity::Word => {
                assert((width / 2) * 2 == width);
            },
            Granularity::Doubleword => {
                assert((width / 4) * 4 == width);
            },
            Granularity::Quadword => {
                assert((width / 8) * 8 == width);
            },
        }
    }

    /// Size of one unit in bytes.
    pub fn bytes(self) -> (n: usize)
        ensures
            n == self.spec_bytes(),
    {
        match self {
            Granularity::Byte => 1,
            Granularity::Word => 2,
            Granularity::Doubleword => 4,
            Granularity::Quadword => 8,
        }
    }

    /// The widest granularity whose unit size evenly divides `width`.
    pub fn widest_for(width: usize) -> (g: Granularity)
        ensures
            g == Self::spec_widest_for(width as nat),
            g.is_widest_for(width as nat),
    {
        proof {
            Self::lemma_widest_for(width as nat, Self::spec_widest_for(width as nat));
        }
        if width % 8 == 0 {
            Granularity::Quadword
        } else if width % 4 == 0 {
            Granularity::Doubleword
        } else if width % 2 == 0 {
            Granularity::Word
        } else {
            Granularity::Byte
        }
    }
}

/// How an operation on a region is carried out by one repeated instruction:
/// in `units` units of `granularity`, `per_element` of them to each element.
#[derive(Clone, Copy, Debug, PartialEq, Eq, Structural)]
pub struct Dispatch {
    pub granularity: Granularity,
    pub per_element: usize,
    pub units: usize,
}

impl Dispatch {
    /// Whether this is the dispatch for a region of `len` elements that are
    /// `width` bytes wide each: the widest granularity that evenly divides the
    /// width, the number of its units that make up an element, and the
    /// region's length counted in its units.
    pub open spec fn is_for(self, width: nat, len: nat) -> bool {
        &&& self.granularity == Granularity::spec_widest_for(width)
        &&& self.per_element == Granularity::spec_units_in(width)
        &&& self.units == len * self.per_element
    }
}

/// Returns the dispatch for a region of `len` elements of `width` bytes each,
/// or `None` where the number of units does not fit a `usize`.
pub fn dispatch(width: usize, len: usize) -> (r: Option<Dispatch>)
    ensures
        match r {
            Some(d) => d.is_for(width as nat, len as nat),
            None => len * Granularity::spec_units_in(width as nat) > usize::MAX,
        },
{
    let granularity = Granularity::widest_for(width);
    let per_element = width / granularity.bytes();
    match len.checked_mul(per_element) {
        Some(units) => Some(Dispatch { granularity, per_element, units }),
        None => None,
    }
}

/// The index that a repeated compare or scan has reported: none where it ran
/// to the end of the region, else the element that holds the unit before the
/// cursor, which has `advanced` units behind it.
pub open spec fn recovered(stopped: bool, advanced: usize, per_element: usize) -> Option<usize> {
    if stopped {
        Some(((advanced - 1) / (per_element as int)) as usize)
    } else {
        None
    }
}

/// Recovers the index that a repeated compare or scan has reported from
/// where it left its cursor: `stopped` says whether it ended on a unit (a
/// differing one for a compare, the needle for a scan), `advanced` by how
/// many units the cursor has moved. The cursor stands one unit past the unit
/// that ended the run.
pub fn recover_index(stopped: bool, advanced: usize, per_element: usize) -> (r: Option<usize>)
    requires
        per_element > 0,
        stopped ==> advanced > 0,
    ensures
        r == recovered(stopped, advanced, per_element),
{
    if stopped {
        Some((advanced - 1) / per_element)
    } else {
        None
    }
}

/// The `j`-th unit of `unit_bytes` bytes of a bit pattern, counted from its
/// low end.
pub open spec fn unit_of(bits: nat, unit_bytes: nat, j: nat) -> nat {
    (bits / pattern_count(unit_bytes * j)) % pattern_count(unit_bytes)
}

/// The `u`-th unit of a region, as the dispatch `d` divides it.
pub open spec fn region_unit<T: RegisterType>(region: Seq<T>, d: Dispatch, u: int) -> nat {
    unit_of(
        region[u / (d.per_element as int)].bits(),
        d.granularity.spec_bytes(),
        (u % (d.per_element as int)) as nat,
    )
}

/// Whether the regions `a` and `b` hold the same units below unit `k`.
pub open spec fn units_agree_before<T: RegisterType>(
    a: Seq<T>,
    b: Seq<T>,
    d: Dispatch,
    k: int,
) -> bool {
    forall|u: int| 0 <= u < k ==> region_unit(a, d, u) == region_unit(b, d, u)
}

/// The dispatch for a register type: the elements of 16 bytes go in two
/// quadwords each, all others in one unit of their own width.
pub proof fn lemma_register_dispatch<T: RegisterType>(d: Dispatch, len: nat)
    requires
        d.is_for(T::spec_width(), len),
    ensures
        d.per_element == 1 || d.per_element == 2,
        d.per_element == 1 ==> d.granularity.spec_bytes() == T::spec_width(),
        d.per_element == 2 ==> d.granularity == Granularity::Quadword && T::spec_width() == 16,
{
    T::lemma_width();
    assert(Granularity::Byte.spec_bytes() == 1);
    assert(Granularity::Word.spec_bytes() == 2);
    assert(Granularity::Doubleword.spec_bytes() == 4);
    assert(Granularity::Quadword.spec_bytes() == 8);
}

/// A bit pattern that fits one unit is that unit.
proof fn lemma_single_unit(bits: nat, unit_bytes: nat)
    requires
        bits < pattern_count(unit_bytes),
    ensures
        unit_of(bits, unit_bytes, 0) == bits,
{
    lemma2_to64();
    assert(unit_bytes * 0 == 0);
    assert(pattern_count(0) == 1);
    lemma_small_mod(bits, pattern_count(unit_bytes));
}

/// Two bit patterns of 16 bytes that agree in both quadwords are the same
/// pattern.
proof fn lemma_two_quadwords(x: nat, y: nat)
    requires
        x < pattern_count(16),
        y < pattern_count(16),
        unit_of(x, 8, 0) == unit_of(y, 8, 0),
        unit_of(x, 8, 1) == unit_of(y, 8, 1),
    ensures
        x == y,
{
    lemma_pattern_counts();
    lemma2_to64();
    let p: nat = 0x1_0000_0000_0000_0000;
    assert(pattern_count(0) == 1);
    assert(pattern_count(8) == p);
    assert(unit_of(x, 8, 0) == x % p);
    assert(unit_of(y, 8, 0) == y % p);
    assert(unit_of(x, 8, 1) == (x / p) % p);
    assert(unit_of(y, 8, 1) == (y / p) % p);
    assert(x / p < p);
    assert(y / p < p);
    assert(x == p * (x / p) + x % p);
    assert(y == p * (y / p) + y % p);
}

/// Two bit patterns of a register type that agree in every unit are the same
/// pattern.
proof fn lemma_units_determine_bits<T: RegisterType>(x: T, y: T, d: Dispatch, len: nat)
    requires
        d.is_for(T::spec_width(), len),
        forall|j: nat|
            j < d.per_element ==> unit_of(x.bits(), d.granularity.spec_bytes(), j) == unit_of(
                y.bits(),
                d.granularity.spec_bytes(),
                j,
            ),
    ensures
        x.bits() == y.bits(),
{
    lemma_register_dispatch::<T>(d, len);
    x.lemma_bits_fit();
    y.lemma_bits_fit();
    if d.per_element == 1 {
        lemma_single_unit(x.bits(), T::spec_width());
        lemma_single_unit(y.bits(), T::spec_width());
        assert(unit_of(x.bits(), T::spec_width(), 0) == unit_of(y.bits(), T::spec_width(), 0));
    } else {
        assert(d.granularity.spec_bytes() == 8);
        assert(unit_of(x.bits(), 8, 0) == unit_of(y.bits(), 8, 0));
        assert(unit_of(x.bits(), 8, 1) == unit_of(y.bits(), 8, 1));
        lemma_two_quadwords(x.bits(), y.bits());
    }
}

/// Where a repeated compare runs over the units of two regions and ends as
/// the instruction does, on the first unit that differs with its cursor one
/// unit past it, or at the end of the region where no unit differs, the
/// index recovered from the cursor is the first mismatch of the elements.
pub proof fn lemma_recovered_mismatch<T: RegisterType>(
    a: Seq<T>,
    b: Seq<T>,
    len: usize,
    d: Dispatch,
    stopped: bool,
    advanced: usize,
)
    requires
        len <= a.len(),
        len <= b.len(),
        d.is_for(T::spec_width(), len as nat),
        stopped ==> 0 < advanced <= d.units,
        stopped ==> region_unit(a, d, advanced - 1) != region_unit(b, d, advanced - 1),
        units_agree_before(a, b, d, if stopped { advanced - 1 } else { d.units as int }),
    ensures
        recovered(stopped, advanced, d.per_element) == first_mismatch(a, b, len),
{
    lemma_register_dispatch::<T>(d, len as nat);
    let per = d.per_element as int;
    let bound: int = if stopped { advanced - 1 } else { d.units as int };
    let k: int = bound / per;
    if per == 1 {
        assert(d.units == len * 1);
        assert(k == bound) by (nonlinear_arith)
            requires
                k == bound / per,
                per == 1,
        ;
    } else {
        assert(d.units == len * 2);
        assert(k == bound / 2);
    }
    assert(0 <= k <= len);
    assert forall|i: int| 0 <= i < k implies (#[trigger] a[i]).bits() == (#[trigger] b[i]).bits() by {
        assert forall|j: nat| j < d.per_element implies unit_of(
            a[i].bits(),
            d.granularity.spec_bytes(),
            j,
        ) == unit_of(b[i].bits(), d.granularity.spec_bytes(), j) by {
            let u: int = if per == 1 { i } else { i * 2 + j };
            assert(0 <= u < bound);
            assert(u / per == i && u % per == j);
            assert(region_unit(a, d, u) == region_unit(b, d, u));
        }
        lemma_units_determine_bits(a[i], b[i], d, len as nat);
    }
    if stopped {
        assert(k < len);
        let u: int = advanced - 1;
        assert(u / per == k);
        lemma_first_mismatch_is(a, b, len, k as usize);
    } else {
        assert(k == len);
    }
}

/// Where a repeated scan runs over a region whose elements are one unit
/// each and ends as the instruction does, on the first unit that holds the
/// needle with its cursor one unit past it, or at the end of the region
/// where no unit holds it, the index recovered from the cursor is the first
/// occurrence of the needle.
pub proof fn lemma_recovered_occurrence<T: RegisterType>(
    src: Seq<T>,
    needle: T,
    len: usize,
    d: Dispatch,
    stopped: bool,
    advanced: usize,
)
    requires
        len <= src.len(),
        d.is_for(T::spec_width(), len as nat),
        d.per_element == 1,
        stopped ==> 0 < advanced <= d.units,
        stopped ==> region_unit(src, d, advanced - 1) == needle.bits(),
        forall|u: int|
            0 <= u < (if stopped { advanced - 1 } else { d.units as int }) ==> region_unit(src, d, u)
                != needle.bits(),
    ensures
        recovered(stopped, advanced, d.per_element) == first_occurrence(src, needle, len),
{
    lemma_register_dispatch::<T>(d, len as nat);
    let bound: int = if stopped { advanced - 1 } else { d.units as int };
    assert(d.units == len * 1);
    assert forall|i: int| 0 <= i < len implies region_unit(src, d, i) == (#[trigger] src[i]).bits() by {
        src[i].lemma_bits_fit();
        lemma_single_unit(src[i].bits(), T::spec_width());
        assert(i / 1 == i && i % 1 == 0);
    }
    assert forall|i: int| 0 <= i < bound implies (#[trigger] src[i]).bits() != needle.bits() by {
        assert(region_unit(src, d, i) != needle.bits());
    }
    if stopped {
        lemma_first_occurrence_is(src, needle, len, (advanced - 1) as usize);
    }
}

} // verus!
