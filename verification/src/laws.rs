use crate::primitive::{
    absent_before, agree_before, copied, filled, first_mismatch, first_occurrence,
    is_first_mismatch, is_first_occurrence, lemma_first_occurrence_is,
};
use crate::types::RegisterType;
use vstd::prelude::*;

verus! {

/// After a copy, comparing the source with the destination finds no mismatch.
pub proof fn lemma_copy_then_compare<T: RegisterType>(src: Seq<T>, dst: Seq<T>, len: usize)
    requires
        len <= src.len(),
        len <= dst.len(),
    ensures
        first_mismatch(src, copied(src, dst, len), len) == None::<usize>,
        first_mismatch(copied(src, dst, len), src, len) == None::<usize>,
{
    let out = copied(src, dst, len);
    assert forall|j: int| 0 <= j < len implies out[j] == src[j] by {}
    assert(agree_before(src, out, len));
    assert(agree_before(out, src, len));
}

/// After a fill, a scan for the fill value finds it at index 0, unless the
/// region is empty.
pub proof fn lemma_fill_then_scan<T: RegisterType>(value: T, dst: Seq<T>, len: usize)
    requires
        len <= dst.len(),
    ensures
        first_occurrence(filled(value, dst, len), value, len) == if len > 0 {
            Some(0usize)
        } else {
            None
        },
{
    let out = filled(value, dst, len);
    if len > 0 {
        assert(out[0] == value);
        lemma_first_occurrence_is(out, value, len, 0);
    }
}

/// Two regions that were filled with the same value, each on its own, do not
/// differ anywhere.
pub proof fn lemma_fill_then_compare<T: RegisterType>(value: T, a: Seq<T>, b: Seq<T>, len: usize)
    requires
        len <= a.len(),
        len <= b.len(),
    ensures
        first_mismatch(filled(value, a, len), filled(value, b, len), len) == None::<usize>,
{
    let x = filled(value, a, len);
    let y = filled(value, b, len);
    assert forall|j: int| 0 <= j < len implies x[j] == value && y[j] == value by {}
    assert(agree_before(x, y, len));
}

/// In a region of no elements nothing differs and nothing is found.
pub proof fn lemma_empty_region<T: RegisterType>(a: Seq<T>, b: Seq<T>, needle: T)
    ensures
        first_mismatch(a, b, 0) == None::<usize>,
        first_occurrence(a, needle, 0) == None::<usize>,
{
}

/// A region compared with itself has no mismatch.
pub proof fn lemma_compare_with_self<T: RegisterType>(a: Seq<T>, len: usize)
    ensures
        first_mismatch(a, a, len) == None::<usize>,
{
}

/// Two regions without a mismatch hold the same elements, and two regions
/// that hold the same elements have no mismatch.
pub proof fn lemma_no_mismatch_iff_equal<T: RegisterType>(a: Seq<T>, b: Seq<T>, len: usize)
    requires
        len <= a.len(),
        len <= b.len(),
    ensures
        first_mismatch(a, b, len).is_none() <==> a.take(len as int) == b.take(len as int),
{
    let x = a.take(len as int);
    let y = b.take(len as int);
    if agree_before(a, b, len) {
        assert forall|j: int| 0 <= j < len implies x[j] == y[j] by {
            assert(a[j].bits() == b[j].bits());
            a[j].lemma_bits_determine_value(&b[j]);
        }
        assert(x =~= y);
    }
    if x == y {
        assert forall|j: int| 0 <= j < len implies (#[trigger] a[j]).bits() == (#[trigger] b[
            j
        ]).bits() by {
            assert(x[j] == a[j]);
            assert(y[j] == b[j]);
        }
    }
}

/// The first mismatch, where there is one, lies in the region, is a mismatch,
/// and has none before it; where there is none, the regions agree throughout.
pub proof fn lemma_first_mismatch_found<T: RegisterType>(a: Seq<T>, b: Seq<T>, len: usize)
    ensures
        match first_mismatch(a, b, len) {
            Some(i) => is_first_mismatch(a, b, len, i),
            None => agree_before(a, b, len),
        },
{
    if !agree_before(a, b, len) {
        lemma_mismatch_exists(a, b, len, 0);
    }
}

/// The first occurrence, where there is one, lies in the region, has the
/// needle's bit pattern, and no element before it has; where there is none,
/// no element of the region has it.
pub proof fn lemma_first_occurrence_found<T: RegisterType>(src: Seq<T>, needle: T, len: usize)
    ensures
        match first_occurrence(src, needle, len) {
            Some(i) => is_first_occurrence(src, needle, len, i),
            None => absent_before(src, needle, len),
        },
{
    if !absent_before(src, needle, len) {
        lemma_occurrence_exists(src, needle, len, 0);
    }
}

proof fn lemma_mismatch_exists<T: RegisterType>(a: Seq<T>, b: Seq<T>, len: usize, k: usize)
    requires
        k <= len,
        agree_before(a, b, k),
        !agree_before(a, b, len),
    ensures
        exists|i: usize| is_first_mismatch(a, b, len, i),
    decreases len - k,
{
    if k < len {
        if a[k as int].bits() != b[k as int].bits() {
            assert(is_first_mismatch(a, b, len, k));
        } else {
            lemma_mismatch_exists(a, b, len, (k + 1) as usize);
        }
    }
}

proof fn lemma_occurrence_exists<T: RegisterType>(src: Seq<T>, needle: T, len: usize, k: usize)
    requires
        k <= len,
        absent_before(src, needle, k),
        !absent_before(src, needle, len),
    ensures
        exists|i: usize| is_first_occurrence(src, needle, len, i),
    decreases len - k,
{
    if k < len {
        if src[k as int].bits() == needle.bits() {
            assert(is_first_occurrence(src, needle, len, k));
        } else {
            lemma_occurrence_exists(src, needle, len, (k + 1) as usize);
        }
    }
}

} // verus!
