use crate::types::RegisterType;
use vstd::prelude::*;

verus! {

/// What a destination region `dst` holds after its first `len` elements have
/// been overwritten with the first `len` elements of `src`.
pub open spec fn copied<T>(src: Seq<T>, dst: Seq<T>, len: usize) -> Seq<T>
    recommends
        len <= src.len(),
        len <= dst.len(),
{
    src.take(len as int) + dst.skip(len as int)
}

/// What a destination region `dst` holds after each of its first `len`
/// elements has been overwritten with `value`.
pub open spec fn filled<T>(value: T, dst: Seq<T>, len: usize) -> Seq<T>
    recommends
        len <= dst.len(),
{
    Seq::new(len as nat, |i: int| value) + dst.skip(len as int)
}

/// Whether `a` and `b` hold the same bit pattern at every index below `k`.
pub open spec fn agree_before<T: RegisterType>(a: Seq<T>, b: Seq<T>, k: usize) -> bool {
    forall|j: int| 0 <= j < k ==> (#[trigger] a[j]).bits() == (#[trigger] b[j]).bits()
}

/// Whether `i` is the first index below `len` at which `a` and `b` hold
/// different bit patterns.
pub open spec fn is_first_mismatch<T: RegisterType>(
    a: Seq<T>,
    b: Seq<T>,
    len: usize,
    i: usize,
) -> bool {
    &&& i < len
    &&& a[i as int].bits() != b[i as int].bits()
    &&& agree_before(a, b, i)
}

/// The first index below `len` at which `a` and `b` hold different bit
/// patterns, if there is one.
pub open spec fn first_mismatch<T: RegisterType>(a: Seq<T>, b: Seq<T>, len: usize) -> Option<
    usize,
> {
    if agree_before(a, b, len) {
        None
    } else {
        Some(choose|i: usize| is_first_mismatch(a, b, len, i))
    }
}

/// Whether no element of `src` below index `k` has the bit pattern of
/// `needle`.
pub open spec fn absent_before<T: RegisterType>(src: Seq<T>, needle: T, k: usize) -> bool {
    forall|j: int| 0 <= j < k ==> (#[trigger] src[j]).bits() != needle.bits()
}

/// Whether `i` is the first index below `len` at which `src` holds the bit
/// pattern of `needle`.
pub open spec fn is_first_occurrence<T: RegisterType>(
    src: Seq<T>,
    needle: T,
    len: usize,
    i: usize,
) -> bool {
    &&& i < len
    &&& src[i as int].bits() == needle.bits()
    &&& absent_before(src, needle, i)
}

/// The first index below `len` at which `src` holds the bit pattern of
/// `needle`, if there is one.
pub open spec fn first_occurrence<T: RegisterType>(src: Seq<T>, needle: T, len: usize) -> Option<
    usize,
> {
    if absent_before(src, needle, len) {
        None
    } else {
        Some(choose|i: usize| is_first_occurrence(src, needle, len, i))
    }
}

/// Where two regions agree on a prefix and differ right after it, that is
/// where their first mismatch lies.
pub proof fn lemma_first_mismatch_is<T: RegisterType>(a: Seq<T>, b: Seq<T>, len: usize, k: usize)
    requires
        is_first_mismatch(a, b, len, k),
    ensures
        first_mismatch(a, b, len) == Some(k),
{
    let i = choose|i: usize| is_first_mismatch(a, b, len, i);
    assert(is_first_mismatch(a, b, len, i));
    if i < k {
        assert(a[i as int].bits() == b[i as int].bits());
    }
    if k < i {
        assert(a[k as int].bits() == b[k as int].bits());
    }
    assert(a[k as int].bits() != b[k as int].bits());
}

/// Where the needle first occurs at an index, that index is its first
/// occurrence, whatever follows it.
pub proof fn lemma_first_occurrence_is<T: RegisterType>(
    src: Seq<T>,
    needle: T,
    len: usize,
    k: usize,
)
    requires
        is_first_occurrence(src, needle, len, k),
    ensures
        first_occurrence(src, needle, len) == Some(k),
{
    let i = choose|i: usize| is_first_occurrence(src, needle, len, i);
    assert(is_first_occurrence(src, needle, len, i));
    if i < k {
        assert(src[i as int].bits() != needle.bits());
    }
    if k < i {
        assert(src[k as int].bits() != needle.bits());
    }
    assert(src[k as int].bits() == needle.bits());
}

/// Copies the first `len` elements of `src` over the first `len` elements of
/// `dst`, in ascending order. The rest of `dst` stays as it was.
pub fn rep_movs<T: Copy>(src: &[T], dst: &mut [T], len: usize)
    requires
        len <= src.len(),
        len <= old(dst).len(),
    ensures
        final(dst)@ == copied(src@, old(dst)@, len),
{
    let mut i: usize = 0;
    while i < len
        invariant
            i <= len,
            len <= src.len(),
            len <= dst.len(),
            dst.len() == old(dst).len(),
            dst@ =~= copied(src@, old(dst)@, i),
        decreases len - i,
    {
        dst[i] = src[i];
        i += 1;
    }
}

/// Stores `value` into each of the first `len` elements of `dst`. The rest of
/// `dst` stays as it was.
pub fn rep_stos<T: Copy>(value: T, dst: &mut [T], len: usize)
    requires
        len <= old(dst).len(),
    ensures
        final(dst)@ == filled(value, old(dst)@, len),
{
    let mut i: usize = 0;
    while i < len
        invariant
            i <= len,
            len <= dst.len(),
            dst.len() == old(dst).len(),
            dst@ =~= filled(value, old(dst)@, i),
        decreases len - i,
    {
        dst[i] = value;
        i += 1;
    }
}

/// Returns the index of the first of the first `len` elements at which `a`
/// and `b` differ in bit pattern, or `None` where they all agree.
pub fn rep_cmps<T: RegisterType>(a: &[T], b: &[T], len: usize) -> (r: Option<usize>)
    requires
        len <= a.len(),
        len <= b.len(),
    ensures
        r == first_mismatch(a@, b@, len),
        match r {
            Some(i) => is_first_mismatch(a@, b@, len, i),
            None => agree_before(a@, b@, len),
        },
        len == 0 ==> r.is_none(),
{
    let mut i: usize = 0;
    while i < len
        invariant
            i <= len,
            len <= a.len(),
            len <= b.len(),
            agree_before(a@, b@, i),
        decreases len - i,
    {
        if !a[i].bitwise_eq(&b[i]) {
            proof {
                lemma_first_mismatch_is(a@, b@, len, i);
            }
            return Some(i);
        }
        i += 1;
    }
    None
}

/// Returns the index of the first of the first `len` elements of `src` that
/// has the bit pattern of `value`, or `None` where none has.
pub fn rep_scas<T: RegisterType>(src: &[T], value: T, len: usize) -> (r: Option<usize>)
    requires
        len <= src.len(),
    ensures
        r == first_occurrence(src@, value, len),
        match r {
            Some(i) => is_first_occurrence(src@, value, len, i),
            None => absent_before(src@, value, len),
        },
        len == 0 ==> r.is_none(),
{
    let mut i: usize = 0;
    while i < len
        invariant
            i <= len,
            len <= src.len(),
            absent_before(src@, value, i),
        decreases len - i,
    {
        if src[i].bitwise_eq(&value) {
            proof {
                lemma_first_occurrence_is(src@, value, len, i);
            }
            return Some(i);
        }
        i += 1;
    }
    None
}

} // verus!
