use crate::primitive::{
    agree_before, absent_before, copied, filled, first_mismatch, first_occurrence,
    is_first_mismatch, is_first_occurrence, rep_cmps, rep_movs, rep_scas, rep_stos,
};
use crate::types::RegisterType;
use vstd::prelude::*;

verus! {

/// The fault of an operation on two slices whose lengths differ. Nothing has
/// been read or written when it is reported.
#[derive(Clone, Copy, Debug, PartialEq, Eq, Structural)]
pub struct LengthMismatch {
    /// Length of the slice the operation was called on.
    pub len: usize,
    /// Length of the slice it was given.
    pub other_len: usize,
}

impl LengthMismatch {
    /// Accepts two lengths that are equal, and reports two that are not.
    pub fn check(len: usize, other_len: usize) -> (r: Result<(), LengthMismatch>)
        ensures
            match r {
                Ok(_) => len == other_len,
                Err(e) => len != other_len && e.len == len && e.other_len == other_len,
            },
    {
        if len == other_len {
            Ok(())
        } else {
            Err(LengthMismatch { len, other_len })
        }
    }
}

/// The bulk operations on a slice of register-type elements. The element
/// counts are the slices' own lengths; where an operation takes two slices,
/// it first checks that they are equally long.
pub trait SliceExt<T: RegisterType>: View<V = Seq<T>> {
    /// Stores `value` into every element.
    fn inline_fill(&mut self, value: T)
        ensures
            final(self)@ == filled(value, old(self)@, old(self)@.len() as usize),
            final(self)@.len() == old(self)@.len(),
            forall|i: int| 0 <= i < old(self)@.len() ==> final(self)@[i] == value,
    ;

    /// Returns the index of the first element that has the bit pattern of
    /// `value`, or `None` where none has.
    fn inline_position(&self, value: T) -> (r: Option<usize>)
        ensures
            r == first_occurrence(self@, value, self@.len() as usize),
            match r {
                Some(i) => is_first_occurrence(self@, value, self@.len() as usize, i),
                None => absent_before(self@, value, self@.len() as usize),
            },
    ;

    /// Overwrites the slice with the elements of `other`. Where `other` is of
    /// another length, reports that and writes nothing.
    fn inline_copy_from(&mut self, other: &[T]) -> (r: Result<(), LengthMismatch>)
        ensures
            match r {
                Ok(_) => old(self)@.len() == other@.len() && final(self)@ == other@,
                Err(e) => {
                    &&& old(self)@.len() != other@.len()
                    &&& final(self)@ == old(self)@
                    &&& e.len == old(self)@.len()
                    &&& e.other_len == other@.len()
                },
            },
    ;

    /// Returns the index of the first element that differs in bit pattern from
    /// the element of `other` at the same index, or `None` where all agree.
    /// Where `other` is of another length, reports that instead.
    fn inline_mismatch(&self, other: &[T]) -> (r: Result<Option<usize>, LengthMismatch>)
        ensures
            match r {
                Ok(found) => {
                    &&& self@.len() == other@.len()
                    &&& found == first_mismatch(self@, other@, self@.len() as usize)
                    &&& match found {
                        Some(i) => is_first_mismatch(self@, other@, self@.len() as usize, i),
                        None => agree_before(self@, other@, self@.len() as usize),
                    }
                },
                Err(e) => {
                    &&& self@.len() != other@.len()
                    &&& e.len == self@.len()
                    &&& e.other_len == other@.len()
                },
            },
    ;
}

impl<T: RegisterType> SliceExt<T> for [T] {
    fn inline_fill(&mut self, value: T) {
        let len = self.len();
        rep_stos(value, self, len);
    }

    fn inline_position(&self, value: T) -> (r: Option<usize>) {
        rep_scas(self, value, self.len())
    }

    fn inline_copy_from(&mut self, other: &[T]) -> (r: Result<(), LengthMismatch>) {
        let len = self.len();
        match LengthMismatch::check(len, other.len()) {
            Ok(_) => {
                rep_movs(other, self, len);
                Ok(())
            },
            Err(e) => Err(e),
        }
    }

    fn inline_mismatch(&self, other: &[T]) -> (r: Result<Option<usize>, LengthMismatch>) {
        let len = self.len();
        match LengthMismatch::check(len, other.len()) {
            Ok(_) => Ok(rep_cmps(self, other, len)),
            Err(e) => Err(e),
        }
    }
}

} // verus!
