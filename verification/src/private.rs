use vstd::prelude::*;

verus! {

/// Marker that closes the set of register types: the module is private, so no
/// type outside this crate can carry it.
pub trait Sealed {

}

impl Sealed for u8 {

}

impl Sealed for i8 {

}

impl Sealed for u16 {

}

impl Sealed for i16 {

}

impl Sealed for u32 {

}

impl Sealed for i32 {

}

impl Sealed for u64 {

}

impl Sealed for i64 {

}

impl Sealed for u128 {

}

impl Sealed for i128 {

}

impl Sealed for crate::ieee::Binary32 {

}

impl Sealed for crate::ieee::Binary64 {

}

} // verus!
