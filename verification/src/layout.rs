//! Layout checks: a wrapper must take exactly the room of the descriptor it
//! is laid over, at the same alignment.

use crate::raw::RawBitVector;
use crate::raw::RawString;
use crate::raw::RawVector;
use crate::string::String;
use crate::vector::VectorOfBool;
use crate::vector::VectorOfF32;
use crate::vector::VectorOfI32;
use crate::vector::VectorOfI64;
use crate::vector::VectorOfU8;
use crate::vector::VectorOfUniquePtr;
use vstd::layout::align_of;
use vstd::layout::size_of;
use vstd::prelude::*;

verus! {

/// `W` and `R` have the same size and the same alignment.
pub open spec fn layouts_agree<W, R>() -> bool {
    size_of::<W>() == size_of::<R>() && align_of::<W>() == align_of::<R>()
}

/// Every wrapper agrees in layout with its descriptor; for the array of
/// owned pointers, with pointees of type `T`.
pub open spec fn all_layouts_agree<T>() -> bool {
    &&& layouts_agree::<String, RawString>()
    &&& layouts_agree::<VectorOfBool, RawBitVector>()
    &&& layouts_agree::<VectorOfU8, RawVector<u8>>()
    &&& layouts_agree::<VectorOfI32, RawVector<i32>>()
    &&& layouts_agree::<VectorOfI64, RawVector<i64>>()
    &&& layouts_agree::<VectorOfF32, RawVector<u32>>()
    &&& layouts_agree::<VectorOfUniquePtr<T>, RawVector<Box<T>>>()
}

/// Compares the size and the alignment of `W` with those of `R`.
pub fn same_layout<W, R>() -> (same: bool)
    ensures
        same == layouts_agree::<W, R>(),
{
    std::mem::size_of::<W>() == std::mem::size_of::<R>() && std::mem::align_of::<W>()
        == std::mem::align_of::<R>()
}

/// Compares every wrapper with its descriptor; meant to run once, before
/// any wrapper is laid over memory that the runtime owns.
pub fn wrappers_match_descriptors<T>() -> (ok: bool)
    ensures
        ok == all_layouts_agree::<T>(),
{
    same_layout::<String, RawString>() && same_layout::<VectorOfBool, RawBitVector>()
        && same_layout::<VectorOfU8, RawVector<u8>>() && same_layout::<
        VectorOfI32,
        RawVector<i32>,
    >() && same_layout::<VectorOfI64, RawVector<i64>>() && same_layout::<
        VectorOfF32,
        RawVector<u32>,
    >() && same_layout::<VectorOfUniquePtr<T>, RawVector<Box<T>>>()
}

} // verus!
