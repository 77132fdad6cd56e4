//! Keeps the set of buffer words closed.

use vstd::prelude::*;

verus! {

/// Implemented for the ten fixed-width integers only. As no other crate can
/// name this trait, none can add a word of its own.
pub trait Sealed {

}

impl Sealed for u8 {

}

impl Sealed for u16 {

}

impl Sealed for u32 {

}

impl Sealed for u64 {

}

impl Sealed for u128 {

}

impl Sealed for i8 {

}

impl Sealed for i16 {

}

impl Sealed for i32 {

}

impl Sealed for i64 {

}

impl Sealed for i128 {

}

} // verus!
