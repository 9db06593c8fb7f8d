//! The range-check table's lookup row shape.

use vstd::prelude::*;

use core::marker::PhantomData;

verus! {

/// The single column handed into the range-check table.
#[derive(Debug)]
pub struct RangeCheckCtl<T>(pub T);

impl<T> RangeCheckCtl<T> {
    /// Wrap the column to be range checked.
    pub fn new(value: T) -> (r: Self)
        ensures
            r.0 == value,
    {
        RangeCheckCtl(value)
    }
}

/// The stark that range-checks 32-bit values via two 16-bit limbs.
///
/// Only the column bookkeeping lives in this crate; the polynomial
/// side belongs to the downstream constraint system.
#[derive(Debug)]
pub struct RangeCheckStark<F, const D: usize> {
    pub _f: PhantomData<F>,
}

} // verus!
