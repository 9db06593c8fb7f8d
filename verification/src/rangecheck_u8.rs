//! Column layout of the 8-bit range-check trace table.

use vstd::prelude::*;

use crate::columns::{unit_col, unit_column, Column, ColumnModel};
use crate::rangecheck::RangeCheckCtl;

verus! {

/// Width of the 8-bit range-check table.
pub const RC_U8_COLS: usize = 2;

/// One row of the 8-bit range-check table.
#[derive(Debug, Clone, Copy, PartialEq, Eq, Default)]
pub struct RangeCheckU8<T> {
    /// The u8 value to be range checked.
    pub value: T,
    /// The frequency with which the accompanying value occurs in the
    /// trace.
    pub multiplicity: T,
}

/// The selector of one column by position.
pub open spec fn rc_u8_col(i: int) -> ColumnModel {
    unit_col(RC_U8_COLS as int, i)
}

/// The column map of the 8-bit range-check table.
pub fn col_map() -> (m: RangeCheckU8<Column>)
    ensures
        m.value@ == rc_u8_col(0),
        m.multiplicity@ == rc_u8_col(1),
{
    RangeCheckU8 {
        value: unit_column(RC_U8_COLS, 0),
        multiplicity: unit_column(RC_U8_COLS, 1),
    }
}

/// The value column, as handed to lookups against this table.
pub fn data() -> (r: RangeCheckCtl<Column>)
    ensures
        r.0@ == rc_u8_col(0),
{
    let m = col_map();
    RangeCheckCtl::new(m.value)
}

/// The binary filter: rows with nonzero multiplicity carry a value to
/// be range checked; dummy rows have multiplicity 0.
pub fn filter() -> (r: Column)
    ensures
        r@ == rc_u8_col(1),
{
    let m = col_map();
    m.multiplicity
}

} // verus!
