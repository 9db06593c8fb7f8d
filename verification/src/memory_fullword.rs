//! Column layout of the full-word memory trace table.

use vstd::prelude::*;

use core::marker::PhantomData;

use crate::columns::{
    add_cols, add_ok, lemma_add_ok_bounded, lemma_unit_bounded, unit_col, unit_column, Column,
    ColumnModel,
};

verus! {

/// Width of the full-word memory table.
pub const FULLWORD_COLS: usize = 11;

/// Operations (one-hot encoded); a row with neither filter set is
/// padding.
#[derive(Debug, Clone, Copy, PartialEq, Eq, Default)]
pub struct Ops<T> {
    /// Binary filter column to represent a word store.
    pub is_store: T,
    /// Binary filter column to represent a word load.
    pub is_load: T,
}

/// One row of the full-word memory table: a word access split into its
/// four byte limbs.
#[derive(Debug, Clone, Copy, PartialEq, Eq, Default)]
pub struct FullWordMemory<T> {
    /// Clock at memory access.
    pub clk: T,
    pub ops: Ops<T>,
    /// Memory addresses of the four byte limbs.
    pub addrs: [T; 4],
    /// The four byte limbs of the value.
    pub limbs: [T; 4],
}

/// The stark that checks the four byte limbs of a word access against
/// the byte-level memory table.
///
/// Only the column bookkeeping lives in this crate; the polynomial
/// side belongs to the downstream constraint system.
#[derive(Debug)]
pub struct FullWordMemoryStark<F, const D: usize> {
    pub _f: PhantomData<F>,
}

/// The selector of one full-word memory column by position.
pub open spec fn fullword_col(i: int) -> ColumnModel {
    unit_col(FULLWORD_COLS as int, i)
}

/// The column map of the full-word memory table.
pub fn col_map() -> (m: FullWordMemory<Column>)
    ensures
        m.clk@ == fullword_col(0),
        m.ops.is_store@ == fullword_col(1),
        m.ops.is_load@ == fullword_col(2),
        forall|i: int| 0 <= i < 4 ==> (#[trigger] m.addrs@[i])@ == fullword_col(3 + i),
        forall|i: int| 0 <= i < 4 ==> (#[trigger] m.limbs@[i])@ == fullword_col(7 + i),
{
    let m = FullWordMemory {
        clk: unit_column(FULLWORD_COLS, 0),
        ops: Ops {
            is_store: unit_column(FULLWORD_COLS, 1),
            is_load: unit_column(FULLWORD_COLS, 2),
        },
        addrs: [
            unit_column(FULLWORD_COLS, 3),
            unit_column(FULLWORD_COLS, 4),
            unit_column(FULLWORD_COLS, 5),
            unit_column(FULLWORD_COLS, 6),
        ],
        limbs: [
            unit_column(FULLWORD_COLS, 7),
            unit_column(FULLWORD_COLS, 8),
            unit_column(FULLWORD_COLS, 9),
            unit_column(FULLWORD_COLS, 10),
        ],
    };
    m
}

impl FullWordMemory<Column> {
    /// The sum of the two operation filters: nonzero exactly on real
    /// rows.
    pub fn is_executed(&self) -> (r: Column)
        requires
            add_ok(self.ops.is_load@, self.ops.is_store@),
        ensures
            r@ == add_cols(self.ops.is_load@, self.ops.is_store@),
    {
        self.ops.is_load.plus(&self.ops.is_store)
    }
}

/// The filter of the whole table's lookups, built from the column map.
pub fn filter() -> (r: Column)
    ensures
        r@ == add_cols(fullword_col(2), fullword_col(1)),
{
    let m = col_map();
    proof {
        lemma_unit_bounded(FULLWORD_COLS as int, 1);
        lemma_unit_bounded(FULLWORD_COLS as int, 2);
        lemma_add_ok_bounded(m.ops.is_load@, m.ops.is_store@, 1, 1);
    }
    m.is_executed()
}

} // verus!
