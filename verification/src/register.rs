//! Column layout of the register-access trace table.

use vstd::prelude::*;

use crate::columns::{
    add_cols, add_ok, lemma_add_ok_bounded, lemma_unit_bounded, unit_col, unit_column, Column,
    ColumnModel,
};
use crate::rangecheck::RangeCheckCtl;
use crate::registerinit::RegisterInitCtl;
use crate::tables::{RegisterTable, TableKind, TableWithTypedOutput};

verus! {

/// Width of the register table.
pub const REG_COLS: usize = 7;

/// Operations (one-hot encoded).
#[derive(Debug, Clone, Copy, PartialEq, Eq, Default)]
pub struct Ops<T> {
    /// Binary filter column that marks a row as the initialization of
    /// a register.
    pub is_init: T,
    /// Binary filter column that marks a row as a register read.
    pub is_read: T,
    /// Binary filter column that marks a row as a register write.
    pub is_write: T,
}

/// The initialisation operation.
pub fn init() -> (r: Ops<i64>)
    ensures
        r == (Ops { is_init: 1i64, is_read: 0i64, is_write: 0i64 }),
{
    Ops { is_init: 1, is_read: 0, is_write: 0 }
}

/// The read operation.
pub fn read() -> (r: Ops<i64>)
    ensures
        r == (Ops { is_init: 0i64, is_read: 1i64, is_write: 0i64 }),
{
    Ops { is_init: 0, is_read: 1, is_write: 0 }
}

/// The write operation.
pub fn write() -> (r: Ops<i64>)
    ensures
        r == (Ops { is_init: 0i64, is_read: 0i64, is_write: 1i64 }),
{
    Ops { is_init: 0, is_read: 0, is_write: 1 }
}

/// A dummy [`Ops`]: all three filter columns 0, so that
/// `is_used = is_init + is_read + is_write` can be constrained.
pub fn dummy() -> (r: Ops<i64>)
    ensures
        r == (Ops { is_init: 0i64, is_read: 0i64, is_write: 0i64 }),
{
    Ops { is_init: 0, is_read: 0, is_write: 0 }
}

/// One row of the register-access table.
#[derive(Debug, Clone, Copy, PartialEq, Eq, Default)]
pub struct Register<T> {
    /// The register 'address' that indexes into 1 of our 32 registers.
    /// Should only take values 0-31, so this column should be a running
    /// sum from 0 to 31 (inclusive). Note that this isn't the same as a
    /// memory address.
    pub addr: T,
    /// Value of the register at time (in clk) of access.
    pub value: T,
    /// Augmented clock at register access: `clk * 2` for reads and
    /// `clk * 2 + 1` for writes, so that a register is never written
    /// before it is read within one step.
    pub augmented_clk: T,
    /// Difference of the local `augmented_clk` from the previous row's;
    /// range-checked to order the rows by augmented clock.
    pub diff_augmented_clk: T,
    /// Columns that indicate what action is taken on the register.
    pub ops: Ops<T>,
}

/// The selector of one register column by position.
pub open spec fn reg_col(i: int) -> ColumnModel {
    unit_col(REG_COLS as int, i)
}

/// The filter that marks a row as used by any of the three operations.
pub open spec fn reg_used_col() -> ColumnModel {
    add_cols(add_cols(reg_col(4), reg_col(5)), reg_col(6))
}

/// The column map of the register table.
pub fn col_map() -> (m: Register<Column>)
    ensures
        m.addr@ == reg_col(0),
        m.value@ == reg_col(1),
        m.augmented_clk@ == reg_col(2),
        m.diff_augmented_clk@ == reg_col(3),
        m.ops.is_init@ == reg_col(4),
        m.ops.is_read@ == reg_col(5),
        m.ops.is_write@ == reg_col(6),
{
    Register {
        addr: unit_column(REG_COLS, 0),
        value: unit_column(REG_COLS, 1),
        augmented_clk: unit_column(REG_COLS, 2),
        diff_augmented_clk: unit_column(REG_COLS, 3),
        ops: Ops {
            is_init: unit_column(REG_COLS, 4),
            is_read: unit_column(REG_COLS, 5),
            is_write: unit_column(REG_COLS, 6),
        },
    }
}

impl Register<Column> {
    /// The virtual `is_used` column: the sum of the three operation
    /// filters, which flags real rows against padding rows.
    pub fn is_used(self) -> (r: Column)
        requires
            add_ok(self.ops.is_init@, self.ops.is_read@),
            add_ok(add_cols(self.ops.is_init@, self.ops.is_read@), self.ops.is_write@),
        ensures
            r@ == add_cols(add_cols(self.ops.is_init@, self.ops.is_read@), self.ops.is_write@),
    {
        self.ops.is_init.plus(&self.ops.is_read).plus(&self.ops.is_write)
    }
}

/// Lookup into the register-init table: address and value, on
/// initialisation rows.
pub fn lookup_for_register_init() -> (r: TableWithTypedOutput<RegisterInitCtl<Column>>)
    ensures
        r.kind == TableKind::Register,
        r.columns.addr@ == reg_col(0),
        r.columns.value@ == reg_col(1),
        r.filter_column@ == reg_col(4),
{
    let m = col_map();
    RegisterTable::new(RegisterInitCtl { addr: m.addr, value: m.value }, m.ops.is_init)
}

/// The augmented-clock difference, sent to the range-check table on
/// rows that read or write.
pub fn rangecheck_looking() -> (r: Vec<TableWithTypedOutput<RangeCheckCtl<Column>>>)
    ensures
        r@.len() == 1,
        r@[0].kind == TableKind::Register,
        r@[0].columns.0@ == reg_col(3),
        r@[0].filter_column@ == add_cols(reg_col(5), reg_col(6)),
{
    let m = col_map();
    proof {
        lemma_unit_bounded(REG_COLS as int, 5);
        lemma_unit_bounded(REG_COLS as int, 6);
        lemma_add_ok_bounded(m.ops.is_read@, m.ops.is_write@, 1, 1);
    }
    let filter = m.ops.is_read.plus(&m.ops.is_write);
    let mut r: Vec<TableWithTypedOutput<RangeCheckCtl<Column>>> = Vec::new();
    r.push(RegisterTable::new(RangeCheckCtl(unit_column(REG_COLS, 3)), filter));
    r
}

} // verus!
