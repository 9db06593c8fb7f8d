//! Column layout of the register-initialisation trace table.

use vstd::prelude::*;

use crate::columns::{unit_col, unit_column, Column, ColumnModel};

verus! {

/// Width of the register-init table.
pub const REG_INIT_COLS: usize = 3;

/// One row of the register-initialisation table.
#[derive(Debug, Clone, Copy, PartialEq, Eq, Default)]
pub struct RegisterInit<T> {
    /// The 'address' that indexes into 1 of our 32 registers. Should
    /// only take values 0-31, so this column should be a running sum
    /// from 0 to 31 (inclusive).
    pub reg_addr: T,
    /// Value of the register.
    pub value: T,
    /// Binary column that marks a register as used, for lookups against
    /// the register table's `is_init` column. In our design register 0
    /// is always unused, so there it is 0; for the other registers it
    /// is 1.
    pub is_looked_up: T,
}

/// The row shape handed between the register table and this one.
#[derive(Debug, Clone, Copy, PartialEq, Eq, Default)]
pub struct RegisterInitCtl<T> {
    pub addr: T,
    pub value: T,
}

/// The selector of one register-init column by position.
pub open spec fn reg_init_col(i: int) -> ColumnModel {
    unit_col(REG_INIT_COLS as int, i)
}

/// The column map of the register-init table.
pub fn col_map() -> (m: RegisterInit<Column>)
    ensures
        m.reg_addr@ == reg_init_col(0),
        m.value@ == reg_init_col(1),
        m.is_looked_up@ == reg_init_col(2),
{
    RegisterInit {
        reg_addr: unit_column(REG_INIT_COLS, 0),
        value: unit_column(REG_INIT_COLS, 1),
        is_looked_up: unit_column(REG_INIT_COLS, 2),
    }
}

/// The columns this table hands to the register table: address and
/// value.
pub fn data_for_register() -> (r: RegisterInitCtl<Column>)
    ensures
        r.addr@ == reg_init_col(0),
        r.value@ == reg_init_col(1),
{
    let m = col_map();
    RegisterInitCtl { addr: m.reg_addr, value: m.value }
}

/// The filter for that lookup: the used marker.
pub fn filter_for_register() -> (r: Column)
    ensures
        r@ == reg_init_col(2),
{
    let m = col_map();
    m.is_looked_up
}

} // verus!
