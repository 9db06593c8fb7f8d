//! Column layout of the input/output memory trace table.

use vstd::prelude::*;

use crate::columns::{add_cols, add_ok, unit_col, unit_column, Column, ColumnModel, zero_col};
use crate::memory::MemoryCtl;
use crate::tables::TableKind;

verus! {

/// Width of the input/output memory table.
pub const IO_MEM_COLS: usize = 7;

/// Operations (one-hot encoded).
#[derive(Debug, Clone, Copy, PartialEq, Eq, Default)]
pub struct Ops<T> {
    /// Binary filter column to represent a byte store into memory.
    pub is_memory_store: T,
    /// Binary filter column to represent an I/O transfer row.
    pub is_io_store: T,
}

/// One row of the input/output memory table.
#[derive(Debug, Clone, Copy, PartialEq, Eq, Default)]
pub struct InputOutputMemory<T> {
    /// Clock at memory access.
    pub clk: T,
    /// Address: start address of the transfer.
    pub addr: T,
    /// Size: size of the I/O chunk in bytes.
    pub size: T,
    /// Value: byte value.
    pub value: T,
    /// Operation filters.
    pub ops: Ops<T>,
    /// Helper to decrease the polynomial degree downstream.
    pub is_lv_and_nv_are_memory_rows: T,
}

/// The row shape handed to the CPU table for I/O calls.
#[derive(Debug, Clone, Copy, PartialEq, Eq, Default)]
pub struct InputOutputMemoryCtl<T> {
    pub clk: T,
    pub addr: T,
    pub size: T,
}

/// The selector of one I/O memory column by position.
pub open spec fn io_col(i: int) -> ColumnModel {
    unit_col(IO_MEM_COLS as int, i)
}

/// The column map of the input/output memory table.
pub fn col_map() -> (m: InputOutputMemory<Column>)
    ensures
        m.clk@ == io_col(0),
        m.addr@ == io_col(1),
        m.size@ == io_col(2),
        m.value@ == io_col(3),
        m.ops.is_memory_store@ == io_col(4),
        m.ops.is_io_store@ == io_col(5),
        m.is_lv_and_nv_are_memory_rows@ == io_col(6),
{
    InputOutputMemory {
        clk: unit_column(IO_MEM_COLS, 0),
        addr: unit_column(IO_MEM_COLS, 1),
        size: unit_column(IO_MEM_COLS, 2),
        value: unit_column(IO_MEM_COLS, 3),
        ops: Ops {
            is_memory_store: unit_column(IO_MEM_COLS, 4),
            is_io_store: unit_column(IO_MEM_COLS, 5),
        },
        is_lv_and_nv_are_memory_rows: unit_column(IO_MEM_COLS, 6),
    }
}

impl InputOutputMemory<Column> {
    /// The sum of the two operation filters: nonzero exactly on the
    /// rows that represent work.
    pub fn is_executed(&self) -> (r: Column)
        requires
            add_ok(self.ops.is_io_store@, self.ops.is_memory_store@),
        ensures
            r@ == add_cols(self.ops.is_io_store@, self.ops.is_memory_store@),
    {
        self.ops.is_io_store.plus(&self.ops.is_memory_store)
    }
}

/// Columns that the CPU table looks up for an I/O call: clock, start
/// address and size.
pub fn data_for_cpu() -> (r: InputOutputMemoryCtl<Column>)
    ensures
        r.clk@ == io_col(0),
        r.addr@ == io_col(1),
        r.size@ == io_col(2),
{
    let m = col_map();
    InputOutputMemoryCtl { clk: m.clk, addr: m.addr, size: m.size }
}

/// The binary filter of that lookup.
pub fn filter_for_cpu() -> (r: Column)
    ensures
        r@ == io_col(5),
{
    let m = col_map();
    m.ops.is_io_store
}

/// Columns that the memory table looks up from here: the transfer's
/// byte stores, with the load filter constantly zero.
pub fn data_for_memory() -> (r: MemoryCtl<Column>)
    ensures
        r.clk@ == io_col(0),
        r.is_store@ == io_col(4),
        r.is_load@ == (ColumnModel { constant: 0, ..zero_col() }),
        r.value@ == io_col(3),
        r.addr@ == io_col(1),
{
    let m = col_map();
    MemoryCtl {
        clk: m.clk,
        is_store: m.ops.is_memory_store,
        is_load: Column::constant(0),
        value: m.value,
        addr: m.addr,
    }
}

/// The binary filter of that lookup.
pub fn filter_for_memory() -> (r: Column)
    ensures
        r@ == io_col(4),
{
    let m = col_map();
    m.ops.is_memory_store
}

} // verus!
