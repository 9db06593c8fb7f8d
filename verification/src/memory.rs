//! Column layout of the combined memory trace table.

use vstd::prelude::*;

use crate::columns::{
    add_cols, add_ok, col_bounded, lemma_add_ok_bounded, lemma_unit_bounded, unit_col,
    unit_column, Column, ColumnModel,
};
use crate::rangecheck::RangeCheckCtl;
use crate::tables::{MemoryTable, TableKind, TableWithTypedOutput};

verus! {

/// Width of the memory table.
pub const MEM_COLS: usize = 9;

/// Represents a row of the memory trace that is transformed from
/// read-only, read-write, halfword and fullword memories.
#[derive(Debug, Clone, Copy, PartialEq, Eq, Default)]
pub struct Memory<T> {
    /// Indicates if the memory address is writable.
    pub is_writable: T,
    /// Memory address.
    pub addr: T,
    /// Clock at memory access.
    pub clk: T,
    /// Binary filter column to represent a store operation.
    pub is_store: T,
    /// Binary filter column to represent a load operation.
    /// The memory table does not concern itself with the signedness of
    /// the value, so signed and unsigned loads look alike here.
    pub is_load: T,
    /// Memory initialisation from the program image, prior to execution.
    pub is_init: T,
    /// Value of the memory access.
    pub value: T,
    /// Difference between current and previous clock.
    pub diff_clk: T,
    /// Inverse of the difference between current and previous address.
    pub diff_addr_inv: T,
}

/// The row shape handed between the CPU table and the memory table.
#[derive(Debug, Clone, Copy, PartialEq, Eq, Default)]
pub struct MemoryCtl<T> {
    pub clk: T,
    pub is_store: T,
    pub is_load: T,
    pub addr: T,
    pub value: T,
}

/// The row shape handed between the memory table and the
/// memory-initialisation table.
#[derive(Debug, Clone, Copy, PartialEq, Eq, Default)]
pub struct MemoryInitCtl<T> {
    pub is_writable: T,
    pub address: T,
    pub clk: T,
    pub value: T,
}

/// The selector of one memory column by position.
pub open spec fn mem_col(i: int) -> ColumnModel {
    unit_col(MEM_COLS as int, i)
}

/// The filter that holds on every real (non-padding) row:
/// `is_store + is_load + is_init`.
pub open spec fn mem_executed_col() -> ColumnModel {
    add_cols(add_cols(mem_col(3), mem_col(4)), mem_col(5))
}

/// The column map of the memory table: one selector per column.
pub fn col_map() -> (m: Memory<Column>)
    ensures
        m.is_writable@ == mem_col(0),
        m.addr@ == mem_col(1),
        m.clk@ == mem_col(2),
        m.is_store@ == mem_col(3),
        m.is_load@ == mem_col(4),
        m.is_init@ == mem_col(5),
        m.value@ == mem_col(6),
        m.diff_clk@ == mem_col(7),
        m.diff_addr_inv@ == mem_col(8),
{
    Memory {
        is_writable: unit_column(MEM_COLS, 0),
        addr: unit_column(MEM_COLS, 1),
        clk: unit_column(MEM_COLS, 2),
        is_store: unit_column(MEM_COLS, 3),
        is_load: unit_column(MEM_COLS, 4),
        is_init: unit_column(MEM_COLS, 5),
        value: unit_column(MEM_COLS, 6),
        diff_clk: unit_column(MEM_COLS, 7),
        diff_addr_inv: unit_column(MEM_COLS, 8),
    }
}

impl Memory<Column> {
    /// The sum of the three operation filters: nonzero exactly on the
    /// rows that represent a real access or initialisation.
    pub fn is_executed(&self) -> (r: Column)
        requires
            add_ok(self.is_store@, self.is_load@),
            add_ok(add_cols(self.is_store@, self.is_load@), self.is_init@),
        ensures
            r@ == add_cols(add_cols(self.is_store@, self.is_load@), self.is_init@),
    {
        self.is_store.plus(&self.is_load).plus(&self.is_init)
    }
}

proof fn lemma_executed_ok(m: Memory<Column>)
    requires
        m.is_store@ == mem_col(3),
        m.is_load@ == mem_col(4),
        m.is_init@ == mem_col(5),
    ensures
        add_ok(m.is_store@, m.is_load@),
        add_ok(add_cols(m.is_store@, m.is_load@), m.is_init@),
        add_cols(add_cols(m.is_store@, m.is_load@), m.is_init@) == mem_executed_col(),
{
    lemma_unit_bounded(MEM_COLS as int, 3);
    lemma_unit_bounded(MEM_COLS as int, 4);
    lemma_unit_bounded(MEM_COLS as int, 5);
    lemma_add_ok_bounded(m.is_store@, m.is_load@, 1, 1);
    lemma_add_ok_bounded(add_cols(m.is_store@, m.is_load@), m.is_init@, 2, 1);
}

/// The address columns (twice, one per 16-bit limb pass) and the clock
/// difference, each sent to the range-check table whenever the row is
/// a real one.
pub fn rangecheck_looking() -> (r: Vec<TableWithTypedOutput<RangeCheckCtl<Column>>>)
    ensures
        r@.len() == 3,
        forall|i: int|
            0 <= i < 3 ==> (#[trigger] r@[i]).kind == TableKind::Memory && r@[i].filter_column@
                == mem_executed_col(),
        r@[0].columns.0@ == mem_col(1),
        r@[1].columns.0@ == mem_col(1),
        r@[2].columns.0@ == mem_col(7),
{
    let m = col_map();
    proof {
        lemma_executed_ok(m);
    }
    let mut r: Vec<TableWithTypedOutput<RangeCheckCtl<Column>>> = Vec::new();
    let f0 = m.is_executed();
    let f1 = f0.duplicate();
    let f2 = f0.duplicate();
    r.push(MemoryTable::new(RangeCheckCtl(unit_column(MEM_COLS, 1)), f0));
    r.push(MemoryTable::new(RangeCheckCtl(unit_column(MEM_COLS, 1)), f1));
    r.push(MemoryTable::new(RangeCheckCtl(unit_column(MEM_COLS, 7)), f2));
    r
}

/// The value column, sent to the 8-bit range-check table whenever the
/// row is a real one.
pub fn rangecheck_u8_looking() -> (r: Vec<TableWithTypedOutput<RangeCheckCtl<Column>>>)
    ensures
        r@.len() == 1,
        r@[0].kind == TableKind::Memory,
        r@[0].filter_column@ == mem_executed_col(),
        r@[0].columns.0@ == mem_col(6),
{
    let m = col_map();
    proof {
        lemma_executed_ok(m);
    }
    let f = m.is_executed();
    let mut r: Vec<TableWithTypedOutput<RangeCheckCtl<Column>>> = Vec::new();
    r.push(MemoryTable::new(RangeCheckCtl(unit_column(MEM_COLS, 6)), f));
    r
}

/// Lookup between CPU table and memory table: the clock, the two
/// operation filters, the address and the value, on rows that load or
/// store.
pub fn lookup_for_cpu() -> (r: TableWithTypedOutput<MemoryCtl<Column>>)
    ensures
        r.kind == TableKind::Memory,
        r.columns.clk@ == mem_col(2),
        r.columns.is_store@ == mem_col(3),
        r.columns.is_load@ == mem_col(4),
        r.columns.addr@ == mem_col(1),
        r.columns.value@ == mem_col(6),
        r.filter_column@ == add_cols(mem_col(3), mem_col(4)),
{
    let m = col_map();
    proof {
        lemma_unit_bounded(MEM_COLS as int, 3);
        lemma_unit_bounded(MEM_COLS as int, 4);
        lemma_add_ok_bounded(m.is_store@, m.is_load@, 1, 1);
    }
    let filter = m.is_store.plus(&m.is_load);
    MemoryTable::new(
        MemoryCtl {
            clk: m.clk,
            is_store: m.is_store,
            is_load: m.is_load,
            addr: m.addr,
            value: m.value,
        },
        filter,
    )
}

/// Lookup into the memory-initialisation table: writability, address,
/// clock and value, on initialisation rows.
pub fn lookup_for_memoryinit() -> (r: TableWithTypedOutput<MemoryInitCtl<Column>>)
    ensures
        r.kind == TableKind::Memory,
        r.columns.is_writable@ == mem_col(0),
        r.columns.address@ == mem_col(1),
        r.columns.clk@ == mem_col(2),
        r.columns.value@ == mem_col(6),
        r.filter_column@ == mem_col(5),
{
    let m = col_map();
    MemoryTable::new(
        MemoryInitCtl {
            is_writable: m.is_writable,
            address: m.addr,
            clk: m.clk,
            value: m.value,
        },
        m.is_init,
    )
}

} // verus!
