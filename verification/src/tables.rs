//! The trace tables and the cross-table lookups that tie them together.

use vstd::prelude::*;

use crate::columns::Column;
use crate::rangecheck::RangeCheckCtl;

verus! {

/// The trace tables of the downstream constraint system.
#[derive(Debug, Clone, Copy, PartialEq, Eq, Structural)]
pub enum TableKind {
    Cpu,
    RangeCheck,
    Bitwise,
    Memory,
    Register,
    RegisterInit,
}

impl TableKind {
    /// Every table kind, in a fixed order.
    pub fn all() -> (r: [TableKind; 6])
        ensures
            r@ =~= seq![
                TableKind::Cpu,
                TableKind::RangeCheck,
                TableKind::Bitwise,
                TableKind::Memory,
                TableKind::Register,
                TableKind::RegisterInit,
            ],
    {
        [
            TableKind::Cpu,
            TableKind::RangeCheck,
            TableKind::Bitwise,
            TableKind::Memory,
            TableKind::Register,
            TableKind::RegisterInit,
        ]
    }
}

/// One side of a lookup: a table kind, the row of column expressions
/// handed across, and the binary filter choosing the rows that take
/// part.
#[derive(Debug)]
pub struct TableWithTypedOutput<Row> {
    pub kind: TableKind,
    pub columns: Row,
    pub filter_column: Column,
}

/// Constructors of the memory trace table's lookup sides.
pub struct MemoryTable {}

/// Constructors of the range-check trace table's lookup sides.
pub struct RangeCheckTable {}

/// Constructors of the register trace table's lookup sides.
pub struct RegisterTable {}

/// Constructors of the register-init trace table's lookup sides.
pub struct RegisterInitTable {}

impl MemoryTable {
    /// A lookup side of the memory table.
    pub fn new<Row>(columns: Row, filter_column: Column) -> (t: TableWithTypedOutput<Row>)
        ensures
            t.kind == TableKind::Memory,
            t.columns == columns,
            t.filter_column == filter_column,
    {
        TableWithTypedOutput { kind: TableKind::Memory, columns, filter_column }
    }
}

impl RangeCheckTable {
    /// A lookup side of the range-check table.
    pub fn new<Row>(columns: Row, filter_column: Column) -> (t: TableWithTypedOutput<Row>)
        ensures
            t.kind == TableKind::RangeCheck,
            t.columns == columns,
            t.filter_column == filter_column,
    {
        TableWithTypedOutput { kind: TableKind::RangeCheck, columns, filter_column }
    }
}

impl RegisterTable {
    /// A lookup side of the register table.
    pub fn new<Row>(columns: Row, filter_column: Column) -> (t: TableWithTypedOutput<Row>)
        ensures
            t.kind == TableKind::Register,
            t.columns == columns,
            t.filter_column == filter_column,
    {
        TableWithTypedOutput { kind: TableKind::Register, columns, filter_column }
    }
}

impl RegisterInitTable {
    /// A lookup side of the register-init table.
    pub fn new<Row>(columns: Row, filter_column: Column) -> (t: TableWithTypedOutput<Row>)
        ensures
            t.kind == TableKind::RegisterInit,
            t.columns == columns,
            t.filter_column == filter_column,
    {
        TableWithTypedOutput { kind: TableKind::RegisterInit, columns, filter_column }
    }
}

/// A cross-table lookup: the looking tables' filtered rows must occur
/// among the looked table's filtered rows.
#[derive(Debug)]
pub struct CrossTableLookup<Row> {
    pub looking_tables: Vec<TableWithTypedOutput<Row>>,
    pub looked_table: TableWithTypedOutput<Row>,
}

impl<Row> CrossTableLookup<Row> {
    /// Pair the looking tables with the looked table.
    pub fn new(
        looking_tables: Vec<TableWithTypedOutput<Row>>,
        looked_table: TableWithTypedOutput<Row>,
    ) -> (r: CrossTableLookup<Row>)
        ensures
            r.looking_tables == looking_tables,
            r.looked_table == looked_table,
    {
        CrossTableLookup { looking_tables, looked_table }
    }
}

/// A named cross-table lookup of the constraint system.
pub trait Lookups<Row> {
    fn lookups() -> CrossTableLookup<Row>;
}

/// The lookup that sends every memory row's range-checked columns into
/// the range-check table.
pub struct MemoryRangeCheckTable {}

impl Lookups<RangeCheckCtl<Column>> for MemoryRangeCheckTable {
    fn lookups() -> CrossTableLookup<RangeCheckCtl<Column>> {
        CrossTableLookup::new(
            crate::memory::rangecheck_looking(),
            RangeCheckTable::new(RangeCheckCtl(Column::always()), Column::always()),
        )
    }
}

/// The lookup that ties each register-init row to the register table's
/// initialisation rows.
pub struct RegisterRegInitTable {}

impl Lookups<crate::registerinit::RegisterInitCtl<Column>> for RegisterRegInitTable {
    fn lookups() -> CrossTableLookup<crate::registerinit::RegisterInitCtl<Column>> {
        CrossTableLookup::new(
            vec![crate::register::lookup_for_register_init()],
            RegisterInitTable::new(
                crate::registerinit::data_for_register(),
                crate::registerinit::filter_for_register(),
            ),
        )
    }
}

} // verus!
