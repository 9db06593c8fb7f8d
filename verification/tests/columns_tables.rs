//! The column-expression algebra and the lookup bookkeeping.

use mozak_vm::columns::{flip, Column, ColumnWithTypedInput};
use mozak_vm::memory;
use mozak_vm::memory_fullword;
use mozak_vm::memory_io;
use mozak_vm::rangecheck_u8;
use mozak_vm::register;
use mozak_vm::registerinit;
use mozak_vm::tables::{
    Lookups, MemoryRangeCheckTable, RegisterRegInitTable, TableKind,
};
use mozak_vm::utils::pad_trace_with_default;

#[test]
fn flip_swaps_local_and_next() {
    let col = ColumnWithTypedInput {
        lv_linear_combination: vec![1i64, 2],
        nv_linear_combination: vec![3i64],
        constant: 7,
    };
    let flipped = flip(col);
    assert_eq!(flipped.lv_linear_combination, vec![3]);
    assert_eq!(flipped.nv_linear_combination, vec![1, 2]);
    assert_eq!(flipped.constant, 7);
}

#[test]
fn constant_now_next_have_the_right_shape() {
    let c = Column::constant(5);
    assert!(c.lv_linear_combination.is_empty());
    assert!(c.nv_linear_combination.is_empty());
    assert_eq!(c.constant, 5);
    let n = Column::now(vec![1, 2, 3]);
    assert_eq!(n.lv_linear_combination, vec![1, 2, 3]);
    assert!(n.nv_linear_combination.is_empty());
    assert_eq!(n.constant, 0);
    let x = Column::next(vec![4]);
    assert!(x.lv_linear_combination.is_empty());
    assert_eq!(x.nv_linear_combination, vec![4]);
    assert_eq!(x.constant, 0);
}

#[test]
fn plus_zero_pads_the_shorter_vector() {
    let a = Column::now(vec![1, 2]);
    let b = Column::now(vec![10]);
    let c = a.plus(&b);
    assert_eq!(c.lv_linear_combination, vec![11, 2]);
    assert_eq!(c.constant, 0);
}

#[test]
fn times_scales_every_coefficient() {
    let a = ColumnWithTypedInput {
        lv_linear_combination: vec![1i64, -2],
        nv_linear_combination: vec![3i64],
        constant: 4,
    };
    let c = a.times(5);
    assert_eq!(c.lv_linear_combination, vec![5, -10]);
    assert_eq!(c.nv_linear_combination, vec![15]);
    assert_eq!(c.constant, 20);
}

#[test]
fn reduce_with_powers_is_horner() {
    let terms = vec![Column::constant(1), Column::constant(2), Column::constant(3)];
    let r = Column::reduce_with_powers(&terms, 10);
    // 1 + 10 * (2 + 10 * 3) = 321
    assert_eq!(r.constant, 321);
    assert!(r.lv_linear_combination.is_empty());
}

#[test]
fn memory_col_map_selects_each_column() {
    let m = memory::col_map();
    assert_eq!(m.is_writable.lv_linear_combination, vec![1, 0, 0, 0, 0, 0, 0, 0, 0]);
    assert_eq!(m.addr.lv_linear_combination, vec![0, 1, 0, 0, 0, 0, 0, 0, 0]);
    assert_eq!(m.diff_addr_inv.lv_linear_combination, vec![0, 0, 0, 0, 0, 0, 0, 0, 1]);
}

#[test]
fn memory_is_executed_sums_the_three_filters() {
    let m = memory::col_map();
    let f = m.is_executed();
    assert_eq!(f.lv_linear_combination, vec![0, 0, 0, 1, 1, 1, 0, 0, 0]);
    assert_eq!(f.constant, 0);
}

#[test]
fn memory_rangecheck_looking_sends_addr_twice_and_diff_clk() {
    let r = memory::rangecheck_looking();
    assert_eq!(r.len(), 3);
    for t in &r {
        assert_eq!(t.kind, TableKind::Memory);
        assert_eq!(t.filter_column.lv_linear_combination, vec![0, 0, 0, 1, 1, 1, 0, 0, 0]);
    }
    assert_eq!(r[0].columns.0.lv_linear_combination, vec![0, 1, 0, 0, 0, 0, 0, 0, 0]);
    assert_eq!(r[1].columns.0.lv_linear_combination, vec![0, 1, 0, 0, 0, 0, 0, 0, 0]);
    assert_eq!(r[2].columns.0.lv_linear_combination, vec![0, 0, 0, 0, 0, 0, 0, 1, 0]);
}

#[test]
fn memory_rangecheck_u8_looking_sends_the_value() {
    let r = memory::rangecheck_u8_looking();
    assert_eq!(r.len(), 1);
    assert_eq!(r[0].kind, TableKind::Memory);
    assert_eq!(r[0].columns.0.lv_linear_combination, vec![0, 0, 0, 0, 0, 0, 1, 0, 0]);
}

#[test]
fn memory_lookup_for_cpu_carries_the_access_columns() {
    let t = memory::lookup_for_cpu();
    assert_eq!(t.kind, TableKind::Memory);
    assert_eq!(t.columns.clk.lv_linear_combination, vec![0, 0, 1, 0, 0, 0, 0, 0, 0]);
    assert_eq!(t.columns.addr.lv_linear_combination, vec![0, 1, 0, 0, 0, 0, 0, 0, 0]);
    assert_eq!(t.columns.value.lv_linear_combination, vec![0, 0, 0, 0, 0, 0, 1, 0, 0]);
    assert_eq!(t.filter_column.lv_linear_combination, vec![0, 0, 0, 1, 1, 0, 0, 0, 0]);
}

#[test]
fn memory_lookup_for_memoryinit_filters_on_init() {
    let t = memory::lookup_for_memoryinit();
    assert_eq!(t.kind, TableKind::Memory);
    assert_eq!(t.columns.is_writable.lv_linear_combination, vec![1, 0, 0, 0, 0, 0, 0, 0, 0]);
    assert_eq!(t.filter_column.lv_linear_combination, vec![0, 0, 0, 0, 0, 1, 0, 0, 0]);
}

#[test]
fn io_memory_lookups() {
    let d = memory_io::data_for_cpu();
    assert_eq!(d.clk.lv_linear_combination, vec![1, 0, 0, 0, 0, 0, 0]);
    assert_eq!(d.addr.lv_linear_combination, vec![0, 1, 0, 0, 0, 0, 0]);
    assert_eq!(d.size.lv_linear_combination, vec![0, 0, 1, 0, 0, 0, 0]);
    let f = memory_io::filter_for_cpu();
    assert_eq!(f.lv_linear_combination, vec![0, 0, 0, 0, 0, 1, 0]);
    let dm = memory_io::data_for_memory();
    assert_eq!(dm.is_store.lv_linear_combination, vec![0, 0, 0, 0, 1, 0, 0]);
    assert!(dm.is_load.lv_linear_combination.is_empty());
    assert_eq!(dm.is_load.constant, 0);
    let fm = memory_io::filter_for_memory();
    assert_eq!(fm.lv_linear_combination, vec![0, 0, 0, 0, 1, 0, 0]);
    let e = memory_io::col_map().is_executed();
    assert_eq!(e.lv_linear_combination, vec![0, 0, 0, 0, 1, 1, 0]);
}

#[test]
fn fullword_memory_is_executed_and_filter() {
    let m = memory_fullword::col_map();
    let f = m.is_executed();
    assert_eq!(f.lv_linear_combination, vec![0, 1, 1, 0, 0, 0, 0, 0, 0, 0, 0]);
    let g = memory_fullword::filter();
    assert_eq!(g.lv_linear_combination, vec![0, 1, 1, 0, 0, 0, 0, 0, 0, 0, 0]);
    assert_eq!(m.addrs[2].lv_linear_combination, vec![0, 0, 0, 0, 0, 1, 0, 0, 0, 0, 0]);
    assert_eq!(m.limbs[3].lv_linear_combination, vec![0, 0, 0, 0, 0, 0, 0, 0, 0, 0, 1]);
}

#[test]
fn register_ops_constructors() {
    assert_eq!(register::init(), register::Ops { is_init: 1, is_read: 0, is_write: 0 });
    assert_eq!(register::read(), register::Ops { is_init: 0, is_read: 1, is_write: 0 });
    assert_eq!(register::write(), register::Ops { is_init: 0, is_read: 0, is_write: 1 });
    assert_eq!(register::dummy(), register::Ops { is_init: 0, is_read: 0, is_write: 0 });
}

#[test]
fn register_is_used_and_lookups() {
    let m = register::col_map();
    let used = m.is_used();
    assert_eq!(used.lv_linear_combination, vec![0, 0, 0, 0, 1, 1, 1]);
    let t = register::lookup_for_register_init();
    assert_eq!(t.kind, TableKind::Register);
    assert_eq!(t.columns.addr.lv_linear_combination, vec![1, 0, 0, 0, 0, 0, 0]);
    assert_eq!(t.columns.value.lv_linear_combination, vec![0, 1, 0, 0, 0, 0, 0]);
    assert_eq!(t.filter_column.lv_linear_combination, vec![0, 0, 0, 0, 1, 0, 0]);
    let rc = register::rangecheck_looking();
    assert_eq!(rc.len(), 1);
    assert_eq!(rc[0].columns.0.lv_linear_combination, vec![0, 0, 0, 1, 0, 0, 0]);
    assert_eq!(rc[0].filter_column.lv_linear_combination, vec![0, 0, 0, 0, 0, 1, 1]);
}

#[test]
fn registerinit_data_and_filter() {
    let d = registerinit::data_for_register();
    assert_eq!(d.addr.lv_linear_combination, vec![1, 0, 0]);
    assert_eq!(d.value.lv_linear_combination, vec![0, 1, 0]);
    let f = registerinit::filter_for_register();
    assert_eq!(f.lv_linear_combination, vec![0, 0, 1]);
}

#[test]
fn rangecheck_u8_data_and_filter() {
    let d = rangecheck_u8::data();
    assert_eq!(d.0.lv_linear_combination, vec![1, 0]);
    let f = rangecheck_u8::filter();
    assert_eq!(f.lv_linear_combination, vec![0, 1]);
}

#[test]
fn table_kind_all_lists_every_kind() {
    let all = TableKind::all();
    assert_eq!(all.len(), 6);
    assert_eq!(all[0], TableKind::Cpu);
    assert_eq!(all[3], TableKind::Memory);
    assert_eq!(all[5], TableKind::RegisterInit);
}

#[test]
fn memory_rangecheck_lookup_pairs_the_tables() {
    let ctl = MemoryRangeCheckTable::lookups();
    assert_eq!(ctl.looking_tables.len(), 3);
    for t in &ctl.looking_tables {
        assert_eq!(t.kind, TableKind::Memory);
    }
    assert_eq!(ctl.looked_table.kind, TableKind::RangeCheck);
    assert_eq!(ctl.looked_table.filter_column.constant, 1);
}

#[test]
fn register_reginit_lookup_pairs_the_tables() {
    let ctl = RegisterRegInitTable::lookups();
    assert_eq!(ctl.looking_tables.len(), 1);
    assert_eq!(ctl.looking_tables[0].kind, TableKind::Register);
    assert_eq!(ctl.looked_table.kind, TableKind::RegisterInit);
}

#[test]
fn pad_trace_with_default_reaches_the_next_power_of_two() {
    let row = memory::Memory {
        is_writable: 1i64,
        addr: 2,
        clk: 3,
        is_store: 0,
        is_load: 1,
        is_init: 0,
        value: 9,
        diff_clk: 0,
        diff_addr_inv: 0,
    };
    let padded = pad_trace_with_default(vec![row, row, row]);
    assert_eq!(padded.len(), 4);
    assert_eq!(padded[0], row);
    assert_eq!(padded[2], row);
    assert_eq!(padded[3].addr, 0);
    assert_eq!(padded[3].value, 0);

    let empty: Vec<memory::Memory<i64>> = Vec::new();
    assert_eq!(pad_trace_with_default(empty).len(), 1);

    let four = pad_trace_with_default(vec![row, row, row, row]);
    assert_eq!(four.len(), 4);

    let rc = rangecheck_u8::RangeCheckU8 { value: 7i64, multiplicity: 1 };
    let padded_rc = pad_trace_with_default(vec![rc, rc, rc, rc, rc]);
    assert_eq!(padded_rc.len(), 8);
    assert_eq!(padded_rc[6], rangecheck_u8::RangeCheckU8 { value: 0, multiplicity: 0 });
}
