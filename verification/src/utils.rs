//! Trace padding helpers.

use vstd::prelude::*;

use vstd::arithmetic::power2::is_pow2;

verus! {

/// A trace row type with a designated padding row.
///
/// Padding rows fill a trace up to a power-of-two length; their
/// designated value is what the original rows' default would be.
pub trait PaddingRow: Sized {
    /// The padding row's value.
    spec fn padding_spec() -> Self;

    /// Produce one padding row.
    fn padding() -> (r: Self)
        ensures
            r == Self::padding_spec(),
    ;
}

impl PaddingRow for crate::memory::Memory<i64> {
    open spec fn padding_spec() -> Self {
        crate::memory::Memory {
            is_writable: 0i64,
            addr: 0i64,
            clk: 0i64,
            is_store: 0i64,
            is_load: 0i64,
            is_init: 0i64,
            value: 0i64,
            diff_clk: 0i64,
            diff_addr_inv: 0i64,
        }
    }

    fn padding() -> (r: Self) {
        crate::memory::Memory {
            is_writable: 0,
            addr: 0,
            clk: 0,
            is_store: 0,
            is_load: 0,
            is_init: 0,
            value: 0,
            diff_clk: 0,
            diff_addr_inv: 0,
        }
    }
}

impl PaddingRow for crate::rangecheck_u8::RangeCheckU8<i64> {
    open spec fn padding_spec() -> Self {
        crate::rangecheck_u8::RangeCheckU8 { value: 0i64, multiplicity: 0i64 }
    }

    fn padding() -> (r: Self) {
        crate::rangecheck_u8::RangeCheckU8 { value: 0, multiplicity: 0 }
    }
}

/// Pad the trace with its padding row to the next power-of-two length.
///
/// The original rows stay in place; what follows them is padding; the
/// final length is the smallest power of two that holds the original
/// rows (and at least 1).
pub fn pad_trace_with_default<Row: PaddingRow>(trace: Vec<Row>) -> (r: Vec<Row>)
    requires
        trace@.len() <= usize::MAX / 2 + 1,
    ensures
        r@.len() >= trace@.len(),
        is_pow2(r@.len() as int),
        r@.subrange(0, trace@.len() as int) == trace@,
        forall|i: int| trace@.len() <= i < r@.len() ==> r@[i] == Row::padding_spec(),
        trace@.len() <= 1 ==> r@.len() == 1,
        trace@.len() > 1 ==> r@.len() < 2 * trace@.len(),
{
    let ghost orig = trace@;
    let mut p: usize = 1;
    proof {
        reveal(is_pow2);
    }
    while p < trace.len()
        invariant
            1 <= p,
            is_pow2(p as int),
            trace@.len() <= usize::MAX / 2 + 1,
            p == 1 || p < 2 * trace@.len(),
        decreases 2 * trace@.len() - p,
    {
        proof {
            reveal(is_pow2);
            assert(((2 * p) as int) / 2 == p as int);
        }
        p = p * 2;
    }
    let mut out = trace;
    while out.len() < p
        invariant
            orig.len() <= out@.len() <= p,
            out@.subrange(0, orig.len() as int) == orig,
            forall|i: int| orig.len() <= i < out@.len() ==> out@[i] == Row::padding_spec(),
        decreases p - out@.len(),
    {
        out.push(Row::padding());
        proof {
            assert(out@.subrange(0, orig.len() as int) =~= orig);
        }
    }
    out
}

} // verus!
