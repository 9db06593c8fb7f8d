//! Linear combinations of trace columns.
//!
//! A column expression stands for `dot(lv, local row) + dot(nv, next
//! row) + constant`.  Coefficient vectors are dense from the left and
//! implicitly zero beyond their length, so the empty vector is the zero
//! combination of any width.  [`eval`] is the meaning; every operation
//! states exactly what it does to that meaning's ingredients.

use vstd::prelude::*;

verus! {

/// The abstract value of a [`Column`].
pub ghost struct ColumnModel {
    pub lv: Seq<i64>,
    pub nv: Seq<i64>,
    pub constant: i64,
}

/// Represent a linear combination of columns.
///
/// `InputColumns` is the coefficient container; the crate instantiates
/// it with a dense vector, one coefficient per column of the input
/// table.
#[derive(Debug)]
pub struct ColumnWithTypedInput<InputColumns> {
    /// Linear combination of the local row.
    pub lv_linear_combination: InputColumns,
    /// Linear combination of the next row.
    pub nv_linear_combination: InputColumns,
    /// Constant of linear combination.
    pub constant: i64,
}

/// The column expressions used throughout the crate.
pub type Column = ColumnWithTypedInput<Vec<i64>>;

impl View for Column {
    type V = ColumnModel;

    open spec fn view(&self) -> ColumnModel {
        ColumnModel {
            lv: self.lv_linear_combination@,
            nv: self.nv_linear_combination@,
            constant: self.constant,
        }
    }
}

/// The coefficient at `i`, counting positions beyond the vector as zero.
pub open spec fn coeff(s: Seq<i64>, i: int) -> i64 {
    if 0 <= i < s.len() {
        s[i]
    } else {
        0
    }
}

/// Dot product of a coefficient vector with a row, the row zero-padded.
pub open spec fn dot(coeffs: Seq<i64>, row: Seq<int>) -> int
    decreases coeffs.len(),
{
    if coeffs.len() == 0 {
        0
    } else {
        dot(coeffs.drop_last(), row) + coeffs.last() * coeff_row(row, coeffs.len() - 1)
    }
}

/// The row entry at `i`, counting positions beyond the row as zero.
pub open spec fn coeff_row(row: Seq<int>, i: int) -> int {
    if 0 <= i < row.len() {
        row[i]
    } else {
        0
    }
}

/// What a column expression means against a pair of rows.
pub open spec fn eval(c: ColumnModel, lv: Seq<int>, nv: Seq<int>) -> int {
    dot(c.lv, lv) + dot(c.nv, nv) + c.constant
}

/// The zero combination.
pub open spec fn zero_col() -> ColumnModel {
    ColumnModel { lv: Seq::empty(), nv: Seq::empty(), constant: 0 }
}

/// Pointwise sum of two coefficient vectors, zero-padded to the longer.
pub open spec fn zip_add(x: Seq<i64>, y: Seq<i64>) -> Seq<i64> {
    Seq::new(
        if x.len() >= y.len() {
            x.len()
        } else {
            y.len()
        },
        |i: int| (coeff(x, i) + coeff(y, i)) as i64,
    )
}

/// The pointwise sums stay inside the 64-bit range.
pub open spec fn zip_add_ok(x: Seq<i64>, y: Seq<i64>) -> bool {
    forall|i: int| i64::MIN <= #[trigger] coeff(x, i) + coeff(y, i) <= i64::MAX
}

/// Sum of two column expressions.
pub open spec fn add_cols(a: ColumnModel, b: ColumnModel) -> ColumnModel {
    ColumnModel {
        lv: zip_add(a.lv, b.lv),
        nv: zip_add(a.nv, b.nv),
        constant: (a.constant + b.constant) as i64,
    }
}

/// No sum in `add_cols` leaves the 64-bit range.
pub open spec fn add_ok(a: ColumnModel, b: ColumnModel) -> bool {
    &&& zip_add_ok(a.lv, b.lv)
    &&& zip_add_ok(a.nv, b.nv)
    &&& i64::MIN <= a.constant + b.constant <= i64::MAX
}

/// Every coefficient scaled by `k`.
pub open spec fn scale_seq(x: Seq<i64>, k: i64) -> Seq<i64> {
    Seq::new(x.len(), |i: int| (x[i] * k) as i64)
}

/// The scalings stay inside the 64-bit range.
pub open spec fn scale_seq_ok(x: Seq<i64>, k: i64) -> bool {
    forall|i: int| 0 <= i < x.len() ==> i64::MIN <= #[trigger] x[i] * k <= i64::MAX
}

/// A column expression scaled by `k`.
pub open spec fn scale_col(a: ColumnModel, k: i64) -> ColumnModel {
    ColumnModel {
        lv: scale_seq(a.lv, k),
        nv: scale_seq(a.nv, k),
        constant: (a.constant * k) as i64,
    }
}

/// No product in `scale_col` leaves the 64-bit range.
pub open spec fn scale_ok(a: ColumnModel, k: i64) -> bool {
    &&& scale_seq_ok(a.lv, k)
    &&& scale_seq_ok(a.nv, k)
    &&& i64::MIN <= a.constant * k <= i64::MAX
}

/// Flip lv and nv.
pub fn flip<C>(col: ColumnWithTypedInput<C>) -> (r: ColumnWithTypedInput<C>)
    ensures
        r.lv_linear_combination == col.nv_linear_combination,
        r.nv_linear_combination == col.lv_linear_combination,
        r.constant == col.constant,
{
    ColumnWithTypedInput {
        lv_linear_combination: col.nv_linear_combination,
        nv_linear_combination: col.lv_linear_combination,
        constant: col.constant,
    }
}

fn zip_add_exec(x: &Vec<i64>, y: &Vec<i64>) -> (r: Vec<i64>)
    requires
        zip_add_ok(x@, y@),
    ensures
        r@ == zip_add(x@, y@),
{
    let n = if x.len() >= y.len() {
        x.len()
    } else {
        y.len()
    };
    let mut r: Vec<i64> = Vec::new();
    let mut i: usize = 0;
    while i < n
        invariant
            0 <= i <= n,
            n == if x@.len() >= y@.len() {
                x@.len()
            } else {
                y@.len()
            },
            zip_add_ok(x@, y@),
            r@ == zip_add(x@, y@).take(i as int),
        decreases n - i,
    {
        let xv: i64 = if i < x.len() {
            x[i]
        } else {
            0
        };
        let yv: i64 = if i < y.len() {
            y[i]
        } else {
            0
        };
        proof {
            assert(coeff(x@, i as int) == xv);
            assert(coeff(y@, i as int) == yv);
        }
        r.push(xv + yv);
        proof {
            assert(r@ =~= zip_add(x@, y@).take(i + 1));
        }
        i = i + 1;
    }
    proof {
        assert(zip_add(x@, y@).take(n as int) =~= zip_add(x@, y@));
    }
    r
}

fn scale_exec(x: &Vec<i64>, k: i64) -> (r: Vec<i64>)
    requires
        scale_seq_ok(x@, k),
    ensures
        r@ == scale_seq(x@, k),
{
    let mut r: Vec<i64> = Vec::new();
    let mut i: usize = 0;
    while i < x.len()
        invariant
            0 <= i <= x@.len(),
            scale_seq_ok(x@, k),
            r@ == scale_seq(x@, k).take(i as int),
        decreases x@.len() - i,
    {
        r.push(x[i] * k);
        proof {
            assert(r@ =~= scale_seq(x@, k).take(i + 1));
        }
        i = i + 1;
    }
    proof {
        assert(scale_seq(x@, k).take(x@.len() as int) =~= scale_seq(x@, k));
    }
    r
}

impl Column {
    /// The constant combination.
    pub fn constant(constant: i64) -> (r: Self)
        ensures
            r@ == (ColumnModel { constant, ..zero_col() }),
    {
        ColumnWithTypedInput {
            lv_linear_combination: Vec::new(),
            nv_linear_combination: Vec::new(),
            constant,
        }
    }

    /// The constant 1, the filter that admits every row.
    pub fn always() -> (r: Self)
        ensures
            r@ == (ColumnModel { constant: 1, ..zero_col() }),
    {
        Self::constant(1)
    }

    /// A combination of the local row only.
    pub fn now(lv_linear_combination: Vec<i64>) -> (r: Self)
        ensures
            r@ == (ColumnModel { lv: lv_linear_combination@, ..zero_col() }),
    {
        ColumnWithTypedInput {
            lv_linear_combination,
            nv_linear_combination: Vec::new(),
            constant: 0,
        }
    }

    /// A combination of the next row only.
    pub fn next(nv_linear_combination: Vec<i64>) -> (r: Self)
        ensures
            r@ == (ColumnModel { nv: nv_linear_combination@, ..zero_col() }),
    {
        ColumnWithTypedInput {
            lv_linear_combination: Vec::new(),
            nv_linear_combination,
            constant: 0,
        }
    }

    /// The sum of two combinations.
    pub fn plus(&self, other: &Self) -> (r: Self)
        requires
            add_ok(self@, other@),
        ensures
            r@ == add_cols(self@, other@),
    {
        ColumnWithTypedInput {
            lv_linear_combination: zip_add_exec(
                &self.lv_linear_combination,
                &other.lv_linear_combination,
            ),
            nv_linear_combination: zip_add_exec(
                &self.nv_linear_combination,
                &other.nv_linear_combination,
            ),
            constant: self.constant + other.constant,
        }
    }

    /// The combination scaled by `k`.
    pub fn times(&self, k: i64) -> (r: Self)
        requires
            scale_ok(self@, k),
        ensures
            r@ == scale_col(self@, k),
    {
        ColumnWithTypedInput {
            lv_linear_combination: scale_exec(&self.lv_linear_combination, k),
            nv_linear_combination: scale_exec(&self.nv_linear_combination, k),
            constant: self.constant * k,
        }
    }

    /// An independent copy with the same abstract value.
    pub fn duplicate(&self) -> (r: Self)
        ensures
            r@ == self@,
    {
        ColumnWithTypedInput {
            lv_linear_combination: copy_i64_vec(&self.lv_linear_combination),
            nv_linear_combination: copy_i64_vec(&self.nv_linear_combination),
            constant: self.constant,
        }
    }
}

fn copy_i64_vec(v: &Vec<i64>) -> (r: Vec<i64>)
    ensures
        r@ == v@,
{
    let mut r: Vec<i64> = Vec::new();
    let mut i: usize = 0;
    while i < v.len()
        invariant
            0 <= i <= v@.len(),
            r@ == v@.take(i as int),
        decreases v@.len() - i,
    {
        r.push(v[i]);
        proof {
            assert(r@ =~= v@.take(i + 1));
        }
        i = i + 1;
    }
    proof {
        assert(v@.take(v@.len() as int) =~= v@);
    }
    r
}

/// What `reduce_with_powers` means: a Horner evaluation in `alpha`
/// over the column expressions, first term least significant.
pub open spec fn reduce_spec(ts: Seq<ColumnModel>, alpha: i64) -> ColumnModel
    decreases ts.len(),
{
    if ts.len() == 0 {
        zero_col()
    } else {
        add_cols(scale_col(reduce_spec(ts.skip(1), alpha), alpha), ts[0])
    }
}

/// Every intermediate operation of the Horner evaluation stays in
/// 64-bit range.
pub open spec fn reduce_ok(ts: Seq<ColumnModel>, alpha: i64) -> bool
    decreases ts.len(),
{
    if ts.len() == 0 {
        true
    } else {
        &&& reduce_ok(ts.skip(1), alpha)
        &&& scale_ok(reduce_spec(ts.skip(1), alpha), alpha)
        &&& add_ok(scale_col(reduce_spec(ts.skip(1), alpha), alpha), ts[0])
    }
}

/// The views of a vector of columns.
pub open spec fn views_of(ts: Seq<Column>) -> Seq<ColumnModel> {
    ts.map_values(|c: Column| c@)
}

impl Column {
    /// Fold the terms into one combination by Horner's rule in `alpha`:
    /// the result means `t0 + alpha * (t1 + alpha * (t2 + ...))`.
    pub fn reduce_with_powers(terms: &Vec<Column>, alpha: i64) -> (r: Self)
        requires
            reduce_ok(views_of(terms@), alpha),
        ensures
            r@ == reduce_spec(views_of(terms@), alpha),
    {
        let mut acc = Self::constant(0);
        let mut i: usize = terms.len();
        proof {
            assert(views_of(terms@).skip(terms@.len() as int) =~= Seq::<ColumnModel>::empty());
        }
        while i > 0
            invariant
                0 <= i <= terms@.len(),
                reduce_ok(views_of(terms@), alpha),
                acc@ == reduce_spec(views_of(terms@).skip(i as int), alpha),
            decreases i,
        {
            proof {
                lemma_reduce_ok_suffix(views_of(terms@), alpha, i - 1);
                assert(views_of(terms@).skip(i - 1).skip(1) =~= views_of(terms@).skip(i as int));
                assert(views_of(terms@).skip(i - 1)[0] == terms@[i - 1]@);
            }
            i = i - 1;
            acc = acc.times(alpha).plus(&terms[i]);
        }
        proof {
            assert(views_of(terms@).skip(0) =~= views_of(terms@));
        }
        acc
    }
}

/// The validity of a Horner evaluation passes to every suffix.
proof fn lemma_reduce_ok_suffix(ts: Seq<ColumnModel>, alpha: i64, i: int)
    requires
        reduce_ok(ts, alpha),
        0 <= i <= ts.len(),
    ensures
        reduce_ok(ts.skip(i), alpha),
    decreases i,
{
    if i == 0 {
        assert(ts.skip(0) =~= ts);
    } else {
        lemma_reduce_ok_suffix(ts, alpha, i - 1);
        assert(ts.skip(i - 1).len() > 0);
        assert(reduce_ok(ts.skip(i - 1).skip(1), alpha));
        assert(ts.skip(i - 1).skip(1) =~= ts.skip(i));
    }
}

/// The coefficient vector that selects column `i` of a table `len`
/// columns wide.
pub open spec fn unit_seq(len: int, i: int) -> Seq<i64> {
    Seq::new(
        len as nat,
        |j: int|
            if j == i {
                1i64
            } else {
                0i64
            },
    )
}

/// The combination that selects exactly column `i` of the local row.
pub open spec fn unit_col(len: int, i: int) -> ColumnModel {
    ColumnModel { lv: unit_seq(len, i), nv: Seq::empty(), constant: 0 }
}

/// Every coefficient and the constant bounded by `m` in magnitude.
pub open spec fn col_bounded(c: ColumnModel, m: int) -> bool {
    &&& forall|i: int| -m <= #[trigger] coeff(c.lv, i) <= m
    &&& forall|i: int| -m <= #[trigger] coeff(c.nv, i) <= m
    &&& -m <= c.constant <= m
}

/// Sums of columns bounded by `ma` and `mb` are defined and bounded by
/// their sum.
pub proof fn lemma_add_ok_bounded(a: ColumnModel, b: ColumnModel, ma: int, mb: int)
    requires
        col_bounded(a, ma),
        col_bounded(b, mb),
        0 <= ma,
        0 <= mb,
        ma + mb <= i64::MAX,
    ensures
        add_ok(a, b),
        col_bounded(add_cols(a, b), ma + mb),
{
    assert forall|i: int| -(ma + mb) <= #[trigger] coeff(add_cols(a, b).lv, i) <= ma + mb by {
        assert(coeff(a.lv, i) + coeff(b.lv, i) == coeff(zip_add(a.lv, b.lv), i) || coeff(
            zip_add(a.lv, b.lv),
            i,
        ) == 0);
    }
    assert forall|i: int| -(ma + mb) <= #[trigger] coeff(add_cols(a, b).nv, i) <= ma + mb by {
        assert(coeff(a.nv, i) + coeff(b.nv, i) == coeff(zip_add(a.nv, b.nv), i) || coeff(
            zip_add(a.nv, b.nv),
            i,
        ) == 0);
    }
}

/// A unit column is bounded by 1.
pub proof fn lemma_unit_bounded(len: int, i: int)
    ensures
        col_bounded(unit_col(len, i), 1),
{
}

/// Build the column that selects column `i` of a table `len` columns
/// wide.
pub fn unit_column(len: usize, i: usize) -> (r: Column)
    requires
        i < len,
    ensures
        r@ == unit_col(len as int, i as int),
{
    let mut lv: Vec<i64> = Vec::new();
    let mut j: usize = 0;
    while j < len
        invariant
            0 <= j <= len,
            i < len,
            lv@ == unit_seq(len as int, i as int).take(j as int),
        decreases len - j,
    {
        if j == i {
            lv.push(1);
        } else {
            lv.push(0);
        }
        proof {
            assert(lv@ =~= unit_seq(len as int, i as int).take(j + 1));
        }
        j = j + 1;
    }
    proof {
        assert(unit_seq(len as int, i as int).take(len as int) =~= unit_seq(
            len as int,
            i as int,
        ));
    }
    Column::now(lv)
}

/// The dot product of the first `n` positions, both sides zero-padded.
pub open spec fn dot_n(coeffs: Seq<i64>, row: Seq<int>, n: int) -> int
    decreases n,
{
    if n <= 0 {
        0
    } else {
        dot_n(coeffs, row, n - 1) + coeff(coeffs, n - 1) * coeff_row(row, n - 1)
    }
}

/// `dot` is `dot_n` at the coefficient vector's own length.
proof fn lemma_dot_as_dot_n(coeffs: Seq<i64>, row: Seq<int>)
    ensures
        dot(coeffs, row) == dot_n(coeffs, row, coeffs.len() as int),
    decreases coeffs.len(),
{
    if coeffs.len() > 0 {
        lemma_dot_as_dot_n(coeffs.drop_last(), row);
        assert forall|i: int| 0 <= i < coeffs.len() - 1 implies coeff(coeffs.drop_last(), i)
            == coeff(coeffs, i) by {}
        lemma_dot_n_frame(coeffs.drop_last(), coeffs, row, coeffs.len() - 1);
    }
}

/// `dot_n` only looks at the first `n` positions.
proof fn lemma_dot_n_frame(a: Seq<i64>, b: Seq<i64>, row: Seq<int>, n: int)
    requires
        forall|i: int| 0 <= i < n ==> coeff(a, i) == coeff(b, i),
    ensures
        dot_n(a, row, n) == dot_n(b, row, n),
    decreases n,
{
    if n > 0 {
        lemma_dot_n_frame(a, b, row, n - 1);
    }
}

/// Positions past the coefficient vector contribute nothing.
proof fn lemma_dot_n_extend(coeffs: Seq<i64>, row: Seq<int>, n: int)
    requires
        coeffs.len() <= n,
    ensures
        dot_n(coeffs, row, n) == dot_n(coeffs, row, coeffs.len() as int),
    decreases n,
{
    if n > coeffs.len() {
        lemma_dot_n_extend(coeffs, row, n - 1);
        assert(coeff(coeffs, n - 1) == 0);
    }
}

proof fn lemma_dot_n_zip(x: Seq<i64>, y: Seq<i64>, row: Seq<int>, n: int)
    requires
        zip_add_ok(x, y),
        n <= zip_add(x, y).len(),
    ensures
        dot_n(zip_add(x, y), row, n) == dot_n(x, row, n) + dot_n(y, row, n),
    decreases n,
{
    if n > 0 {
        lemma_dot_n_zip(x, y, row, n - 1);
        assert(coeff(zip_add(x, y), n - 1) == coeff(x, n - 1) + coeff(y, n - 1));
        assert((coeff(x, n - 1) + coeff(y, n - 1)) * coeff_row(row, n - 1) == coeff(x, n - 1)
            * coeff_row(row, n - 1) + coeff(y, n - 1) * coeff_row(row, n - 1))
            by (nonlinear_arith);
    }
}

/// The sum of two combinations means the sum of their meanings.
pub proof fn lemma_eval_plus(a: ColumnModel, b: ColumnModel, lv: Seq<int>, nv: Seq<int>)
    requires
        add_ok(a, b),
    ensures
        eval(add_cols(a, b), lv, nv) == eval(a, lv, nv) + eval(b, lv, nv),
{
    lemma_dot_zip(a.lv, b.lv, lv);
    lemma_dot_zip(a.nv, b.nv, nv);
}

proof fn lemma_dot_zip(x: Seq<i64>, y: Seq<i64>, row: Seq<int>)
    requires
        zip_add_ok(x, y),
    ensures
        dot(zip_add(x, y), row) == dot(x, row) + dot(y, row),
{
    let z = zip_add(x, y);
    let n = z.len() as int;
    lemma_dot_as_dot_n(z, row);
    lemma_dot_as_dot_n(x, row);
    lemma_dot_as_dot_n(y, row);
    lemma_dot_n_zip(x, y, row, n);
    lemma_dot_n_extend(x, row, n);
    lemma_dot_n_extend(y, row, n);
}

proof fn lemma_dot_n_scale(x: Seq<i64>, k: i64, row: Seq<int>, n: int)
    requires
        scale_seq_ok(x, k),
        n <= x.len(),
    ensures
        dot_n(scale_seq(x, k), row, n) == k * dot_n(x, row, n),
    decreases n,
{
    if n > 0 {
        lemma_dot_n_scale(x, k, row, n - 1);
        assert(coeff(scale_seq(x, k), n - 1) == x[n - 1] * k);
        assert(k * dot_n(x, row, n) == k * dot_n(x, row, n - 1) + k * (coeff(x, n - 1)
            * coeff_row(row, n - 1))) by (nonlinear_arith);
        assert((x[n - 1] * k) * coeff_row(row, n - 1) == k * (x[n - 1] * coeff_row(row, n - 1)))
            by (nonlinear_arith);
    }
}

/// A scaled combination means `k` times the original meaning.
pub proof fn lemma_eval_times(a: ColumnModel, k: i64, lv: Seq<int>, nv: Seq<int>)
    requires
        scale_ok(a, k),
    ensures
        eval(scale_col(a, k), lv, nv) == k * eval(a, lv, nv),
{
    lemma_dot_as_dot_n(scale_seq(a.lv, k), lv);
    lemma_dot_as_dot_n(a.lv, lv);
    lemma_dot_n_scale(a.lv, k, lv, a.lv.len() as int);
    lemma_dot_as_dot_n(scale_seq(a.nv, k), nv);
    lemma_dot_as_dot_n(a.nv, nv);
    lemma_dot_n_scale(a.nv, k, nv, a.nv.len() as int);
    assert(a.constant * k == k * a.constant) by (nonlinear_arith);
    assert(k * (dot(a.lv, lv) + dot(a.nv, nv) + a.constant) == k * dot(a.lv, lv) + k * dot(
        a.nv,
        nv,
    ) + k * a.constant) by (nonlinear_arith);
}

/// A unit column means exactly the selected entry of the local row.
pub proof fn lemma_eval_unit(len: int, i: int, lv: Seq<int>, nv: Seq<int>)
    requires
        0 <= i < len,
    ensures
        eval(unit_col(len, i), lv, nv) == coeff_row(lv, i),
{
    lemma_dot_as_dot_n(unit_seq(len, i), lv);
    lemma_dot_n_unit(len, i, lv, len);
}

proof fn lemma_dot_n_unit(len: int, i: int, row: Seq<int>, n: int)
    requires
        0 <= i < len,
        n <= len,
    ensures
        dot_n(unit_seq(len, i), row, n) == if i < n {
            coeff_row(row, i)
        } else {
            0
        },
    decreases n,
{
    if n > 0 {
        lemma_dot_n_unit(len, i, row, n - 1);
        assert(coeff(unit_seq(len, i), n - 1) == if n - 1 == i {
            1i64
        } else {
            0i64
        });
    }
}

} // verus!
