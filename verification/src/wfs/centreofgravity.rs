use vstd::prelude::*;

use crate::error::AoError;
use crate::fixed::{
    spec_clamp, spec_div_trunc, div_trunc, lemma_acc_step, lemma_mul_abs, lemma_mul_le, MAX_DIM,
    SCALE, VAL_LIMIT,
};

verus! {

/// A rectangular grid of calibrated pixel values, the input of the
/// centre-of-gravity routines.  Values are plain integers in detector
/// counts, bounded by `VAL_LIMIT`.
#[derive(Debug)]
pub struct PixelGrid {
    pub n_rows: usize,
    pub n_cols: usize,
    pub vals: Vec<Vec<i64>>,
}

impl PixelGrid {
    /// The grid as a mathematical sequence of rows.
    pub open spec fn view(&self) -> Seq<Seq<i64>> {
        Seq::new(self.vals@.len(), |r: int| self.vals@[r]@)
    }

    /// Shape soundness and the per-pixel value bound.
    pub open spec fn wf(&self) -> bool {
        &&& self.n_rows <= MAX_DIM
        &&& self.n_cols <= MAX_DIM
        &&& self.vals.len() == self.n_rows
        &&& forall|r: int| 0 <= r < self.n_rows ==> (#[trigger] self.vals[r]).len() == self.n_cols
        &&& forall|r: int, c: int|
            0 <= r < self.n_rows && 0 <= c < self.n_cols
                ==> -VAL_LIMIT <= #[trigger] self.vals[r]@[c] <= VAL_LIMIT
    }

    /// A grid built from explicit rows; rejects a ragged or oversized grid
    /// and any value beyond `VAL_LIMIT`.
    pub fn from_rows(vals: Vec<Vec<i64>>) -> (result: Result<PixelGrid, AoError>)
        ensures
            result is Ok <==> {
                &&& vals.len() <= MAX_DIM
                &&& vals.len() > 0 ==> vals[0].len() <= MAX_DIM
                &&& forall|r: int| 0 <= r < vals.len() ==> (#[trigger] vals[r]).len() == vals[0].len()
                &&& forall|r: int, c: int|
                    0 <= r < vals.len() && 0 <= c < vals[0].len()
                        ==> -VAL_LIMIT <= #[trigger] vals[r]@[c] <= VAL_LIMIT
            },
            result matches Ok(g) ==> {
                &&& g.wf()
                &&& g.n_rows == vals.len()
                &&& g.n_cols == (if vals.len() > 0 { vals[0].len() as int } else { 0int })
                &&& g.vals == vals
            },
            result matches Err(e) ==> e == AoError::ConfigurationError,
    {
        if vals.len() > MAX_DIM {
            return Err(AoError::ConfigurationError);
        }
        if vals.len() == 0 {
            return Ok(PixelGrid { n_rows: 0, n_cols: 0, vals });
        }
        let n_cols = vals[0].len();
        if n_cols > MAX_DIM {
            return Err(AoError::ConfigurationError);
        }
        for r in 0..vals.len()
            invariant
                n_cols == vals[0].len(),
                n_cols <= MAX_DIM,
                forall|i: int| 0 <= i < r ==> (#[trigger] vals[i]).len() == n_cols,
                forall|i: int, c: int|
                    0 <= i < r && 0 <= c < n_cols
                        ==> -VAL_LIMIT <= #[trigger] vals[i]@[c] <= VAL_LIMIT,
        {
            if vals[r].len() != n_cols {
                return Err(AoError::ConfigurationError);
            }
            for c in 0..n_cols
                invariant
                    n_cols == vals[0].len(),
                    r < vals.len(),
                    vals[r as int].len() == n_cols,
                    forall|i: int| 0 <= i < r ==> (#[trigger] vals[i]).len() == n_cols,
                    forall|i: int, j: int|
                        0 <= i < r && 0 <= j < n_cols
                            ==> -VAL_LIMIT <= #[trigger] vals[i]@[j] <= VAL_LIMIT,
                    forall|j: int| 0 <= j < c ==> -VAL_LIMIT <= #[trigger] vals[r as int]@[j] <= VAL_LIMIT,
            {
                let v = vals[r][c];
                if v < -VAL_LIMIT || v > VAL_LIMIT {
                    return Err(AoError::ConfigurationError);
                }
            }
        }
        let n_rows = vals.len();
        Ok(PixelGrid { n_rows, n_cols, vals })
    }

    /// An `n_rows x n_cols` grid holding `value` everywhere.
    pub fn filled(n_rows: usize, n_cols: usize, value: i64) -> (result: Result<PixelGrid, AoError>)
        ensures
            result is Ok <==> n_rows <= MAX_DIM && n_cols <= MAX_DIM
                && -VAL_LIMIT <= value <= VAL_LIMIT,
            result matches Ok(g) ==> {
                &&& g.wf()
                &&& g.n_rows == n_rows
                &&& g.n_cols == n_cols
                &&& forall|r: int, c: int|
                    0 <= r < n_rows && 0 <= c < n_cols ==> g@[r][c] == value
            },
            result matches Err(e) ==> e == AoError::ConfigurationError,
    {
        if n_rows > MAX_DIM || n_cols > MAX_DIM || value < -VAL_LIMIT || value > VAL_LIMIT {
            return Err(AoError::ConfigurationError);
        }
        let mut vals: Vec<Vec<i64>> = Vec::new();
        for r in 0..n_rows
            invariant
                vals.len() == r,
                forall|i: int| 0 <= i < r ==> (#[trigger] vals[i]).len() == n_cols,
                forall|i: int, c: int|
                    0 <= i < r && 0 <= c < n_cols ==> #[trigger] vals[i]@[c] == value,
        {
            let mut row: Vec<i64> = Vec::new();
            for c in 0..n_cols
                invariant
                    row.len() == c,
                    forall|j: int| 0 <= j < c ==> row[j] == value,
            {
                row.push(value);
            }
            vals.push(row);
        }
        Ok(PixelGrid { n_rows, n_cols, vals })
    }
}

/// Sum of the values of one row.
pub open spec fn row_sum(row: Seq<i64>) -> int
    decreases row.len(),
{
    if row.len() == 0 {
        0
    } else {
        row_sum(row.drop_last()) + row.last()
    }
}

/// Column-weighted sum of one row: the sum of `c * row[c]`.
pub open spec fn row_moment(row: Seq<i64>) -> int
    decreases row.len(),
{
    if row.len() == 0 {
        0
    } else {
        row_moment(row.drop_last()) + (row.len() - 1) * row.last()
    }
}

/// Total intensity of a grid.
pub open spec fn grid_total(g: Seq<Seq<i64>>) -> int
    decreases g.len(),
{
    if g.len() == 0 {
        0
    } else {
        grid_total(g.drop_last()) + row_sum(g.last())
    }
}

/// Row-weighted intensity of a grid: the sum of `r * g[r][c]`.
pub open spec fn grid_row_moment(g: Seq<Seq<i64>>) -> int
    decreases g.len(),
{
    if g.len() == 0 {
        0
    } else {
        grid_row_moment(g.drop_last()) + (g.len() - 1) * row_sum(g.last())
    }
}

/// Column-weighted intensity of a grid: the sum of `c * g[r][c]`.
pub open spec fn grid_col_moment(g: Seq<Seq<i64>>) -> int
    decreases g.len(),
{
    if g.len() == 0 {
        0
    } else {
        grid_col_moment(g.drop_last()) + row_moment(g.last())
    }
}

/// One centroid coordinate in fixed point, over an axis of `n` pixels:
/// `moment / total - (n - 1) / 2`, scaled by `SCALE` and rounded toward
/// zero.  Two documented policies close the open numeric corners: a
/// non-positive total yields the geometric centre (`0`), and the result is
/// clamped to the physical extent `[-n, n]` of the axis (the clamp can only
/// act when negative calibrated values make the quotient leave that range).
pub open spec fn spec_centroid(moment: int, total: int, n: int) -> int {
    if total <= 0 {
        0
    } else {
        spec_clamp(spec_div_trunc(SCALE * (2 * moment - (n - 1) * total), 2 * total), n * SCALE)
    }
}

/// The row (x) centroid coordinate of a grid, relative to its centre.
pub open spec fn spec_cog_x(g: Seq<Seq<i64>>, n_rows: int) -> int {
    spec_centroid(grid_row_moment(g), grid_total(g), n_rows)
}

/// The column (y) centroid coordinate of a grid, relative to its centre.
pub open spec fn spec_cog_y(g: Seq<Seq<i64>>, n_cols: int) -> int {
    spec_centroid(grid_col_moment(g), grid_total(g), n_cols)
}

/// A grid with every value at or below `threshold` replaced by zero.
pub open spec fn apply_threshold(g: Seq<Seq<i64>>, threshold: i64) -> Seq<Seq<i64>> {
    Seq::new(g.len(), |r: int| Seq::new(g[r].len(), |c: int|
        if g[r][c] > threshold { g[r][c] } else { 0i64 }
    ))
}

/// A uniform row sums to its length times the common value.
proof fn lemma_row_sum_uniform(row: Seq<i64>, v: i64)
    requires
        forall|c: int| 0 <= c < row.len() ==> row[c] == v,
    ensures
        row_sum(row) == row.len() * v,
    decreases row.len(),
{
    if row.len() > 0 {
        lemma_row_sum_uniform(row.drop_last(), v);
        assert((row.len() - 1) * (v as int) + v == row.len() * v) by (nonlinear_arith);
    }
}

/// Twice the column moment of a uniform row is `len * (len - 1) * v`.
proof fn lemma_row_moment_uniform(row: Seq<i64>, v: i64)
    requires
        forall|c: int| 0 <= c < row.len() ==> row[c] == v,
    ensures
        2 * row_moment(row) == row.len() * ((row.len() - 1) * v),
    decreases row.len(),
{
    if row.len() > 0 {
        lemma_row_moment_uniform(row.drop_last(), v);
        assert((row.len() - 1) * ((row.len() - 2) * (v as int)) + 2 * ((row.len() - 1) * v)
            == row.len() * ((row.len() - 1) * v)) by (nonlinear_arith);
    }
}

/// Whether every entry of `g` is an `n_cols`-long row of `v`s.
pub open spec fn is_uniform(g: Seq<Seq<i64>>, n_cols: int, v: i64) -> bool {
    &&& forall|r: int| 0 <= r < g.len() ==> (#[trigger] g[r]).len() == n_cols
    &&& forall|r: int, c: int| 0 <= r < g.len() && 0 <= c < n_cols ==> #[trigger] g[r][c] == v
}

/// The total of a uniform grid.
proof fn lemma_grid_total_uniform(g: Seq<Seq<i64>>, n_cols: int, v: i64)
    requires
        is_uniform(g, n_cols, v),
    ensures
        grid_total(g) == g.len() * (n_cols * v),
    decreases g.len(),
{
    if g.len() > 0 {
        lemma_grid_total_uniform(g.drop_last(), n_cols, v);
        lemma_row_sum_uniform(g.last(), v);
        assert((g.len() - 1) * (n_cols * (v as int)) + n_cols * v == g.len() * (n_cols * v))
            by (nonlinear_arith);
    }
}

/// Twice the row moment of a uniform grid.
proof fn lemma_grid_row_moment_uniform(g: Seq<Seq<i64>>, n_cols: int, v: i64)
    requires
        is_uniform(g, n_cols, v),
    ensures
        2 * grid_row_moment(g) == g.len() * ((g.len() - 1) * (n_cols * v)),
    decreases g.len(),
{
    if g.len() > 0 {
        lemma_grid_row_moment_uniform(g.drop_last(), n_cols, v);
        lemma_row_sum_uniform(g.last(), v);
        assert((g.len() - 1) * ((g.len() - 2) * (n_cols * (v as int)))
            + 2 * ((g.len() - 1) * (n_cols * (v as int)))
            == g.len() * ((g.len() - 1) * (n_cols * (v as int)))) by (nonlinear_arith);
    }
}

/// Twice the column moment of a uniform grid.
proof fn lemma_grid_col_moment_uniform(g: Seq<Seq<i64>>, n_cols: int, v: i64)
    requires
        is_uniform(g, n_cols, v),
    ensures
        2 * grid_col_moment(g) == g.len() * (n_cols * ((n_cols - 1) * v)),
    decreases g.len(),
{
    if g.len() > 0 {
        lemma_grid_col_moment_uniform(g.drop_last(), n_cols, v);
        lemma_row_moment_uniform(g.last(), v);
        assert((g.len() - 1) * (n_cols * ((n_cols - 1) * (v as int)))
            + n_cols * ((n_cols - 1) * (v as int))
            == g.len() * (n_cols * ((n_cols - 1) * (v as int)))) by (nonlinear_arith);
    }
}

/// A subaperture of uniform nonnegative intensity measures exactly the
/// geometric centre: both centroid coordinates are zero.
pub proof fn lemma_uniform_centroid(g: Seq<Seq<i64>>, n_rows: int, n_cols: int, v: i64)
    requires
        g.len() == n_rows,
        is_uniform(g, n_cols, v),
        v >= 0,
    ensures
        spec_cog_x(g, n_rows) == 0,
        spec_cog_y(g, n_cols) == 0,
{
    lemma_grid_total_uniform(g, n_cols, v);
    lemma_grid_row_moment_uniform(g, n_cols, v);
    lemma_grid_col_moment_uniform(g, n_cols, v);
    let t = grid_total(g);
    if t > 0 {
        assert(t == n_rows * (n_cols * (v as int)));
        assert(2 * grid_row_moment(g) - (n_rows - 1) * t == 0) by (nonlinear_arith)
            requires
                2 * grid_row_moment(g) == n_rows * ((n_rows - 1) * (n_cols * (v as int))),
                t == n_rows * (n_cols * (v as int));
        assert(2 * grid_col_moment(g) - (n_cols - 1) * t == 0) by (nonlinear_arith)
            requires
                2 * grid_col_moment(g) == n_rows * (n_cols * ((n_cols - 1) * (v as int))),
                t == n_rows * (n_cols * (v as int));
        assert(SCALE * (2 * grid_row_moment(g) - (n_rows - 1) * t) == 0);
        assert(SCALE * (2 * grid_col_moment(g) - (n_cols - 1) * t) == 0);
        vstd::arithmetic::div_mod::lemma_div_of0(2 * t);
        lemma_mul_le(0, n_rows, SCALE as int);
        lemma_mul_le(0, n_cols, SCALE as int);
    }
}

/// Whether `g` is a grid of `n_cols`-long rows of nonnegative values.
pub open spec fn is_nonnegative(g: Seq<Seq<i64>>, n_cols: int) -> bool {
    &&& forall|r: int| 0 <= r < g.len() ==> (#[trigger] g[r]).len() == n_cols
    &&& forall|r: int, c: int| 0 <= r < g.len() && 0 <= c < n_cols ==> 0 <= #[trigger] g[r][c]
}

/// A row of nonnegative values has a nonnegative sum.
proof fn lemma_row_sum_nonneg(row: Seq<i64>)
    requires
        forall|c: int| 0 <= c < row.len() ==> 0 <= #[trigger] row[c],
    ensures
        0 <= row_sum(row),
    decreases row.len(),
{
    if row.len() > 0 {
        lemma_row_sum_nonneg(row.drop_last());
    }
}

/// For nonnegative rows the column moment sits between zero and the last
/// column index times the row sum.
proof fn lemma_row_moment_bounds(row: Seq<i64>)
    requires
        forall|c: int| 0 <= c < row.len() ==> 0 <= #[trigger] row[c],
    ensures
        0 <= row_moment(row) <= (row.len() - 1) * row_sum(row),
    decreases row.len(),
{
    if row.len() > 0 {
        lemma_row_moment_bounds(row.drop_last());
        lemma_row_sum_nonneg(row.drop_last());
        let len = row.len() as int;
        assert((len - 2) * row_sum(row.drop_last()) + (len - 1) * row.last()
            <= (len - 1) * (row_sum(row.drop_last()) + row.last())) by (nonlinear_arith)
            requires
                0 <= row_sum(row.drop_last()),
                0 <= row.last(),
                1 <= len;
        assert(0 <= (len - 1) * row.last()) by (nonlinear_arith)
            requires
                0 <= row.last(),
                1 <= len;
    }
}

/// A nonnegative grid has a nonnegative total.
proof fn lemma_grid_total_nonneg(g: Seq<Seq<i64>>, n_cols: int)
    requires
        is_nonnegative(g, n_cols),
    ensures
        0 <= grid_total(g),
    decreases g.len(),
{
    if g.len() > 0 {
        lemma_grid_total_nonneg(g.drop_last(), n_cols);
        lemma_row_sum_nonneg(g.last());
    }
}

/// A grid of empty rows has a zero total.
proof fn lemma_grid_total_no_cols(g: Seq<Seq<i64>>)
    requires
        forall|r: int| 0 <= r < g.len() ==> (#[trigger] g[r]).len() == 0,
    ensures
        grid_total(g) == 0,
    decreases g.len(),
{
    if g.len() > 0 {
        lemma_grid_total_no_cols(g.drop_last());
    }
}

/// For a nonnegative grid the row moment sits between zero and the last
/// row index times the total.
proof fn lemma_grid_row_moment_bounds(g: Seq<Seq<i64>>, n_cols: int)
    requires
        is_nonnegative(g, n_cols),
    ensures
        0 <= grid_row_moment(g) <= (g.len() - 1) * grid_total(g),
    decreases g.len(),
{
    if g.len() > 0 {
        lemma_grid_row_moment_bounds(g.drop_last(), n_cols);
        lemma_grid_total_nonneg(g.drop_last(), n_cols);
        lemma_row_sum_nonneg(g.last());
        let len = g.len() as int;
        assert((len - 2) * grid_total(g.drop_last()) + (len - 1) * row_sum(g.last())
            <= (len - 1) * (grid_total(g.drop_last()) + row_sum(g.last()))) by (nonlinear_arith)
            requires
                0 <= grid_total(g.drop_last()),
                0 <= row_sum(g.last()),
                1 <= len;
        assert(0 <= (len - 1) * row_sum(g.last())) by (nonlinear_arith)
            requires
                0 <= row_sum(g.last()),
                1 <= len;
    }
}

/// For a nonnegative grid the column moment sits between zero and the
/// last column index times the total.
proof fn lemma_grid_col_moment_bounds(g: Seq<Seq<i64>>, n_cols: int)
    requires
        is_nonnegative(g, n_cols),
    ensures
        0 <= grid_col_moment(g) <= (n_cols - 1) * grid_total(g),
    decreases g.len(),
{
    if g.len() > 0 {
        lemma_grid_col_moment_bounds(g.drop_last(), n_cols);
        lemma_grid_total_nonneg(g.drop_last(), n_cols);
        lemma_row_moment_bounds(g.last());
        lemma_row_sum_nonneg(g.last());
        assert((n_cols - 1) * grid_total(g.drop_last()) + (n_cols - 1) * row_sum(g.last())
            == (n_cols - 1) * (grid_total(g.drop_last()) + row_sum(g.last()))) by (nonlinear_arith);
    }
}

/// On nonnegative data -- all that the default calibration can produce --
/// the clamp inside `spec_centroid` never acts: each centroid coordinate
/// is exactly the truncated quotient of the moment formula.
pub proof fn lemma_nonnegative_centroid_unclamped(g: Seq<Seq<i64>>, n_rows: int, n_cols: int)
    requires
        g.len() == n_rows,
        is_nonnegative(g, n_cols),
    ensures
        spec_cog_x(g, n_rows) == (
            if grid_total(g) <= 0 {
                0int
            } else {
                spec_div_trunc(
                    SCALE * (2 * grid_row_moment(g) - (n_rows - 1) * grid_total(g)),
                    2 * grid_total(g),
                )
            }
        ),
        spec_cog_y(g, n_cols) == (
            if grid_total(g) <= 0 {
                0int
            } else {
                spec_div_trunc(
                    SCALE * (2 * grid_col_moment(g) - (n_cols - 1) * grid_total(g)),
                    2 * grid_total(g),
                )
            }
        ),
{
    let t = grid_total(g);
    if t > 0 {
        assert(n_rows >= 1);
        if n_cols <= 0 {
            assert(forall|r: int| 0 <= r < g.len() ==> (#[trigger] g[r]).len() == 0);
            lemma_grid_total_no_cols(g);
        }
        assert(n_cols >= 1);
        lemma_grid_row_moment_bounds(g, n_cols);
        lemma_grid_col_moment_bounds(g, n_cols);
        lemma_centroid_quotient_in_range(grid_row_moment(g), t, n_rows);
        lemma_centroid_quotient_in_range(grid_col_moment(g), t, n_cols);
    }
}

/// For `0 <= moment <= (n - 1) * total` the truncated quotient of the
/// centroid formula lies within `[-n * SCALE, n * SCALE]`, so clamping
/// to that range is the identity.
proof fn lemma_centroid_quotient_in_range(moment: int, total: int, n: int)
    requires
        1 <= total,
        1 <= n,
        0 <= moment <= (n - 1) * total,
    ensures
        -(n * SCALE) <= spec_div_trunc(SCALE * (2 * moment - (n - 1) * total), 2 * total)
            <= n * SCALE,
        spec_centroid(moment, total, n) == spec_div_trunc(
            SCALE * (2 * moment - (n - 1) * total),
            2 * total,
        ),
{
    let num = SCALE * (2 * moment - (n - 1) * total);
    let d = 2 * total;
    let lim = n * SCALE;
    assert(0 <= lim) by (nonlinear_arith)
        requires
            1 <= n,
            0 < SCALE,
            lim == n * SCALE;
    assert(-(SCALE * ((n - 1) * total)) <= num <= SCALE * ((n - 1) * total)) by (nonlinear_arith)
        requires
            0 <= moment <= (n - 1) * total,
            0 < SCALE,
            num == SCALE * (2 * moment - (n - 1) * total);
    assert(SCALE * ((n - 1) * total) <= d * lim) by (nonlinear_arith)
        requires
            1 <= total,
            1 <= n,
            0 < SCALE,
            d == 2 * total,
            lim == n * SCALE;
    if num >= 0 {
        vstd::arithmetic::div_mod::lemma_div_pos_is_pos(num, d);
        vstd::arithmetic::div_mod::lemma_multiply_divide_le(num, d, lim);
    } else {
        vstd::arithmetic::div_mod::lemma_div_pos_is_pos(-num, d);
        vstd::arithmetic::div_mod::lemma_multiply_divide_le(-num, d, lim);
    }
}

/// The three exact sums a centroid is made of: row moment, column moment
/// and total intensity.
pub fn centre_of_gravity_sums(data: &PixelGrid) -> (s: (i64, i64, i64))
    requires
        data.wf(),
    ensures
        s.0 == grid_row_moment(data@),
        s.1 == grid_col_moment(data@),
        s.2 == grid_total(data@),
{
    let rows = data.n_rows;
    let cols = data.n_cols;
    let mut rm: i64 = 0;
    let mut cm: i64 = 0;
    let mut t: i64 = 0;
    let ghost gv = data@;
    let ghost vl = VAL_LIMIT as int;
    let ghost urow = (cols as int) * vl;
    let ghost ubig = (rows as int) * urow;
    let ghost ucm = (cols as int) * urow;
    proof {
        assert(vl == 1048576);
        lemma_mul_le(0, cols as int, vl);
        lemma_mul_le(cols as int, 4096, vl);
        lemma_mul_le(0, rows as int, urow);
        lemma_mul_le(rows as int, 4096, urow);
        lemma_mul_le(0, cols as int, urow);
        lemma_mul_le(cols as int, 4096, urow);
        lemma_mul_le(urow, 4294967296, 4096);
    }
    for r in 0..rows
        invariant
            data.wf(),
            rows == data.n_rows,
            cols == data.n_cols,
            gv == data@,
            vl == VAL_LIMIT as int,
            urow == (cols as int) * vl,
            ubig == (rows as int) * urow,
            ucm == (cols as int) * urow,
            0 <= urow <= 4294967296,
            0 <= ubig <= 17592186044416,
            0 <= ucm <= 17592186044416,
            rm == grid_row_moment(gv.take(r as int)),
            cm == grid_col_moment(gv.take(r as int)),
            t == grid_total(gv.take(r as int)),
            -((r as int) * ubig) <= rm <= (r as int) * ubig,
            -((r as int) * ucm) <= cm <= (r as int) * ucm,
            -((r as int) * urow) <= t <= (r as int) * urow,
    {
        let mut rs: i64 = 0;
        let mut rmom: i64 = 0;
        for c in 0..cols
            invariant
                data.wf(),
                rows == data.n_rows,
                cols == data.n_cols,
                gv == data@,
                vl == VAL_LIMIT as int,
                urow == (cols as int) * vl,
                0 <= urow <= 4294967296,
                r < rows,
                rs == row_sum(gv[r as int].take(c as int)),
                rmom == row_moment(gv[r as int].take(c as int)),
                -((c as int) * vl) <= rs <= (c as int) * vl,
                -((c as int) * urow) <= rmom <= (c as int) * urow,
        {
            let v = data.vals[r][c];
            proof {
                assert(gv[r as int].take(c as int + 1).drop_last() =~= gv[r as int].take(c as int));
                assert(gv[r as int].take(c as int + 1).last() == gv[r as int][c as int]);
                assert(gv[r as int][c as int] == data.vals[r as int]@[c as int]);
                lemma_acc_step(rs as int, v as int, c as int, vl);
                lemma_mul_le(c as int + 1, 4096, vl);
                lemma_mul_abs(v as int, vl, c as int, cols as int);
                lemma_acc_step(rmom as int, (c as int) * (v as int), c as int, urow);
                lemma_mul_le(c as int + 1, 4096, urow);
                lemma_mul_le(urow, 4294967296, 4096);
            }
            rs = rs + v;
            rmom = rmom + (c as i64) * v;
        }
        proof {
            assert(gv[r as int].take(cols as int) =~= gv[r as int]);
            assert(gv.take(r as int + 1).drop_last() =~= gv.take(r as int));
            assert(gv.take(r as int + 1).last() == gv[r as int]);
            lemma_acc_step(t as int, rs as int, r as int, urow);
            lemma_mul_le(r as int + 1, 4096, urow);
            lemma_mul_le(urow, 4294967296, 4096);
            lemma_mul_abs(rs as int, urow, r as int, rows as int);
            lemma_acc_step(rm as int, (r as int) * (rs as int), r as int, ubig);
            lemma_mul_le(r as int + 1, 4096, ubig);
            lemma_mul_le(ubig, 17592186044416, 4096);
            lemma_acc_step(cm as int, rmom as int, r as int, ucm);
            lemma_mul_le(r as int + 1, 4096, ucm);
            lemma_mul_le(ucm, 17592186044416, 4096);
        }
        t = t + rs;
        rm = rm + (r as i64) * rs;
        cm = cm + rmom;
    }
    proof {
        assert(gv.take(rows as int) =~= gv);
    }
    (rm, cm, t)
}

/// One centroid coordinate from its sums, per `spec_centroid`.
fn centroid_component(moment: i64, total: i64, n: usize) -> (c: i64)
    requires
        n <= MAX_DIM,
    ensures
        c == spec_centroid(moment as int, total as int, n as int),
{
    if total <= 0 {
        return 0;
    }
    let m128: i128 = moment as i128;
    let t128: i128 = total as i128;
    let n128: i128 = n as i128;
    proof {
        lemma_mul_abs((n as int) - 1, 4096, total as int, 9223372036854775808);
    }
    let inner: i128 = 2 * m128 - (n128 - 1) * t128;
    proof {
        lemma_mul_abs(inner as int, 40000000000000000000000, SCALE as int, 1000000);
    }
    let num: i128 = (SCALE as i128) * inner;
    let q = div_trunc(num, 2 * t128);
    proof {
        lemma_mul_abs(n as int, 4096, SCALE as int, 1000000);
    }
    let lim: i128 = n128 * (SCALE as i128);
    let clamped = if q < -lim {
        -lim
    } else if q > lim {
        lim
    } else {
        q
    };
    clamped as i64
}

/// Intensity-weighted centre of gravity of a grid, in fixed point,
/// relative to the grid's geometric centre.
pub fn simple_centre_of_gravity(data: &PixelGrid) -> (r: (i64, i64))
    requires
        data.wf(),
    ensures
        r.0 == spec_cog_x(data@, data.n_rows as int),
        r.1 == spec_cog_y(data@, data.n_cols as int),
{
    let (rm, cm, t) = centre_of_gravity_sums(data);
    let x = centroid_component(rm, t, data.n_rows);
    let y = centroid_component(cm, t, data.n_cols);
    (x, y)
}

/// Centre of gravity over only the values strictly above `threshold`;
/// all others count as zero.
pub fn threshold_centre_of_gravity(data: &PixelGrid, threshold: i64) -> (r: (i64, i64))
    requires
        data.wf(),
    ensures
        r.0 == spec_cog_x(apply_threshold(data@, threshold), data.n_rows as int),
        r.1 == spec_cog_y(apply_threshold(data@, threshold), data.n_cols as int),
{
    let rows = data.n_rows;
    let cols = data.n_cols;
    let mut vals: Vec<Vec<i64>> = Vec::new();
    for r in 0..rows
        invariant
            data.wf(),
            rows == data.n_rows,
            cols == data.n_cols,
            vals.len() == r,
            forall|i: int| 0 <= i < r ==> (#[trigger] vals[i]).len() == cols,
            forall|i: int, c: int|
                0 <= i < r && 0 <= c < cols
                    ==> #[trigger] vals[i]@[c] == apply_threshold(data@, threshold)[i][c],
    {
        let mut row: Vec<i64> = Vec::new();
        for c in 0..cols
            invariant
                data.wf(),
                rows == data.n_rows,
                cols == data.n_cols,
                r < rows,
                row.len() == c,
                forall|j: int| 0 <= j < c
                    ==> #[trigger] row[j] == apply_threshold(data@, threshold)[r as int][j],
        {
            let v = data.vals[r][c];
            if v > threshold {
                row.push(v);
            } else {
                row.push(0);
            }
        }
        vals.push(row);
    }
    let filtered = PixelGrid { n_rows: rows, n_cols: cols, vals };
    proof {
        assert(filtered@ =~~= apply_threshold(data@, threshold));
    }
    simple_centre_of_gravity(&filtered)
}

} // verus!
