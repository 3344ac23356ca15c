//! Index arithmetic on flat row-major grids: core cropping, square transpose and
//! the slicing of a super-region field into its overlapping region grids. The
//! grids hold any `Copy` cell type (heights, masks, indices).

use vstd::prelude::*;
use vstd::arithmetic::div_mod::{lemma_fundamental_div_mod, lemma_fundamental_div_mod_converse};

verus! {

/// Row and column of a flat row-major index are recovered by division.
pub proof fn lemma_row_col(r: int, c: int, w: int)
    requires
        0 <= c < w,
    ensures
        (r * w + c) / w == r,
        (r * w + c) % w == c,
{
    lemma_fundamental_div_mod_converse(r * w + c, w, r, c);
}

/// A cell `(r, c)` of a `rows x cols` grid has a flat index below `rows * cols`.
pub proof fn lemma_cell_in_grid(r: int, c: int, rows: int, cols: int)
    requires
        0 <= r < rows,
        0 <= c < cols,
    ensures
        0 <= r * cols + c < rows * cols,
{
    assert(0 <= r * cols + c < rows * cols) by (nonlinear_arith)
        requires
            0 <= r < rows,
            0 <= c < cols,
    ;
}

// ---------------------------------------------------------------------------
// Core crop
// ---------------------------------------------------------------------------

/// Cell `i` of the cropped core: `field[(i / cc + a) * cols + i % cc + a]`.
pub open spec fn crop_cell<T>(field: Seq<T>, cols: nat, a: nat, cc: nat, i: int) -> T {
    field[((i / cc as int) + a) * cols + (i % cc as int) + a]
}

/// numpy `field[a:-a, a:-a]` of a `rows x cols` grid, flat row-major with
/// `(rows - 2a) x (cols - 2a)` cells.
pub open spec fn cropped<T>(field: Seq<T>, rows: nat, cols: nat, a: nat) -> Seq<T> {
    let cc = (cols - 2 * a) as nat;
    Seq::new(((rows - 2 * a) * cc) as nat, |i: int| crop_cell(field, cols, a, cc, i))
}

/// Crop the inner core `field[a:-a, a:-a]` of an apron-padded `rows x cols` grid.
pub fn crop_core<T: Copy>(field: &[T], rows: usize, cols: usize, apron_px: usize) -> (out: Vec<T>)
    requires
        rows > 2 * apron_px,
        cols > 2 * apron_px,
        field@.len() == rows * cols,
    ensures
        out@ == cropped(field@, rows as nat, cols as nat, apron_px as nat),
{
    let len = field.len();
    let a = apron_px;
    let core_rows = rows - 2 * a;
    let core_cols = cols - 2 * a;
    let ghost cc = core_cols as nat;
    let mut out: Vec<T> = Vec::new();
    let mut r: usize = 0;
    while r < core_rows
        invariant
            r <= core_rows,
            core_rows == rows - 2 * a,
            core_cols == cols - 2 * a,
            cc == core_cols,
            rows > 2 * a,
            cols > 2 * a,
            field@.len() == rows * cols,
            len == field@.len(),
            out@ == Seq::new((r * cc) as nat, |i: int| crop_cell(field@, cols as nat, a as nat, cc, i)),
        decreases core_rows - r,
    {
        let mut c: usize = 0;
        while c < core_cols
            invariant
                r < core_rows,
                c <= core_cols,
                core_rows == rows - 2 * a,
                core_cols == cols - 2 * a,
                cc == core_cols,
                rows > 2 * a,
                cols > 2 * a,
                field@.len() == rows * cols,
                len == field@.len(),
                out@ == Seq::new((r * cc + c) as nat, |i: int| crop_cell(field@, cols as nat, a as nat, cc, i)),
            decreases core_cols - c,
        {
            proof {
                lemma_cell_in_grid((r + a) as int, (c + a) as int, rows as int, cols as int);
                lemma_row_col(r as int, c as int, cc as int);
            }
            let v = field[(r + a) * cols + (c + a)];
            let ghost prev = out@;
            out.push(v);
            proof {
                assert(out@ =~= Seq::new((r * cc + c + 1) as nat, |i: int| crop_cell(field@, cols as nat, a as nat, cc, i)));
            }
            c = c + 1;
        }
        proof {
            assert((r + 1) * cc == r * cc + cc) by (nonlinear_arith);
        }
        r = r + 1;
    }
    proof {
        assert(out@ =~= cropped(field@, rows as nat, cols as nat, a as nat));
    }
    out
}

/// Cropping an apron `a` and then an apron `b` is cropping the apron `a + b`.
pub proof fn lemma_crop_compose<T>(field: Seq<T>, rows: nat, cols: nat, a: nat, b: nat)
    requires
        rows > 2 * (a + b),
        cols > 2 * (a + b),
        field.len() == rows * cols,
    ensures
        cropped(cropped(field, rows, cols, a), (rows - 2 * a) as nat, (cols - 2 * a) as nat, b)
            == cropped(field, rows, cols, a + b),
{
    let c1 = (cols - 2 * a) as nat;
    let r1 = (rows - 2 * a) as nat;
    let c2 = (cols - 2 * (a + b)) as nat;
    let inner = cropped(field, rows, cols, a);
    let lhs = cropped(inner, r1, c1, b);
    let rhs = cropped(field, rows, cols, a + b);
    assert((r1 - 2 * b) * (c1 - 2 * b) == (rows - 2 * (a + b)) * c2);
    assert forall|i: int| 0 <= i < lhs.len() implies lhs[i] == rhs[i] by {
        let q = i / c2 as int;
        let m = i % c2 as int;
        assert(0 <= m < c2);
        assert(0 <= q < rows - 2 * (a + b)) by (nonlinear_arith)
            requires
                q == i / c2 as int,
                0 <= i < (rows - 2 * (a + b)) * c2,
                c2 > 0,
        ;
        let j = (q + b) * c1 + m + b;
        lemma_row_col(q + b, m + b, c1 as int);
        lemma_cell_in_grid(q + b, m + b, r1 as int, c1 as int);
    }
    assert(lhs =~= rhs);
}

// ---------------------------------------------------------------------------
// Transpose
// ---------------------------------------------------------------------------

/// numpy `.T` of a square `nc x nc` grid: `t[c * nc + r] = g[r * nc + c]`.
pub open spec fn transposed<T>(g: Seq<T>, nc: nat) -> Seq<T> {
    Seq::new(nc * nc, |i: int| g[(i % nc as int) * nc + i / nc as int])
}

/// Explicit transpose of a square `nc x nc` grid.
pub fn transpose<T: Copy>(g: &[T], nc: usize) -> (t: Vec<T>)
    requires
        g@.len() == nc * nc,
    ensures
        t@ == transposed(g@, nc as nat),
{
    let len = g.len();
    let mut t: Vec<T> = Vec::new();
    let mut c: usize = 0;
    while c < nc
        invariant
            c <= nc,
            g@.len() == nc * nc,
            len == g@.len(),
            t@ == Seq::new((c * nc) as nat, |i: int| g@[(i % nc as int) * nc + i / nc as int]),
        decreases nc - c,
    {
        let mut r: usize = 0;
        while r < nc
            invariant
                c < nc,
                r <= nc,
                g@.len() == nc * nc,
                len == g@.len(),
                t@ == Seq::new((c * nc + r) as nat, |i: int| g@[(i % nc as int) * nc + i / nc as int]),
            decreases nc - r,
        {
            proof {
                lemma_cell_in_grid(r as int, c as int, nc as int, nc as int);
                lemma_row_col(c as int, r as int, nc as int);
            }
            let v = g[r * nc + c];
            t.push(v);
            proof {
                assert(t@ =~= Seq::new((c * nc + r + 1) as nat, |i: int| g@[(i % nc as int) * nc + i / nc as int]));
            }
            r = r + 1;
        }
        proof {
            assert((c + 1) * nc == c * nc + nc) by (nonlinear_arith);
        }
        c = c + 1;
    }
    proof {
        assert(t@ =~= transposed(g@, nc as nat));
    }
    t
}

/// Transposing twice gives back the grid.
pub proof fn lemma_transpose_involution<T>(g: Seq<T>, nc: nat)
    requires
        g.len() == nc * nc,
    ensures
        transposed(transposed(g, nc), nc) == g,
{
    let t = transposed(g, nc);
    let tt = transposed(t, nc);
    assert forall|i: int| 0 <= i < g.len() implies tt[i] == g[i] by {
        let q = i / nc as int;
        let m = i % nc as int;
        assert(nc > 0);
        assert(0 <= q < nc) by (nonlinear_arith)
            requires
                q == i / nc as int,
                0 <= i < nc * nc,
                nc > 0,
        ;
        lemma_fundamental_div_mod(i, nc as int);
        assert(i == q * nc + m) by (nonlinear_arith)
            requires
                i == nc * q + m,
        ;
        lemma_row_col(m, q, nc as int);
        lemma_cell_in_grid(m, q, nc as int, nc as int);
    }
    assert(tt =~= g);
}

// ---------------------------------------------------------------------------
// Super-region slicing
// ---------------------------------------------------------------------------

/// Region `(gi, gj)` of a `super_n x super_n` super field made of `k x k`
/// regions of `n x n` cells that overlap by one cell at shared edges: it takes
/// cells `[gj (n-1), gj (n-1) + n) x [gi (n-1), gi (n-1) + n)`.
pub open spec fn region_slice<T>(field: Seq<T>, super_n: nat, n: nat, gi: nat, gj: nat) -> Seq<T> {
    Seq::new(
        n * n,
        |i: int| field[(gj * (n - 1) + i / n as int) * super_n + gi * (n - 1) + i % n as int],
    )
}

/// Slice a `super_n x super_n` field (`super_n == k (n - 1) + 1`) into its `k x k`
/// region grids, row-major in `(gj, gi)`: entry `gj * k + gi` is region `(gi, gj)`.
pub fn slice_super_region<T: Copy>(field: &[T], super_n: usize, n: usize, k: usize) -> (out: Vec<Vec<T>>)
    requires
        n >= 1,
        super_n == k * (n - 1) + 1,
        field@.len() == super_n * super_n,
    ensures
        out@.len() == k * k,
        forall|idx: int|
            0 <= idx < k * k ==> #[trigger] out@[idx]@ == region_slice(
                field@,
                super_n as nat,
                n as nat,
                (idx % k as int) as nat,
                (idx / k as int) as nat,
            ),
{
    let mut out: Vec<Vec<T>> = Vec::new();
    let mut gj: usize = 0;
    while gj < k
        invariant
            gj <= k,
            n >= 1,
            super_n == k * (n - 1) + 1,
            field@.len() == super_n * super_n,
            out@.len() == gj * k,
            forall|idx: int|
                0 <= idx < gj * k ==> #[trigger] out@[idx]@ == region_slice(
                    field@,
                    super_n as nat,
                    n as nat,
                    (idx % k as int) as nat,
                    (idx / k as int) as nat,
                ),
        decreases k - gj,
    {
        let mut gi: usize = 0;
        while gi < k
            invariant
                gj < k,
                gi <= k,
                n >= 1,
                super_n == k * (n - 1) + 1,
                field@.len() == super_n * super_n,
                out@.len() == gj * k + gi,
                forall|idx: int|
                    0 <= idx < gj * k + gi ==> #[trigger] out@[idx]@ == region_slice(
                        field@,
                        super_n as nat,
                        n as nat,
                        (idx % k as int) as nat,
                        (idx / k as int) as nat,
                    ),
            decreases k - gi,
        {
            proof {
                assert(gi * (n - 1) + n <= super_n && gj * (n - 1) + n <= super_n) by (nonlinear_arith)
                    requires
                        gi < k,
                        gj < k,
                        n >= 1,
                        super_n == k * (n - 1) + 1,
                ;
            }
            let c0 = gi * (n - 1);
            let r0 = gj * (n - 1);
            let grid = copy_window(field, super_n, n, r0, c0);
            let ghost before = out@;
            out.push(grid);
            proof {
                lemma_row_col(gj as int, gi as int, k as int);
                assert forall|idx: int|
                    0 <= idx < gj * k + gi + 1 implies #[trigger] out@[idx]@ == region_slice(
                        field@,
                        super_n as nat,
                        n as nat,
                        (idx % k as int) as nat,
                        (idx / k as int) as nat,
                    ) by {
                    if idx < gj * k + gi {
                        assert(out@[idx] == before[idx]);
                    } else {
                        assert(idx == gj * k + gi);
                        assert(out@[idx]@ =~= region_slice(field@, super_n as nat, n as nat, gi as nat, gj as nat));
                    }
                }
            }
            gi = gi + 1;
        }
        proof {
            assert((gj + 1) * k == gj * k + k) by (nonlinear_arith);
        }
        gj = gj + 1;
    }
    out
}

/// The `n x n` window of a `w x w` field whose top-left cell is `(r0, c0)`.
fn copy_window<T: Copy>(field: &[T], w: usize, n: usize, r0: usize, c0: usize) -> (grid: Vec<T>)
    requires
        n >= 1,
        r0 + n <= w,
        c0 + n <= w,
        field@.len() == w * w,
    ensures
        grid@ == Seq::new(n as nat * n as nat, |i: int| field@[(r0 + i / n as int) * w + c0 + i % n as int]),
{
    let len = field.len();
    let mut grid: Vec<T> = Vec::new();
    let mut r: usize = 0;
    while r < n
        invariant
            r <= n,
            n >= 1,
            r0 + n <= w,
            c0 + n <= w,
            field@.len() == w * w,
            len == field@.len(),
            grid@ == Seq::new(r as nat * n as nat, |i: int| field@[(r0 + i / n as int) * w + c0 + i % n as int]),
        decreases n - r,
    {
        let mut c: usize = 0;
        while c < n
            invariant
                r < n,
                c <= n,
                r0 + n <= w,
                c0 + n <= w,
                field@.len() == w * w,
                len == field@.len(),
                grid@ == Seq::new((r * n + c) as nat, |i: int| field@[(r0 + i / n as int) * w + c0 + i % n as int]),
            decreases n - c,
        {
            proof {
                lemma_cell_in_grid((r0 + r) as int, (c0 + c) as int, w as int, w as int);
                lemma_row_col(r as int, c as int, n as int);
            }
            let v = field[(r0 + r) * w + (c0 + c)];
            grid.push(v);
            proof {
                assert(grid@ =~= Seq::new((r * n + c + 1) as nat, |i: int| field@[(r0 + i / n as int) * w + c0 + i % n as int]));
            }
            c = c + 1;
        }
        proof {
            assert((r + 1) * n == r * n + n) by (nonlinear_arith);
        }
        r = r + 1;
    }
    grid
}

/// Neighbouring regions of a super-region share their border cells exactly:
/// the last column of region `(gi, gj)` is the first column of `(gi + 1, gj)`,
/// and its last row is the first row of `(gi, gj + 1)`.
pub proof fn lemma_super_region_seams<T>(field: Seq<T>, super_n: nat, n: nat, gi: nat, gj: nat, t: nat)
    requires
        n >= 1,
        t < n,
    ensures
        region_slice(field, super_n, n, gi, gj)[t * n + (n - 1)]
            == region_slice(field, super_n, n, gi + 1, gj)[(t * n) as int],
        region_slice(field, super_n, n, gi, gj)[(n - 1) * n + t]
            == region_slice(field, super_n, n, gi, gj + 1)[t as int],
{
    lemma_row_col(t as int, (n - 1) as int, n as int);
    lemma_row_col(t as int, 0, n as int);
    lemma_row_col((n - 1) as int, t as int, n as int);
    lemma_row_col(0, t as int, n as int);
    lemma_cell_in_grid(t as int, (n - 1) as int, n as int, n as int);
    lemma_cell_in_grid((n - 1) as int, t as int, n as int, n as int);
    assert((gi + 1) * (n - 1) == gi * (n - 1) + (n - 1)) by (nonlinear_arith);
    assert((gj + 1) * (n - 1) == gj * (n - 1) + (n - 1)) by (nonlinear_arith);
}

/// A super-region of a single region (`k == 1`, so `super_n == n`) slices to the
/// whole field.
pub proof fn lemma_single_region_slice_is_field<T>(field: Seq<T>, n: nat)
    requires
        n >= 1,
        field.len() == n * n,
    ensures
        region_slice(field, n, n, 0, 0) == field,
{
    let s = region_slice(field, n, n, 0, 0);
    assert forall|i: int| 0 <= i < n * n implies s[i] == field[i] by {
        lemma_fundamental_div_mod(i, n as int);
        assert(i == (i / n as int) * n + i % n as int) by (nonlinear_arith)
            requires
                i == n * (i / n as int) + i % n as int,
        ;
        assert(0 * (n - 1) == 0);
    }
    assert(s =~= field);
}

/// Cropping an apron of zero is the identity.
pub proof fn lemma_crop_zero_is_identity<T>(field: Seq<T>, rows: nat, cols: nat)
    requires
        rows > 0,
        cols > 0,
        field.len() == rows * cols,
    ensures
        cropped(field, rows, cols, 0) == field,
{
    let c = cropped(field, rows, cols, 0);
    assert forall|i: int| 0 <= i < rows * cols implies c[i] == field[i] by {
        lemma_fundamental_div_mod(i, cols as int);
        assert(i == (i / cols as int) * cols + i % cols as int) by (nonlinear_arith)
            requires
                i == cols * (i / cols as int) + i % cols as int,
        ;
    }
    assert(c =~= field);
}

} // verus!
