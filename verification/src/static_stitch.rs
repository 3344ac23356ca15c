//! Integer layout of the static reference payload: a `chunk_count x
//! chunk_count` set of `chunk_n x chunk_n` chunks overlapping by one sample at
//! shared edges is stitched into one `grid_n x grid_n` grid, `grid_n =
//! chunk_count (chunk_n - 1) + 1`. Corridor masks are stitched with an exact
//! seam check; coverage and mask fractions are counted here too.

use vstd::prelude::*;
use crate::grid_ops::{lemma_cell_in_grid, lemma_row_col};

verus! {

/// Which size computation overflowed.
#[derive(Clone, Copy, Debug, PartialEq, Eq, Structural)]
pub enum GridDimError {
    /// `chunk_count * (chunk_n - 1) + 1` does not fit.
    GridN,
    /// `grid_n * grid_n` does not fit.
    GridLen,
}

/// The stitched side length.
pub open spec fn grid_n_spec(chunk_count: nat, chunk_n: nat) -> int {
    chunk_count * (chunk_n - 1) + 1
}

/// `(grid_n, grid_n * grid_n)`, or which of the two overflows `usize`.
pub fn stitched_grid_dims(chunk_count: usize, chunk_n: usize) -> (r: Result<(usize, usize), GridDimError>)
    requires
        chunk_n >= 1,
    ensures
        match r {
            Ok((g, len)) => g == grid_n_spec(chunk_count as nat, chunk_n as nat) && len == g * g,
            Err(GridDimError::GridN) => grid_n_spec(chunk_count as nat, chunk_n as nat) > usize::MAX,
            Err(GridDimError::GridLen) => grid_n_spec(chunk_count as nat, chunk_n as nat) <= usize::MAX
                && grid_n_spec(chunk_count as nat, chunk_n as nat) * grid_n_spec(chunk_count as nat, chunk_n as nat) > usize::MAX,
        },
{
    let step = chunk_n - 1;
    let g = match chunk_count.checked_mul(step) {
        Some(v) => match v.checked_add(1) {
            Some(g) => g,
            None => return Err(GridDimError::GridN),
        },
        None => {
            proof {
                assert(chunk_count * step + 1 > usize::MAX) by (nonlinear_arith)
                    requires
                        chunk_count * step > usize::MAX,
                ;
            }
            return Err(GridDimError::GridN);
        },
    };
    match g.checked_mul(g) {
        Some(len) => Ok((g, len)),
        None => Err(GridDimError::GridLen),
    }
}

/// Grid index of sample `(x, z)` of chunk `(chunk_x, chunk_z)`.
pub open spec fn chunk_cell_spec(chunk_x: nat, chunk_z: nat, x: nat, z: nat, chunk_n: nat, grid_n: nat) -> int {
    (chunk_z * (chunk_n - 1) + z) * grid_n + chunk_x * (chunk_n - 1) + x
}

/// Grid row and column of a chunk sample are inside the grid.
proof fn lemma_chunk_cell_rc(chunk_count: nat, chunk_n: nat, c: nat, t: nat)
    requires
        chunk_n >= 1,
        c < chunk_count,
        t < chunk_n,
    ensures
        c * (chunk_n - 1) + t < grid_n_spec(chunk_count, chunk_n),
{
    assert(c * (chunk_n - 1) + t < chunk_count * (chunk_n - 1) + 1) by (nonlinear_arith)
        requires
            c < chunk_count,
            t < chunk_n,
            chunk_n >= 1,
    ;
}

/// The grid index of sample `(x, z)` of chunk `(chunk_x, chunk_z)`.
pub fn chunk_cell_index(
    chunk_count: usize,
    chunk_n: usize,
    grid_n: usize,
    chunk_x: usize,
    chunk_z: usize,
    x: usize,
    z: usize,
) -> (dst: usize)
    requires
        chunk_n >= 1,
        grid_n == grid_n_spec(chunk_count as nat, chunk_n as nat),
        grid_n * grid_n <= usize::MAX,
        chunk_x < chunk_count,
        chunk_z < chunk_count,
        x < chunk_n,
        z < chunk_n,
    ensures
        dst == chunk_cell_spec(chunk_x as nat, chunk_z as nat, x as nat, z as nat, chunk_n as nat, grid_n as nat),
        dst < grid_n * grid_n,
{
    proof {
        lemma_chunk_cell_rc(chunk_count as nat, chunk_n as nat, chunk_x as nat, x as nat);
        lemma_chunk_cell_rc(chunk_count as nat, chunk_n as nat, chunk_z as nat, z as nat);
        assert(chunk_x * (chunk_n - 1) <= chunk_count * (chunk_n - 1)) by (nonlinear_arith)
            requires
                chunk_x < chunk_count,
                chunk_n >= 1,
        ;
        assert(chunk_z * (chunk_n - 1) <= chunk_count * (chunk_n - 1)) by (nonlinear_arith)
            requires
                chunk_z < chunk_count,
                chunk_n >= 1,
        ;
        lemma_cell_in_grid(
            (chunk_z * (chunk_n - 1) + z) as int,
            (chunk_x * (chunk_n - 1) + x) as int,
            grid_n as int,
            grid_n as int,
        );
    }
    let step = chunk_n - 1;
    (chunk_z * step + z) * grid_n + chunk_x * step + x
}

/// Neighbouring chunks share their edge samples: the last column of chunk
/// `(cx, cz)` is the first column of `(cx + 1, cz)`, and its last row the first
/// row of `(cx, cz + 1)`.
pub proof fn lemma_chunk_seams_shared(cx: nat, cz: nat, t: nat, chunk_n: nat, grid_n: nat)
    requires
        chunk_n >= 1,
        t < chunk_n,
    ensures
        chunk_cell_spec(cx, cz, (chunk_n - 1) as nat, t, chunk_n, grid_n) == chunk_cell_spec(cx + 1, cz, 0, t, chunk_n, grid_n),
        chunk_cell_spec(cx, cz, t, (chunk_n - 1) as nat, chunk_n, grid_n) == chunk_cell_spec(cx, cz + 1, t, 0, chunk_n, grid_n),
{
    assert((cx + 1) * (chunk_n - 1) == cx * (chunk_n - 1) + (chunk_n - 1)) by (nonlinear_arith);
    assert((cz + 1) * (chunk_n - 1) == cz * (chunk_n - 1) + (chunk_n - 1)) by (nonlinear_arith);
}

/// Every cell of the stitched grid is a sample of some chunk: with all
/// `chunk_count x chunk_count` chunk positions present, nothing is left unfilled.
pub proof fn lemma_chunks_cover_grid(chunk_count: nat, chunk_n: nat, gx: nat, gz: nat)
    requires
        chunk_count >= 1,
        chunk_n >= 2,
        gx < grid_n_spec(chunk_count, chunk_n),
        gz < grid_n_spec(chunk_count, chunk_n),
    ensures
        exists|cx: nat, cz: nat, x: nat, z: nat|
            cx < chunk_count && cz < chunk_count && x < chunk_n && z < chunk_n
                && #[trigger] chunk_cell_spec(cx, cz, x, z, chunk_n, grid_spec_n(chunk_count, chunk_n))
                == gz * grid_spec_n(chunk_count, chunk_n) + gx,
{
    let step = (chunk_n - 1) as nat;
    let g = grid_spec_n(chunk_count, chunk_n);
    let cx = if gx / step < chunk_count { gx / step } else { (chunk_count - 1) as nat };
    let cz = if gz / step < chunk_count { gz / step } else { (chunk_count - 1) as nat };
    let x = (gx - cx * step) as nat;
    let z = (gz - cz * step) as nat;
    assert(0 <= gx - cx * step < chunk_n) by (nonlinear_arith)
        requires
            step >= 1,
            chunk_n == step + 1,
            gx < chunk_count * step + 1,
            cx == if gx / step < chunk_count { gx / step } else { (chunk_count - 1) as nat },
            chunk_count >= 1,
    ;
    assert(0 <= gz - cz * step < chunk_n) by (nonlinear_arith)
        requires
            step >= 1,
            chunk_n == step + 1,
            gz < chunk_count * step + 1,
            cz == if gz / step < chunk_count { gz / step } else { (chunk_count - 1) as nat },
            chunk_count >= 1,
    ;
    assert(chunk_cell_spec(cx, cz, x, z, chunk_n, g) == gz * g + gx);
}

/// The stitched side length as a `nat`.
pub open spec fn grid_spec_n(chunk_count: nat, chunk_n: nat) -> nat {
    grid_n_spec(chunk_count, chunk_n) as nat
}

/// A corridor sample is on the corridor when nonzero.
pub open spec fn corridor_bit(raw: i64) -> u8 {
    if raw != 0 {
        1
    } else {
        0
    }
}

/// Stitch one corridor sample into grid cell `dst`. A cell written before by
/// an overlapping chunk must agree exactly: on disagreement nothing changes
/// and `false` is returned (seam mismatch).
pub fn stitch_corridor_cell(grid: &mut Vec<u8>, filled: &mut Vec<bool>, dst: usize, raw: i64) -> (ok: bool)
    requires
        dst < old(grid)@.len(),
        old(grid)@.len() == old(filled)@.len(),
    ensures
        ok == !(old(filled)@[dst as int] && old(grid)@[dst as int] != corridor_bit(raw)),
        ok ==> final(grid)@ == old(grid)@.update(dst as int, corridor_bit(raw)),
        ok ==> final(filled)@ == old(filled)@.update(dst as int, true),
        !ok ==> final(grid)@ == old(grid)@ && final(filled)@ == old(filled)@,
{
    let value: u8 = if raw != 0 {
        1
    } else {
        0
    };
    if filled[dst] && grid[dst] != value {
        return false;
    }
    grid.set(dst, value);
    filled.set(dst, true);
    true
}

/// The corridor mask of raw corridor samples (nonzero is on the corridor).
pub fn corridor_mask(values: &[i64]) -> (mask: Vec<u8>)
    ensures
        mask@ == values@.map_values(|v: i64| corridor_bit(v)),
{
    let mut mask: Vec<u8> = Vec::new();
    let mut i: usize = 0;
    while i < values.len()
        invariant
            i <= values@.len(),
            mask@ == values@.subrange(0, i as int).map_values(|v: i64| corridor_bit(v)),
        decreases values@.len() - i,
    {
        mask.push(if values[i] != 0 {
            1
        } else {
            0
        });
        proof {
            assert(mask@ =~= values@.subrange(0, i + 1).map_values(|v: i64| corridor_bit(v)));
        }
        i = i + 1;
    }
    proof {
        assert(values@.subrange(0, values@.len() as int) =~= values@);
    }
    mask
}

/// Number of nonzero entries.
pub open spec fn nonzero_count(s: Seq<u8>) -> nat
    decreases s.len(),
{
    if s.len() == 0 {
        0
    } else {
        nonzero_count(s.drop_last()) + if s.last() != 0 {
            1nat
        } else {
            0nat
        }
    }
}

proof fn lemma_nonzero_count_bound(s: Seq<u8>)
    ensures
        nonzero_count(s) <= s.len(),
    decreases s.len(),
{
    if s.len() > 0 {
        lemma_nonzero_count_bound(s.drop_last());
    }
}

/// The corridor test of a mask cell.
pub open spec fn on_corridor() -> spec_fn(u8) -> bool {
    |v: u8| v != 0
}

/// The count is the number of nonzero cells: the length of the subsequence of
/// nonzero cells. So an all-zero mask counts 0, a mask without zeros counts
/// its length, and counts add over concatenation.
pub proof fn lemma_nonzero_count_counts_nonzero(s: Seq<u8>)
    ensures
        nonzero_count(s) == s.filter(on_corridor()).len(),
        (forall|i: int| 0 <= i < s.len() ==> s[i] == 0) ==> nonzero_count(s) == 0,
        (forall|i: int| 0 <= i < s.len() ==> s[i] != 0) ==> nonzero_count(s) == s.len(),
    decreases s.len(),
{
    reveal(Seq::filter);
    if s.len() > 0 {
        let p = s.drop_last();
        lemma_nonzero_count_counts_nonzero(p);
        assert forall|i: int| 0 <= i < p.len() implies p[i] == s[i] by {}
        if forall|i: int| 0 <= i < s.len() ==> s[i] == 0 {
            assert(s.last() == s[s.len() - 1]);
        }
        if forall|i: int| 0 <= i < s.len() ==> s[i] != 0 {
            assert(s.last() == s[s.len() - 1]);
        }
    }
}

/// Counts of two masks add up to the count of the two masks concatenated.
pub proof fn lemma_nonzero_count_add(a: Seq<u8>, b: Seq<u8>)
    ensures
        nonzero_count(a + b) == nonzero_count(a) + nonzero_count(b),
{
    lemma_nonzero_count_counts_nonzero(a);
    lemma_nonzero_count_counts_nonzero(b);
    lemma_nonzero_count_counts_nonzero(a + b);
    Seq::filter_distributes_over_add(a, b, on_corridor());
}

/// Count of on-corridor cells (the corridor fraction's numerator).
pub fn count_nonzero(values: &[u8]) -> (count: usize)
    ensures
        count == nonzero_count(values@),
        count == values@.filter(on_corridor()).len(),
{
    proof {
        lemma_nonzero_count_counts_nonzero(values@);
    }
    let mut count: usize = 0;
    let mut i: usize = 0;
    while i < values.len()
        invariant
            i <= values@.len(),
            count == nonzero_count(values@.subrange(0, i as int)),
        decreases values@.len() - i,
    {
        proof {
            assert(values@.subrange(0, i + 1).drop_last() =~= values@.subrange(0, i as int));
            lemma_nonzero_count_bound(values@.subrange(0, i as int));
        }
        if values[i] != 0 {
            count = count + 1;
        }
        i = i + 1;
    }
    proof {
        assert(values@.subrange(0, values@.len() as int) =~= values@);
    }
    count
}

/// The first cell not filled by any chunk, if any.
pub fn first_unfilled(filled: &[bool]) -> (r: Option<usize>)
    ensures
        match r {
            Some(i) => i < filled@.len() && !filled@[i as int] && forall|j: int| 0 <= j < i ==> filled@[j],
            None => forall|j: int| 0 <= j < filled@.len() ==> filled@[j],
        },
{
    let mut i: usize = 0;
    while i < filled.len()
        invariant
            i <= filled@.len(),
            forall|j: int| 0 <= j < i ==> filled@[j],
        decreases filled@.len() - i,
    {
        if !filled[i] {
            return Some(i);
        }
        i = i + 1;
    }
    None
}

} // verus!
