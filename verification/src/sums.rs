use vstd::prelude::*;

verus! {

/// Sum of `f(x, y)` over `0 <= x < n` for a fixed row `y`.
pub open spec fn row_sum(f: spec_fn(int, int) -> int, y: int, n: nat) -> int
    decreases n,
{
    if n == 0 {
        0
    } else {
        row_sum(f, y, (n - 1) as nat) + f(n - 1, y)
    }
}

/// Sum of `f(x, y)` over the rows `0 <= y < ny` of width `lx`, in row-major order.
pub open spec fn grid_sum(f: spec_fn(int, int) -> int, lx: nat, ny: nat) -> int
    decreases ny,
{
    if ny == 0 {
        0
    } else {
        grid_sum(f, lx, (ny - 1) as nat) + row_sum(f, ny - 1, lx)
    }
}

/// Row sums only depend on the values inside the row.
pub proof fn lemma_row_sum_ext(f: spec_fn(int, int) -> int, g: spec_fn(int, int) -> int, y: int, n: nat)
    requires
        forall|x: int| 0 <= x < n ==> #[trigger] f(x, y) == g(x, y),
    ensures
        row_sum(f, y, n) == row_sum(g, y, n),
    decreases n,
{
    if n > 0 {
        lemma_row_sum_ext(f, g, y, (n - 1) as nat);
    }
}

/// Grid sums only depend on the values inside the grid.
pub proof fn lemma_grid_sum_ext(f: spec_fn(int, int) -> int, g: spec_fn(int, int) -> int, lx: nat, ny: nat)
    requires
        forall|x: int, y: int| 0 <= x < lx && 0 <= y < ny ==> #[trigger] f(x, y) == g(x, y),
    ensures
        grid_sum(f, lx, ny) == grid_sum(g, lx, ny),
    decreases ny,
{
    if ny > 0 {
        lemma_grid_sum_ext(f, g, lx, (ny - 1) as nat);
        lemma_row_sum_ext(f, g, ny - 1, lx);
    }
}

/// A row sum of a pointwise sum is the sum of the row sums.
pub proof fn lemma_row_sum_add(
    f: spec_fn(int, int) -> int,
    g: spec_fn(int, int) -> int,
    h: spec_fn(int, int) -> int,
    y: int,
    n: nat,
)
    requires
        forall|x: int| 0 <= x < n ==> #[trigger] h(x, y) == f(x, y) + g(x, y),
    ensures
        row_sum(h, y, n) == row_sum(f, y, n) + row_sum(g, y, n),
    decreases n,
{
    if n > 0 {
        lemma_row_sum_add(f, g, h, y, (n - 1) as nat);
    }
}

/// A grid sum of a pointwise sum is the sum of the grid sums.
pub proof fn lemma_grid_sum_add(
    f: spec_fn(int, int) -> int,
    g: spec_fn(int, int) -> int,
    h: spec_fn(int, int) -> int,
    lx: nat,
    ny: nat,
)
    requires
        forall|x: int, y: int| 0 <= x < lx && 0 <= y < ny ==> #[trigger] h(x, y) == f(x, y) + g(x, y),
    ensures
        grid_sum(h, lx, ny) == grid_sum(f, lx, ny) + grid_sum(g, lx, ny),
    decreases ny,
{
    if ny > 0 {
        lemma_grid_sum_add(f, g, h, lx, (ny - 1) as nat);
        lemma_row_sum_add(f, g, h, ny - 1, lx);
    }
}

/// A row sum of a pointwise difference is the difference of the row sums.
pub proof fn lemma_row_sum_sub(
    f: spec_fn(int, int) -> int,
    g: spec_fn(int, int) -> int,
    h: spec_fn(int, int) -> int,
    y: int,
    n: nat,
)
    requires
        forall|x: int| 0 <= x < n ==> #[trigger] h(x, y) == f(x, y) - g(x, y),
    ensures
        row_sum(h, y, n) == row_sum(f, y, n) - row_sum(g, y, n),
    decreases n,
{
    if n > 0 {
        lemma_row_sum_sub(f, g, h, y, (n - 1) as nat);
    }
}

/// A grid sum of a pointwise difference is the difference of the grid sums.
pub proof fn lemma_grid_sum_sub(
    f: spec_fn(int, int) -> int,
    g: spec_fn(int, int) -> int,
    h: spec_fn(int, int) -> int,
    lx: nat,
    ny: nat,
)
    requires
        forall|x: int, y: int| 0 <= x < lx && 0 <= y < ny ==> #[trigger] h(x, y) == f(x, y) - g(x, y),
    ensures
        grid_sum(h, lx, ny) == grid_sum(f, lx, ny) - grid_sum(g, lx, ny),
    decreases ny,
{
    if ny > 0 {
        lemma_grid_sum_sub(f, g, h, lx, (ny - 1) as nat);
        lemma_row_sum_sub(f, g, h, ny - 1, lx);
    }
}

/// Summing the residues mod 3 gives the same residue as summing the values.
pub proof fn lemma_row_sum_mod3(f: spec_fn(int, int) -> int, g: spec_fn(int, int) -> int, y: int, n: nat)
    requires
        forall|x: int| 0 <= x < n ==> #[trigger] f(x, y) == g(x, y) % 3,
    ensures
        row_sum(f, y, n) % 3 == row_sum(g, y, n) % 3,
    decreases n,
{
    if n > 0 {
        lemma_row_sum_mod3(f, g, y, (n - 1) as nat);
        let a = row_sum(f, y, (n - 1) as nat);
        let b = row_sum(g, y, (n - 1) as nat);
        let c = g(n - 1, y);
        assert((a + c % 3) % 3 == (b + c) % 3) by {
            vstd::arithmetic::div_mod::lemma_add_mod_noop(a, c % 3, 3);
            vstd::arithmetic::div_mod::lemma_add_mod_noop(b, c, 3);
            vstd::arithmetic::div_mod::lemma_mod_twice(c, 3);
        }
    }
}

/// Summing the residues mod 3 over a grid gives the same residue as summing the values.
pub proof fn lemma_grid_sum_mod3(f: spec_fn(int, int) -> int, g: spec_fn(int, int) -> int, lx: nat, ny: nat)
    requires
        forall|x: int, y: int| 0 <= x < lx && 0 <= y < ny ==> #[trigger] f(x, y) == g(x, y) % 3,
    ensures
        grid_sum(f, lx, ny) % 3 == grid_sum(g, lx, ny) % 3,
    decreases ny,
{
    if ny > 0 {
        lemma_grid_sum_mod3(f, g, lx, (ny - 1) as nat);
        lemma_row_sum_mod3(f, g, ny - 1, lx);
        let a = grid_sum(f, lx, (ny - 1) as nat);
        let b = grid_sum(g, lx, (ny - 1) as nat);
        let c = row_sum(f, ny - 1, lx);
        let d = row_sum(g, ny - 1, lx);
        assert((a + c) % 3 == (b + d) % 3) by {
            vstd::arithmetic::div_mod::lemma_add_mod_noop(a, c, 3);
            vstd::arithmetic::div_mod::lemma_add_mod_noop(b, d, 3);
        }
    }
}

/// Prefix of a row that is shifted by one place to the right, cyclically: the first
/// `n` terms of `x ↦ g((x + lx - 1) mod lx)` are `g(lx - 1)` followed by `g(0 .. n - 1)`.
proof fn lemma_row_shift_prefix(f: spec_fn(int, int) -> int, g: spec_fn(int, int) -> int, y: int, lx: nat, n: nat)
    requires
        1 <= n <= lx,
        forall|x: int| 0 <= x < lx ==> #[trigger] f(x, y) == g((x + lx - 1) % (lx as int), y),
    ensures
        row_sum(f, y, n) == g(lx - 1, y) + row_sum(g, y, (n - 1) as nat),
    decreases n,
{
    if n == 1 {
        assert(row_sum(f, y, 0) == 0);
        assert(((0 + lx - 1) % (lx as int)) == lx - 1) by {
            vstd::arithmetic::div_mod::lemma_small_mod((lx - 1) as nat, lx);
        }
    } else {
        lemma_row_shift_prefix(f, g, y, lx, (n - 1) as nat);
        assert((n - 1 + lx - 1) % (lx as int) == n - 2) by {
            vstd::arithmetic::div_mod::lemma_mod_add_multiples_vanish(n - 2, lx as int);
            vstd::arithmetic::div_mod::lemma_small_mod((n - 2) as nat, lx);
        }
    }
}

/// A cyclic shift of a row does not change its sum.
pub proof fn lemma_row_sum_cyclic_shift(f: spec_fn(int, int) -> int, g: spec_fn(int, int) -> int, y: int, lx: nat)
    requires
        lx > 0,
        forall|x: int| 0 <= x < lx ==> #[trigger] f(x, y) == g((x + lx - 1) % (lx as int), y),
    ensures
        row_sum(f, y, lx) == row_sum(g, y, lx),
{
    lemma_row_shift_prefix(f, g, y, lx, lx);
}

/// Prefix of the rows of a grid that is shifted by one row, cyclically.
proof fn lemma_grid_shift_prefix(f: spec_fn(int, int) -> int, g: spec_fn(int, int) -> int, lx: nat, ly: nat, n: nat)
    requires
        1 <= n <= ly,
        forall|x: int, y: int| 0 <= x < lx && 0 <= y < ly ==> #[trigger] f(x, y) == g(x, (y + ly - 1) % (ly as int)),
    ensures
        grid_sum(f, lx, n) == row_sum(g, ly - 1, lx) + grid_sum(g, lx, (n - 1) as nat),
    decreases n,
{
    let ym = (n - 1 + ly - 1) % (ly as int);
    if n == 1 {
        assert(ym == ly - 1) by {
            vstd::arithmetic::div_mod::lemma_small_mod((ly - 1) as nat, ly);
        }
    } else {
        lemma_grid_shift_prefix(f, g, lx, ly, (n - 1) as nat);
        assert(ym == n - 2) by {
            vstd::arithmetic::div_mod::lemma_mod_add_multiples_vanish(n - 2, ly as int);
            vstd::arithmetic::div_mod::lemma_small_mod((n - 2) as nat, ly);
        }
    }
    lemma_row_sum_ext_rows(f, g, n - 1, ym, lx);
    assert(grid_sum(f, lx, n) == grid_sum(f, lx, (n - 1) as nat) + row_sum(f, n - 1, lx));
    if n > 1 {
        assert(grid_sum(g, lx, (n - 1) as nat) == grid_sum(g, lx, (n - 2) as nat) + row_sum(g, n - 2, lx));
    }
}

/// Rows that agree pointwise have equal sums, even if they sit at different heights.
proof fn lemma_row_sum_ext_rows(f: spec_fn(int, int) -> int, g: spec_fn(int, int) -> int, y1: int, y2: int, n: nat)
    requires
        forall|x: int| 0 <= x < n ==> #[trigger] f(x, y1) == g(x, y2),
    ensures
        row_sum(f, y1, n) == row_sum(g, y2, n),
    decreases n,
{
    if n > 0 {
        lemma_row_sum_ext_rows(f, g, y1, y2, (n - 1) as nat);
    }
}

/// A cyclic shift of the rows of a grid does not change its sum.
pub proof fn lemma_grid_sum_cyclic_row_shift(f: spec_fn(int, int) -> int, g: spec_fn(int, int) -> int, lx: nat, ly: nat)
    requires
        ly > 0,
        forall|x: int, y: int| 0 <= x < lx && 0 <= y < ly ==> #[trigger] f(x, y) == g(x, (y + ly - 1) % (ly as int)),
    ensures
        grid_sum(f, lx, ly) == grid_sum(g, lx, ly),
{
    lemma_grid_shift_prefix(f, g, lx, ly, ly);
}

/// A cyclic shift inside every row of a grid does not change its sum.
pub proof fn lemma_grid_sum_cyclic_col_shift(f: spec_fn(int, int) -> int, g: spec_fn(int, int) -> int, lx: nat, ny: nat)
    requires
        lx > 0,
        forall|x: int, y: int| 0 <= x < lx && 0 <= y < ny ==> #[trigger] f(x, y) == g((x + lx - 1) % (lx as int), y),
    ensures
        grid_sum(f, lx, ny) == grid_sum(g, lx, ny),
    decreases ny,
{
    if ny > 0 {
        lemma_grid_sum_cyclic_col_shift(f, g, lx, (ny - 1) as nat);
        lemma_row_sum_cyclic_shift(f, g, ny - 1, lx);
    }
}

/// Row sums of a non-negative function grow with the length of the row.
pub proof fn lemma_row_sum_monotone(f: spec_fn(int, int) -> int, y: int, m: nat, n: nat)
    requires
        m <= n,
        forall|x: int| 0 <= x < n ==> #[trigger] f(x, y) >= 0,
    ensures
        0 <= row_sum(f, y, m) <= row_sum(f, y, n),
    decreases n,
{
    if n > 0 {
        if m < n {
            lemma_row_sum_monotone(f, y, m, (n - 1) as nat);
        } else {
            lemma_row_sum_monotone(f, y, (n - 1) as nat, (n - 1) as nat);
        }
    }
}

/// Grid sums of a non-negative function grow with the number of rows.
pub proof fn lemma_grid_sum_monotone(f: spec_fn(int, int) -> int, lx: nat, m: nat, n: nat)
    requires
        m <= n,
        forall|x: int, y: int| 0 <= x < lx && 0 <= y < n ==> #[trigger] f(x, y) >= 0,
    ensures
        0 <= grid_sum(f, lx, m) <= grid_sum(f, lx, n),
    decreases n,
{
    if n > 0 {
        lemma_row_sum_monotone(f, n - 1, lx, lx);
        if m < n {
            lemma_grid_sum_monotone(f, lx, m, (n - 1) as nat);
        } else {
            lemma_grid_sum_monotone(f, lx, (n - 1) as nat, (n - 1) as nat);
        }
    }
}

/// The running sum of a row-major scan of a non-negative function never exceeds the total:
/// after the full rows `0 .. y` and the first `x` sites of row `y`, the partial sum is at
/// most the sum over the whole grid.
pub proof fn lemma_scan_prefix_bounded(f: spec_fn(int, int) -> int, lx: nat, ly: nat, x: nat, y: nat)
    requires
        y < ly,
        x <= lx,
        forall|i: int, j: int| 0 <= i < lx && 0 <= j < ly ==> #[trigger] f(i, j) >= 0,
    ensures
        0 <= grid_sum(f, lx, y),
        0 <= row_sum(f, y as int, x),
        grid_sum(f, lx, y) + row_sum(f, y as int, x) <= grid_sum(f, lx, ly),
{
    lemma_row_sum_monotone(f, y as int, x, lx);
    lemma_grid_sum_monotone(f, lx, y, ly);
    lemma_grid_sum_monotone(f, lx, (y + 1) as nat, ly);
    assert(grid_sum(f, lx, (y + 1) as nat) == grid_sum(f, lx, y) + row_sum(f, y as int, lx));
}

/// A row sum of a function with values in {0, 1} is at most the row length.
pub proof fn lemma_row_sum_indicator_bounded(f: spec_fn(int, int) -> int, y: int, n: nat)
    requires
        forall|x: int| 0 <= x < n ==> 0 <= #[trigger] f(x, y) <= 1,
    ensures
        0 <= row_sum(f, y, n) <= n,
    decreases n,
{
    if n > 0 {
        lemma_row_sum_indicator_bounded(f, y, (n - 1) as nat);
    }
}

/// A grid sum of a function with values in {0, 1} is at most the number of sites.
pub proof fn lemma_grid_sum_indicator_bounded(f: spec_fn(int, int) -> int, lx: nat, ny: nat)
    requires
        forall|x: int, y: int| 0 <= x < lx && 0 <= y < ny ==> 0 <= #[trigger] f(x, y) <= 1,
    ensures
        0 <= grid_sum(f, lx, ny) <= lx * ny,
    decreases ny,
{
    if ny > 0 {
        lemma_grid_sum_indicator_bounded(f, lx, (ny - 1) as nat);
        lemma_row_sum_indicator_bounded(f, ny - 1, lx);
        assert(lx * (ny - 1) + lx == lx * ny) by (nonlinear_arith);
    }
}

/// Summing the constant 1 over a grid counts its sites.
pub proof fn lemma_grid_sum_one(f: spec_fn(int, int) -> int, lx: nat, ny: nat)
    requires
        forall|x: int, y: int| 0 <= x < lx && 0 <= y < ny ==> #[trigger] f(x, y) == 1,
    ensures
        grid_sum(f, lx, ny) == lx * ny,
    decreases ny,
{
    if ny > 0 {
        lemma_grid_sum_one(f, lx, (ny - 1) as nat);
        lemma_row_sum_one(f, ny - 1, lx);
        assert(lx * (ny - 1) + lx == lx * ny) by (nonlinear_arith);
    } else {
        assert(lx * ny == 0) by (nonlinear_arith)
            requires
                ny == 0,
        ;
    }
}

/// Summing the constant 1 over a row gives its length.
proof fn lemma_row_sum_one(f: spec_fn(int, int) -> int, y: int, n: nat)
    requires
        forall|x: int| 0 <= x < n ==> #[trigger] f(x, y) == 1,
    ensures
        row_sum(f, y, n) == n,
    decreases n,
{
    if n > 0 {
        lemma_row_sum_one(f, y, (n - 1) as nat);
    }
}

/// A row sum of a function that vanishes everywhere but at one site picks out that site.
proof fn lemma_row_sum_point(f: spec_fn(int, int) -> int, y: int, n: nat, px: int, py: int)
    requires
        0 <= px,
        forall|x: int| 0 <= x < n && !(x == px && y == py) ==> #[trigger] f(x, y) == 0,
    ensures
        row_sum(f, y, n) == (if y == py && px < n { f(px, py) } else { 0 }),
    decreases n,
{
    if n > 0 {
        lemma_row_sum_point(f, y, (n - 1) as nat, px, py);
    }
}

/// A grid sum of a function that vanishes everywhere but at one site picks out that site.
pub proof fn lemma_grid_sum_point(f: spec_fn(int, int) -> int, lx: nat, ny: nat, px: int, py: int)
    requires
        0 <= px < lx,
        0 <= py,
        forall|x: int, y: int| 0 <= x < lx && 0 <= y < ny && !(x == px && y == py) ==> #[trigger] f(x, y) == 0,
    ensures
        grid_sum(f, lx, ny) == (if py < ny { f(px, py) } else { 0 }),
    decreases ny,
{
    if ny > 0 {
        lemma_grid_sum_point(f, lx, (ny - 1) as nat, px, py);
        lemma_row_sum_point(f, ny - 1, lx, px, py);
    }
}

} // verus!
