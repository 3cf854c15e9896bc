//! Mathematical model of the toroidal Life grid: a generation is a
//! `Seq<bool>` of length `width * height`, indexed row-major, and one
//! step is the pure function `next_gen`. The delta lists a step leaves
//! behind are modelled by `deltas_upto`.

use vstd::prelude::*;

verus! {

/// Row-major linear index of a cell.
pub open spec fn cell_index(row: int, col: int, width: int) -> int {
    row * width + col
}

/// The coordinate one step toward zero, wrapping off the edge to `n - 1`.
pub open spec fn wrap_dec(i: int, n: int) -> int {
    if i == 0 {
        n - 1
    } else {
        i - 1
    }
}

/// The coordinate one step away from zero, wrapping off the edge to `0`.
pub open spec fn wrap_inc(i: int, n: int) -> int {
    if i == n - 1 {
        0
    } else {
        i + 1
    }
}

pub open spec fn bool_to_int(b: bool) -> int {
    if b {
        1
    } else {
        0
    }
}

/// How many of the eight toroidal neighbors of `(row, col)` are alive in `g`.
pub open spec fn neighbor_count(g: Seq<bool>, w: int, h: int, row: int, col: int) -> int {
    let north = wrap_dec(row, h);
    let south = wrap_inc(row, h);
    let west = wrap_dec(col, w);
    let east = wrap_inc(col, w);
    bool_to_int(g[cell_index(north, west, w)]) + bool_to_int(g[cell_index(north, col, w)])
        + bool_to_int(g[cell_index(north, east, w)]) + bool_to_int(g[cell_index(row, west, w)])
        + bool_to_int(g[cell_index(row, east, w)]) + bool_to_int(g[cell_index(south, west, w)])
        + bool_to_int(g[cell_index(south, col, w)]) + bool_to_int(
        g[cell_index(south, east, w)],
    )
}

/// The classic Life transition rule (B3/S23): a live cell survives with
/// two or three live neighbors, a dead cell is born with exactly three.
pub open spec fn life_rule(alive: bool, live_neighbors: int) -> bool {
    if alive {
        live_neighbors == 2 || live_neighbors == 3
    } else {
        live_neighbors == 3
    }
}

/// The whole next generation, computed cell by cell from `g`.
pub open spec fn next_gen(g: Seq<bool>, w: int, h: int) -> Seq<bool> {
    Seq::new((w * h) as nat, |i: int| life_rule(g[i], neighbor_count(g, w, h, i / w, i % w)))
}

/// The indices below `n` whose state changed from `before` to `after`
/// and now equals `to_alive`, in increasing (row-major scan) order.
pub open spec fn deltas_upto(before: Seq<bool>, after: Seq<bool>, n: int, to_alive: bool) -> Seq<
    u32,
>
    decreases n,
{
    if n <= 0 {
        Seq::empty()
    } else {
        let pre = deltas_upto(before, after, n - 1, to_alive);
        if before[n - 1] != after[n - 1] && after[n - 1] == to_alive {
            pre.push((n - 1) as u32)
        } else {
            pre
        }
    }
}

/// A grid of width `w` and height `h` whose cell `(row, col)` is alive
/// exactly when `p(row, col)` holds.
pub open spec fn grid_of(p: spec_fn(int, int) -> bool, w: int, h: int) -> Seq<bool> {
    Seq::new((w * h) as nat, |i: int| p(i / w, i % w))
}

/// The all-dead grid.
pub open spec fn dead_grid(w: int, h: int) -> Seq<bool> {
    Seq::new((w * h) as nat, |i: int| false)
}

/// The deterministic demo seed: cell `i` is alive iff `i % 2 == 0` or
/// `i % 7 == 0`.
pub open spec fn stripe_grid(w: int, h: int) -> Seq<bool> {
    Seq::new((w * h) as nat, |i: int| i % 2 == 0 || i % 7 == 0)
}

/// Whether one of the first `upto` coordinates of `coords` denotes the
/// linear index `i` on a grid of width `w`.
pub open spec fn covered_by(coords: Seq<(u32, u32)>, upto: int, w: int, i: int) -> bool {
    exists|k: int|
        0 <= k < upto && i == cell_index(coords[k].0 as int, coords[k].1 as int, w)
}

/// Whether one of the first `upto` relative offsets of `pattern`,
/// shifted by the anchor, denotes the linear index `i` on a grid of
/// width `w`.
pub open spec fn pattern_covers(
    pattern: Seq<(u32, u32)>,
    upto: int,
    anchor_row: int,
    anchor_col: int,
    w: int,
    i: int,
) -> bool {
    exists|k: int|
        0 <= k < upto && i == cell_index(
            anchor_row + pattern[k].0 as int,
            anchor_col + pattern[k].1 as int,
            w,
        )
}

/// A cell index is valid and decomposes back into its row and column.
pub proof fn lemma_cell_index_bounds(row: int, col: int, w: int, h: int)
    requires
        w >= 1,
        h >= 1,
        0 <= row < h,
        0 <= col < w,
    ensures
        0 <= cell_index(row, col, w) < w * h,
        cell_index(row, col, w) / w == row,
        cell_index(row, col, w) % w == col,
{
    assert(0 <= row * w + col < w * h) by (nonlinear_arith)
        requires
            w >= 1,
            h >= 1,
            0 <= row < h,
            0 <= col < w,
    ;
    vstd::arithmetic::div_mod::lemma_fundamental_div_mod_converse(row * w + col, w, row, col);
}

/// A linear index in range decomposes into an in-range row and column.
pub proof fn lemma_index_decompose(i: int, w: int, h: int)
    requires
        w >= 1,
        h >= 1,
        0 <= i < w * h,
    ensures
        0 <= i / w < h,
        0 <= i % w < w,
        i == cell_index(i / w, i % w, w),
{
    vstd::arithmetic::div_mod::lemma_fundamental_div_mod(i, w);
    vstd::arithmetic::div_mod::lemma_mod_division_less_than_divisor(i, w);
    vstd::arithmetic::mul::lemma_mul_is_commutative(w, i / w);
    assert(0 <= i / w < h) by (nonlinear_arith)
        requires
            w >= 1,
            h >= 1,
            0 <= i < w * h,
            i == w * (i / w) + i % w,
            0 <= i % w < w,
    ;
}

} // verus!
